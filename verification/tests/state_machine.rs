use dmx_decoder::annotation::{DecoderAnnotation, Dmx512AnnotatorPayload};
use dmx_decoder::state_machine::{DmxStateMachineState, Transition};

fn ann(payload: Dmx512AnnotatorPayload, start_sample: u64, end_sample: u64) -> DecoderAnnotation {
    DecoderAnnotation { start_sample, end_sample, payload }
}

fn plain(payload: Dmx512AnnotatorPayload) -> DecoderAnnotation {
    ann(payload, 0, 0)
}

/// Feeds the bits of `value`, least significant first, each 4 samples long.
fn feed_byte(mut state: DmxStateMachineState, value: u8) -> DmxStateMachineState {
    for i in 0..8 {
        let level = value & (1 << i) != 0;
        let start = 100 + 4 * i as u64;
        state = state.transition(ann(Dmx512AnnotatorPayload::Bit(level), start, start + 4));
    }
    state
}

#[test]
fn concrete_frame_scenario() {
    let mut state = DmxStateMachineState::Idle();
    state = state.transition(ann(Dmx512AnnotatorPayload::Break, 0, 100));
    state = state.transition(ann(Dmx512AnnotatorPayload::MarkAfterBreak, 100, 112));
    state = state.transition(plain(Dmx512AnnotatorPayload::InterFrame));
    state = state.transition(plain(Dmx512AnnotatorPayload::Startbit));
    state = feed_byte(state, 0xFF);
    state = state.transition(plain(Dmx512AnnotatorPayload::Stopbit));
    state = state.transition(plain(Dmx512AnnotatorPayload::Stopbit));
    state = state.transition(plain(Dmx512AnnotatorPayload::ChannelNr(2)));
    state = state.transition(plain(Dmx512AnnotatorPayload::Data(0x7F)));
    state = state.transition(plain(Dmx512AnnotatorPayload::ErrorCode(String::from("error"))));

    match state {
        DmxStateMachineState::End(output) => {
            assert_eq!(output.channels[0], 0xFF);
            assert_eq!(output.channels[1], 0x7F);
            for i in 2..512 {
                assert_eq!(output.channels[i], 0);
            }
            assert_eq!(output.reset_sequence.space_for_break, 100);
            assert_eq!(output.reset_sequence.mark_after_break, 12);
        }
        _ => panic!("the cycle should have produced a frame"),
    }
}

#[test]
fn first_byte_is_assembled_lsb_first() {
    let mut state = DmxStateMachineState::Idle();
    state = state.transition(ann(Dmx512AnnotatorPayload::Break, 0, 88));
    state = state.transition(ann(Dmx512AnnotatorPayload::MarkAfterBreak, 88, 100));
    state = state.transition(plain(Dmx512AnnotatorPayload::InterFrame));
    state = state.transition(plain(Dmx512AnnotatorPayload::Startbit));
    state = feed_byte(state, 0xA5);
    state = state.transition(plain(Dmx512AnnotatorPayload::Stopbit));
    state = state.transition(plain(Dmx512AnnotatorPayload::Stopbit));
    state = state.transition(plain(Dmx512AnnotatorPayload::ChannelNr(1)));
    state = state.transition(plain(Dmx512AnnotatorPayload::Data(0xA5)));
    state = state.transition(plain(Dmx512AnnotatorPayload::ErrorCode(String::from("error"))));

    match state {
        DmxStateMachineState::End(output) => {
            assert_eq!(output.channels[0], 0xA5);
            assert_eq!(output.bits.len(), 8);
            assert!(output.bits[0].bit);
            assert!(!output.bits[1].bit);
            assert!(output.bits[2].bit);
            assert_eq!(output.bits[1].start_sample, 104);
            assert_eq!(output.bits[1].end_sample, 108);
        }
        _ => panic!("the cycle should have produced a frame"),
    }
}

#[test]
fn channel_zero_is_rejected() {
    let mut state = DmxStateMachineState::Idle();
    state = state.transition(ann(Dmx512AnnotatorPayload::Break, 0, 100));
    state = state.transition(ann(Dmx512AnnotatorPayload::MarkAfterBreak, 100, 112));
    state = state.transition(plain(Dmx512AnnotatorPayload::InterFrame));
    state = state.transition(plain(Dmx512AnnotatorPayload::Startbit));
    state = feed_byte(state, 0x00);
    state = state.transition(plain(Dmx512AnnotatorPayload::Stopbit));
    state = state.transition(plain(Dmx512AnnotatorPayload::Stopbit));
    state = state.transition(plain(Dmx512AnnotatorPayload::ChannelNr(0)));
    assert!(matches!(state, DmxStateMachineState::Error()));
}

#[test]
fn channel_beyond_universe_is_rejected() {
    let mut state = DmxStateMachineState::Idle();
    state = state.transition(ann(Dmx512AnnotatorPayload::Break, 0, 100));
    state = state.transition(ann(Dmx512AnnotatorPayload::MarkAfterBreak, 100, 112));
    state = state.transition(plain(Dmx512AnnotatorPayload::InterFrame));
    state = state.transition(plain(Dmx512AnnotatorPayload::Startbit));
    state = feed_byte(state, 0x10);
    state = state.transition(plain(Dmx512AnnotatorPayload::Stopbit));
    state = state.transition(plain(Dmx512AnnotatorPayload::Stopbit));
    state = state.transition(plain(Dmx512AnnotatorPayload::ChannelNr(1)));
    state = state.transition(plain(Dmx512AnnotatorPayload::Data(0x11)));
    // A later channel number outside 1..=512 aborts the cycle: no write, no frame.
    state = state.transition(plain(Dmx512AnnotatorPayload::ChannelNr(513)));
    assert!(matches!(state, DmxStateMachineState::Error()));
    let state = state.transition(plain(Dmx512AnnotatorPayload::ErrorCode(String::from("error"))));
    assert!(matches!(state, DmxStateMachineState::Error()));
}

#[test]
fn boundary_channel_is_accepted() {
    let mut state = DmxStateMachineState::Idle();
    state = state.transition(ann(Dmx512AnnotatorPayload::Break, 0, 100));
    state = state.transition(ann(Dmx512AnnotatorPayload::MarkAfterBreak, 100, 112));
    state = state.transition(plain(Dmx512AnnotatorPayload::InterFrame));
    state = state.transition(plain(Dmx512AnnotatorPayload::Startbit));
    state = feed_byte(state, 0x01);
    state = state.transition(plain(Dmx512AnnotatorPayload::Stopbit));
    state = state.transition(plain(Dmx512AnnotatorPayload::Stopbit));
    state = state.transition(plain(Dmx512AnnotatorPayload::ChannelNr(512)));
    state = state.transition(plain(Dmx512AnnotatorPayload::Data(0xEE)));
    state = state.transition(plain(Dmx512AnnotatorPayload::ErrorCode(String::from("error"))));
    match state {
        DmxStateMachineState::End(output) => {
            assert_eq!(output.channels[511], 0xEE);
            assert_eq!(output.channels[0], 0x01);
        }
        _ => panic!("the cycle should have produced a frame"),
    }
}

#[test]
fn mark_after_break_absorbs_start_code_framing() {
    let mut state = DmxStateMachineState::Idle();
    state = state.transition(ann(Dmx512AnnotatorPayload::Break, 0, 100));
    state = state.transition(ann(Dmx512AnnotatorPayload::MarkAfterBreak, 100, 112));
    // The start-code byte's framing is absorbed without leaving the state.
    state = state.transition(plain(Dmx512AnnotatorPayload::Startbit));
    state = state.transition(plain(Dmx512AnnotatorPayload::Bit(false)));
    state = state.transition(plain(Dmx512AnnotatorPayload::Startcode));
    state = state.transition(plain(Dmx512AnnotatorPayload::Data(0)));
    state = state.transition(plain(Dmx512AnnotatorPayload::Stopbit));
    assert!(matches!(state, DmxStateMachineState::MarkAfterBreak(_)));
    let reset = match &state {
        DmxStateMachineState::MarkAfterBreak(reset) => *reset,
        _ => unreachable!(),
    };
    assert_eq!(reset.space_for_break, 100);
    assert_eq!(reset.mark_after_break, 12);
}

#[test]
fn unexpected_annotation_leaves_state_unchanged() {
    let state = DmxStateMachineState::Idle();
    let state = state.transition(plain(Dmx512AnnotatorPayload::Data(7)));
    assert!(matches!(state, DmxStateMachineState::Idle()));
    let state = state.transition(plain(Dmx512AnnotatorPayload::Stopbit));
    assert!(matches!(state, DmxStateMachineState::Idle()));
}

#[test]
fn error_outside_data_state_aborts() {
    let state = DmxStateMachineState::Idle();
    let state = state.transition(plain(Dmx512AnnotatorPayload::ErrorCode(String::from("error"))));
    assert!(matches!(state, DmxStateMachineState::Error()));
}

#[test]
fn end_state_absorbs_everything() {
    let mut state = DmxStateMachineState::Idle();
    state = state.transition(ann(Dmx512AnnotatorPayload::Break, 0, 100));
    state = state.transition(ann(Dmx512AnnotatorPayload::MarkAfterBreak, 100, 112));
    state = state.transition(plain(Dmx512AnnotatorPayload::InterFrame));
    state = state.transition(plain(Dmx512AnnotatorPayload::Startbit));
    state = feed_byte(state, 0x42);
    state = state.transition(plain(Dmx512AnnotatorPayload::Stopbit));
    state = state.transition(plain(Dmx512AnnotatorPayload::Stopbit));
    state = state.transition(plain(Dmx512AnnotatorPayload::ChannelNr(3)));
    state = state.transition(plain(Dmx512AnnotatorPayload::Data(9)));
    state = state.transition(plain(Dmx512AnnotatorPayload::ErrorCode(String::from("error"))));
    assert!(matches!(state, DmxStateMachineState::End(_)));
    state = state.transition(plain(Dmx512AnnotatorPayload::Break));
    state = state.transition(plain(Dmx512AnnotatorPayload::ErrorCode(String::from("error"))));
    match state {
        DmxStateMachineState::End(output) => {
            assert_eq!(output.channels[0], 0x42);
            assert_eq!(output.channels[2], 9);
        }
        _ => panic!("the End state must absorb every annotation"),
    }
}

#[test]
fn wrapped_sample_counters_use_modular_span() {
    let mut state = DmxStateMachineState::Idle();
    state = state.transition(ann(Dmx512AnnotatorPayload::Break, u64::MAX - 9, 90));
    match &state {
        DmxStateMachineState::Break(reset) => {
            assert_eq!(reset.space_for_break, 100);
            assert_eq!(reset.mark_after_break, 0);
        }
        _ => panic!("a break from Idle must enter the Break state"),
    }
}
