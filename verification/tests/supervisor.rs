use dmx_decoder::annotation::{DecoderAnnotation, Dmx512AnnotatorPayload};
use dmx_decoder::state_machine::DmxStateMachineState;
use dmx_decoder::supervisor::{decode_cycle, initial_state, supervisor_step, SupervisorAction, SupervisorEvent};

fn event(payload: Dmx512AnnotatorPayload, start_sample: u64, end_sample: u64) -> DecoderAnnotation {
    DecoderAnnotation { start_sample, end_sample, payload }
}

/// A complete capture writing `pairs` after a first byte of `first`.
fn capture(first: u8, pairs: &[(u16, u8)]) -> Vec<DecoderAnnotation> {
    let mut anns = Vec::new();
    anns.push(event(Dmx512AnnotatorPayload::Break, 0, 100));
    anns.push(event(Dmx512AnnotatorPayload::MarkAfterBreak, 100, 112));
    anns.push(event(Dmx512AnnotatorPayload::InterFrame, 112, 116));
    anns.push(event(Dmx512AnnotatorPayload::Startbit, 116, 120));
    for i in 0..8 {
        let level = first & (1 << i) != 0;
        let start = 120 + 4 * i as u64;
        anns.push(event(Dmx512AnnotatorPayload::Bit(level), start, start + 4));
    }
    anns.push(event(Dmx512AnnotatorPayload::Stopbit, 152, 156));
    anns.push(event(Dmx512AnnotatorPayload::Stopbit, 156, 160));
    for &(n, d) in pairs {
        anns.push(event(Dmx512AnnotatorPayload::ChannelNr(n), 0, 0));
        anns.push(event(Dmx512AnnotatorPayload::Data(d), 0, 0));
    }
    anns.push(event(Dmx512AnnotatorPayload::ErrorCode(String::from("error")), 0, 0));
    anns
}

#[test]
fn decode_cycle_produces_the_frame() {
    let frame = decode_cycle(capture(0x21, &[(1, 0x21), (2, 0xBE), (3, 0xD0)]))
        .expect("a complete capture must decode");
    assert_eq!(frame.channels[0], 0x21);
    assert_eq!(frame.channels[1], 0xBE);
    assert_eq!(frame.channels[2], 0xD0);
    assert_eq!(frame.channels[3], 0);
    assert_eq!(frame.reset_sequence.space_for_break, 100);
    assert_eq!(frame.reset_sequence.mark_after_break, 12);
}

#[test]
fn later_write_to_same_channel_wins() {
    let frame = decode_cycle(capture(0x00, &[(5, 0x11), (5, 0x22)]))
        .expect("a complete capture must decode");
    assert_eq!(frame.channels[4], 0x22);
}

#[test]
fn replaying_a_capture_gives_a_bit_identical_frame() {
    let first = decode_cycle(capture(0x5A, &[(1, 0x5A), (7, 0x07)]))
        .expect("a complete capture must decode");
    let second = decode_cycle(capture(0x5A, &[(1, 0x5A), (7, 0x07)]))
        .expect("a complete capture must decode");
    assert_eq!(first, second);
}

#[test]
fn truncated_capture_yields_no_frame() {
    let mut anns = capture(0x33, &[(1, 0x33), (2, 0x44)]);
    anns.pop();
    assert!(decode_cycle(anns).is_none());
    let short = capture(0x33, &[(1, 0x33)]);
    for cut in 0..short.len() {
        let mut truncated = capture(0x33, &[(1, 0x33)]);
        truncated.truncate(cut);
        assert!(decode_cycle(truncated).is_none());
    }
}

#[test]
fn empty_cycle_yields_no_frame() {
    assert!(decode_cycle(Vec::new()).is_none());
}

#[test]
fn supervisor_folds_annotations() {
    let state = initial_state();
    let (state, action) = supervisor_step(
        state,
        SupervisorEvent::Annotation(event(Dmx512AnnotatorPayload::Break, 0, 50)),
    );
    assert!(matches!(action, SupervisorAction::Continue));
    assert!(matches!(state, DmxStateMachineState::Break(_)));
}

#[test]
fn supervisor_emits_on_end_and_restarts() {
    let mut state = initial_state();
    for a in capture(0x01, &[(1, 0x01)]) {
        let (next, action) = supervisor_step(state, SupervisorEvent::Annotation(a));
        assert!(matches!(action, SupervisorAction::Continue));
        state = next;
    }
    let (state, action) = supervisor_step(state, SupervisorEvent::ProducerFinished);
    match action {
        SupervisorAction::EmitFrame(frame) => assert_eq!(frame.channels[0], 0x01),
        _ => panic!("a cycle that reached End must emit its frame"),
    }
    assert!(matches!(state, DmxStateMachineState::Idle()));
}

#[test]
fn supervisor_discards_an_incomplete_cycle() {
    let mut state = initial_state();
    state = supervisor_step(
        state,
        SupervisorEvent::Annotation(event(Dmx512AnnotatorPayload::Break, 0, 100)),
    ).0;
    let (state, action) = supervisor_step(state, SupervisorEvent::ProducerFinished);
    assert!(matches!(action, SupervisorAction::Discard));
    assert!(matches!(state, DmxStateMachineState::Idle()));
}

#[test]
fn no_channel_values_leak_between_cycles() {
    let first = decode_cycle(capture(0xFF, &[(1, 0xFF), (2, 0xFF), (3, 0xFF)]))
        .expect("a complete capture must decode");
    assert_eq!(first.channels[2], 0xFF);
    // The next cycle starts from a fresh zero-initialized universe.
    let second = decode_cycle(capture(0x00, &[(1, 0x00)]))
        .expect("a complete capture must decode");
    assert_eq!(second.channels[1], 0);
    assert_eq!(second.channels[2], 0);
}
