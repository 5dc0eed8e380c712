//! The DMX-512 frame decoder state machine.
//!
//! One acquisition cycle folds a stream of annotations into a
//! [`DmxStateMachineState`], starting from `Idle`.  The machine follows the
//! DMX-512 framing grammar: a break and mark-after-break reset sequence, the
//! absorbed start-code byte, the first data byte bit by bit (its eight bit
//! timings are retained for diagnostics and assembled, least-significant bit
//! first, into the value of channel 1), then channel-number/data pairs that
//! fill the 512-channel universe.  An error annotation received while the
//! machine sits in the `Data` state marks the regular end of the universe and
//! yields the completed frame; from any other state it aborts the cycle.
//! Annotations that do not match the current state's expected alphabet leave
//! the state unchanged.
//!
//! Sample-clock durations are modulo-2^64 differences of the annotation's end
//! and start counters; the engine's counters increase monotonically, so the
//! difference is the plain span of the symbol.

use vstd::prelude::*;

use crate::annotation::AnnotationModel;
use crate::annotation::DecoderAnnotation;
use crate::annotation::Dmx512AnnotatorPayload;
use crate::annotation::PayloadModel;

verus! {

broadcast use vstd::array::group_array_axioms;

/// One DMX-512 universe under construction: channel N (1-based on the wire)
/// is stored at index N-1.
pub struct ChannelData {
    pub channel: [u8; 512],
}

/// A pending 1-based channel address, waiting for its data byte.
#[derive(Copy, Clone, Debug)]
pub struct ChannelId {
    pub channel_id: u16,
}

/// Capture record of a single bit: the sample-clock range it covered and its
/// level.
#[derive(Copy, Clone, Debug, PartialEq, Eq)]
pub struct Bit {
    pub start_sample: u64,
    pub end_sample: u64,
    pub bit: bool,
}

/// Durations, in sample-clock ticks, of the reset pulse that frames a packet:
/// the space-for-break and the mark that follows it.
#[derive(Copy, Clone, Debug, PartialEq, Eq)]
pub struct ResetSequence {
    pub mark_after_break: u64,
    pub space_for_break: u64,
}

/// A completed frame: the reset-sequence timing, the bit timings of the first
/// data byte, and the full 512-channel universe.
#[derive(Copy, Clone, Debug, PartialEq, Eq)]
pub struct DmxOutput {
    pub reset_sequence: ResetSequence,
    pub bits: [Bit; 8],
    pub channels: [u8; 512],
}

/// Decoder state of one acquisition cycle.  `End` and `Error` are terminal:
/// `End` carries the completed frame, `Error` an aborted cycle.
pub enum DmxStateMachineState {
    Idle(),
    Break(ResetSequence),
    MarkAfterBreak(ResetSequence),
    StartFirstChannel(ResetSequence),
    StartBit(ResetSequence),
    Bit1(ResetSequence, [Bit; 8]),
    Bit2(ResetSequence, [Bit; 8]),
    Bit3(ResetSequence, [Bit; 8]),
    Bit4(ResetSequence, [Bit; 8]),
    Bit5(ResetSequence, [Bit; 8]),
    Bit6(ResetSequence, [Bit; 8]),
    Bit7(ResetSequence, [Bit; 8]),
    Bit8(ResetSequence, [Bit; 8]),
    StopBit0(ResetSequence, [Bit; 8]),
    StopBit1(ResetSequence, [Bit; 8]),
    ChannelNr(ResetSequence, [Bit; 8], ChannelData, ChannelId),
    Data(ResetSequence, [Bit; 8], ChannelData),
    End(DmxOutput),
    Error(),
}

/// Mathematical model of a completed frame.
#[verifier::ext_equal]
pub struct FrameModel {
    pub reset_sequence: ResetSequence,
    pub bits: Seq<Bit>,
    pub channels: Seq<u8>,
}

/// Mathematical model of the decoder state.
#[verifier::ext_equal]
pub enum StateModel {
    Idle,
    Break(ResetSequence),
    MarkAfterBreak(ResetSequence),
    StartFirstChannel(ResetSequence),
    StartBit(ResetSequence),
    Bit1(ResetSequence, Seq<Bit>),
    Bit2(ResetSequence, Seq<Bit>),
    Bit3(ResetSequence, Seq<Bit>),
    Bit4(ResetSequence, Seq<Bit>),
    Bit5(ResetSequence, Seq<Bit>),
    Bit6(ResetSequence, Seq<Bit>),
    Bit7(ResetSequence, Seq<Bit>),
    Bit8(ResetSequence, Seq<Bit>),
    StopBit0(ResetSequence, Seq<Bit>),
    StopBit1(ResetSequence, Seq<Bit>),
    ChannelNr(ResetSequence, Seq<Bit>, Seq<u8>, u16),
    Data(ResetSequence, Seq<Bit>, Seq<u8>),
    End(FrameModel),
    Error,
}

impl View for DmxOutput {
    type V = FrameModel;

    open spec fn view(&self) -> FrameModel {
        FrameModel {
            reset_sequence: self.reset_sequence,
            bits: self.bits@,
            channels: self.channels@,
        }
    }
}

impl View for DmxStateMachineState {
    type V = StateModel;

    open spec fn view(&self) -> StateModel {
        match self {
            DmxStateMachineState::Idle() => StateModel::Idle,
            DmxStateMachineState::Break(r) => StateModel::Break(*r),
            DmxStateMachineState::MarkAfterBreak(r) => StateModel::MarkAfterBreak(*r),
            DmxStateMachineState::StartFirstChannel(r) => StateModel::StartFirstChannel(*r),
            DmxStateMachineState::StartBit(r) => StateModel::StartBit(*r),
            DmxStateMachineState::Bit1(r, b) => StateModel::Bit1(*r, b@),
            DmxStateMachineState::Bit2(r, b) => StateModel::Bit2(*r, b@),
            DmxStateMachineState::Bit3(r, b) => StateModel::Bit3(*r, b@),
            DmxStateMachineState::Bit4(r, b) => StateModel::Bit4(*r, b@),
            DmxStateMachineState::Bit5(r, b) => StateModel::Bit5(*r, b@),
            DmxStateMachineState::Bit6(r, b) => StateModel::Bit6(*r, b@),
            DmxStateMachineState::Bit7(r, b) => StateModel::Bit7(*r, b@),
            DmxStateMachineState::Bit8(r, b) => StateModel::Bit8(*r, b@),
            DmxStateMachineState::StopBit0(r, b) => StateModel::StopBit0(*r, b@),
            DmxStateMachineState::StopBit1(r, b) => StateModel::StopBit1(*r, b@),
            DmxStateMachineState::ChannelNr(r, b, c, id) => StateModel::ChannelNr(
                *r,
                b@,
                c.channel@,
                id.channel_id,
            ),
            DmxStateMachineState::Data(r, b, c) => StateModel::Data(*r, b@, c.channel@),
            DmxStateMachineState::End(out) => StateModel::End(out@),
            DmxStateMachineState::Error() => StateModel::Error,
        }
    }
}

/// Number of sample-clock ticks between `start` and `end`, modulo 2^64.
pub open spec fn spec_sample_span(start: u64, end: u64) -> u64 {
    if end >= start {
        (end - start) as u64
    } else {
        (end - start + 0x1_0000_0000_0000_0000) as u64
    }
}

/// A fresh 512-channel universe, every channel zero.
pub open spec fn zero_channels() -> Seq<u8> {
    Seq::new(512, |i: int| 0u8)
}

/// The eight bit slots as first allocated: every slot carries the level of
/// the first captured bit and no timing yet.
pub open spec fn fresh_bits(level: bool) -> Seq<Bit> {
    Seq::new(8, |i: int| Bit { start_sample: 0, end_sample: 0, bit: level })
}

/// Value of the byte whose bits were captured in `bits`, least-significant
/// bit first, as DMX-512 sends them on the wire.
pub open spec fn spec_byte_value(bits: Seq<Bit>) -> u8
    recommends
        bits.len() == 8,
{
    ((if bits[0].bit { 1int } else { 0int })
      + (if bits[1].bit { 2int } else { 0int })
      + (if bits[2].bit { 4int } else { 0int })
      + (if bits[3].bit { 8int } else { 0int })
      + (if bits[4].bit { 16int } else { 0int })
      + (if bits[5].bit { 32int } else { 0int })
      + (if bits[6].bit { 64int } else { 0int })
      + (if bits[7].bit { 128int } else { 0int })) as u8
}

/// Whether `n` addresses a channel of the 512-channel universe (the wire
/// numbers channels 1 through 512).
pub open spec fn valid_channel(n: u16) -> bool {
    1 <= n <= 512
}

/// The transition function of the decoder, on the mathematical model: folds
/// one annotation into the state.  Total: annotations that do not match the
/// state's expected alphabet leave the state unchanged, except that an error
/// annotation outside the `Data` state always aborts to `Error`.
pub open spec fn spec_transition(s: StateModel, a: AnnotationModel) -> StateModel {
    match (s, a.payload) {
        (StateModel::Idle, PayloadModel::Break) => StateModel::Break(
            ResetSequence {
                space_for_break: spec_sample_span(a.start_sample, a.end_sample),
                mark_after_break: 0,
            },
        ),
        (StateModel::Break(reset), PayloadModel::MarkAfterBreak) => StateModel::MarkAfterBreak(
            ResetSequence {
                space_for_break: reset.space_for_break,
                mark_after_break: spec_sample_span(a.start_sample, a.end_sample),
            },
        ),
        (
            StateModel::MarkAfterBreak(reset),
            PayloadModel::Startbit
            | PayloadModel::Bit(_)
            | PayloadModel::Stopbit
            | PayloadModel::Startcode
            | PayloadModel::Data(_),
        ) => StateModel::MarkAfterBreak(reset),
        (StateModel::MarkAfterBreak(reset), PayloadModel::InterFrame) => StateModel::StartFirstChannel(
            reset,
        ),
        (StateModel::StartFirstChannel(reset), PayloadModel::Startbit) => StateModel::StartBit(reset),
        (StateModel::StartBit(reset), PayloadModel::Bit(level)) => StateModel::Bit1(
            reset,
            fresh_bits(level).update(
                0,
                Bit { start_sample: a.start_sample, end_sample: a.end_sample, bit: level },
            ),
        ),
        (StateModel::Bit1(reset, bits), PayloadModel::Bit(level)) => StateModel::Bit2(
            reset,
            bits.update(1, Bit { start_sample: a.start_sample, end_sample: a.end_sample, bit: level }),
        ),
        (StateModel::Bit2(reset, bits), PayloadModel::Bit(level)) => StateModel::Bit3(
            reset,
            bits.update(2, Bit { start_sample: a.start_sample, end_sample: a.end_sample, bit: level }),
        ),
        (StateModel::Bit3(reset, bits), PayloadModel::Bit(level)) => StateModel::Bit4(
            reset,
            bits.update(3, Bit { start_sample: a.start_sample, end_sample: a.end_sample, bit: level }),
        ),
        (StateModel::Bit4(reset, bits), PayloadModel::Bit(level)) => StateModel::Bit5(
            reset,
            bits.update(4, Bit { start_sample: a.start_sample, end_sample: a.end_sample, bit: level }),
        ),
        (StateModel::Bit5(reset, bits), PayloadModel::Bit(level)) => StateModel::Bit6(
            reset,
            bits.update(5, Bit { start_sample: a.start_sample, end_sample: a.end_sample, bit: level }),
        ),
        (StateModel::Bit6(reset, bits), PayloadModel::Bit(level)) => StateModel::Bit7(
            reset,
            bits.update(6, Bit { start_sample: a.start_sample, end_sample: a.end_sample, bit: level }),
        ),
        (StateModel::Bit7(reset, bits), PayloadModel::Bit(level)) => StateModel::Bit8(
            reset,
            bits.update(7, Bit { start_sample: a.start_sample, end_sample: a.end_sample, bit: level }),
        ),
        (StateModel::Bit8(reset, bits), PayloadModel::Stopbit) => StateModel::StopBit0(reset, bits),
        (StateModel::StopBit0(reset, bits), PayloadModel::Stopbit) => StateModel::StopBit1(reset, bits),
        (StateModel::StopBit1(reset, bits), PayloadModel::ChannelNr(n)) => if valid_channel(n) {
            StateModel::ChannelNr(reset, bits, zero_channels().update(0, spec_byte_value(bits)), n)
        } else {
            StateModel::Error
        },
        (StateModel::ChannelNr(reset, bits, channels, id), PayloadModel::Data(value)) => if valid_channel(id) {
            StateModel::Data(reset, bits, channels.update(id - 1, value))
        } else {
            StateModel::Error
        },
        (StateModel::Data(reset, bits, channels), PayloadModel::ChannelNr(n)) => if valid_channel(n) {
            StateModel::ChannelNr(reset, bits, channels, n)
        } else {
            StateModel::Error
        },
        (StateModel::Data(reset, bits, channels), PayloadModel::ErrorCode(_)) => StateModel::End(
            FrameModel { reset_sequence: reset, bits: bits, channels: channels },
        ),
        (StateModel::End(out), _) => StateModel::End(out),
        (_, PayloadModel::ErrorCode(_)) => StateModel::Error,
        (state, _) => state,
    }
}

/// A channel number outside 1..=512 is rejected at either point where a
/// channel number is expected: no channel write happens and the cycle moves
/// to the `Error` state, which carries no frame.
pub proof fn lemma_invalid_channel_rejected(s: StateModel, a: AnnotationModel, n: u16)
    requires
        a.payload == PayloadModel::ChannelNr(n),
        !valid_channel(n),
        s is StopBit1 || s is Data,
    ensures
        spec_transition(s, a) == StateModel::Error,
{
}

/// Assembles the byte captured in `bits`, least-significant bit first.
pub fn assemble_byte(bits: &[Bit; 8]) -> (value: u8)
    ensures
        value == spec_byte_value(bits@),
{
    let mut value: u8 = 0;
    if bits[0].bit {
        value = value + 1;
    }
    if bits[1].bit {
        value = value + 2;
    }
    if bits[2].bit {
        value = value + 4;
    }
    if bits[3].bit {
        value = value + 8;
    }
    if bits[4].bit {
        value = value + 16;
    }
    if bits[5].bit {
        value = value + 32;
    }
    if bits[6].bit {
        value = value + 64;
    }
    if bits[7].bit {
        value = value + 128;
    }
    value
}

/// Folding one annotation into a decoder state.
pub trait Transition: Sized {
    fn transition(self, input: DecoderAnnotation) -> DmxStateMachineState;
}

impl Transition for DmxStateMachineState {
    /// Folds `input` into the state, exactly as [`spec_transition`] describes
    /// on the models.
    fn transition(self, input: DecoderAnnotation) -> (next: DmxStateMachineState)
        ensures
            next@ == spec_transition(self@, input@),
    {
        match (self, &input.payload) {
            (DmxStateMachineState::Idle(), Dmx512AnnotatorPayload::Break) => {
                let samples = input.end_sample.wrapping_sub(input.start_sample);
                DmxStateMachineState::Break(
                    ResetSequence { space_for_break: samples, mark_after_break: 0 },
                )
            },
            (DmxStateMachineState::Break(reset), Dmx512AnnotatorPayload::MarkAfterBreak) => {
                let samples = input.end_sample.wrapping_sub(input.start_sample);
                DmxStateMachineState::MarkAfterBreak(
                    ResetSequence { space_for_break: reset.space_for_break, mark_after_break: samples },
                )
            },
            (
                DmxStateMachineState::MarkAfterBreak(reset),
                Dmx512AnnotatorPayload::Startbit
                | Dmx512AnnotatorPayload::Bit(..)
                | Dmx512AnnotatorPayload::Stopbit
                | Dmx512AnnotatorPayload::Startcode
                | Dmx512AnnotatorPayload::Data(..),
            ) => DmxStateMachineState::MarkAfterBreak(reset),
            (DmxStateMachineState::MarkAfterBreak(reset), Dmx512AnnotatorPayload::InterFrame) => {
                DmxStateMachineState::StartFirstChannel(reset)
            },
            (DmxStateMachineState::StartFirstChannel(reset), Dmx512AnnotatorPayload::Startbit) => {
                DmxStateMachineState::StartBit(reset)
            },
            (DmxStateMachineState::StartBit(reset), Dmx512AnnotatorPayload::Bit(bit)) => {
                let mut bits = [Bit { start_sample: 0, end_sample: 0, bit: *bit }; 8];
                bits[0] = Bit {
                    start_sample: input.start_sample,
                    end_sample: input.end_sample,
                    bit: *bit,
                };
                proof {
                    assert(bits@ =~= fresh_bits(*bit).update(
                        0,
                        Bit { start_sample: input.start_sample, end_sample: input.end_sample, bit: *bit },
                    ));
                }
                DmxStateMachineState::Bit1(reset, bits)
            },
            (DmxStateMachineState::Bit1(reset, mut bits), Dmx512AnnotatorPayload::Bit(bit)) => {
                bits[1] = Bit {
                    start_sample: input.start_sample,
                    end_sample: input.end_sample,
                    bit: *bit,
                };
                DmxStateMachineState::Bit2(reset, bits)
            },
            (DmxStateMachineState::Bit2(reset, mut bits), Dmx512AnnotatorPayload::Bit(bit)) => {
                bits[2] = Bit {
                    start_sample: input.start_sample,
                    end_sample: input.end_sample,
                    bit: *bit,
                };
                DmxStateMachineState::Bit3(reset, bits)
            },
            (DmxStateMachineState::Bit3(reset, mut bits), Dmx512AnnotatorPayload::Bit(bit)) => {
                bits[3] = Bit {
                    start_sample: input.start_sample,
                    end_sample: input.end_sample,
                    bit: *bit,
                };
                DmxStateMachineState::Bit4(reset, bits)
            },
            (DmxStateMachineState::Bit4(reset, mut bits), Dmx512AnnotatorPayload::Bit(bit)) => {
                bits[4] = Bit {
                    start_sample: input.start_sample,
                    end_sample: input.end_sample,
                    bit: *bit,
                };
                DmxStateMachineState::Bit5(reset, bits)
            },
            (DmxStateMachineState::Bit5(reset, mut bits), Dmx512AnnotatorPayload::Bit(bit)) => {
                bits[5] = Bit {
                    start_sample: input.start_sample,
                    end_sample: input.end_sample,
                    bit: *bit,
                };
                DmxStateMachineState::Bit6(reset, bits)
            },
            (DmxStateMachineState::Bit6(reset, mut bits), Dmx512AnnotatorPayload::Bit(bit)) => {
                bits[6] = Bit {
                    start_sample: input.start_sample,
                    end_sample: input.end_sample,
                    bit: *bit,
                };
                DmxStateMachineState::Bit7(reset, bits)
            },
            (DmxStateMachineState::Bit7(reset, mut bits), Dmx512AnnotatorPayload::Bit(bit)) => {
                bits[7] = Bit {
                    start_sample: input.start_sample,
                    end_sample: input.end_sample,
                    bit: *bit,
                };
                DmxStateMachineState::Bit8(reset, bits)
            },
            (DmxStateMachineState::Bit8(reset, bits), Dmx512AnnotatorPayload::Stopbit) => {
                DmxStateMachineState::StopBit0(reset, bits)
            },
            (DmxStateMachineState::StopBit0(reset, bits), Dmx512AnnotatorPayload::Stopbit) => {
                DmxStateMachineState::StopBit1(reset, bits)
            },
            (DmxStateMachineState::StopBit1(reset, bits), Dmx512AnnotatorPayload::ChannelNr(n)) => {
                if 1 <= *n && *n <= 512 {
                    let mut channel = ChannelData { channel: [0u8; 512] };
                    proof {
                        assert(channel.channel@ =~= zero_channels());
                    }
                    channel.channel[0] = assemble_byte(&bits);
                    DmxStateMachineState::ChannelNr(
                        reset,
                        bits,
                        channel,
                        ChannelId { channel_id: *n },
                    )
                } else {
                    DmxStateMachineState::Error()
                }
            },
            (
                DmxStateMachineState::ChannelNr(reset, bits, mut channel, channel_id),
                Dmx512AnnotatorPayload::Data(value),
            ) => {
                if 1 <= channel_id.channel_id && channel_id.channel_id <= 512 {
                    channel.channel[(channel_id.channel_id - 1) as usize] = *value;
                    DmxStateMachineState::Data(reset, bits, channel)
                } else {
                    DmxStateMachineState::Error()
                }
            },
            (
                DmxStateMachineState::Data(reset, bits, channel),
                Dmx512AnnotatorPayload::ChannelNr(n),
            ) => {
                if 1 <= *n && *n <= 512 {
                    DmxStateMachineState::ChannelNr(
                        reset,
                        bits,
                        channel,
                        ChannelId { channel_id: *n },
                    )
                } else {
                    DmxStateMachineState::Error()
                }
            },
            (
                DmxStateMachineState::Data(reset, bits, channel),
                Dmx512AnnotatorPayload::ErrorCode(_),
            ) => DmxStateMachineState::End(
                DmxOutput { reset_sequence: reset, bits, channels: channel.channel },
            ),
            (DmxStateMachineState::End(output), _) => DmxStateMachineState::End(output),
            (_, Dmx512AnnotatorPayload::ErrorCode(_)) => DmxStateMachineState::Error(),
            (state, _) => state,
        }
    }
}

} // verus!
