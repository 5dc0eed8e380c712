//! The DMX-512 framing grammar and what decoding guarantees over it.
//!
//! A well-formed capture is: a break, the mark after it, any run of framing
//! annotations while the start code passes, the inter-frame gap, a start
//! bit, one or more channel-write groups, and the closing error annotation
//! the engine emits at the end of the universe.  The lemmas here state the
//! decoder's behaviour over that grammar: such a capture always decodes to a
//! completed frame holding the written channel values and the measured reset
//! durations, while a capture cut off before the closing annotation never
//! yields a frame.

use vstd::prelude::*;

use crate::annotation::AnnotationModel;
use crate::annotation::PayloadModel;
use crate::state_machine::Bit;
use crate::state_machine::ResetSequence;
use crate::state_machine::StateModel;
use crate::state_machine::fresh_bits;
use crate::state_machine::spec_byte_value;
use crate::state_machine::spec_sample_span;
use crate::state_machine::spec_transition;
use crate::state_machine::valid_channel;
use crate::state_machine::zero_channels;
use crate::supervisor::lemma_run_concat;
use crate::supervisor::spec_decode;
use crate::supervisor::spec_initial_state;
use crate::supervisor::spec_run;

verus! {

/// The annotations the mark-after-break state absorbs while the start-code
/// byte passes on the wire.
pub open spec fn framing_payload(a: AnnotationModel) -> bool {
    ||| a.payload is Startbit
    ||| a.payload is Bit
    ||| a.payload is Stopbit
    ||| a.payload is Startcode
    ||| a.payload is Data
}

/// One channel-write group of the grammar: eight bit annotations, two stop
/// bits, the channel number `n`, and the channel's data byte `d`.
pub open spec fn channel_group(g: Seq<AnnotationModel>, n: u16, d: u8) -> bool {
    &&& g.len() == 12
    &&& forall|i: int| 0 <= i < 8 ==> (#[trigger] g[i]).payload is Bit
    &&& g[8].payload is Stopbit
    &&& g[9].payload is Stopbit
    &&& g[10].payload == PayloadModel::ChannelNr(n)
    &&& g[11].payload == PayloadModel::Data(d)
}

/// The universe after the writes `channels[ns[i] - 1] = ds[i]` were applied
/// in order.
pub open spec fn apply_writes(channels: Seq<u8>, ns: Seq<u16>, ds: Seq<u8>) -> Seq<u8>
    decreases ns.len(),
{
    if ns.len() == 0 {
        channels
    } else {
        apply_writes(channels.update(ns[0] - 1, ds[0]), ns.drop_first(), ds.drop_first())
    }
}

/// A complete capture of one universe, as the grammar lays it out.
pub open spec fn grammar_sequence(
    brk: AnnotationModel,
    mab: AnnotationModel,
    framing: Seq<AnnotationModel>,
    interframe: AnnotationModel,
    startbit: AnnotationModel,
    groups: Seq<Seq<AnnotationModel>>,
    err: AnnotationModel,
) -> Seq<AnnotationModel> {
    seq![brk, mab] + framing + seq![interframe, startbit] + groups.flatten() + seq![err]
}

/// Unfolds one step of the fold at position `k` of the sequence.
proof fn lemma_run_one(s: StateModel, anns: Seq<AnnotationModel>, k: int)
    requires
        0 <= k < anns.len(),
    ensures
        spec_run(s, anns.skip(k)) == spec_run(spec_transition(s, anns[k]), anns.skip(k + 1)),
{
    assert(anns.skip(k)[0] == anns[k]);
    assert(anns.skip(k).drop_first() =~= anns.skip(k + 1));
}

/// The mark-after-break state absorbs any run of framing annotations.
pub proof fn lemma_framing_absorbed(reset: ResetSequence, framing: Seq<AnnotationModel>)
    requires
        forall|i: int| 0 <= i < framing.len() ==> framing_payload(#[trigger] framing[i]),
    ensures
        spec_run(StateModel::MarkAfterBreak(reset), framing) == StateModel::MarkAfterBreak(reset),
    decreases framing.len(),
{
    if framing.len() > 0 {
        assert(spec_transition(StateModel::MarkAfterBreak(reset), framing[0])
            == StateModel::MarkAfterBreak(reset));
        assert(forall|i: int| 0 <= i < framing.drop_first().len()
            ==> framing_payload(#[trigger] framing.drop_first()[i]));
        lemma_framing_absorbed(reset, framing.drop_first());
    }
}

/// Running the first channel-write group from the start-bit state records
/// the eight bit timings, opens a fresh zero universe, stores the assembled
/// first byte as channel 1, and applies the group's own write.
proof fn lemma_first_group(reset: ResetSequence, g: Seq<AnnotationModel>, n: u16, d: u8)
    requires
        channel_group(g, n, d),
        valid_channel(n),
    ensures
        spec_run(StateModel::StartBit(reset), g) matches StateModel::Data(r2, bits, chans)
            && r2 == reset
            && bits.len() == 8
            && chans == zero_channels().update(0, spec_byte_value(bits)).update(n - 1, d),
{
    let t0 = StateModel::StartBit(reset);
    assert(g.skip(0) =~= g);

    let lv0 = g[0].payload->Bit_0;
    let bits1 = fresh_bits(lv0).update(
        0,
        Bit { start_sample: g[0].start_sample, end_sample: g[0].end_sample, bit: lv0 },
    );
    let t1 = spec_transition(t0, g[0]);
    lemma_run_one(t0, g, 0);
    assert(t1 == StateModel::Bit1(reset, bits1));

    let lv1 = g[1].payload->Bit_0;
    let bits2 = bits1.update(
        1,
        Bit { start_sample: g[1].start_sample, end_sample: g[1].end_sample, bit: lv1 },
    );
    let t2 = spec_transition(t1, g[1]);
    lemma_run_one(t1, g, 1);
    assert(t2 == StateModel::Bit2(reset, bits2));

    let lv2 = g[2].payload->Bit_0;
    let bits3 = bits2.update(
        2,
        Bit { start_sample: g[2].start_sample, end_sample: g[2].end_sample, bit: lv2 },
    );
    let t3 = spec_transition(t2, g[2]);
    lemma_run_one(t2, g, 2);
    assert(t3 == StateModel::Bit3(reset, bits3));

    let lv3 = g[3].payload->Bit_0;
    let bits4 = bits3.update(
        3,
        Bit { start_sample: g[3].start_sample, end_sample: g[3].end_sample, bit: lv3 },
    );
    let t4 = spec_transition(t3, g[3]);
    lemma_run_one(t3, g, 3);
    assert(t4 == StateModel::Bit4(reset, bits4));

    let lv4 = g[4].payload->Bit_0;
    let bits5 = bits4.update(
        4,
        Bit { start_sample: g[4].start_sample, end_sample: g[4].end_sample, bit: lv4 },
    );
    let t5 = spec_transition(t4, g[4]);
    lemma_run_one(t4, g, 4);
    assert(t5 == StateModel::Bit5(reset, bits5));

    let lv5 = g[5].payload->Bit_0;
    let bits6 = bits5.update(
        5,
        Bit { start_sample: g[5].start_sample, end_sample: g[5].end_sample, bit: lv5 },
    );
    let t6 = spec_transition(t5, g[5]);
    lemma_run_one(t5, g, 5);
    assert(t6 == StateModel::Bit6(reset, bits6));

    let lv6 = g[6].payload->Bit_0;
    let bits7 = bits6.update(
        6,
        Bit { start_sample: g[6].start_sample, end_sample: g[6].end_sample, bit: lv6 },
    );
    let t7 = spec_transition(t6, g[6]);
    lemma_run_one(t6, g, 6);
    assert(t7 == StateModel::Bit7(reset, bits7));

    let lv7 = g[7].payload->Bit_0;
    let bits8 = bits7.update(
        7,
        Bit { start_sample: g[7].start_sample, end_sample: g[7].end_sample, bit: lv7 },
    );
    let t8 = spec_transition(t7, g[7]);
    lemma_run_one(t7, g, 7);
    assert(t8 == StateModel::Bit8(reset, bits8));

    let t9 = spec_transition(t8, g[8]);
    lemma_run_one(t8, g, 8);
    assert(t9 == StateModel::StopBit0(reset, bits8));

    let t10 = spec_transition(t9, g[9]);
    lemma_run_one(t9, g, 9);
    assert(t10 == StateModel::StopBit1(reset, bits8));

    let first_byte_universe = zero_channels().update(0, spec_byte_value(bits8));
    let t11 = spec_transition(t10, g[10]);
    lemma_run_one(t10, g, 10);
    assert(t11 == StateModel::ChannelNr(reset, bits8, first_byte_universe, n));

    let t12 = spec_transition(t11, g[11]);
    lemma_run_one(t11, g, 11);
    assert(t12 == StateModel::Data(reset, bits8, first_byte_universe.update(n - 1, d)));

    assert(g.skip(12) =~= Seq::<AnnotationModel>::empty());
    assert(spec_run(t0, g) == t12);
}

/// Running a later channel-write group from the data state leaves the bit
/// record alone, absorbs the group's framing, and applies the group's write.
proof fn lemma_later_group(
    reset: ResetSequence,
    bits: Seq<Bit>,
    chans: Seq<u8>,
    g: Seq<AnnotationModel>,
    n: u16,
    d: u8,
)
    requires
        channel_group(g, n, d),
        valid_channel(n),
    ensures
        spec_run(StateModel::Data(reset, bits, chans), g)
            == StateModel::Data(reset, bits, chans.update(n - 1, d)),
{
    let t0 = StateModel::Data(reset, bits, chans);
    assert(g.skip(0) =~= g);
    assert forall|k: int| 0 <= k < 10 implies spec_transition(t0, g[k]) == t0 by {
        if k < 8 {
            assert(g[k].payload is Bit);
        }
    }
    lemma_run_one(t0, g, 0);
    lemma_run_one(t0, g, 1);
    lemma_run_one(t0, g, 2);
    lemma_run_one(t0, g, 3);
    lemma_run_one(t0, g, 4);
    lemma_run_one(t0, g, 5);
    lemma_run_one(t0, g, 6);
    lemma_run_one(t0, g, 7);
    lemma_run_one(t0, g, 8);
    lemma_run_one(t0, g, 9);
    let t11 = spec_transition(t0, g[10]);
    lemma_run_one(t0, g, 10);
    assert(t11 == StateModel::ChannelNr(reset, bits, chans, n));
    let t12 = spec_transition(t11, g[11]);
    lemma_run_one(t11, g, 11);
    assert(t12 == StateModel::Data(reset, bits, chans.update(n - 1, d)));
    assert(g.skip(12) =~= Seq::<AnnotationModel>::empty());
}

/// Running a run of channel-write groups from the data state applies their
/// writes in order.
proof fn lemma_group_run(
    reset: ResetSequence,
    bits: Seq<Bit>,
    chans: Seq<u8>,
    groups: Seq<Seq<AnnotationModel>>,
    ns: Seq<u16>,
    ds: Seq<u8>,
)
    requires
        groups.len() == ns.len(),
        ns.len() == ds.len(),
        forall|i: int| 0 <= i < groups.len() ==> channel_group(#[trigger] groups[i], ns[i], ds[i]),
        forall|i: int| 0 <= i < ns.len() ==> valid_channel(#[trigger] ns[i]),
    ensures
        spec_run(StateModel::Data(reset, bits, chans), groups.flatten())
            == StateModel::Data(reset, bits, apply_writes(chans, ns, ds)),
    decreases groups.len(),
{
    if groups.len() == 0 {
        assert(groups.flatten() =~= Seq::<AnnotationModel>::empty());
    } else {
        let rest = groups.drop_first();
        assert(groups.flatten() == groups[0] + rest.flatten());
        lemma_run_concat(StateModel::Data(reset, bits, chans), groups[0], rest.flatten());
        lemma_later_group(reset, bits, chans, groups[0], ns[0], ds[0]);
        assert(forall|i: int| 0 <= i < rest.len()
            ==> channel_group(#[trigger] rest[i], ns.drop_first()[i], ds.drop_first()[i]));
        assert(forall|i: int| 0 <= i < ns.drop_first().len()
            ==> valid_channel(#[trigger] ns.drop_first()[i]));
        lemma_group_run(
            reset,
            bits,
            chans.update(ns[0] - 1, ds[0]),
            rest,
            ns.drop_first(),
            ds.drop_first(),
        );
    }
}

/// Applying writes never changes the size of the universe.
proof fn lemma_apply_writes_len(channels: Seq<u8>, ns: Seq<u16>, ds: Seq<u8>)
    requires
        channels.len() == 512,
        ns.len() == ds.len(),
        forall|i: int| 0 <= i < ns.len() ==> valid_channel(#[trigger] ns[i]),
    ensures
        apply_writes(channels, ns, ds).len() == 512,
    decreases ns.len(),
{
    if ns.len() > 0 {
        assert(forall|i: int| 0 <= i < ns.drop_first().len()
            ==> valid_channel(#[trigger] ns.drop_first()[i]));
        lemma_apply_writes_len(
            channels.update(ns[0] - 1, ds[0]),
            ns.drop_first(),
            ds.drop_first(),
        );
    }
}

/// A channel none of the writes addresses keeps its value.
proof fn lemma_apply_writes_untouched(channels: Seq<u8>, ns: Seq<u16>, ds: Seq<u8>, idx: int)
    requires
        channels.len() == 512,
        ns.len() == ds.len(),
        forall|i: int| 0 <= i < ns.len() ==> valid_channel(#[trigger] ns[i]),
        0 <= idx < 512,
        forall|i: int| 0 <= i < ns.len() ==> (#[trigger] ns[i]) - 1 != idx,
    ensures
        apply_writes(channels, ns, ds)[idx] == channels[idx],
    decreases ns.len(),
{
    if ns.len() > 0 {
        assert(forall|i: int| 0 <= i < ns.drop_first().len()
            ==> valid_channel(#[trigger] ns.drop_first()[i]));
        assert(forall|i: int| 0 <= i < ns.drop_first().len()
            ==> (#[trigger] ns.drop_first()[i]) - 1 != idx);
        lemma_apply_writes_untouched(
            channels.update(ns[0] - 1, ds[0]),
            ns.drop_first(),
            ds.drop_first(),
            idx,
        );
    }
}

/// A write that no later write overrides determines its channel's value.
pub proof fn lemma_apply_writes_wins(channels: Seq<u8>, ns: Seq<u16>, ds: Seq<u8>, i: int)
    requires
        channels.len() == 512,
        ns.len() == ds.len(),
        forall|k: int| 0 <= k < ns.len() ==> valid_channel(#[trigger] ns[k]),
        0 <= i < ns.len(),
        forall|j: int| i < j < ns.len() ==> (#[trigger] ns[j]) != ns[i],
    ensures
        apply_writes(channels, ns, ds)[ns[i] - 1] == ds[i],
    decreases i,
{
    let written = channels.update(ns[0] - 1, ds[0]);
    assert(forall|k: int| 0 <= k < ns.drop_first().len()
        ==> valid_channel(#[trigger] ns.drop_first()[k]));
    if i == 0 {
        assert(forall|k: int| 0 <= k < ns.drop_first().len()
            ==> (#[trigger] ns.drop_first()[k]) - 1 != ns[0] - 1);
        lemma_apply_writes_untouched(written, ns.drop_first(), ds.drop_first(), ns[0] - 1);
    } else {
        assert(forall|j: int| i - 1 < j < ns.drop_first().len()
            ==> (#[trigger] ns.drop_first()[j]) != ns.drop_first()[i - 1]);
        lemma_apply_writes_wins(written, ns.drop_first(), ds.drop_first(), i - 1);
    }
}

/// Decoding a complete well-formed capture always succeeds: the cycle ends
/// in `End`, the frame's reset-sequence durations are the sample spans of
/// the break and of the mark after it, and every channel write that no later
/// write overrides is present in the frame, the wire's 1-based address `n`
/// stored at index `n - 1`.
pub proof fn lemma_grammar_decodes(
    brk: AnnotationModel,
    mab: AnnotationModel,
    framing: Seq<AnnotationModel>,
    interframe: AnnotationModel,
    startbit: AnnotationModel,
    groups: Seq<Seq<AnnotationModel>>,
    ns: Seq<u16>,
    ds: Seq<u8>,
    err: AnnotationModel,
)
    requires
        brk.payload is Break,
        mab.payload is MarkAfterBreak,
        forall|i: int| 0 <= i < framing.len() ==> framing_payload(#[trigger] framing[i]),
        interframe.payload is InterFrame,
        startbit.payload is Startbit,
        groups.len() >= 1,
        groups.len() == ns.len(),
        ns.len() == ds.len(),
        forall|i: int| 0 <= i < groups.len() ==> channel_group(#[trigger] groups[i], ns[i], ds[i]),
        forall|i: int| 0 <= i < ns.len() ==> valid_channel(#[trigger] ns[i]),
        err.payload is ErrorCode,
    ensures
        spec_decode(grammar_sequence(brk, mab, framing, interframe, startbit, groups, err))
            matches Some(frame)
            && frame.reset_sequence.space_for_break
                == spec_sample_span(brk.start_sample, brk.end_sample)
            && frame.reset_sequence.mark_after_break
                == spec_sample_span(mab.start_sample, mab.end_sample)
            && frame.channels.len() == 512
            && frame.bits.len() == 8
            && (forall|i: int| 0 <= i < ns.len()
                && (forall|j: int| i < j < ns.len() ==> ns[j] != ns[i])
                ==> frame.channels[(#[trigger] ns[i]) - 1] == ds[i])
            && ((forall|i: int| 0 <= i < ns.len() ==> ns[i] != 1)
                ==> frame.channels[0] == spec_byte_value(frame.bits))
            && (forall|c: int| 1 <= c < 512
                && (forall|i: int| 0 <= i < ns.len() ==> ns[i] - 1 != c)
                ==> #[trigger] frame.channels[c] == 0),
{
    let p1 = seq![brk, mab];
    let p3 = seq![interframe, startbit];
    let p5 = seq![err];
    let whole = grammar_sequence(brk, mab, framing, interframe, startbit, groups, err);
    let s0 = spec_initial_state();

    lemma_run_concat(s0, p1 + framing + p3 + groups.flatten(), p5);
    lemma_run_concat(s0, p1 + framing + p3, groups.flatten());
    lemma_run_concat(s0, p1 + framing, p3);
    lemma_run_concat(s0, p1, framing);

    // The break and its mark capture the reset-sequence durations.
    let reset = ResetSequence {
        space_for_break: spec_sample_span(brk.start_sample, brk.end_sample),
        mark_after_break: spec_sample_span(mab.start_sample, mab.end_sample),
    };
    assert(p1.skip(0) =~= p1);
    lemma_run_one(s0, p1, 0);
    let s1 = spec_transition(s0, brk);
    assert(s1 == StateModel::Break(
        ResetSequence {
            space_for_break: spec_sample_span(brk.start_sample, brk.end_sample),
            mark_after_break: 0,
        },
    ));
    lemma_run_one(s1, p1, 1);
    assert(p1.skip(2) =~= Seq::<AnnotationModel>::empty());
    assert(spec_run(s0, p1) == StateModel::MarkAfterBreak(reset));

    // The start-code framing is absorbed.
    lemma_framing_absorbed(reset, framing);

    // The inter-frame gap and the start bit arm the first channel.
    let s2 = StateModel::MarkAfterBreak(reset);
    assert(p3.skip(0) =~= p3);
    lemma_run_one(s2, p3, 0);
    let s3 = spec_transition(s2, interframe);
    assert(s3 == StateModel::StartFirstChannel(reset));
    lemma_run_one(s3, p3, 1);
    assert(p3.skip(2) =~= Seq::<AnnotationModel>::empty());
    assert(spec_run(s2, p3) == StateModel::StartBit(reset));

    // The first group records the bits and writes; the rest only write.
    let rest = groups.drop_first();
    assert(groups.flatten() == groups[0] + rest.flatten());
    lemma_run_concat(StateModel::StartBit(reset), groups[0], rest.flatten());
    lemma_first_group(reset, groups[0], ns[0], ds[0]);
    let after_first = spec_run(StateModel::StartBit(reset), groups[0]);
    let bits = after_first->Data_1;
    let first_byte_universe = zero_channels().update(0, spec_byte_value(bits));
    assert(after_first == StateModel::Data(
        reset,
        bits,
        first_byte_universe.update(ns[0] - 1, ds[0]),
    ));
    assert(forall|i: int| 0 <= i < rest.len()
        ==> channel_group(#[trigger] rest[i], ns.drop_first()[i], ds.drop_first()[i]));
    assert(forall|i: int| 0 <= i < ns.drop_first().len()
        ==> valid_channel(#[trigger] ns.drop_first()[i]));
    lemma_group_run(
        reset,
        bits,
        first_byte_universe.update(ns[0] - 1, ds[0]),
        rest,
        ns.drop_first(),
        ds.drop_first(),
    );
    let universe = apply_writes(first_byte_universe, ns, ds);
    assert(universe == apply_writes(
        first_byte_universe.update(ns[0] - 1, ds[0]),
        ns.drop_first(),
        ds.drop_first(),
    ));

    // The closing error annotation finalizes the frame.
    let s4 = StateModel::Data(reset, bits, universe);
    let msg = err.payload->ErrorCode_0;
    assert(err.payload == PayloadModel::ErrorCode(msg));
    assert(p5.skip(0) =~= p5);
    lemma_run_one(s4, p5, 0);
    assert(p5.skip(1) =~= Seq::<AnnotationModel>::empty());
    assert(spec_run(s4, p5) == StateModel::End(
        crate::state_machine::FrameModel { reset_sequence: reset, bits: bits, channels: universe },
    ));

    assert(spec_run(s0, whole) == StateModel::End(
        crate::state_machine::FrameModel { reset_sequence: reset, bits: bits, channels: universe },
    ));

    lemma_apply_writes_len(first_byte_universe, ns, ds);
    assert forall|i: int| 0 <= i < ns.len()
        && (forall|j: int| i < j < ns.len() ==> ns[j] != ns[i])
        implies universe[(#[trigger] ns[i]) - 1] == ds[i] by {
        lemma_apply_writes_wins(first_byte_universe, ns, ds, i);
    }
    if forall|i: int| 0 <= i < ns.len() ==> ns[i] != 1 {
        assert(forall|i: int| 0 <= i < ns.len() ==> (#[trigger] ns[i]) - 1 != 0);
        lemma_apply_writes_untouched(first_byte_universe, ns, ds, 0);
    }
    assert forall|c: int| 1 <= c < 512
        && (forall|i: int| 0 <= i < ns.len() ==> ns[i] - 1 != c)
        implies #[trigger] universe[c] == 0 by {
        assert(forall|i: int| 0 <= i < ns.len() ==> (#[trigger] ns[i]) - 1 != c);
        lemma_apply_writes_untouched(first_byte_universe, ns, ds, c);
    }
}

/// An annotation that is no error report never moves the machine into the
/// `End` state it was not already in.
proof fn lemma_no_error_no_end(s: StateModel, a: AnnotationModel)
    requires
        !(s is End),
        !(a.payload is ErrorCode),
    ensures
        !(spec_transition(s, a) is End),
{
}

/// A capture that was cut off before the closing error annotation — in
/// particular any capture truncated before the decoder could reach its end —
/// never yields a frame.
pub proof fn lemma_truncated_never_frames(anns: Seq<AnnotationModel>)
    requires
        forall|i: int| 0 <= i < anns.len() ==> !((#[trigger] anns[i]).payload is ErrorCode),
    ensures
        spec_decode(anns) is None,
{
    lemma_no_error_not_end(spec_initial_state(), anns);
}

/// Without an error report the fold never enters `End` from outside it.
proof fn lemma_no_error_not_end(s: StateModel, anns: Seq<AnnotationModel>)
    requires
        !(s is End),
        forall|i: int| 0 <= i < anns.len() ==> !((#[trigger] anns[i]).payload is ErrorCode),
    ensures
        !(spec_run(s, anns) is End),
    decreases anns.len(),
{
    if anns.len() > 0 {
        lemma_no_error_no_end(s, anns[0]);
        assert(forall|i: int| 0 <= i < anns.drop_first().len()
            ==> !((#[trigger] anns.drop_first()[i]).payload is ErrorCode));
        lemma_no_error_not_end(spec_transition(s, anns[0]), anns.drop_first());
    }
}

} // verus!
