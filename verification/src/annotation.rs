//! Symbol events produced by the signal-analysis engine.
//!
//! The engine reports each decoded symbol as an annotation record: a class
//! code, a short text payload, and the sample-clock range the symbol covers.
//! This module defines the structured vocabulary the frame decoder consumes
//! and the (verified) parser from raw records to that vocabulary.

use vstd::prelude::*;

verus! {

/// Annotation class codes emitted by the DMX-512 protocol decoder,
/// in the order the engine numbers them (`Bit` is class 0, `ErrorCode`
/// is class 10).
#[derive(Debug, PartialEq, Eq, Clone, Copy)]
pub enum Dmx512AnnotatorCode {
    Bit,
    Break,
    MarkAfterBreak,
    Startbit,
    Stopbit,
    Startcode,
    Channel,
    Interframe,
    Interpacket,
    Data,
    ErrorCode,
}

/// Structured payload of one annotation.
#[derive(Debug)]
pub enum Dmx512AnnotatorPayload {
    Bit(bool),
    Break,
    MarkAfterBreak,
    Startbit,
    Stopbit,
    Startcode,
    ChannelNr(u16),
    InterFrame,
    InterPacket,
    Data(u8),
    ErrorCode(String),
}

/// One decoded symbol event: a payload together with the sample-clock
/// counters at which the symbol started and ended.
#[derive(Debug)]
pub struct DecoderAnnotation {
    pub start_sample: u64,
    pub end_sample: u64,
    pub payload: Dmx512AnnotatorPayload,
}

/// Mathematical model of an annotation payload; the error text is carried
/// as a sequence of characters.
pub enum PayloadModel {
    Bit(bool),
    Break,
    MarkAfterBreak,
    Startbit,
    Stopbit,
    Startcode,
    ChannelNr(u16),
    InterFrame,
    InterPacket,
    Data(u8),
    ErrorCode(Seq<char>),
}

/// Mathematical model of one annotation.
pub struct AnnotationModel {
    pub start_sample: u64,
    pub end_sample: u64,
    pub payload: PayloadModel,
}

impl View for Dmx512AnnotatorPayload {
    type V = PayloadModel;

    open spec fn view(&self) -> PayloadModel {
        match self {
            Dmx512AnnotatorPayload::Bit(b) => PayloadModel::Bit(*b),
            Dmx512AnnotatorPayload::Break => PayloadModel::Break,
            Dmx512AnnotatorPayload::MarkAfterBreak => PayloadModel::MarkAfterBreak,
            Dmx512AnnotatorPayload::Startbit => PayloadModel::Startbit,
            Dmx512AnnotatorPayload::Stopbit => PayloadModel::Stopbit,
            Dmx512AnnotatorPayload::Startcode => PayloadModel::Startcode,
            Dmx512AnnotatorPayload::ChannelNr(n) => PayloadModel::ChannelNr(*n),
            Dmx512AnnotatorPayload::InterFrame => PayloadModel::InterFrame,
            Dmx512AnnotatorPayload::InterPacket => PayloadModel::InterPacket,
            Dmx512AnnotatorPayload::Data(d) => PayloadModel::Data(*d),
            Dmx512AnnotatorPayload::ErrorCode(s) => PayloadModel::ErrorCode(s@),
        }
    }
}

impl View for DecoderAnnotation {
    type V = AnnotationModel;

    open spec fn view(&self) -> AnnotationModel {
        AnnotationModel {
            start_sample: self.start_sample,
            end_sample: self.end_sample,
            payload: self.payload@,
        }
    }
}

/// Class code carried by an annotation record, as the engine numbers them.
pub open spec fn spec_code_of_class(class: i32) -> Option<Dmx512AnnotatorCode> {
    if class == 0 {
        Some(Dmx512AnnotatorCode::Bit)
    } else if class == 1 {
        Some(Dmx512AnnotatorCode::Break)
    } else if class == 2 {
        Some(Dmx512AnnotatorCode::MarkAfterBreak)
    } else if class == 3 {
        Some(Dmx512AnnotatorCode::Startbit)
    } else if class == 4 {
        Some(Dmx512AnnotatorCode::Stopbit)
    } else if class == 5 {
        Some(Dmx512AnnotatorCode::Startcode)
    } else if class == 6 {
        Some(Dmx512AnnotatorCode::Channel)
    } else if class == 7 {
        Some(Dmx512AnnotatorCode::Interframe)
    } else if class == 8 {
        Some(Dmx512AnnotatorCode::Interpacket)
    } else if class == 9 {
        Some(Dmx512AnnotatorCode::Data)
    } else if class == 10 {
        Some(Dmx512AnnotatorCode::ErrorCode)
    } else {
        None
    }
}

impl Dmx512AnnotatorCode {
    /// Recovers the annotation class from the numeric class code of a raw
    /// record; codes outside the decoder's table are rejected.
    pub fn from_class(class: i32) -> (r: Option<Dmx512AnnotatorCode>)
        ensures
            r == spec_code_of_class(class),
    {
        match class {
            0 => Some(Dmx512AnnotatorCode::Bit),
            1 => Some(Dmx512AnnotatorCode::Break),
            2 => Some(Dmx512AnnotatorCode::MarkAfterBreak),
            3 => Some(Dmx512AnnotatorCode::Startbit),
            4 => Some(Dmx512AnnotatorCode::Stopbit),
            5 => Some(Dmx512AnnotatorCode::Startcode),
            6 => Some(Dmx512AnnotatorCode::Channel),
            7 => Some(Dmx512AnnotatorCode::Interframe),
            8 => Some(Dmx512AnnotatorCode::Interpacket),
            9 => Some(Dmx512AnnotatorCode::Data),
            10 => Some(Dmx512AnnotatorCode::ErrorCode),
            _ => None,
        }
    }
}

/// Whether `b` is an ASCII decimal digit.
pub open spec fn is_ascii_digit(b: u8) -> bool {
    48 <= b <= 57
}

/// Length of the run of digits that opens `s`, capped at `cap`.
pub open spec fn digit_prefix_len(s: Seq<u8>, cap: nat) -> nat
    decreases cap,
{
    if cap == 0 || s.len() == 0 || !is_ascii_digit(s[0]) {
        0
    } else {
        (1 + digit_prefix_len(s.drop_first(), (cap - 1) as nat)) as nat
    }
}

/// Value of a string of decimal digits, most significant first.
pub open spec fn decimal_value(s: Seq<u8>) -> nat
    recommends
        forall|i: int| 0 <= i < s.len() ==> is_ascii_digit(#[trigger] s[i]),
    decreases s.len(),
{
    if s.len() == 0 {
        0
    } else {
        (decimal_value(s.drop_last()) * 10 + (s.last() - 48)) as nat
    }
}

/// Powers of ten.
pub open spec fn pow10(n: nat) -> nat
    decreases n,
{
    if n == 0 {
        1
    } else {
        10 * pow10((n - 1) as nat)
    }
}

/// A string of `n` digits is worth less than ten to the `n`.
proof fn lemma_decimal_bound(s: Seq<u8>)
    requires
        forall|i: int| 0 <= i < s.len() ==> is_ascii_digit(#[trigger] s[i]),
    ensures
        decimal_value(s) < pow10(s.len()),
    decreases s.len(),
{
    if s.len() > 0 {
        assert(forall|i: int| 0 <= i < s.drop_last().len()
            ==> is_ascii_digit(#[trigger] s.drop_last()[i]));
        lemma_decimal_bound(s.drop_last());
    }
}

/// The digit run is exactly `k` long when the first `k` characters are
/// digits and the run can go no further.
proof fn lemma_digit_prefix_exact(s: Seq<u8>, cap: nat, k: nat)
    requires
        k <= cap,
        k <= s.len(),
        forall|i: int| 0 <= i < k ==> is_ascii_digit(#[trigger] s[i]),
        k == cap || k == s.len() || !is_ascii_digit(s[k as int]),
    ensures
        digit_prefix_len(s, cap) == k,
    decreases k,
{
    if k > 0 {
        assert(forall|i: int| 0 <= i < k - 1 ==> is_ascii_digit(#[trigger] s.drop_first()[i]));
        lemma_digit_prefix_exact(s.drop_first(), (cap - 1) as nat, (k - 1) as nat);
    }
}

/// The number read from `s` at position `from`: the value of the digit run
/// there, at most `cap` digits long; nothing when no digit stands at `from`.
pub open spec fn spec_parse_number(s: Seq<u8>, from: int, cap: nat) -> Option<nat>
    recommends
        0 <= from <= s.len(),
{
    let k = digit_prefix_len(s.skip(from), cap);
    if k == 0 {
        None
    } else {
        Some(decimal_value(s.subrange(from, from + k)))
    }
}

/// Reads the decimal number at position `from` of `text`: at most `cap`
/// digits, exactly as [`spec_parse_number`] describes.
fn parse_number(text: &[u8], from: usize, cap: usize) -> (r: Option<u16>)
    requires
        from <= text@.len(),
        1 <= cap <= 3,
    ensures
        (match r {
            Some(v) => Some(v as nat),
            None => None,
        }) == spec_parse_number(text@, from as int, cap as nat),
{
    let mut k: usize = 0;
    let mut value: u16 = 0;
    while k < cap && text.len() - from > k && 48 <= text[from + k] && text[from + k] <= 57
        invariant
            from <= text@.len(),
            1 <= cap <= 3,
            k <= cap,
            from + k <= text@.len(),
            forall|i: int| from <= i < from + k ==> is_ascii_digit(#[trigger] text@[i]),
            value == decimal_value(text@.subrange(from as int, from + k)),
        decreases cap - k,
    {
        let b = text[from + k];
        proof {
            let seg = text@.subrange(from as int, from + k);
            assert(forall|i: int| 0 <= i < seg.len() ==> is_ascii_digit(#[trigger] seg[i]));
            lemma_decimal_bound(seg);
            assert(pow10(0) == 1);
            assert(pow10(1) == 10);
            assert(pow10(2) == 100);
            assert(seg.len() <= 2);
            assert(value < 100);
            let next = text@.subrange(from as int, from + k + 1);
            assert(next.drop_last() =~= seg);
            assert(next.last() == text@[from + k]);
        }
        value = value * 10 + (b - 48) as u16;
        k = k + 1;
    }
    proof {
        assert(forall|i: int| 0 <= i < k ==> is_ascii_digit(#[trigger] text@.skip(from as int)[i]));
        lemma_digit_prefix_exact(text@.skip(from as int), cap as nat, k as nat);
    }
    if k == 0 {
        None
    } else {
        Some(value)
    }
}

/// Whether the annotation text opens with the channel marker the decoder
/// prints before a channel number.
pub open spec fn spec_channel_prefix(s: Seq<u8>) -> bool {
    &&& s.len() >= 8
    &&& s[0] == 67u8  // 'C'
    &&& s[1] == 104u8  // 'h'
    &&& s[2] == 97u8  // 'a'
    &&& s[3] == 110u8  // 'n'
    &&& s[4] == 110u8  // 'n'
    &&& s[5] == 101u8  // 'e'
    &&& s[6] == 108u8  // 'l'
    &&& s[7] == 32u8  // ' '
}

/// The payload carried by an annotation of class `code` with text `text`:
/// a bit is the digit of its level (`1` is high); a channel number follows
/// the channel marker, at most three digits; a data byte opens the text, at
/// most three digits and at most 255; an error report keeps a fixed error
/// text; the remaining classes carry no payload.  Nothing is produced when
/// the text does not match this layout.
pub open spec fn spec_parse_payload(code: Dmx512AnnotatorCode, text: Seq<u8>) -> Option<
    PayloadModel,
> {
    match code {
        Dmx512AnnotatorCode::Bit => match spec_parse_number(text, 0, 1) {
            Some(v) => Some(PayloadModel::Bit(v == 1)),
            None => None,
        },
        Dmx512AnnotatorCode::Channel => if spec_channel_prefix(text) {
            match spec_parse_number(text, 8, 3) {
                Some(v) => Some(PayloadModel::ChannelNr(v as u16)),
                None => None,
            }
        } else {
            None
        },
        Dmx512AnnotatorCode::Data => match spec_parse_number(text, 0, 3) {
            Some(v) => if v <= 255 {
                Some(PayloadModel::Data(v as u8))
            } else {
                None
            },
            None => None,
        },
        Dmx512AnnotatorCode::ErrorCode => Some(PayloadModel::ErrorCode("error"@)),
        Dmx512AnnotatorCode::Break => Some(PayloadModel::Break),
        Dmx512AnnotatorCode::MarkAfterBreak => Some(PayloadModel::MarkAfterBreak),
        Dmx512AnnotatorCode::Startbit => Some(PayloadModel::Startbit),
        Dmx512AnnotatorCode::Stopbit => Some(PayloadModel::Stopbit),
        Dmx512AnnotatorCode::Startcode => Some(PayloadModel::Startcode),
        Dmx512AnnotatorCode::Interframe => Some(PayloadModel::InterFrame),
        Dmx512AnnotatorCode::Interpacket => Some(PayloadModel::InterPacket),
    }
}

/// Parses the text payload of an annotation of class `code`, exactly as
/// [`spec_parse_payload`] describes.
pub fn parse_payload(code: Dmx512AnnotatorCode, text: &[u8]) -> (r: Option<
    Dmx512AnnotatorPayload,
>)
    ensures
        (match r {
            Some(p) => Some(p@),
            None => None,
        }) == spec_parse_payload(code, text@),
{
    match code {
        Dmx512AnnotatorCode::Bit => match parse_number(text, 0, 1) {
            Some(v) => Some(Dmx512AnnotatorPayload::Bit(v == 1)),
            None => None,
        },
        Dmx512AnnotatorCode::Channel => {
            if text.len() >= 8 && text[0] == 67 && text[1] == 104 && text[2] == 97
                && text[3] == 110 && text[4] == 110 && text[5] == 101 && text[6] == 108
                && text[7] == 32 {
                match parse_number(text, 8, 3) {
                    Some(v) => Some(Dmx512AnnotatorPayload::ChannelNr(v)),
                    None => None,
                }
            } else {
                None
            }
        },
        Dmx512AnnotatorCode::Data => match parse_number(text, 0, 3) {
            Some(v) => if v <= 255 {
                Some(Dmx512AnnotatorPayload::Data(v as u8))
            } else {
                None
            },
            None => None,
        },
        Dmx512AnnotatorCode::ErrorCode => Some(
            Dmx512AnnotatorPayload::ErrorCode(String::from_str("error")),
        ),
        Dmx512AnnotatorCode::Break => Some(Dmx512AnnotatorPayload::Break),
        Dmx512AnnotatorCode::MarkAfterBreak => Some(Dmx512AnnotatorPayload::MarkAfterBreak),
        Dmx512AnnotatorCode::Startbit => Some(Dmx512AnnotatorPayload::Startbit),
        Dmx512AnnotatorCode::Stopbit => Some(Dmx512AnnotatorPayload::Stopbit),
        Dmx512AnnotatorCode::Startcode => Some(Dmx512AnnotatorPayload::Startcode),
        Dmx512AnnotatorCode::Interframe => Some(Dmx512AnnotatorPayload::InterFrame),
        Dmx512AnnotatorCode::Interpacket => Some(Dmx512AnnotatorPayload::InterPacket),
    }
}

/// The annotation a raw record stands for: its class code resolved, its text
/// payload parsed, its sample-clock range kept.  Nothing when the class code
/// is unknown or the text is malformed.
pub open spec fn spec_parse_annotation(
    class: i32,
    text: Seq<u8>,
    start_sample: u64,
    end_sample: u64,
) -> Option<AnnotationModel> {
    match spec_code_of_class(class) {
        Some(code) => match spec_parse_payload(code, text) {
            Some(p) => Some(
                AnnotationModel { start_sample: start_sample, end_sample: end_sample, payload: p },
            ),
            None => None,
        },
        None => None,
    }
}

/// Parses one raw annotation record, exactly as [`spec_parse_annotation`]
/// describes.
pub fn parse_annotation(class: i32, text: &[u8], start_sample: u64, end_sample: u64) -> (r: Option<
    DecoderAnnotation,
>)
    ensures
        (match r {
            Some(a) => Some(a@),
            None => None,
        }) == spec_parse_annotation(class, text@, start_sample, end_sample),
{
    match Dmx512AnnotatorCode::from_class(class) {
        Some(code) => match parse_payload(code, text) {
            Some(payload) => Some(DecoderAnnotation { start_sample, end_sample, payload }),
            None => None,
        },
        None => None,
    }
}

/// Parses one raw annotation record, turning a malformed record into an
/// error-report annotation so that the decoder's fold aborts the cycle
/// instead of ever seeing a made-up symbol.
pub fn parse_annotation_or_error(
    class: i32,
    text: &[u8],
    start_sample: u64,
    end_sample: u64,
) -> (a: DecoderAnnotation)
    ensures
        a@ == (match spec_parse_annotation(class, text@, start_sample, end_sample) {
            Some(m) => m,
            None => AnnotationModel {
                start_sample: start_sample,
                end_sample: end_sample,
                payload: PayloadModel::ErrorCode("error"@),
            },
        }),
{
    match parse_annotation(class, text, start_sample, end_sample) {
        Some(a) => a,
        None => DecoderAnnotation {
            start_sample,
            end_sample,
            payload: Dmx512AnnotatorPayload::ErrorCode(String::from_str("error")),
        },
    }
}

} // verus!
