//! FIX 4.4 message codec.
//!
//! Messages are parsed in place: every field refers to its bytes inside the receive buffer.
use crate::bytes::{find_byte, itoa_buffer, utf8_text, write_at};
use vstd::prelude::*;
use vstd::slice::slice_subrange;

verus! {

broadcast use vstd::array::group_array_axioms;

/// Maximum FIX message size (bytes).
pub const MAX_FIX_MESSAGE_SIZE: usize = 4096;

/// Maximum number of fields that a message holds.
pub const MAX_FIX_FIELDS: usize = 64;

/// SOH character (ASCII 1), the FIX field delimiter.
pub const SOH: u8 = 1;

/// The byte between a tag and its value.
pub const EQUALS: u8 = 61;

/// FIX tags.
#[derive(Debug, Clone, Copy, PartialEq, Eq, Structural)]
pub enum FixTag {
    BeginString,
    BodyLength,
    MsgType,
    SenderCompID,
    TargetCompID,
    MsgSeqNum,
    SendingTime,
    CheckSum,
    // Order tags
    ClOrdID,
    OrderQty,
    Side,
    Symbol,
    Price,
    OrdType,
    TimeInForce,
    // Execution tags
    ExecID,
    ExecType,
    OrdStatus,
    LastQty,
    LastPx,
    // Session tags
    HeartBtInt,
    TestReqID,
    GapFillFlag,
    PossResend,
    EncryptMethod,
    HeartbeatInterval,
    ResetSeqNumFlag,
    Text,
}

impl FixTag {
    /// The number of the tag on the wire.
    pub open spec fn number(self) -> u32 {
        match self {
            FixTag::BeginString => 8,
            FixTag::BodyLength => 9,
            FixTag::MsgType => 35,
            FixTag::SenderCompID => 49,
            FixTag::TargetCompID => 56,
            FixTag::MsgSeqNum => 34,
            FixTag::SendingTime => 52,
            FixTag::CheckSum => 10,
            FixTag::ClOrdID => 11,
            FixTag::OrderQty => 38,
            FixTag::Side => 54,
            FixTag::Symbol => 55,
            FixTag::Price => 44,
            FixTag::OrdType => 40,
            FixTag::TimeInForce => 59,
            FixTag::ExecID => 17,
            FixTag::ExecType => 150,
            FixTag::OrdStatus => 39,
            FixTag::LastQty => 32,
            FixTag::LastPx => 31,
            FixTag::HeartBtInt => 108,
            FixTag::TestReqID => 112,
            FixTag::GapFillFlag => 123,
            FixTag::PossResend => 97,
            FixTag::EncryptMethod => 98,
            FixTag::HeartbeatInterval => 108,
            FixTag::ResetSeqNumFlag => 141,
            FixTag::Text => 58,
        }
    }

    /// True of the tags that `from_u32` recognises. `HeartbeatInterval` shares its number with
    /// `HeartBtInt`, which stands for it; the other three are only ever sent.
    pub open spec fn is_recognised(self) -> bool {
        !(self is EncryptMethod || self is HeartbeatInterval || self is ResetSeqNumFlag
            || self is Text)
    }

    pub fn as_u32(self) -> (n: u32)
        ensures
            n == self.number(),
            self is BeginString ==> n == 8,
            self is BodyLength ==> n == 9,
            self is CheckSum ==> n == 10,
            self is ClOrdID ==> n == 11,
            self is ExecID ==> n == 17,
            self is LastPx ==> n == 31,
            self is LastQty ==> n == 32,
            self is MsgSeqNum ==> n == 34,
            self is MsgType ==> n == 35,
            self is OrderQty ==> n == 38,
            self is OrdStatus ==> n == 39,
            self is OrdType ==> n == 40,
            self is Price ==> n == 44,
            self is SenderCompID ==> n == 49,
            self is SendingTime ==> n == 52,
            self is Side ==> n == 54,
            self is Symbol ==> n == 55,
            self is TargetCompID ==> n == 56,
            self is Text ==> n == 58,
            self is TimeInForce ==> n == 59,
            self is PossResend ==> n == 97,
            self is EncryptMethod ==> n == 98,
            self is HeartBtInt ==> n == 108,
            self is HeartbeatInterval ==> n == 108,
            self is TestReqID ==> n == 112,
            self is GapFillFlag ==> n == 123,
            self is ResetSeqNumFlag ==> n == 141,
            self is ExecType ==> n == 150,
    {
        match self {
            FixTag::BeginString => 8,
            FixTag::BodyLength => 9,
            FixTag::MsgType => 35,
            FixTag::SenderCompID => 49,
            FixTag::TargetCompID => 56,
            FixTag::MsgSeqNum => 34,
            FixTag::SendingTime => 52,
            FixTag::CheckSum => 10,
            FixTag::ClOrdID => 11,
            FixTag::OrderQty => 38,
            FixTag::Side => 54,
            FixTag::Symbol => 55,
            FixTag::Price => 44,
            FixTag::OrdType => 40,
            FixTag::TimeInForce => 59,
            FixTag::ExecID => 17,
            FixTag::ExecType => 150,
            FixTag::OrdStatus => 39,
            FixTag::LastQty => 32,
            FixTag::LastPx => 31,
            FixTag::HeartBtInt => 108,
            FixTag::TestReqID => 112,
            FixTag::GapFillFlag => 123,
            FixTag::PossResend => 97,
            FixTag::EncryptMethod => 98,
            FixTag::HeartbeatInterval => 108,
            FixTag::ResetSeqNumFlag => 141,
            FixTag::Text => 58,
        }
    }

    pub fn from_u32(val: u32) -> (r: Option<Self>)
        ensures
            match r {
                Some(tag) => tag.is_recognised() && tag.number() == val,
                None => forall|tag: FixTag| tag.is_recognised() ==> #[trigger] tag.number() != val,
            },
            val == 8 ==> r == Some(FixTag::BeginString),
            val == 9 ==> r == Some(FixTag::BodyLength),
            val == 10 ==> r == Some(FixTag::CheckSum),
            val == 11 ==> r == Some(FixTag::ClOrdID),
            val == 17 ==> r == Some(FixTag::ExecID),
            val == 31 ==> r == Some(FixTag::LastPx),
            val == 32 ==> r == Some(FixTag::LastQty),
            val == 34 ==> r == Some(FixTag::MsgSeqNum),
            val == 35 ==> r == Some(FixTag::MsgType),
            val == 38 ==> r == Some(FixTag::OrderQty),
            val == 39 ==> r == Some(FixTag::OrdStatus),
            val == 40 ==> r == Some(FixTag::OrdType),
            val == 44 ==> r == Some(FixTag::Price),
            val == 49 ==> r == Some(FixTag::SenderCompID),
            val == 52 ==> r == Some(FixTag::SendingTime),
            val == 54 ==> r == Some(FixTag::Side),
            val == 55 ==> r == Some(FixTag::Symbol),
            val == 56 ==> r == Some(FixTag::TargetCompID),
            val == 59 ==> r == Some(FixTag::TimeInForce),
            val == 97 ==> r == Some(FixTag::PossResend),
            val == 108 ==> r == Some(FixTag::HeartBtInt),
            val == 112 ==> r == Some(FixTag::TestReqID),
            val == 123 ==> r == Some(FixTag::GapFillFlag),
            val == 150 ==> r == Some(FixTag::ExecType),
    {
        match val {
            8 => Some(FixTag::BeginString),
            9 => Some(FixTag::BodyLength),
            35 => Some(FixTag::MsgType),
            49 => Some(FixTag::SenderCompID),
            56 => Some(FixTag::TargetCompID),
            34 => Some(FixTag::MsgSeqNum),
            52 => Some(FixTag::SendingTime),
            10 => Some(FixTag::CheckSum),
            11 => Some(FixTag::ClOrdID),
            38 => Some(FixTag::OrderQty),
            54 => Some(FixTag::Side),
            55 => Some(FixTag::Symbol),
            44 => Some(FixTag::Price),
            40 => Some(FixTag::OrdType),
            59 => Some(FixTag::TimeInForce),
            17 => Some(FixTag::ExecID),
            150 => Some(FixTag::ExecType),
            39 => Some(FixTag::OrdStatus),
            32 => Some(FixTag::LastQty),
            31 => Some(FixTag::LastPx),
            108 => Some(FixTag::HeartBtInt),
            112 => Some(FixTag::TestReqID),
            123 => Some(FixTag::GapFillFlag),
            97 => Some(FixTag::PossResend),
            _ => None,
        }
    }
}

/// FIX codec errors.
#[derive(Debug, Clone, Copy, PartialEq, Eq, Structural)]
pub enum FixError {
    /// Buffer too small
    BufferTooSmall,
    /// Invalid tag format
    InvalidTagFormat,
    /// Missing required field
    MissingRequiredField,
    /// Invalid checksum
    InvalidChecksum,
    /// Invalid UTF-8
    InvalidUtf8,
    /// Empty value
    EmptyValue,
    /// Parse error
    ParseError,
    /// Malformed message
    MalformedMessage,
    /// Out of bounds access
    OutOfBounds,
    /// Session not active
    SessionNotActive,
    /// Sequence gap detected
    SequenceGap,
    /// Invalid message type
    InvalidMessageType,
}

impl FixError {
    /// The numeric code of an error.
    pub open spec fn code(self) -> u32 {
        match self {
            FixError::BufferTooSmall => 1,
            FixError::InvalidTagFormat => 2,
            FixError::MissingRequiredField => 3,
            FixError::InvalidChecksum => 4,
            FixError::InvalidUtf8 => 5,
            FixError::EmptyValue => 6,
            FixError::ParseError => 7,
            FixError::MalformedMessage => 8,
            FixError::OutOfBounds => 9,
            FixError::SessionNotActive => 10,
            FixError::SequenceGap => 11,
            FixError::InvalidMessageType => 12,
        }
    }

    pub fn error_code(&self) -> (c: u32)
        ensures
            c == self.code(),
    {
        match self {
            FixError::BufferTooSmall => 1,
            FixError::InvalidTagFormat => 2,
            FixError::MissingRequiredField => 3,
            FixError::InvalidChecksum => 4,
            FixError::InvalidUtf8 => 5,
            FixError::EmptyValue => 6,
            FixError::ParseError => 7,
            FixError::MalformedMessage => 8,
            FixError::OutOfBounds => 9,
            FixError::SessionNotActive => 10,
            FixError::SequenceGap => 11,
            FixError::InvalidMessageType => 12,
        }
    }
}

/// What a byte string denotes as an unsigned number.
pub open spec fn uint_of(bytes: Seq<u8>) -> Result<u64, FixError> {
    if bytes.len() == 0 {
        Err(FixError::EmptyValue)
    } else if crate::bytes::all_digits(bytes) && crate::bytes::decimal_value(bytes) <= u64::MAX {
        Ok(crate::bytes::decimal_value(bytes) as u64)
    } else {
        Err(FixError::ParseError)
    }
}

/// The digits of a signed number: what follows the sign, if there is one.
pub open spec fn unsigned_part(bytes: Seq<u8>) -> Seq<u8> {
    if bytes[0] == 45 || bytes[0] == 43 {
        bytes.skip(1)
    } else {
        bytes
    }
}

/// What a byte string denotes as a signed number. A sign alone denotes zero.
pub open spec fn int_of(bytes: Seq<u8>) -> Result<i64, FixError> {
    if bytes.len() == 0 {
        Err(FixError::EmptyValue)
    } else {
        let digits = unsigned_part(bytes);
        let magnitude = crate::bytes::decimal_value(digits) as int;
        if !crate::bytes::all_digits(digits) || magnitude > i64::MAX {
            Err(FixError::ParseError)
        } else if bytes[0] == 45 {
            Ok((-magnitude) as i64)
        } else {
            Ok(magnitude as i64)
        }
    }
}

/// True of an octal digit.
pub open spec fn is_octal(b: u8) -> bool {
    48 <= b <= 55
}

/// The number that three octal digits denote.
pub open spec fn octal_value(a: u8, b: u8, c: u8) -> int {
    (a - 48) * 64 + (b - 48) * 8 + (c - 48)
}

/// What a byte string denotes as a checksum: exactly three octal digits, at most 255 in value.
pub open spec fn checksum_of(bytes: Seq<u8>) -> Result<u8, FixError> {
    if bytes.len() == 3 && is_octal(bytes[0]) && is_octal(bytes[1]) && is_octal(bytes[2])
        && octal_value(bytes[0], bytes[1], bytes[2]) <= 255 {
        Ok(octal_value(bytes[0], bytes[1], bytes[2]) as u8)
    } else {
        Err(FixError::ParseError)
    }
}

/// The checksum of a byte string: the sum of its bytes modulo 256.
pub open spec fn checksum(bytes: Seq<u8>) -> u8 {
    (crate::bytes::byte_sum(bytes) % 256) as u8
}

/// A checksum as it is written: three octal digits.
pub open spec fn checksum_text(sum: u8) -> Seq<u8> {
    seq![(48 + sum / 64) as u8, (48 + (sum / 8) % 8) as u8, (48 + sum % 8) as u8]
}

/// Parses an unsigned number.
pub fn parse_uint(bytes: &[u8]) -> (r: Result<u64, FixError>)
    ensures
        r == uint_of(bytes@),
{
    if bytes.len() == 0 {
        return Err(FixError::EmptyValue);
    }
    let mut result: u64 = 0;
    let mut i: usize = 0;
    assert(bytes@.take(0) =~= Seq::<u8>::empty());
    while i < bytes.len()
        invariant
            i <= bytes@.len(),
            bytes@.len() > 0,
            crate::bytes::all_digits(bytes@.take(i as int)),
            result == crate::bytes::decimal_value(bytes@.take(i as int)),
        decreases bytes.len() - i,
    {
        let b = bytes[i];
        if b < 48 || b > 57 {
            assert(!crate::bytes::is_digit(bytes@[i as int]));
            return Err(FixError::ParseError);
        }
        proof {
            assert(bytes@.take(i + 1) =~= bytes@.take(i as int).push(b));
            crate::bytes::lemma_decimal_value_push(bytes@.take(i as int), b);
            if crate::bytes::all_digits(bytes@) {
                crate::bytes::lemma_decimal_value_prefix(bytes@, i + 1);
            }
        }
        let tens = match result.checked_mul(10) {
            Some(t) => t,
            None => return Err(FixError::ParseError),
        };
        result = match tens.checked_add((b - 48) as u64) {
            Some(t) => t,
            None => return Err(FixError::ParseError),
        };
        i = i + 1;
    }
    assert(bytes@.take(i as int) =~= bytes@);
    Ok(result)
}

/// Parses a signed number.
pub fn parse_int(bytes: &[u8]) -> (r: Result<i64, FixError>)
    ensures
        r == int_of(bytes@),
{
    if bytes.len() == 0 {
        return Err(FixError::EmptyValue);
    }
    let negative = bytes[0] == 45;
    let start: usize = if bytes[0] == 45 || bytes[0] == 43 {
        1
    } else {
        0
    };
    let ghost digits = unsigned_part(bytes@);
    assert(digits =~= bytes@.skip(start as int));
    let mut result: i64 = 0;
    let mut i: usize = start;
    assert(digits.take(0) =~= Seq::<u8>::empty());
    while i < bytes.len()
        invariant
            start <= i <= bytes@.len(),
            start <= 1,
            bytes@.len() > 0,
            digits == unsigned_part(bytes@),
            digits == bytes@.skip(start as int),
            crate::bytes::all_digits(digits.take(i - start)),
            result == crate::bytes::decimal_value(digits.take(i - start)),
        decreases bytes.len() - i,
    {
        let b = bytes[i];
        assert(digits[i - start] == b);
        if b < 48 || b > 57 {
            assert(!crate::bytes::is_digit(digits[i - start]));
            return Err(FixError::ParseError);
        }
        proof {
            assert(digits.take(i - start + 1) =~= digits.take(i - start).push(b));
            crate::bytes::lemma_decimal_value_push(digits.take(i - start), b);
            if crate::bytes::all_digits(digits) {
                crate::bytes::lemma_decimal_value_prefix(digits, i - start + 1);
            }
        }
        let tens = match result.checked_mul(10) {
            Some(t) => t,
            None => return Err(FixError::ParseError),
        };
        result = match tens.checked_add((b - 48) as i64) {
            Some(t) => t,
            None => return Err(FixError::ParseError),
        };
        i = i + 1;
    }
    assert(digits.take(i - start) =~= digits);
    if negative {
        Ok(-result)
    } else {
        Ok(result)
    }
}

/// Parses a checksum: three octal digits.
pub fn parse_checksum(bytes: &[u8]) -> (r: Result<u8, FixError>)
    ensures
        r == checksum_of(bytes@),
{
    if bytes.len() != 3 {
        return Err(FixError::ParseError);
    }
    let mut result: u16 = 0;
    let mut i: usize = 0;
    while i < 3
        invariant
            i <= 3,
            bytes@.len() == 3,
            forall|j: int| 0 <= j < i ==> is_octal(#[trigger] bytes@[j]),
            i == 0 ==> result == 0,
            i == 1 ==> result == bytes@[0] - 48,
            i == 2 ==> result == (bytes@[0] - 48) * 8 + (bytes@[1] - 48),
            i == 3 ==> result == octal_value(bytes@[0], bytes@[1], bytes@[2]),
            i < 3 ==> result <= 63,
        decreases 3 - i,
    {
        let b = bytes[i];
        if b < 48 || b > 55 {
            assert(!is_octal(bytes@[i as int]));
            return Err(FixError::ParseError);
        }
        result = result * 8 + (b - 48) as u16;
        i = i + 1;
    }
    if result > 255 {
        return Err(FixError::ParseError);
    }
    Ok(result as u8)
}

/// Calculates the FIX checksum of a byte string.
pub fn calculate_checksum(data: &[u8]) -> (r: u8)
    ensures
        r == checksum(data@),
{
    let mut sum: u32 = 0;
    let mut i: usize = 0;
    assert(data@.take(0) =~= Seq::<u8>::empty());
    while i < data.len()
        invariant
            i <= data@.len(),
            sum == crate::bytes::byte_sum(data@.take(i as int)) % 256,
        decreases data.len() - i,
    {
        proof {
            assert(data@.take(i + 1).drop_last() =~= data@.take(i as int));
        }
        sum = (sum + data[i] as u32) % 256;
        i = i + 1;
    }
    assert(data@.take(i as int) =~= data@);
    sum as u8
}

/// Writes a checksum as three octal digits at an offset, or nothing where they do not fit.
pub fn write_checksum(buffer: &mut [u8], at: usize, sum: u8)
    requires
        at <= old(buffer)@.len(),
    ensures
        at + 3 <= old(buffer)@.len() ==> final(buffer)@ == old(buffer)@.take(at as int)
            + checksum_text(sum) + old(buffer)@.skip(at + 3),
        at + 3 > old(buffer)@.len() ==> final(buffer)@ == old(buffer)@,
{
    if buffer.len() - at < 3 {
        return ;
    }
    let digits: [u8; 3] = [48 + sum / 64, 48 + (sum / 8) % 8, 48 + sum % 8];
    assert(digits@ =~= checksum_text(sum));
    write_at(buffer, at, &digits);
}

/// FIX field, a view into the buffer that it was parsed from.
#[derive(Debug, Clone, Copy)]
pub struct FixField<'a> {
    /// Tag number
    pub tag: u32,
    /// Value as byte slice
    pub value: &'a [u8],
    /// Start offset of the value in the original buffer
    pub offset: usize,
    /// Length including tag, =, value, and SOH
    pub length: usize,
}

/// A field as it is written: tag, `=`, value, SOH.
pub open spec fn field_text(tag: u32, value: Seq<u8>) -> Seq<u8> {
    crate::bytes::decimal(tag as nat) + seq![EQUALS] + value + seq![SOH]
}

impl<'a> FixField<'a> {
    /// The field as it is written.
    pub open spec fn text(self) -> Seq<u8> {
        field_text(self.tag, self.value@)
    }

    /// True where the recorded length leaves room for the field as it is written.
    pub open spec fn wf(self) -> bool {
        self.text().len() <= self.length
    }

    pub fn new(tag: u32, value: &'a [u8], offset: usize, length: usize) -> (f: Self)
        ensures
            f.tag == tag,
            f.value == value,
            f.offset == offset,
            f.length == length,
    {
        Self { tag, value, offset, length }
    }

    /// Parses the value as a signed number.
    pub fn as_int(&self) -> (r: Result<i64, FixError>)
        ensures
            r == int_of(self.value@),
    {
        parse_int(self.value)
    }

    /// Parses the value as an unsigned number.
    pub fn as_uint(&self) -> (r: Result<u64, FixError>)
        ensures
            r == uint_of(self.value@),
    {
        parse_uint(self.value)
    }

    /// The value as a string slice.
    pub fn as_str(&self) -> (r: Result<&'a str, FixError>)
        ensures
            match r {
                Ok(s) => vstd::utf8::valid_utf8(self.value@) && vstd::utf8::encode_utf8(s@)
                    == self.value@,
                Err(e) => !vstd::utf8::valid_utf8(self.value@) && e == FixError::InvalidUtf8,
            },
    {
        match utf8_text(self.value) {
            Some(s) => Ok(s),
            None => Err(FixError::InvalidUtf8),
        }
    }

    /// The first byte of the value as a character (for single-character fields like Side).
    pub fn as_char(&self) -> (r: Result<char, FixError>)
        ensures
            match r {
                Ok(c) => self.value@.len() > 0 && c as u32 == self.value@[0],
                Err(e) => self.value@.len() == 0 && e == FixError::EmptyValue,
            },
    {
        if self.value.len() == 0 {
            return Err(FixError::EmptyValue);
        }
        Ok(self.value[0] as char)
    }
}

/// Where a field lies in a buffer.
pub struct FieldSpan {
    pub tag: u32,
    /// The first byte of the tag.
    pub start: int,
    /// The first byte of the value.
    pub value_start: int,
    /// The SOH behind the value.
    pub value_end: int,
}

impl FieldSpan {
    /// The value of the field.
    pub open spec fn value(self, buffer: Seq<u8>) -> Seq<u8> {
        buffer.subrange(self.value_start, self.value_end)
    }
}

/// The field that starts at `pos`, or why there is none: the tag runs to the first `=`, the value
/// from there to the first SOH, a body length is an unsigned number and a checksum has its form.
/// Tags are taken modulo 2 to the 32.
pub open spec fn field_at(buffer: Seq<u8>, pos: int) -> Result<FieldSpan, FixError> {
    match crate::bytes::first_index(buffer, pos, EQUALS) {
        None => Err(FixError::InvalidTagFormat),
        Some(eq) => match uint_of(buffer.subrange(pos, eq)) {
            Err(_) => Err(FixError::InvalidTagFormat),
            Ok(number) => match crate::bytes::first_index(buffer, eq + 1, SOH) {
                None => Err(FixError::MalformedMessage),
                Some(soh) => {
                    let span = FieldSpan {
                        tag: (number % 0x1_0000_0000) as u32,
                        start: pos,
                        value_start: eq + 1,
                        value_end: soh,
                    };
                    if span.tag == 9 && uint_of(span.value(buffer)) is Err {
                        Err(FixError::ParseError)
                    } else if span.tag == 10 && checksum_of(span.value(buffer)) is Err {
                        Err(FixError::InvalidChecksum)
                    } else {
                        Ok(span)
                    }
                },
            },
        },
    }
}

/// The fields from `pos` on, at most `room` of them, or the error of the first that has no form.
pub open spec fn fields_from(buffer: Seq<u8>, pos: int, room: nat) -> Result<
    Seq<FieldSpan>,
    FixError,
>
    decreases room,
{
    if pos >= buffer.len() || room == 0 {
        Ok(Seq::empty())
    } else {
        match field_at(buffer, pos) {
            Err(e) => Err(e),
            Ok(span) => prepend(seq![span], fields_from(buffer, span.value_end + 1, (room - 1) as nat)),
        }
    }
}

/// Fields put before a parse result.
pub open spec fn prepend(done: Seq<FieldSpan>, rest: Result<Seq<FieldSpan>, FixError>) -> Result<
    Seq<FieldSpan>,
    FixError,
> {
    match rest {
        Err(e) => Err(e),
        Ok(spans) => Ok(done + spans),
    }
}

/// The fields of a message, or why it is refused.
pub open spec fn message_fields(buffer: Seq<u8>) -> Result<Seq<FieldSpan>, FixError> {
    if buffer.len() == 0 {
        Err(FixError::MalformedMessage)
    } else {
        fields_from(buffer, 0, MAX_FIX_FIELDS as nat)
    }
}

/// The last field with a given tag.
pub open spec fn last_with_tag(spans: Seq<FieldSpan>, tag: u32) -> Option<FieldSpan>
    decreases spans.len(),
{
    if spans.len() == 0 {
        None
    } else if spans.last().tag == tag {
        Some(spans.last())
    } else {
        last_with_tag(spans.drop_last(), tag)
    }
}

/// The part of a message that its checksum is calculated over: from behind the body length up to
/// the checksum field; nothing where one of the two is missing.
pub open spec fn checked_part(buffer: Seq<u8>, spans: Seq<FieldSpan>) -> Seq<u8> {
    match (last_with_tag(spans, 9), last_with_tag(spans, 10)) {
        (Some(length), Some(sum)) if length.value_end + 1 < sum.start => buffer.subrange(
            length.value_end + 1,
            sum.start,
        ),
        _ => Seq::empty(),
    }
}

/// The first field with a given tag, from position `from` on.
pub open spec fn first_with_tag<'a>(fields: Seq<FixField<'a>>, from: int, tag: u32) -> Option<
    FixField<'a>,
>
    decreases fields.len() - from,
{
    if from >= fields.len() {
        None
    } else if fields[from].tag == tag {
        Some(fields[from])
    } else {
        first_with_tag(fields, from + 1, tag)
    }
}

/// FIX message, fields that refer to a buffer.
#[derive(Debug)]
pub struct FixMessage<'a> {
    /// Raw buffer
    pub buffer: &'a [u8],
    /// Fields parsed from the buffer
    pub fields: [Option<FixField<'a>>; 64],
    /// Number of fields
    pub field_count: usize,
    /// Message type
    pub msg_type: Option<&'a [u8]>,
    /// Begin string (FIX version)
    pub begin_string: Option<&'a [u8]>,
    /// Body length
    pub body_length: usize,
    /// Checksum value
    pub checksum: u8,
    /// Calculated checksum
    pub calculated_checksum: u8,
}

/// The bytes of an optional slice.
pub open spec fn opt_bytes(o: Option<&[u8]>) -> Option<Seq<u8>> {
    match o {
        Some(b) => Some(b@),
        None => None,
    }
}

/// The value of an optional field.
pub open spec fn opt_value(buffer: Seq<u8>, o: Option<FieldSpan>) -> Option<Seq<u8>> {
    match o {
        Some(span) => Some(span.value(buffer)),
        None => None,
    }
}

/// The text of an optional byte string that is valid UTF-8.
pub open spec fn is_text_of(r: Option<&str>, o: Option<&[u8]>) -> bool {
    match r {
        Some(s) => o is Some && vstd::utf8::valid_utf8(o->0@) && vstd::utf8::encode_utf8(s@)
            == o->0@,
        None => o is None || !vstd::utf8::valid_utf8(o->0@),
    }
}

impl<'a> FixMessage<'a> {
    /// The fields of the message.
    pub open spec fn view(&self) -> Seq<FixField<'a>> {
        Seq::new(self.field_count as nat, |i: int| self.fields[i]->0)
    }

    /// The slots in use are the first ones, and every field has the room that it records.
    pub open spec fn wf(&self) -> bool {
        &&& self.field_count <= MAX_FIX_FIELDS
        &&& forall|i: int| 0 <= i < 64 ==> (#[trigger] self.fields[i] is Some <==> i < self.field_count)
        &&& forall|i: int| 0 <= i < self.field_count ==> (#[trigger] self@[i]).wf()
    }

    /// What `decode` makes of a buffer with the given fields.
    pub open spec fn is_decoded(&self, buffer: Seq<u8>, spans: Seq<FieldSpan>) -> bool {
        &&& self.buffer@ == buffer
        &&& self@.len() == spans.len()
        &&& forall|i: int|
            0 <= i < spans.len() ==> is_field_of(#[trigger] self@[i], buffer, spans[i])
        &&& opt_bytes(self.msg_type) == opt_value(buffer, last_with_tag(spans, 35))
        &&& opt_bytes(self.begin_string) == opt_value(buffer, last_with_tag(spans, 8))
        &&& self.body_length == match last_with_tag(spans, 9) {
            Some(span) => #[verifier::truncate] ((uint_of(span.value(buffer))->Ok_0) as usize),
            None => 0,
        }
        &&& self.checksum == match last_with_tag(spans, 10) {
            Some(span) => checksum_of(span.value(buffer))->Ok_0,
            None => 0,
        }
        &&& self.calculated_checksum == checksum(checked_part(buffer, spans))
    }

    pub fn new(buffer: &'a [u8]) -> (m: Self)
        ensures
            m.wf(),
            m.buffer == buffer,
            m.field_count == 0,
            m@ == Seq::<FixField<'a>>::empty(),
            m.msg_type is None,
            m.begin_string is None,
            m.body_length == 0,
            m.checksum == 0,
            m.calculated_checksum == 0,
    {
        Self {
            buffer,
            fields: [None;64],
            field_count: 0,
            msg_type: None,
            begin_string: None,
            body_length: 0,
            checksum: 0,
            calculated_checksum: 0,
        }
    }

    /// The first field with a given tag.
    pub fn get_field(&self, tag: FixTag) -> (r: Option<&FixField<'a>>)
        requires
            self.wf(),
        ensures
            match r {
                Some(f) => first_with_tag(self@, 0, tag.number()) == Some(*f),
                None => first_with_tag(self@, 0, tag.number()) is None,
            },
    {
        let tag_u32: u32 = tag.as_u32();
        let mut i: usize = 0;
        while i < self.field_count
            invariant
                self.wf(),
                i <= self.field_count,
                tag_u32 == tag.number(),
                first_with_tag(self@, 0, tag_u32) == first_with_tag(self@, i as int, tag_u32),
            decreases self.field_count - i,
        {
            if let Some(field) = &self.fields[i] {
                assert(*field == self@[i as int]);
                if field.tag == tag_u32 {
                    return Some(field);
                }
            }
            i = i + 1;
        }
        None
    }

    /// All fields, in order.
    pub fn fields(&self) -> (r: Vec<FixField<'a>>)
        requires
            self.wf(),
        ensures
            r@ == self@,
    {
        let mut r: Vec<FixField<'a>> = Vec::new();
        let mut i: usize = 0;
        while i < self.field_count
            invariant
                self.wf(),
                i <= self.field_count,
                r@ =~= self@.take(i as int),
            decreases self.field_count - i,
        {
            if let Some(field) = self.fields[i] {
                r.push(field);
            }
            i = i + 1;
        }
        r
    }

    /// The message type, where it is valid UTF-8.
    pub fn msg_type(&self) -> (r: Option<&'a str>)
        ensures
            is_text_of(r, self.msg_type),
    {
        match self.msg_type {
            Some(b) => utf8_text(b),
            None => None,
        }
    }

    /// The begin string, where it is valid UTF-8.
    pub fn begin_string(&self) -> (r: Option<&'a str>)
        ensures
            is_text_of(r, self.begin_string),
    {
        match self.begin_string {
            Some(b) => utf8_text(b),
            None => None,
        }
    }

    /// True where the checksum that the message carries is the calculated one.
    pub fn validate_checksum(&self) -> (r: bool)
        ensures
            r == (self.checksum == self.calculated_checksum),
    {
        self.checksum == self.calculated_checksum
    }

    /// The raw buffer.
    pub fn buffer(&self) -> (r: &'a [u8])
        ensures
            r == self.buffer,
    {
        self.buffer
    }

    /// The number of fields.
    pub fn field_count(&self) -> (r: usize)
        ensures
            r == self.field_count,
    {
        self.field_count
    }
}

/// True of the field that a span describes.
pub open spec fn is_field_of(f: FixField, buffer: Seq<u8>, span: FieldSpan) -> bool {
    &&& f.tag == span.tag
    &&& f.value@ == span.value(buffer)
    &&& f.offset == span.value_start
    &&& f.length == span.value_end + 1 - span.start
}

/// The tags and values of fields.
pub open spec fn tagged(fields: Seq<FixField>) -> Seq<(u32, Seq<u8>)> {
    Seq::new(fields.len(), |i: int| (fields[i].tag, fields[i].value@))
}

/// Fields as they are written, one behind the other.
pub open spec fn fields_text(fields: Seq<(u32, Seq<u8>)>) -> Seq<u8>
    decreases fields.len(),
{
    if fields.len() == 0 {
        Seq::empty()
    } else {
        fields_text(fields.drop_last()) + field_text(fields.last().0, fields.last().1)
    }
}

/// Where the checksummed part of written fields starts: at the first field behind the very start
/// that is neither the begin string nor the body length; at the start where there is none.
pub open spec fn checksum_start(fields: Seq<(u32, Seq<u8>)>) -> nat
    decreases fields.len(),
{
    if fields.len() == 0 {
        0
    } else {
        let before = checksum_start(fields.drop_last());
        if before == 0 && fields.last().0 != 8 && fields.last().0 != 9 {
            fields_text(fields.drop_last()).len()
        } else {
            before
        }
    }
}

/// The checksum that closes written fields.
pub open spec fn closing_checksum(fields: Seq<(u32, Seq<u8>)>) -> u8 {
    checksum(fields_text(fields).skip(checksum_start(fields) as int))
}

/// The checksum field as it is written.
pub open spec fn trailer(sum: u8) -> Seq<u8> {
    seq![49u8, 48u8, EQUALS] + checksum_text(sum) + seq![SOH]
}

/// An encoded message: the fields and the checksum field.
pub open spec fn encoded(fields: Seq<(u32, Seq<u8>)>) -> Seq<u8> {
    fields_text(fields) + trailer(closing_checksum(fields))
}

/// The first `k` fields as they are written.
pub open spec fn written(fields: Seq<FixField>, k: int) -> Seq<u8> {
    fields_text(tagged(fields).take(k))
}

/// True where field `i` fits behind the ones before it.
pub open spec fn fits(fields: Seq<FixField>, room: int, i: int) -> bool {
    written(fields, i).len() + fields[i].length <= room
}

/// True where encoding into `room` bytes stops for want of room once `k` fields are written.
pub open spec fn stops_after(fields: Seq<FixField>, room: int, k: int) -> bool {
    &&& 0 <= k <= fields.len()
    &&& forall|i: int| 0 <= i < k ==> #[trigger] fits(fields, room, i)
    &&& if k < fields.len() {
        !fits(fields, room, k)
    } else {
        encoded(tagged(fields)).len() > room
    }
}

/// True where an encoded message fits into `room` bytes.
pub open spec fn all_fit(fields: Seq<FixField>, room: int) -> bool {
    &&& forall|i: int| 0 <= i < fields.len() ==> #[trigger] fits(fields, room, i)
    &&& encoded(tagged(fields)).len() <= room
}

/// Writes a field at an offset and returns the number of bytes that it takes.
fn write_field(buffer: &mut [u8], at: usize, field: &FixField) -> (n: usize)
    requires
        at + field.text().len() <= old(buffer)@.len(),
    ensures
        n == field.text().len(),
        final(buffer)@ == old(buffer)@.take(at as int) + field.text() + old(buffer)@.skip(at + n),
{
    let room: usize = buffer.len();
    let ghost before = buffer@;
    let ghost tag_text = crate::bytes::decimal(field.tag as nat);
    assert(field.text().len() == tag_text.len() + 2 + field.value@.len());
    let n: usize = itoa_buffer(field.tag, buffer, at);
    buffer[at + n] = EQUALS;
    assert(buffer@ =~= before.take(at as int) + tag_text + seq![EQUALS] + before.skip(at + n + 1));
    write_at(buffer, at + n + 1, field.value);
    let m: usize = n + 1 + field.value.len();
    assert(buffer@ =~= before.take(at as int) + tag_text + seq![EQUALS] + field.value@
        + before.skip(at + m));
    buffer[at + m] = SOH;
    assert(buffer@ =~= before.take(at as int) + field.text() + before.skip(at + m + 1));
    m + 1
}

/// FIX codec with counters.
pub struct FixCodec {
    /// Messages encoded counter
    pub messages_encoded: u64,
    /// Messages decoded counter
    pub messages_decoded: u64,
    /// Parse errors counter
    pub parse_errors: u64,
}

/// Codec statistics.
#[derive(Debug, Clone, Copy)]
pub struct FixCodecStats {
    pub messages_encoded: u64,
    pub messages_decoded: u64,
    pub parse_errors: u64,
}

impl FixCodec {
    pub fn new() -> (c: Self)
        ensures
            c.messages_encoded == 0,
            c.messages_decoded == 0,
            c.parse_errors == 0,
    {
        Self { messages_encoded: 0, messages_decoded: 0, parse_errors: 0 }
    }

    /// The codec with one more parse error counted.
    pub open spec fn with_error(self) -> Self {
        FixCodec { parse_errors: self.parse_errors.wrapping_add(1), ..self }
    }

    /// The codec with one more encoded message counted.
    pub open spec fn with_encoded(self) -> Self {
        FixCodec { messages_encoded: self.messages_encoded.wrapping_add(1), ..self }
    }

    /// The codec with one more decoded message counted.
    pub open spec fn with_decoded(self) -> Self {
        FixCodec { messages_decoded: self.messages_decoded.wrapping_add(1), ..self }
    }

    fn count_error(&mut self)
        ensures
            *final(self) == old(self).with_error(),
    {
        self.parse_errors = self.parse_errors.wrapping_add(1);
    }

    /// Encodes a message into a buffer and returns the number of bytes written. Where the buffer
    /// is too small, it holds the fields that fit.
    pub fn encode(&mut self, msg: &FixMessage, buffer: &mut [u8]) -> (r: Result<usize, FixError>)
        requires
            msg.wf(),
        ensures
            r is Ok <==> all_fit(msg@, old(buffer)@.len() as int),
            match r {
                Ok(n) => {
                    &&& n == encoded(tagged(msg@)).len()
                    &&& final(buffer)@ == encoded(tagged(msg@)) + old(buffer)@.skip(n as int)
                    &&& *final(self) == old(self).with_encoded()
                },
                Err(e) => {
                    &&& e == FixError::BufferTooSmall
                    &&& *final(self) == old(self).with_error()
                    &&& exists|k: int| #[trigger]
                        stops_after(msg@, old(buffer)@.len() as int, k) && final(buffer)@
                            == written(msg@, k) + old(buffer)@.skip(written(msg@, k).len() as int)
                },
            },
    {
        let room: usize = buffer.len();
        let mut pos: usize = 0;
        let mut start: usize = 0;
        let mut i: usize = 0;
        let ghost fs = msg@;
        let ghost all = tagged(fs);
        proof {
            assert(all.take(0) =~= Seq::<(u32, Seq<u8>)>::empty());
            assert(buffer@ =~= written(fs, 0) + old(buffer)@.skip(0));
            lemma_encoded_len(all);
        }
        while i < msg.field_count
            invariant
                msg.wf(),
                fs == msg@,
                all == tagged(fs),
                i <= msg.field_count,
                room == old(buffer)@.len(),
                pos <= room,
                pos == written(fs, i as int).len(),
                buffer@ == written(fs, i as int) + old(buffer)@.skip(pos as int),
                start == checksum_start(all.take(i as int)),
                start <= pos,
                forall|j: int| 0 <= j < i ==> #[trigger] fits(fs, room as int, j),
                *self == *old(self),
            decreases msg.field_count - i,
        {
            let field = match msg.fields[i] {
                Some(f) => f,
                None => FixField::new(0, msg.buffer, 0, 0),
            };
            assert(field == fs[i as int]);
            if field.length > room - pos {
                self.count_error();
                proof {
                    assert(!fits(fs, room as int, i as int));
                    assert(stops_after(fs, room as int, i as int));
                }
                return Err(FixError::BufferTooSmall);
            }
            proof {
                assert(fits(fs, room as int, i as int));
                assert(all.take(i + 1).drop_last() =~= all.take(i as int));
                assert(all.take(i + 1).last() == (field.tag, field.value@));
                assert(field.wf());
            }
            if start == 0 && field.tag != 8 && field.tag != 9 {
                start = pos;
            }
            let n: usize = write_field(buffer, pos, &field);
            proof {
                let done = written(fs, i as int);
                let rest = old(buffer)@;
                assert((done + rest.skip(pos as int)).take(pos as int) =~= done);
                assert((done + rest.skip(pos as int)).skip(pos + n) =~= rest.skip(pos + n));
                assert(done + field.text() + rest.skip(pos + n) =~= written(fs, i + 1) + rest.skip(
                    pos + n,
                ));
            }
            pos = pos + n;
            i = i + 1;
        }
        let ghost done = fields_text(all);
        assert(all.take(i as int) =~= all);
        let sum = calculate_checksum(slice_subrange(buffer, start, pos));
        assert(buffer@.subrange(start as int, pos as int) =~= done.skip(start as int));
        if room - pos < 7 {
            self.count_error();
            assert(stops_after(fs, room as int, fs.len() as int));
            return Err(FixError::BufferTooSmall);
        }
        let ghost rest = old(buffer)@;
        buffer[pos] = 49;
        buffer[pos + 1] = 48;
        buffer[pos + 2] = EQUALS;
        assert(buffer@ =~= done + seq![49u8, 48u8, EQUALS] + rest.skip(pos + 3));
        write_checksum(buffer, pos + 3, sum);
        assert(buffer@ =~= done + seq![49u8, 48u8, EQUALS] + checksum_text(sum) + rest.skip(pos + 6));
        buffer[pos + 6] = SOH;
        assert(buffer@ =~= encoded(all) + rest.skip(pos + 7));
        self.messages_encoded = self.messages_encoded.wrapping_add(1);
        Ok(pos + 7)
    }

    /// Decodes a message from a buffer.
    pub fn decode<'b>(&mut self, buffer: &'b [u8]) -> (r: Result<FixMessage<'b>, FixError>)
        ensures
            match r {
                Ok(m) => {
                    &&& m.wf()
                    &&& message_fields(buffer@) matches Ok(spans) && m.is_decoded(buffer@, spans)
                    &&& *final(self) == old(self).with_decoded()
                },
                Err(e) => {
                    &&& message_fields(buffer@) == Err::<Seq<FieldSpan>, FixError>(e)
                    &&& *final(self) == old(self).with_error()
                },
            },
    {
        if buffer.len() == 0 {
            self.count_error();
            return Err(FixError::MalformedMessage);
        }
        let mut msg = FixMessage::new(buffer);
        let mut pos: usize = 0;
        let mut idx: usize = 0;
        let mut body_start: usize = 0;
        let mut body_end: usize = 0;
        let ghost mut done: Seq<FieldSpan> = Seq::empty();
        proof {
            assert(prepend(done, fields_from(buffer@, 0, 64)) == fields_from(buffer@, 0, 64)) by {
                match fields_from(buffer@, 0, 64) {
                    Ok(s) => {
                        assert(done + s =~= s);
                    },
                    Err(_) => {},
                }
            }
        }
        while pos < buffer.len() && idx < 64
            invariant
                buffer@.len() > 0,
                *self == *old(self),
                pos <= buffer@.len(),
                idx <= 64,
                idx == done.len(),
                message_fields(buffer@) == prepend(
                    done,
                    fields_from(buffer@, pos as int, (64 - idx) as nat),
                ),
                msg.buffer == buffer,
                msg.field_count == 0,
                msg.calculated_checksum == 0,
                forall|i: int| 0 <= i < 64 ==> (#[trigger] msg.fields[i] is Some <==> i < idx),
                forall|i: int|
                    0 <= i < idx ==> is_field_of(#[trigger] msg.fields[i]->0, buffer@, done[i])
                        && msg.fields[i]->0.wf(),
                opt_bytes(msg.msg_type) == opt_value(buffer@, last_with_tag(done, 35)),
                opt_bytes(msg.begin_string) == opt_value(buffer@, last_with_tag(done, 8)),
                match last_with_tag(done, 9) {
                    Some(span) => 0 < body_start == span.value_end + 1 && uint_of(
                        span.value(buffer@),
                    ) is Ok && msg.body_length == #[verifier::truncate] ((uint_of(span.value(buffer@))->Ok_0) as usize),
                    None => body_start == 0 && msg.body_length == 0,
                },
                match last_with_tag(done, 10) {
                    Some(span) => body_end == span.start && msg.checksum == checksum_of(
                        span.value(buffer@),
                    )->Ok_0,
                    None => body_end == 0 && msg.checksum == 0,
                },
                body_start <= buffer@.len(),
                body_end <= buffer@.len(),
            decreases buffer.len() - pos,
        {
            let ghost room = (64 - idx) as nat;
            proof {
                crate::bytes::lemma_first_index(buffer@, pos as int, EQUALS);
            }
            let eq_pos: usize = match find_byte(buffer, pos, EQUALS) {
                Some(p) => p,
                None => {
                    self.count_error();
                    return Err(FixError::InvalidTagFormat);
                },
            };
            let number: u64 = match parse_uint(slice_subrange(buffer, pos, eq_pos)) {
                Ok(n) => n,
                Err(_) => {
                    self.count_error();
                    return Err(FixError::InvalidTagFormat);
                },
            };
            let tag: u32 = #[verifier::truncate]
            (number as u32);
            assert(tag == number % 0x1_0000_0000) by {
                assert(number as u32 == number % 0x1_0000_0000) by (bit_vector);
            }
            proof {
                crate::bytes::lemma_first_index(buffer@, eq_pos + 1, SOH);
            }
            let soh_pos: usize = match find_byte(buffer, eq_pos + 1, SOH) {
                Some(p) => p,
                None => {
                    self.count_error();
                    return Err(FixError::MalformedMessage);
                },
            };
            let value = slice_subrange(buffer, eq_pos + 1, soh_pos);
            let ghost span = FieldSpan {
                tag,
                start: pos as int,
                value_start: eq_pos + 1,
                value_end: soh_pos as int,
            };
            assert(value@ == span.value(buffer@));
            if tag == 9 {
                msg.body_length = match parse_uint(value) {
                    Ok(n) => #[verifier::truncate] (n as usize),
                    Err(_) => {
                        self.count_error();
                        return Err(FixError::ParseError);
                    },
                };
                body_start = soh_pos + 1;
            } else if tag == 10 {
                msg.checksum = match parse_checksum(value) {
                    Ok(c) => c,
                    Err(_) => {
                        self.count_error();
                        return Err(FixError::InvalidChecksum);
                    },
                };
                body_end = pos;
            }
            let field = FixField::new(tag, value, eq_pos + 1, soh_pos + 1 - pos);
            proof {
                let tag_bytes = buffer@.subrange(pos as int, eq_pos as int);
                crate::bytes::lemma_decimal_shortest(tag_bytes, tag as nat);
                assert(field.wf());
                assert(is_field_of(field, buffer@, span));
            }
            let ghost before = msg.fields;
            msg.fields[idx] = Some(field);
            assert(msg.fields[idx as int] == Some(field));
            if tag == 35 {
                msg.msg_type = Some(value);
            } else if tag == 8 {
                msg.begin_string = Some(value);
            }
            proof {
                assert(field_at(buffer@, pos as int) == Ok::<FieldSpan, FixError>(span));
                let rest = fields_from(buffer@, soh_pos + 1, (room - 1) as nat);
                assert(prepend(done, prepend(seq![span], rest)) == prepend(done.push(span), rest)) by {
                    match rest {
                        Ok(s) => {
                            assert(done + (seq![span] + s) =~= done.push(span) + s);
                        },
                        Err(_) => {},
                    }
                }
                assert(done.push(span).drop_last() =~= done);
                let earlier = done;
                done = done.push(span);
                assert forall|i: int| 0 <= i < idx + 1 implies is_field_of(
                    #[trigger] msg.fields[i]->0,
                    buffer@,
                    done[i],
                ) && msg.fields[i]->0.wf() by {
                    if i < idx {
                        assert(msg.fields[i] == before[i]);
                        assert(is_field_of(before[i]->0, buffer@, earlier[i]));
                        assert(done[i] == earlier[i]);
                    } else {
                        assert(msg.fields[i]->0 == field);
                        assert(done[i] == span);
                    }
                }
            }
            idx = idx + 1;
            pos = soh_pos + 1;
        }
        proof {
            assert(fields_from(buffer@, pos as int, (64 - idx) as nat) == Ok::<
                Seq<FieldSpan>,
                FixError,
            >(Seq::empty()));
            assert(done + Seq::<FieldSpan>::empty() =~= done);
        }
        msg.field_count = idx;
        if body_start > 0 && body_end > body_start {
            msg.calculated_checksum = calculate_checksum(
                slice_subrange(buffer, body_start, body_end),
            );
        }
        self.messages_decoded = self.messages_decoded.wrapping_add(1);
        proof {
            assert forall|i: int| 0 <= i < done.len() implies is_field_of(
                #[trigger] msg@[i],
                buffer@,
                done[i],
            ) && msg@[i].wf() by {
                assert(msg@[i] == msg.fields[i]->0);
                assert(is_field_of(msg.fields[i]->0, buffer@, done[i]));
            }
            assert(crate::bytes::byte_sum(Seq::<u8>::empty()) == 0);
            if body_start > 0 && body_end > body_start {
                assert(checked_part(buffer@, done) == buffer@.subrange(
                    body_start as int,
                    body_end as int,
                ));
            } else {
                assert(checked_part(buffer@, done) == Seq::<u8>::empty());
            }
            assert(msg.is_decoded(buffer@, done));
        }
        Ok(msg)
    }

    /// The counters.
    pub fn get_stats(&self) -> (s: FixCodecStats)
        ensures
            s.messages_encoded == self.messages_encoded,
            s.messages_decoded == self.messages_decoded,
            s.parse_errors == self.parse_errors,
    {
        FixCodecStats {
            messages_encoded: self.messages_encoded,
            messages_decoded: self.messages_decoded,
            parse_errors: self.parse_errors,
        }
    }
}

impl Default for FixCodec {
    fn default() -> (c: Self)
        ensures
            c.messages_encoded == 0,
            c.messages_decoded == 0,
            c.parse_errors == 0,
    {
        Self::new()
    }
}

/// The checksum field takes seven bytes.
proof fn lemma_encoded_len(fields: Seq<(u32, Seq<u8>)>)
    ensures
        encoded(fields).len() == fields_text(fields).len() + 7,
        checksum_start(fields) <= fields_text(fields).len(),
    decreases fields.len(),
{
    if fields.len() > 0 {
        lemma_encoded_len(fields.drop_last());
    }
}

/// True of a field that can be read back: no SOH inside the value, and a body length or a checksum
/// has its form.
pub open spec fn readable(tag: u32, value: Seq<u8>) -> bool {
    &&& forall|i: int| 0 <= i < value.len() ==> value[i] != SOH
    &&& tag == 9 ==> uint_of(value) is Ok
    &&& tag == 10 ==> checksum_of(value) is Ok
}

/// True where a buffer holds a field, as it is written, at `pos`.
pub open spec fn holds_field(buffer: Seq<u8>, pos: int, tag: u32, value: Seq<u8>) -> bool {
    &&& 0 <= pos
    &&& pos + field_text(tag, value).len() <= buffer.len()
    &&& buffer.subrange(pos, pos + field_text(tag, value).len()) == field_text(tag, value)
}

/// The span of a field that is written at `pos`.
pub open spec fn span_at(pos: int, tag: u32, value: Seq<u8>) -> FieldSpan {
    let value_start = pos + crate::bytes::decimal(tag as nat).len() + 1;
    FieldSpan { tag, start: pos, value_start, value_end: value_start + value.len() }
}

/// A written field is read back where it stands.
pub proof fn law_field_reads_back(buffer: Seq<u8>, pos: int, tag: u32, value: Seq<u8>)
    requires
        holds_field(buffer, pos, tag, value),
        readable(tag, value),
    ensures
        field_at(buffer, pos) == Ok::<FieldSpan, FixError>(span_at(pos, tag, value)),
        span_at(pos, tag, value).value(buffer) == value,
{
    let digits = crate::bytes::decimal(tag as nat);
    let text = field_text(tag, value);
    let n = digits.len() as int;
    crate::bytes::lemma_decimal_roundtrip(tag as nat);
    assert forall|j: int| 0 <= j < text.len() implies buffer[pos + j] == text[j] by {
        assert(buffer.subrange(pos, pos + text.len())[j] == text[j]);
    }
    assert forall|j: int| pos <= j < pos + n implies buffer[j] != EQUALS by {
        assert(buffer[pos + (j - pos)] == text[j - pos]);
        assert(crate::bytes::is_digit(digits[j - pos]));
    }
    assert(buffer[pos + n] == text[n]);
    crate::bytes::lemma_first_index_is(buffer, pos, EQUALS, pos + n);
    assert(buffer.subrange(pos, pos + n) =~= digits) by {
        assert forall|j: int| 0 <= j < n implies buffer.subrange(pos, pos + n)[j] == digits[j] by {
            assert(buffer[pos + j] == text[j]);
        }
    }
    let end = pos + n + 1 + value.len();
    assert forall|j: int| pos + n + 1 <= j < end implies buffer[j] == value[j - pos - n - 1] by {
        assert(buffer[pos + (j - pos)] == text[j - pos]);
    }
    assert(buffer[end] == SOH) by {
        assert(buffer[pos + (end - pos)] == text[end - pos]);
    }
    crate::bytes::lemma_first_index_is(buffer, pos + n + 1, SOH, end);
    assert(buffer.subrange(pos + n + 1, end) =~= value);
}

/// A checksum that was written reads back as itself.
pub proof fn law_checksum_reads_back(sum: u8)
    ensures
        checksum_of(checksum_text(sum)) == Ok::<u8, FixError>(sum),
        readable(10, checksum_text(sum)),
{
}

/// The spans that a message written from the start of a buffer has.
pub open spec fn spans_of(fields: Seq<(u32, Seq<u8>)>) -> Seq<FieldSpan> {
    Seq::new(
        fields.len(),
        |i: int| span_at(fields_text(fields.take(i)).len() as int, fields[i].0, fields[i].1),
    )
}

/// Decoding gives back what was encoded: a message of fewer than 64 readable fields decodes to
/// the same tags and values in the same order, followed by the checksum field with the checksum
/// that was calculated.
pub proof fn law_decode_encoded(fields: Seq<(u32, Seq<u8>)>)
    requires
        fields.len() < MAX_FIX_FIELDS,
        forall|i: int| 0 <= i < fields.len() ==> readable((#[trigger] fields[i]).0, fields[i].1),
    ensures
        ({
            let sum = closing_checksum(fields);
            let closed = fields.push((10u32, checksum_text(sum)));
            &&& message_fields(encoded(fields)) == Ok::<Seq<FieldSpan>, FixError>(spans_of(closed))
            &&& forall|i: int|
                0 <= i < closed.len() ==> {
                    &&& (#[trigger] spans_of(closed)[i]).tag == closed[i].0
                    &&& spans_of(closed)[i].value(encoded(fields)) == closed[i].1
                }
            &&& checksum_of(spans_of(closed).last().value(encoded(fields))) == Ok::<u8, FixError>(sum)
        }),
{
    let sum = closing_checksum(fields);
    let closed = fields.push((10u32, checksum_text(sum)));
    law_checksum_reads_back(sum);
    assert(closed.drop_last() =~= fields);
    assert(crate::bytes::decimal(10) =~= seq![49u8, 48u8]) by {
        assert(crate::bytes::decimal(1) =~= seq![49u8]);
    }
    assert(fields_text(closed) =~= encoded(fields));
    assert forall|i: int| 0 <= i < closed.len() implies readable(
        (#[trigger] closed[i]).0,
        closed[i].1,
    ) by {
        if i < fields.len() {
            assert(closed[i] == fields[i]);
        }
    }
    law_decode_fields_text(closed);
}

/// A message that was encoded and decoded again validates: its checksum is the calculated one.
/// Its body length stands at `at` and does not occur again; between the first field and that one
/// stand only begin strings and body lengths; the field behind it is no begin string.
pub proof fn law_encoded_message_validates(
    fields: Seq<(u32, Seq<u8>)>,
    at: int,
    spans: Seq<FieldSpan>,
    m: FixMessage,
)
    requires
        0 <= at < fields.len() - 1,
        fields.len() < MAX_FIX_FIELDS,
        forall|i: int| 0 <= i < fields.len() ==> readable((#[trigger] fields[i]).0, fields[i].1),
        fields[at].0 == 9,
        forall|i: int| at < i < fields.len() ==> (#[trigger] fields[i]).0 != 9,
        forall|i: int| 0 < i < at ==> (#[trigger] fields[i]).0 == 8 || fields[i].0 == 9,
        fields[at + 1].0 != 8,
        message_fields(encoded(fields)) == Ok::<Seq<FieldSpan>, FixError>(spans),
        m.is_decoded(encoded(fields), spans),
    ensures
        m.checksum == m.calculated_checksum,
        m.checksum == closing_checksum(fields),
{
    let sum = closing_checksum(fields);
    let closed = fields.push((10u32, checksum_text(sum)));
    let text = fields_text(fields);
    let n = fields.len() as int;
    law_decode_encoded(fields);
    assert(spans == spans_of(closed));
    assert(closed.take(n) =~= fields);
    assert(spans[n].tag == closed[n].0);
    assert(last_with_tag(spans, 10) == Some(spans[n]));
    assert(spans[n].start == text.len());
    assert forall|i: int| at < i <= n implies (#[trigger] spans[i]).tag != 9 by {
        assert(spans[i].tag == closed[i].0);
        if i < n {
            assert(closed[i] == fields[i]);
        }
    }
    assert(spans[at].tag == closed[at].0 && closed[at] == fields[at]);
    lemma_last_with_tag(spans, 9, at);
    lemma_written_field(closed, at);
    assert(closed.take(at + 1) =~= fields.take(at + 1));
    let start = fields_text(fields.take(at + 1)).len() as int;
    assert(spans[at].value_end + 1 == start);
    lemma_checksum_start(fields, at, n);
    assert(fields.take(n) =~= fields);
    lemma_text_grows(fields, at + 1, n);
    assert(start < text.len());
    assert(checked_part(encoded(fields), spans) =~= text.skip(start));
}

/// The last field with a tag is the one behind which no other has it.
proof fn lemma_last_with_tag(spans: Seq<FieldSpan>, tag: u32, at: int)
    requires
        0 <= at < spans.len(),
        spans[at].tag == tag,
        forall|i: int| at < i < spans.len() ==> (#[trigger] spans[i]).tag != tag,
    ensures
        last_with_tag(spans, tag) == Some(spans[at]),
    decreases spans.len(),
{
    if at < spans.len() - 1 {
        assert(spans[spans.len() - 1].tag != tag);
        let rest = spans.drop_last();
        assert forall|i: int| at < i < rest.len() implies (#[trigger] rest[i]).tag != tag by {
            assert(spans[i].tag != tag);
        }
        lemma_last_with_tag(rest, tag, at);
    }
}

/// More fields take more bytes.
proof fn lemma_text_grows(fields: Seq<(u32, Seq<u8>)>, i: int, k: int)
    requires
        0 <= i <= k <= fields.len(),
    ensures
        fields_text(fields.take(i)).len() + (k - i) <= fields_text(fields.take(k)).len(),
    decreases k,
{
    if i < k {
        lemma_text_grows(fields, i, k - 1);
        assert(fields.take(k).drop_last() =~= fields.take(k - 1));
    }
}

/// Where nothing but begin strings and body lengths stands between the first field and `at`, the
/// checksummed part starts behind `at`.
proof fn lemma_checksum_start(fields: Seq<(u32, Seq<u8>)>, at: int, k: int)
    requires
        0 <= at < fields.len() - 1,
        fields[at].0 == 9,
        forall|i: int| 0 < i < at ==> (#[trigger] fields[i]).0 == 8 || fields[i].0 == 9,
        fields[at + 1].0 != 8,
        fields[at + 1].0 != 9,
        0 <= k <= fields.len(),
    ensures
        checksum_start(fields.take(k)) == if k <= at + 1 {
            0
        } else {
            fields_text(fields.take(at + 1)).len() as int
        },
    decreases k,
{
    if k > 0 {
        assert(fields.take(k).drop_last() =~= fields.take(k - 1));
        assert(fields.take(k).last() == fields[k - 1]);
        lemma_checksum_start(fields, at, k - 1);
        lemma_text_grows(fields, 0, at + 1);
        if k == 1 {
            assert(fields.take(0) =~= Seq::empty());
        }
    }
}

/// Fields that were written one behind the other decode to the same tags and values.
pub proof fn law_decode_fields_text(fields: Seq<(u32, Seq<u8>)>)
    requires
        0 < fields.len() <= MAX_FIX_FIELDS,
        forall|i: int| 0 <= i < fields.len() ==> readable((#[trigger] fields[i]).0, fields[i].1),
    ensures
        message_fields(fields_text(fields)) == Ok::<Seq<FieldSpan>, FixError>(spans_of(fields)),
        forall|i: int|
            0 <= i < fields.len() ==> {
                &&& (#[trigger] spans_of(fields)[i]).tag == fields[i].0
                &&& spans_of(fields)[i].value(fields_text(fields)) == fields[i].1
            },
{
    lemma_fields_read_back(fields, 0, MAX_FIX_FIELDS as nat);
    assert(spans_of(fields).skip(0) =~= spans_of(fields));
    assert(fields.take(0) =~= Seq::<(u32, Seq<u8>)>::empty());
    lemma_written_field(fields, 0);
    assert forall|i: int| 0 <= i < fields.len() implies {
        &&& (#[trigger] spans_of(fields)[i]).tag == fields[i].0
        &&& spans_of(fields)[i].value(fields_text(fields)) == fields[i].1
    } by {
        lemma_written_field(fields, i);
        law_field_reads_back(
            fields_text(fields),
            fields_text(fields.take(i)).len() as int,
            fields[i].0,
            fields[i].1,
        );
    }
}

/// Field `i` of written fields stands behind the ones before it.
proof fn lemma_written_field(fields: Seq<(u32, Seq<u8>)>, i: int)
    requires
        0 <= i < fields.len(),
    ensures
        holds_field(
            fields_text(fields),
            fields_text(fields.take(i)).len() as int,
            fields[i].0,
            fields[i].1,
        ),
        fields_text(fields.take(i + 1)).len() == fields_text(fields.take(i)).len() + field_text(
            fields[i].0,
            fields[i].1,
        ).len(),
    decreases fields.len(),
{
    let shorter = fields.drop_last();
    let text = field_text(fields[i].0, fields[i].1);
    let pos = fields_text(fields.take(i)).len() as int;
    assert(fields.take(i + 1).drop_last() =~= fields.take(i));
    if i == fields.len() - 1 {
        assert(fields.take(i) =~= shorter);
        assert(fields_text(fields).subrange(pos, pos + text.len()) =~= text);
    } else {
        lemma_written_field(shorter, i);
        assert(shorter.take(i) =~= fields.take(i));
        assert(fields_text(fields).subrange(pos, pos + text.len()) =~= fields_text(
            shorter,
        ).subrange(pos, pos + text.len()));
    }
}

/// From field `i` on, written fields are read back.
proof fn lemma_fields_read_back(fields: Seq<(u32, Seq<u8>)>, i: int, room: nat)
    requires
        0 <= i <= fields.len(),
        fields.len() - i <= room,
        forall|j: int| 0 <= j < fields.len() ==> readable((#[trigger] fields[j]).0, fields[j].1),
    ensures
        fields_from(fields_text(fields), fields_text(fields.take(i)).len() as int, room) == Ok::<
            Seq<FieldSpan>,
            FixError,
        >(spans_of(fields).skip(i)),
    decreases fields.len() - i,
{
    let buffer = fields_text(fields);
    let pos = fields_text(fields.take(i)).len() as int;
    if i == fields.len() {
        assert(fields.take(i) =~= fields);
        assert(spans_of(fields).skip(i) =~= Seq::<FieldSpan>::empty());
    } else {
        lemma_written_field(fields, i);
        law_field_reads_back(buffer, pos, fields[i].0, fields[i].1);
        lemma_fields_read_back(fields, i + 1, (room - 1) as nat);
        let span = span_at(pos, fields[i].0, fields[i].1);
        assert(span.value_end + 1 == fields_text(fields.take(i + 1)).len());
        assert(seq![span] + spans_of(fields).skip(i + 1) =~= spans_of(fields).skip(i));
    }
}

/// The fields of a decoded message are readable, so encoding it and decoding the result gives the
/// same tags and values.
pub proof fn law_decoded_fields_are_readable(buffer: Seq<u8>, spans: Seq<FieldSpan>)
    requires
        message_fields(buffer) == Ok::<Seq<FieldSpan>, FixError>(spans),
    ensures
        spans.len() <= MAX_FIX_FIELDS,
        forall|i: int|
            0 <= i < spans.len() ==> readable((#[trigger] spans[i]).tag, spans[i].value(buffer)),
{
    lemma_spans_are_readable(buffer, 0, MAX_FIX_FIELDS as nat);
}

/// The fields from `pos` on are readable.
proof fn lemma_spans_are_readable(buffer: Seq<u8>, pos: int, room: nat)
    requires
        0 <= pos,
    ensures
        fields_from(buffer, pos, room) matches Ok(spans) ==> spans.len() <= room && forall|i: int|
            0 <= i < spans.len() ==> readable((#[trigger] spans[i]).tag, spans[i].value(buffer)),
    decreases room,
{
    if pos < buffer.len() && room > 0 {
        crate::bytes::lemma_first_index(buffer, pos, EQUALS);
        match crate::bytes::first_index(buffer, pos, EQUALS) {
            Some(eq) => {
                crate::bytes::lemma_first_index(buffer, eq + 1, SOH);
                match field_at(buffer, pos) {
                    Ok(span) => {
                        lemma_spans_are_readable(buffer, span.value_end + 1, (room - 1) as nat);
                        match fields_from(buffer, span.value_end + 1, (room - 1) as nat) {
                            Ok(rest) => {
                                let spans = seq![span] + rest;
                                assert(readable(span.tag, span.value(buffer)));
                                assert forall|i: int| 0 <= i < spans.len() implies readable(
                                    (#[trigger] spans[i]).tag,
                                    spans[i].value(buffer),
                                ) by {
                                    if i > 0 {
                                        assert(spans[i] == rest[i - 1]);
                                    }
                                }
                            },
                            Err(_) => {},
                        }
                    },
                    Err(_) => {},
                }
            },
            None => {},
        }
    }
}

/// A recognised tag is found again by its number.
pub proof fn law_tag_numbers_are_distinct(a: FixTag, b: FixTag)
    requires
        a.is_recognised(),
        b.is_recognised(),
        a.number() == b.number(),
    ensures
        a == b,
{
}

/// No two errors share a code.
pub proof fn law_error_codes_are_distinct(a: FixError, b: FixError)
    requires
        a.code() == b.code(),
    ensures
        a == b,
{
}

/// Each tag has the number that FIX 4.4 gives it.
pub proof fn law_tags_have_their_fix_numbers()
    ensures
        FixTag::BeginString.number() == 8,
        FixTag::BodyLength.number() == 9,
        FixTag::CheckSum.number() == 10,
        FixTag::ClOrdID.number() == 11,
        FixTag::ExecID.number() == 17,
        FixTag::LastPx.number() == 31,
        FixTag::LastQty.number() == 32,
        FixTag::MsgSeqNum.number() == 34,
        FixTag::MsgType.number() == 35,
        FixTag::OrderQty.number() == 38,
        FixTag::OrdStatus.number() == 39,
        FixTag::OrdType.number() == 40,
        FixTag::Price.number() == 44,
        FixTag::SenderCompID.number() == 49,
        FixTag::SendingTime.number() == 52,
        FixTag::Side.number() == 54,
        FixTag::Symbol.number() == 55,
        FixTag::TargetCompID.number() == 56,
        FixTag::Text.number() == 58,
        FixTag::TimeInForce.number() == 59,
        FixTag::PossResend.number() == 97,
        FixTag::EncryptMethod.number() == 98,
        FixTag::HeartBtInt.number() == 108,
        FixTag::HeartbeatInterval.number() == 108,
        FixTag::TestReqID.number() == 112,
        FixTag::GapFillFlag.number() == 123,
        FixTag::ResetSeqNumFlag.number() == 141,
        FixTag::ExecType.number() == 150,
{
}

/// Each error has a code of its own, by which it is known outside.
pub proof fn law_errors_have_their_codes()
    ensures
        FixError::BufferTooSmall.code() == 1,
        FixError::InvalidTagFormat.code() == 2,
        FixError::MissingRequiredField.code() == 3,
        FixError::InvalidChecksum.code() == 4,
        FixError::InvalidUtf8.code() == 5,
        FixError::EmptyValue.code() == 6,
        FixError::ParseError.code() == 7,
        FixError::MalformedMessage.code() == 8,
        FixError::OutOfBounds.code() == 9,
        FixError::SessionNotActive.code() == 10,
        FixError::SequenceGap.code() == 11,
        FixError::InvalidMessageType.code() == 12,
{
}

/// The field that is read by a tag carries the number of the tag, and no field before it does.
pub proof fn law_first_field_is_read(fields: Seq<FixField>, from: int, tag: u32)
    requires
        0 <= from <= fields.len(),
    ensures
        match first_with_tag(fields, from, tag) {
            Some(f) => f.tag == tag && exists|i: int|
                from <= i < fields.len() && #[trigger] fields[i] == f && forall|j: int|
                    from <= j < i ==> (#[trigger] fields[j]).tag != tag,
            None => forall|j: int| from <= j < fields.len() ==> (#[trigger] fields[j]).tag != tag,
        },
    decreases fields.len() - from,
{
    if from < fields.len() && fields[from].tag != tag {
        law_first_field_is_read(fields, from + 1, tag);
    }
}

/// The type and version of a message, its length and its checksum come from the last fields with
/// their tags.
pub proof fn law_last_field_counts(spans: Seq<FieldSpan>, tag: u32)
    ensures
        match last_with_tag(spans, tag) {
            Some(span) => span.tag == tag && exists|i: int|
                0 <= i < spans.len() && #[trigger] spans[i] == span && forall|j: int|
                    i < j < spans.len() ==> (#[trigger] spans[j]).tag != tag,
            None => forall|j: int| 0 <= j < spans.len() ==> (#[trigger] spans[j]).tag != tag,
        },
    decreases spans.len(),
{
    if spans.len() > 0 {
        if spans.last().tag == tag {
            assert(spans[spans.len() - 1].tag == tag);
        } else {
            let rest = spans.drop_last();
            law_last_field_counts(rest, tag);
            match last_with_tag(rest, tag) {
                Some(span) => {
                    let i = choose|i: int|
                        0 <= i < rest.len() && #[trigger] rest[i] == span && forall|j: int|
                            i < j < rest.len() ==> (#[trigger] rest[j]).tag != tag;
                    assert(spans[i] == span);
                    assert forall|j: int| i < j < spans.len() implies (#[trigger] spans[j]).tag
                        != tag by {
                        if j < rest.len() {
                            assert(rest[j].tag != tag);
                        }
                    }
                },
                None => {
                    assert forall|j: int| 0 <= j < spans.len() implies (#[trigger] spans[j]).tag
                        != tag by {
                        if j < rest.len() {
                            assert(rest[j].tag != tag);
                        }
                    }
                },
            }
        }
    }
}

/// A field ends at the first byte 1 behind its first byte 61, its tag stands before that byte and
/// its value behind it; the next field starts where it ends.
pub proof fn law_fields_lie_between_their_delimiters(buffer: Seq<u8>, pos: int, room: nat)
    requires
        0 <= pos < buffer.len(),
        room > 0,
        field_at(buffer, pos) is Ok,
    ensures
        ({
            let span = field_at(buffer, pos)->Ok_0;
            &&& span.start == pos
            &&& pos < span.value_start <= span.value_end < buffer.len()
            &&& buffer[span.value_start - 1] == 61
            &&& buffer[span.value_end] == 1
            &&& forall|i: int| pos <= i < span.value_start - 1 ==> #[trigger] buffer[i] != 61
            &&& forall|i: int| span.value_start <= i < span.value_end ==> #[trigger] buffer[i] != 1
            &&& forall|i: int|
                pos <= i < span.value_start - 1 ==> 48 <= #[trigger] buffer[i] <= 57
            &&& span.tag == crate::bytes::decimal_value(
                buffer.subrange(pos, span.value_start - 1),
            ) % 0x1_0000_0000
            &&& match (
                fields_from(buffer, pos, room),
                fields_from(buffer, span.value_end + 1, (room - 1) as nat),
            ) {
                (Ok(all), Ok(rest)) => all.len() == rest.len() + 1 && all[0] == span && all.skip(1)
                    == rest,
                (Err(a), Err(b)) => a == b,
                _ => false,
            }
        }),
{
    let span = field_at(buffer, pos)->Ok_0;
    crate::bytes::lemma_first_index(buffer, pos, EQUALS);
    let eq = crate::bytes::first_index(buffer, pos, EQUALS)->0;
    crate::bytes::lemma_first_index(buffer, eq + 1, SOH);
    let text = buffer.subrange(pos, eq);
    assert forall|i: int| pos <= i < eq implies 48 <= #[trigger] buffer[i] <= 57 by {
        assert(crate::bytes::is_digit(text[i - pos]));
    }
    match fields_from(buffer, span.value_end + 1, (room - 1) as nat) {
        Ok(rest) => {
            assert((seq![span] + rest).skip(1) =~= rest);
        },
        Err(_) => {},
    }
}

/// The checksum of bytes is their sum modulo 256: that of one byte is the byte, and that of two
/// strings in a row the sum of theirs.
pub proof fn law_checksum_adds_up(a: Seq<u8>, b: Seq<u8>, byte: u8)
    ensures
        checksum(Seq::<u8>::empty()) == 0,
        checksum(seq![byte]) == byte,
        checksum(a + b) == (checksum(a) + checksum(b)) % 256,
    decreases b.len(),
{
    assert(seq![byte].drop_last() =~= Seq::<u8>::empty());
    assert(seq![byte].last() == byte);
    reveal_with_fuel(crate::bytes::byte_sum, 2);
    lemma_byte_sum_adds(a, b);
}

proof fn lemma_byte_sum_adds(a: Seq<u8>, b: Seq<u8>)
    ensures
        crate::bytes::byte_sum(a + b) == crate::bytes::byte_sum(a) + crate::bytes::byte_sum(b),
    decreases b.len(),
{
    if b.len() == 0 {
        assert(a + b =~= a);
    } else {
        lemma_byte_sum_adds(a, b.drop_last());
        assert((a + b).drop_last() =~= a + b.drop_last());
        assert((a + b).last() == b.last());
    }
}

/// A message that starts with the begin string and the body length is closed by the checksum of
/// the fields behind those two.
pub proof fn law_checksum_covers_the_body(fields: Seq<(u32, Seq<u8>)>)
    requires
        fields.len() > 2,
        fields[0].0 == 8,
        fields[1].0 == 9,
        fields[2].0 != 8,
        fields[2].0 != 9,
    ensures
        closing_checksum(fields) == checksum(fields_text(fields.skip(2))),
        encoded(fields) == fields_text(fields) + seq![49u8, 48u8, 61u8] + checksum_text(
            closing_checksum(fields),
        ) + seq![1u8],
{
    let n = fields.len() as int;
    lemma_checksum_start(fields, 1, n);
    assert(fields.take(n) =~= fields);
    lemma_text_of_parts(fields.take(2), fields.skip(2));
    assert(fields.take(2) + fields.skip(2) =~= fields);
    let head = fields_text(fields.take(2));
    assert(fields_text(fields).skip(head.len() as int) =~= fields_text(fields.skip(2)));
    assert(encoded(fields) =~= fields_text(fields) + seq![49u8, 48u8, 61u8] + checksum_text(
        closing_checksum(fields),
    ) + seq![1u8]);
}

proof fn lemma_text_of_parts(a: Seq<(u32, Seq<u8>)>, b: Seq<(u32, Seq<u8>)>)
    ensures
        fields_text(a + b) == fields_text(a) + fields_text(b),
    decreases b.len(),
{
    if b.len() == 0 {
        assert(a + b =~= a);
        assert(fields_text(a) + fields_text(b) =~= fields_text(a));
    } else {
        lemma_text_of_parts(a, b.drop_last());
        assert((a + b).drop_last() =~= a + b.drop_last());
        assert((a + b).last() == b.last());
        assert(fields_text(a + b) =~= fields_text(a) + fields_text(b));
    }
}

/// A checksum is written as three digits from 0 to 7, the first of which stands for sixty-fours
/// and the second for eights; nothing else is read as a checksum.
pub proof fn law_checksums_are_octal(sum: u8, text: Seq<u8>)
    ensures
        checksum_text(sum).len() == 3,
        forall|i: int| 0 <= i < 3 ==> 48 <= #[trigger] checksum_text(sum)[i] <= 55,
        64 * (checksum_text(sum)[0] - 48) + 8 * (checksum_text(sum)[1] - 48) + (checksum_text(sum)[2]
            - 48) == sum,
        match checksum_of(text) {
            Ok(s) => text == checksum_text(s),
            Err(e) => e == FixError::ParseError && forall|s: u8|
                text != #[trigger] checksum_text(s),
        },
{
    match checksum_of(text) {
        Ok(s) => {
            assert(text =~= checksum_text(s));
        },
        Err(_) => {
            assert forall|s: u8| text != #[trigger] checksum_text(s) by {
                law_checksum_reads_back(s);
            }
        },
    }
}

/// An unsigned number is read from a text of digits exactly where it fits, a signed one also with a
/// sign before it, which turns it round where it is a minus.
pub proof fn law_numbers_are_read(bytes: Seq<u8>, minus: Seq<u8>, plus: Seq<u8>)
    requires
        minus == seq![45u8] + bytes,
        plus == seq![43u8] + bytes,
        bytes.len() > 0,
        crate::bytes::all_digits(bytes),
    ensures
        ({
            let n = crate::bytes::decimal_value(bytes);
            &&& uint_of(bytes) == if n <= 0xffff_ffff_ffff_ffff {
                Ok::<u64, FixError>(n as u64)
            } else {
                Err::<u64, FixError>(FixError::ParseError)
            }
            &&& n <= 0x7fff_ffff_ffff_ffff ==> int_of(bytes) == Ok::<i64, FixError>(n as i64)
            &&& n <= 0x7fff_ffff_ffff_ffff ==> int_of(plus) == Ok::<i64, FixError>(n as i64)
            &&& n <= 0x7fff_ffff_ffff_ffff ==> int_of(minus) == Ok::<i64, FixError>((-n) as i64)
            &&& n > 0x7fff_ffff_ffff_ffff ==> int_of(bytes) is Err && int_of(plus) is Err
                && int_of(minus) is Err
            &&& uint_of(plus) is Err
            &&& uint_of(minus) is Err
        }),
        uint_of(Seq::<u8>::empty()) == Err::<u64, FixError>(FixError::EmptyValue),
        int_of(Seq::<u8>::empty()) == Err::<i64, FixError>(FixError::EmptyValue),
{
    assert(crate::bytes::is_digit(bytes[0]));
    assert(minus.skip(1) =~= bytes);
    assert(plus.skip(1) =~= bytes);
    assert(!crate::bytes::is_digit(minus[0]));
    assert(!crate::bytes::is_digit(plus[0]));
}

/// What is decoded of a message is what its fields say: its type stands behind tag 35, its version
/// behind tag 8, its length in decimal behind tag 9 and its checksum behind tag 10.
pub proof fn law_decoded_message_reads_its_header(
    m: FixMessage,
    buffer: Seq<u8>,
    spans: Seq<FieldSpan>,
    i: int,
)
    requires
        m.is_decoded(buffer, spans),
        0 <= i < spans.len(),
        forall|j: int| i < j < spans.len() ==> (#[trigger] spans[j]).tag != spans[i].tag,
    ensures
        m@[i].tag == spans[i].tag,
        m@[i].value@ == buffer.subrange(spans[i].value_start, spans[i].value_end),
        spans[i].tag == 35 ==> m.msg_type is Some && m.msg_type->0@ == m@[i].value@,
        spans[i].tag == 8 ==> m.begin_string is Some && m.begin_string->0@ == m@[i].value@,
        spans[i].tag == 9 && uint_of(m@[i].value@) is Ok && uint_of(m@[i].value@)->Ok_0 <= u32::MAX
            ==> m.body_length == uint_of(m@[i].value@)->Ok_0,
        spans[i].tag == 10 && checksum_of(m@[i].value@) is Ok ==> m.checksum == checksum_of(
            m@[i].value@,
        )->Ok_0,
{
    assert(is_field_of(m@[i], buffer, spans[i]));
    lemma_last_with_tag(spans, spans[i].tag, i);
}

/// A codec counts what it encodes, what it decodes and what it cannot read, each by itself.
pub proof fn law_codec_counts_messages(c: FixCodec)
    requires
        c.parse_errors < u64::MAX,
        c.messages_encoded < u64::MAX,
        c.messages_decoded < u64::MAX,
    ensures
        c.with_error().parse_errors == c.parse_errors + 1,
        c.with_error().messages_encoded == c.messages_encoded,
        c.with_error().messages_decoded == c.messages_decoded,
        c.with_encoded().messages_encoded == c.messages_encoded + 1,
        c.with_encoded().messages_decoded == c.messages_decoded,
        c.with_encoded().parse_errors == c.parse_errors,
        c.with_decoded().messages_decoded == c.messages_decoded + 1,
        c.with_decoded().messages_encoded == c.messages_encoded,
        c.with_decoded().parse_errors == c.parse_errors,
{
}

} // verus!
