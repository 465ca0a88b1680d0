//! The header scanner: locating `BeginString <8>` and `BodyLength <9>`.
//!
//! A message opens with two fields, each of the shape `tag=value` followed by
//! the separator. The scanner reads no further than the end of the second
//! field, and reports where the `=` and the end of each of the two lie,
//! together with the number that the second field's value spells.

use super::error::DecodeError;
use core::ops::Range;
use vstd::prelude::*;

verus! {

/// The byte between a tag and its value: `=`.
pub const EQUAL_SIGN: u8 = 0x3D;

/// The decimal digit `0`.
pub const DIGIT_ZERO: u8 = 0x30;

/// The decimal digit `9`.
pub const DIGIT_NINE: u8 = 0x39;

/// Whether `byte` ends a field. A separator that is itself `=` never does:
/// the byte is then always read as the sign between tag and value.
pub open spec fn ends_field(byte: u8, separator: u8) -> bool {
    byte == separator && byte != EQUAL_SIGN
}

/// The index of the first byte at or after `from` that ends a field, or
/// `data.len()` where no such byte is left.
pub open spec fn field_end(data: Seq<u8>, separator: u8, from: int) -> int
    decreases data.len() - from,
{
    if from < 0 || from >= data.len() {
        data.len() as int
    } else if ends_field(data[from], separator) {
        from
    } else {
        field_end(data, separator, from + 1)
    }
}

/// The index of the last `=` among `data[lo..hi]`, if there is one.
pub open spec fn last_equal_sign(data: Seq<u8>, lo: int, hi: int) -> Option<int>
    decreases hi - lo,
{
    if hi <= lo {
        None
    } else if data[hi - 1] == EQUAL_SIGN {
        Some(hi - 1)
    } else {
        last_equal_sign(data, lo, hi - 1)
    }
}

/// The number that `digits` spell in base ten, as machine arithmetic
/// computes it: each step multiplies by ten and adds `byte - '0'`, and every
/// operation wraps. On decimal digits whose number fits a `usize` this is
/// that number (see [`lemma_decimal_wrapping_is_value`]); on anything else it
/// is still a definite value.
pub open spec fn decimal_wrapping(digits: Seq<u8>) -> usize
    decreases digits.len(),
{
    if digits.len() == 0 {
        0
    } else {
        decimal_wrapping(digits.drop_last()).wrapping_mul(10).wrapping_add(
            digits.last().wrapping_sub(DIGIT_ZERO) as usize,
        )
    }
}

/// Whether every byte of `digits` is one of `'0'` to `'9'`.
pub open spec fn all_decimal_digits(digits: Seq<u8>) -> bool {
    forall|i: int| 0 <= i < digits.len() ==> DIGIT_ZERO <= #[trigger] digits[i] <= DIGIT_NINE
}

/// The number that decimal digits spell, without any bound.
pub open spec fn decimal_value(digits: Seq<u8>) -> nat
    decreases digits.len(),
{
    if digits.len() == 0 {
        0
    } else {
        (decimal_value(digits.drop_last()) * 10 + (digits.last() - DIGIT_ZERO)) as nat
    }
}

/// Where the two header fields lie, and what `BodyLength <9>` says.
pub struct Header {
    /// Index of the `=` of the first field.
    pub begin_string_equal_sign: int,
    /// Index of the separator that ends the first field.
    pub begin_string_end: int,
    /// Index of the `=` of the second field.
    pub body_length_equal_sign: int,
    /// Index of the separator that ends the second field.
    pub body_length_end: int,
    /// The value of the second field, read by [`decimal_wrapping`].
    pub body_length: int,
}

impl Header {
    /// The index of the first byte after the second field.
    pub open spec fn start_of_body(self) -> int {
        self.body_length_end + 1
    }

    /// Whether the four indices come in their order, the first `=` not at
    /// index zero, and all of them below `len`.
    pub open spec fn is_ordered_within(self, len: int) -> bool {
        &&& 0 < self.begin_string_equal_sign < self.begin_string_end
        &&& self.begin_string_end < self.body_length_equal_sign < self.body_length_end
        &&& self.body_length_end < len
        &&& 0 <= self.body_length <= usize::MAX
    }
}

/// What the scanner finds in `data`: the header, if both fields are there.
///
/// The first field runs up to the first separator, the second from there up
/// to the next one. Each must hold an `=`; where it holds several, the last
/// one counts. A first field whose only `=` is the very first byte of
/// `data`, that is one with an empty tag, is not accepted.
pub open spec fn scan_header(data: Seq<u8>, separator: u8) -> Option<Header> {
    let first_end = field_end(data, separator, 0);
    let first_equal = last_equal_sign(data, 0, first_end);
    let second_end = field_end(data, separator, first_end + 1);
    let second_equal = last_equal_sign(data, first_end + 1, second_end);
    if first_end < data.len() && second_end < data.len() && first_equal is Some
        && first_equal->0 != 0 && second_equal is Some {
        Some(
            Header {
                begin_string_equal_sign: first_equal->0,
                begin_string_end: first_end,
                body_length_equal_sign: second_equal->0,
                body_length_end: second_end,
                body_length: decimal_wrapping(data.subrange(second_equal->0 + 1, second_end)) as int,
            },
        )
    } else {
        None
    }
}

/// `field_end` lies between `from` and the end of the data, no byte before
/// it ends a field, and the byte at it does, unless it is the end.
pub proof fn lemma_field_end(data: Seq<u8>, separator: u8, from: int)
    requires
        0 <= from <= data.len(),
    ensures
        from <= field_end(data, separator, from) <= data.len(),
        forall|i: int|
            from <= i < field_end(data, separator, from) ==> !ends_field(
                #[trigger] data[i],
                separator,
            ),
        field_end(data, separator, from) < data.len() ==> ends_field(
            data[field_end(data, separator, from)],
            separator,
        ),
    decreases data.len() - from,
{
    if from < data.len() && !ends_field(data[from], separator) {
        lemma_field_end(data, separator, from + 1);
    }
}

/// `last_equal_sign` names an `=` within its bounds, and no `=` follows it
/// there.
pub proof fn lemma_last_equal_sign(data: Seq<u8>, lo: int, hi: int)
    requires
        0 <= lo,
        hi <= data.len(),
    ensures
        match last_equal_sign(data, lo, hi) {
            Some(at) => {
                &&& lo <= at < hi
                &&& data[at] == EQUAL_SIGN
                &&& forall|i: int| at < i < hi ==> #[trigger] data[i] != EQUAL_SIGN
            },
            None => forall|i: int| lo <= i < hi ==> #[trigger] data[i] != EQUAL_SIGN,
        },
    decreases hi - lo,
{
    if hi > lo && data[hi - 1] != EQUAL_SIGN {
        lemma_last_equal_sign(data, lo, hi - 1);
    }
}

/// A header that the scanner finds lies within the data, its four indices
/// in their order.
pub proof fn lemma_scan_header_ordered(data: Seq<u8>, separator: u8)
    ensures
        scan_header(data, separator) matches Some(header) ==> header.is_ordered_within(
            data.len() as int,
        ),
{
    let first_end = field_end(data, separator, 0);
    lemma_field_end(data, separator, 0);
    lemma_last_equal_sign(data, 0, first_end);
    if first_end < data.len() {
        lemma_field_end(data, separator, first_end + 1);
        let second_end = field_end(data, separator, first_end + 1);
        lemma_last_equal_sign(data, first_end + 1, second_end);
    }
}

/// An index at which a field ends, with no such index between `from` and
/// it, is what `field_end` gives.
pub proof fn lemma_field_end_is(data: Seq<u8>, separator: u8, from: int, end: int)
    requires
        0 <= from <= end <= data.len(),
        forall|i: int| from <= i < end ==> !ends_field(#[trigger] data[i], separator),
        end < data.len() ==> ends_field(data[end], separator),
    ensures
        field_end(data, separator, from) == end,
    decreases end - from,
{
    if from < end {
        lemma_field_end_is(data, separator, from + 1, end);
    }
}

/// An `=` that no `=` follows before `hi` is what `last_equal_sign` gives.
pub proof fn lemma_last_equal_sign_is(data: Seq<u8>, lo: int, hi: int, at: int)
    requires
        0 <= lo <= at < hi <= data.len(),
        data[at] == EQUAL_SIGN,
        forall|i: int| at < i < hi ==> #[trigger] data[i] != EQUAL_SIGN,
    ensures
        last_equal_sign(data, lo, hi) == Some(at),
    decreases hi - at,
{
    if hi - 1 > at {
        lemma_last_equal_sign_is(data, lo, hi - 1, at);
    }
}

/// The scanner reads no further than the end of the second field: data that
/// agree with `data` up to there have the header of `data`.
pub proof fn lemma_scan_header_reads_prefix(data: Seq<u8>, other: Seq<u8>, separator: u8)
    requires
        scan_header(data, separator) is Some,
        scan_header(data, separator)->0.body_length_end < other.len(),
        forall|i: int|
            0 <= i <= scan_header(data, separator)->0.body_length_end ==> other[i] == data[i],
    ensures
        scan_header(other, separator) == scan_header(data, separator),
{
    let header = scan_header(data, separator)->0;
    let first_end = header.begin_string_end;
    let second_end = header.body_length_end;
    lemma_scan_header_ordered(data, separator);
    lemma_field_end(data, separator, 0);
    lemma_field_end(data, separator, first_end + 1);
    lemma_last_equal_sign(data, 0, first_end);
    lemma_last_equal_sign(data, first_end + 1, second_end);
    lemma_field_end_is(other, separator, 0, first_end);
    lemma_field_end_is(other, separator, first_end + 1, second_end);
    lemma_last_equal_sign_is(other, 0, first_end, header.begin_string_equal_sign);
    lemma_last_equal_sign_is(other, first_end + 1, second_end, header.body_length_equal_sign);
    assert(other.subrange(header.body_length_equal_sign + 1, second_end) =~= data.subrange(
        header.body_length_equal_sign + 1,
        second_end,
    ));
}

/// On decimal digits whose number fits a `usize`, reading with wrapping
/// arithmetic gives that number.
pub proof fn lemma_decimal_wrapping_is_value(digits: Seq<u8>)
    requires
        all_decimal_digits(digits),
        decimal_value(digits) <= usize::MAX,
    ensures
        decimal_wrapping(digits) == decimal_value(digits),
    decreases digits.len(),
{
    if digits.len() > 0 {
        let init = digits.drop_last();
        assert forall|i: int| 0 <= i < init.len() implies DIGIT_ZERO <= #[trigger] init[i]
            <= DIGIT_NINE by {
            assert(init[i] == digits[i]);
        }
        assert(DIGIT_ZERO <= digits[digits.len() - 1] <= DIGIT_NINE);
        lemma_decimal_wrapping_is_value(init);
        let tens = decimal_value(init) * 10;
        assert(tens <= usize::MAX);
        vstd::arithmetic::div_mod::lemma_small_mod(tens, (usize::MAX + 1) as nat);
    }
}

/// The indices of the structural parts of a message's header.
///
/// A value of this type always describes a header that was found: the four
/// indices come in their order, and the first `=` is not at index zero.
#[derive(Debug)]
pub struct HeaderInfo {
    i_equal_sign: [usize; 2],
    i_sep: [usize; 2],
    body_length: usize,
}

/// What a pass over one field found: the last `=`, the separator that ends
/// the field, and the number read since that `=`.
struct FieldScan {
    equal_sign: Option<usize>,
    end: Option<usize>,
    value: usize,
}

/// Reads one field, from `from` up to the first separator.
fn scan_field(data: &[u8], separator: u8, from: usize) -> (scan: FieldScan)
    requires
        from <= data@.len(),
    ensures
        scan.end matches Some(end) ==> end == field_end(data@, separator, from as int) && end
            < data@.len(),
        scan.end is None ==> field_end(data@, separator, from as int) == data@.len(),
        scan.equal_sign matches Some(at) ==> last_equal_sign(
            data@,
            from as int,
            field_end(data@, separator, from as int),
        ) == Some(at as int),
        scan.equal_sign is None ==> last_equal_sign(
            data@,
            from as int,
            field_end(data@, separator, from as int),
        ) is None,
        scan.equal_sign matches Some(at) ==> scan.value == decimal_wrapping(
            data@.subrange(at + 1, field_end(data@, separator, from as int)),
        ),
{
    let mut equal_sign: Option<usize> = None;
    let mut value: usize = 0;
    let mut i: usize = from;
    while i < data.len()
        invariant
            from <= i <= data@.len(),
            field_end(data@, separator, from as int) == field_end(data@, separator, i as int),
            equal_sign matches Some(at) ==> last_equal_sign(data@, from as int, i as int) == Some(
                at as int,
            ) && from <= at < i,
            equal_sign is None ==> last_equal_sign(data@, from as int, i as int) is None,
            equal_sign matches Some(at) ==> value == decimal_wrapping(
                data@.subrange(at + 1, i as int),
            ),
        decreases data@.len() - i,
    {
        let byte = data[i];
        if byte == EQUAL_SIGN {
            equal_sign = Some(i);
            value = 0;
        } else if byte == separator {
            return FieldScan { equal_sign, end: Some(i), value };
        } else {
            proof {
                if let Some(at) = equal_sign {
                    assert(data@.subrange(at + 1, i + 1).drop_last() == data@.subrange(
                        at + 1,
                        i as int,
                    ));
                }
            }
            value = value.wrapping_mul(10).wrapping_add(byte.wrapping_sub(DIGIT_ZERO) as usize);
        }
        i += 1;
    }
    FieldScan { equal_sign, end: None, value }
}

impl View for HeaderInfo {
    type V = Header;

    closed spec fn view(&self) -> Header {
        Header {
            begin_string_equal_sign: self.i_equal_sign[0] as int,
            begin_string_end: self.i_sep[0] as int,
            body_length_equal_sign: self.i_equal_sign[1] as int,
            body_length_end: self.i_sep[1] as int,
            body_length: self.body_length as int,
        }
    }
}

impl HeaderInfo {
    #[verifier::type_invariant]
    spec fn found(&self) -> bool {
        self@.is_ordered_within(usize::MAX as int)
    }

    /// The offset of the first byte of the body: the one right after the
    /// separator of `BodyLength <9>`.
    pub fn start_of_body(&self) -> (start: usize)
        ensures
            start == self@.start_of_body(),
            self@.is_ordered_within(usize::MAX as int),
    {
        proof {
            use_type_invariant(self);
        }
        self.i_sep[1] + 1
    }

    /// The bytes of the value of `BeginString <8>`: from right after its
    /// `=` up to its separator.
    pub fn begin_string_range(&self) -> (range: Range<usize>)
        ensures
            range.start == self@.begin_string_equal_sign + 1,
            range.end == self@.begin_string_end,
            self@.is_ordered_within(usize::MAX as int),
    {
        proof {
            use_type_invariant(self);
        }
        self.i_equal_sign[0] + 1..self.i_sep[0]
    }

    /// The bytes of the body: as many as `BodyLength <9>` says, from
    /// [`HeaderInfo::start_of_body`] on. Where that end would lie beyond
    /// `usize::MAX`, the range stops there.
    pub fn body_range(&self) -> (range: Range<usize>)
        ensures
            range.start == self@.start_of_body(),
            range.end == if self@.start_of_body() + self@.body_length <= usize::MAX {
                self@.start_of_body() + self@.body_length
            } else {
                usize::MAX as int
            },
            self@.is_ordered_within(usize::MAX as int),
    {
        let start = self.start_of_body();
        let end = if self.body_length <= usize::MAX - start {
            start + self.body_length
        } else {
            usize::MAX
        };
        start..end
    }

    /// Scans the first two fields of `data`, which `separator` ends.
    ///
    /// Succeeds exactly when [`scan_header`] finds a header, and then returns
    /// that header; fails with [`DecodeError::Invalid`] when it finds none.
    pub fn parse(data: &[u8], separator: u8) -> (result: Result<HeaderInfo, DecodeError>)
        ensures
            match result {
                Ok(info) => scan_header(data@, separator) == Some(info@),
                Err(error) => error == DecodeError::Invalid && scan_header(data@, separator)
                    is None,
            },
    {
        proof {
            lemma_scan_header_ordered(data@, separator);
            assert(data@.len() == data.len());
        }
        let first = scan_field(data, separator, 0);
        if first.equal_sign.is_none() || first.end.is_none() {
            return Err(DecodeError::Invalid);
        }
        let first_equal = first.equal_sign.unwrap();
        let first_end = first.end.unwrap();
        if first_equal == 0 {
            return Err(DecodeError::Invalid);
        }
        let second = scan_field(data, separator, first_end + 1);
        if second.equal_sign.is_none() || second.end.is_none() {
            return Err(DecodeError::Invalid);
        }
        let second_equal = second.equal_sign.unwrap();
        let second_end = second.end.unwrap();
        let i_equal_sign = [first_equal, second_equal];
        let i_sep = [first_end, second_end];
        Ok(
            HeaderInfo { i_equal_sign, i_sep, body_length: second.value },
        )
    }
}

} // verus!
