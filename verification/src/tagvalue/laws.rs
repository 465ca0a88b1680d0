//! What holds of decoding, for all inputs.
//!
//! Each proof function here states one law over [`decode_spec`] and the
//! other specification functions that the decoders' contracts use, and
//! Verus checks its proof.

use super::error::DecodeError;
use super::header::{
    all_decimal_digits, decimal_value, ends_field, lemma_decimal_wrapping_is_value,
    lemma_field_end_is, lemma_last_equal_sign_is, lemma_scan_header_ordered,
    lemma_scan_header_reads_prefix, scan_header, DIGIT_ZERO, EQUAL_SIGN,
};
use super::raw_decoder::{
    after_supply, announced_len, current_frame_spec, decode_spec, is_decoding_of, AsBytes,
    FrameView, RawFrame, Stage, StreamView,
};
use super::utils::{
    checksum_matches, declared_checksum, has_checksum_field, is_decimal_digit,
    spec_checksum_10, DIGIT_ONE, FIELD_CHECKSUM_LEN_IN_BYTES, MIN_FIX_MESSAGE_LEN_IN_BYTES,
};
use vstd::prelude::*;

verus! {

/// The tag of `BeginString <8>`: the digit `8`.
pub const TAG_BEGIN_STRING: u8 = 0x38;

/// The tag of `BodyLength <9>`: the digit `9`.
pub const TAG_BODY_LENGTH: u8 = 0x39;

/// A buffer shorter than the shortest legal message never decodes: the
/// error is [`DecodeError::Length`], whatever the bytes and the
/// configuration.
pub proof fn lemma_short_buffer_has_wrong_length(
    data: Seq<u8>,
    separator: u8,
    verify_checksum: bool,
)
    requires
        data.len() < MIN_FIX_MESSAGE_LEN_IN_BYTES,
    ensures
        decode_spec(data, separator, verify_checksum) == Err::<FrameView, DecodeError>(
            DecodeError::Length,
        ),
{
}

/// A frame that decoding gives holds the bytes that were decoded, and its
/// ranges lie within them: the version within the first field, then the
/// payload, as long as `BodyLength <9>` says, and right behind it the seven
/// bytes of `CheckSum <10>`, which end the message.
pub proof fn lemma_decoded_frame_is_in_bounds(data: Seq<u8>, separator: u8, verify_checksum: bool)
    requires
        decode_spec(data, separator, verify_checksum) is Ok,
    ensures
        ({
            let frame = decode_spec(data, separator, verify_checksum)->Ok_0;
            &&& frame.data == data
            &&& scan_header(data, separator) matches Some(header) && frame.payload().len()
                == header.body_length
            &&& 2 <= frame.begin_string_start <= frame.begin_string_end < frame.payload_start
            &&& frame.payload_start <= frame.payload_end
            &&& frame.payload_end + FIELD_CHECKSUM_LEN_IN_BYTES == data.len()
        }),
{
    lemma_scan_header_ordered(data, separator);
}

/// Decoding depends on the bytes and the configuration alone: two results
/// of decoding the same bytes under the same configuration are the same
/// error, or frames with the same bytes and the same ranges.
pub proof fn lemma_decoding_is_repeatable<T: AsBytes>(
    first: Result<RawFrame<T>, DecodeError>,
    second: Result<RawFrame<T>, DecodeError>,
    src: T,
    separator: u8,
    verify_checksum: bool,
)
    requires
        is_decoding_of(first, src, separator, verify_checksum),
        is_decoding_of(second, src, separator, verify_checksum),
    ensures
        match (first, second) {
            (Ok(one), Ok(other)) => one@ == other@,
            (Err(one), Err(other)) => one == other,
            _ => false,
        },
{
}

/// Whether no byte of `value` is `=` or the separator.
pub open spec fn is_plain_value(value: Seq<u8>, separator: u8) -> bool {
    forall|i: int|
        0 <= i < value.len() ==> #[trigger] value[i] != EQUAL_SIGN && value[i] != separator
}

/// The three decimal digits that spell `checksum`, zero-padded.
pub open spec fn checksum_digits(checksum: u8) -> Seq<u8> {
    seq![
        (DIGIT_ZERO + checksum / 100) as u8,
        (DIGIT_ZERO + (checksum / 10) % 10) as u8,
        (DIGIT_ZERO + checksum % 10) as u8,
    ]
}

/// The bytes of a message up to its `CheckSum <10>` field: `8=`, the
/// version, `9=`, the digits of the body's length, and the body.
pub open spec fn framed_front(
    begin_string: Seq<u8>,
    length_digits: Seq<u8>,
    body: Seq<u8>,
    separator: u8,
) -> Seq<u8> {
    seq![TAG_BEGIN_STRING, EQUAL_SIGN] + begin_string + seq![separator] + seq![
        TAG_BODY_LENGTH,
        EQUAL_SIGN,
    ] + length_digits + seq![separator] + body
}

/// The bytes of a whole message: [`framed_front`], then `10=`, the digits of
/// the checksum of that front, and the separator.
pub open spec fn framed(
    begin_string: Seq<u8>,
    length_digits: Seq<u8>,
    body: Seq<u8>,
    separator: u8,
) -> Seq<u8> {
    let front = framed_front(begin_string, length_digits, body, separator);
    front + seq![DIGIT_ONE, DIGIT_ZERO, EQUAL_SIGN] + checksum_digits(spec_checksum_10(front))
        + seq![separator]
}

/// The digits of [`checksum_digits`] are decimal digits, and they spell the
/// checksum.
pub proof fn lemma_checksum_digits(checksum: u8)
    ensures
        checksum_digits(checksum).len() == 3,
        is_decimal_digit(checksum_digits(checksum)[0]),
        is_decimal_digit(checksum_digits(checksum)[1]),
        is_decimal_digit(checksum_digits(checksum)[2]),
        (checksum_digits(checksum)[0] - DIGIT_ZERO) * 100 + (checksum_digits(checksum)[1]
            - DIGIT_ZERO) * 10 + (checksum_digits(checksum)[2] - DIGIT_ZERO) == checksum,
{
}

/// A message that is framed as the wire format asks decodes, with or
/// without checksum verification, and the frame gives back its parts: the
/// version as `begin_string`, and as `payload` the body, whose length is the
/// number that `BodyLength <9>` spells.
///
/// The message is [`framed`] from a version and from length digits that hold
/// neither `=` nor the separator; the digits spell the length of the body;
/// the separator is none of `=`, `8` and `9`; and the message has a legal
/// length.
pub proof fn lemma_framed_message_decodes(
    begin_string: Seq<u8>,
    length_digits: Seq<u8>,
    body: Seq<u8>,
    separator: u8,
    verify_checksum: bool,
)
    requires
        separator != EQUAL_SIGN,
        separator != TAG_BEGIN_STRING,
        separator != TAG_BODY_LENGTH,
        is_plain_value(begin_string, separator),
        is_plain_value(length_digits, separator),
        all_decimal_digits(length_digits),
        decimal_value(length_digits) == body.len(),
        MIN_FIX_MESSAGE_LEN_IN_BYTES <= framed(begin_string, length_digits, body, separator).len()
            <= usize::MAX,
    ensures
        decode_spec(
            framed(begin_string, length_digits, body, separator),
            separator,
            verify_checksum,
        ) matches Ok(frame) && {
            &&& frame.data == framed(begin_string, length_digits, body, separator)
            &&& frame.begin_string() == begin_string
            &&& frame.payload() == body
            &&& frame.payload().len() == decimal_value(length_digits)
        },
{
    let front = framed_front(begin_string, length_digits, body, separator);
    let message = framed(begin_string, length_digits, body, separator);
    let first_end: int = begin_string.len() as int + 2;
    let second_equal: int = first_end + 2;
    let second_end: int = second_equal + 1 + length_digits.len();
    let start: int = second_end + 1;
    let checksum = spec_checksum_10(front);
    lemma_checksum_digits(checksum);
    assert(front.len() == start + body.len());
    assert(message.len() == front.len() + 7);
    assert(message[0] == TAG_BEGIN_STRING);
    assert(message[1] == EQUAL_SIGN);
    assert forall|i: int| 2 <= i < first_end implies #[trigger] message[i] == begin_string[i - 2] by {}
    assert(message[first_end] == separator);
    assert(message[first_end + 1] == TAG_BODY_LENGTH);
    assert(message[second_equal] == EQUAL_SIGN);
    assert forall|i: int| second_equal < i < second_end implies #[trigger] message[i]
        == length_digits[i - second_equal - 1] by {}
    assert(message[second_end] == separator);
    assert forall|i: int| start <= i < front.len() implies #[trigger] message[i] == body[i
        - start] by {}
    assert forall|i: int| 0 <= i < first_end implies !ends_field(
        #[trigger] message[i],
        separator,
    ) by {
        if i >= 2 {
            assert(message[i] == begin_string[i - 2]);
        }
    }
    lemma_field_end_is(message, separator, 0, first_end);
    assert forall|i: int| 1 < i < first_end implies #[trigger] message[i] != EQUAL_SIGN by {
        assert(message[i] == begin_string[i - 2]);
    }
    lemma_last_equal_sign_is(message, 0, first_end, 1);
    assert forall|i: int| first_end + 1 <= i < second_end implies !ends_field(
        #[trigger] message[i],
        separator,
    ) by {
        if i > second_equal {
            assert(message[i] == length_digits[i - second_equal - 1]);
        }
    }
    lemma_field_end_is(message, separator, first_end + 1, second_end);
    assert forall|i: int| second_equal < i < second_end implies #[trigger] message[i]
        != EQUAL_SIGN by {
        assert(message[i] == length_digits[i - second_equal - 1]);
    }
    lemma_last_equal_sign_is(message, first_end + 1, second_end, second_equal);
    assert(message.subrange(second_equal + 1, second_end) =~= length_digits);
    lemma_decimal_wrapping_is_value(length_digits);
    assert(message.subrange(0, message.len() - FIELD_CHECKSUM_LEN_IN_BYTES) =~= front);
    assert(message[message.len() - 7] == DIGIT_ONE);
    assert(message[message.len() - 6] == DIGIT_ZERO);
    assert(message[message.len() - 5] == EQUAL_SIGN);
    assert(message[message.len() - 4] == checksum_digits(checksum)[0]);
    assert(message[message.len() - 3] == checksum_digits(checksum)[1]);
    assert(message[message.len() - 2] == checksum_digits(checksum)[2]);
    assert(message[message.len() - 1] == separator);
    assert(has_checksum_field(message, separator));
    assert(checksum_matches(message));
    let frame = decode_spec(message, separator, verify_checksum)->Ok_0;
    assert(frame.begin_string() =~= begin_string);
    assert(frame.payload() =~= body);
}

/// Changing one digit of the checksum of a message that decodes, to another
/// decimal digit, gives a message that fails with [`DecodeError::CheckSum`]
/// under checksum verification, and that decodes without it, to a frame with
/// the ranges of the first.
pub proof fn lemma_corrupted_checksum_digit(
    message: Seq<u8>,
    separator: u8,
    at: int,
    digit: u8,
)
    requires
        decode_spec(message, separator, true) is Ok,
        message.len() - 4 <= at <= message.len() - 2,
        is_decimal_digit(digit),
        digit != message[at],
    ensures
        decode_spec(message.update(at, digit), separator, true) == Err::<FrameView, DecodeError>(
            DecodeError::CheckSum,
        ),
        decode_spec(message.update(at, digit), separator, false) == Ok::<FrameView, DecodeError>(
            FrameView {
                data: message.update(at, digit),
                ..decode_spec(message, separator, true)->Ok_0
            },
        ),
{
    let corrupted = message.update(at, digit);
    lemma_scan_header_ordered(message, separator);
    lemma_scan_header_reads_prefix(message, corrupted, separator);
    assert(corrupted.subrange(0, corrupted.len() - FIELD_CHECKSUM_LEN_IN_BYTES)
        =~= message.subrange(0, message.len() - FIELD_CHECKSUM_LEN_IN_BYTES));
    assert(declared_checksum(corrupted) != declared_checksum(message));
}

/// Streaming a message gives what decoding it whole gives.
///
/// Take a message that decodes, and whose header ends within its first
/// [`MIN_FIX_MESSAGE_LEN_IN_BYTES`] bytes. A fresh decoder first asks for
/// that many bytes. Filled with the start of the message, it next asks for
/// exactly the rest. Filled with the rest, its current frame is the frame of
/// the whole message, and asking again changes nothing: the regions were
/// as long as the message, together. How the caller writes into a region,
/// in one piece or byte by byte, is not seen by the decoder: only what the
/// region holds in the end.
pub proof fn lemma_streaming_gives_the_decoded_frame(
    message: Seq<u8>,
    separator: u8,
    verify_checksum: bool,
)
    requires
        message.len() <= usize::MAX,
        decode_spec(message, separator, verify_checksum) is Ok,
        scan_header(message.subrange(0, MIN_FIX_MESSAGE_LEN_IN_BYTES as int), separator) is Some,
    ensures
        ({
            let fresh = StreamView { buffer: Seq::empty(), stage: Stage::Sizing };
            let asked_first = after_supply(fresh, separator);
            let filled_first = StreamView {
                buffer: message.subrange(0, MIN_FIX_MESSAGE_LEN_IN_BYTES as int),
                stage: asked_first.stage,
            };
            let asked_rest = after_supply(filled_first, separator);
            let filled_rest = StreamView { buffer: message, stage: asked_rest.stage };
            &&& asked_first.buffer.len() == MIN_FIX_MESSAGE_LEN_IN_BYTES
            &&& current_frame_spec(asked_first, separator, verify_checksum) == Ok::<
                Option<FrameView>,
                DecodeError,
            >(None)
            &&& asked_rest.buffer.len() == message.len()
            &&& asked_rest.buffer.subrange(0, MIN_FIX_MESSAGE_LEN_IN_BYTES as int)
                == filled_first.buffer
            &&& current_frame_spec(filled_rest, separator, verify_checksum) == Ok::<
                Option<FrameView>,
                DecodeError,
            >(Some(decode_spec(message, separator, verify_checksum)->Ok_0))
            &&& after_supply(filled_rest, separator) == filled_rest
        }),
{
    let start = message.subrange(0, MIN_FIX_MESSAGE_LEN_IN_BYTES as int);
    lemma_scan_header_ordered(start, separator);
    lemma_scan_header_reads_prefix(start, message, separator);
    let fresh = StreamView { buffer: Seq::empty(), stage: Stage::Sizing };
    let asked_first = after_supply(fresh, separator);
    let filled_first = StreamView { buffer: start, stage: asked_first.stage };
    let asked_rest = after_supply(filled_first, separator);
    assert(announced_len(start, separator) == Ok::<int, DecodeError>(message.len() as int));
    assert(asked_rest.buffer.subrange(0, MIN_FIX_MESSAGE_LEN_IN_BYTES as int) =~= start);
}

/// A header that does not end within the first
/// [`MIN_FIX_MESSAGE_LEN_IN_BYTES`] bytes cannot be sized: once that many
/// bytes are buffered, asking for more fails with [`DecodeError::Invalid`]
/// and leaves the buffer as it is.
pub proof fn lemma_long_header_fails_to_size(start: Seq<u8>, separator: u8)
    requires
        start.len() == MIN_FIX_MESSAGE_LEN_IN_BYTES,
        scan_header(start, separator) is None,
    ensures
        after_supply(StreamView { buffer: start, stage: Stage::Sizing }, separator) == (
        StreamView { buffer: start, stage: Stage::Failed(DecodeError::Invalid) }),
{
}

/// A failure to size stays: asking for more bytes changes nothing, and the
/// current frame is the failure, until the decoder is cleared.
pub proof fn lemma_failure_is_sticky(
    state: StreamView,
    error: DecodeError,
    separator: u8,
    verify_checksum: bool,
)
    requires
        state.stage == Stage::Failed(error),
    ensures
        after_supply(state, separator) == state,
        current_frame_spec(state, separator, verify_checksum) == Err::<
            Option<FrameView>,
            DecodeError,
        >(error),
{
}

} // verus!
