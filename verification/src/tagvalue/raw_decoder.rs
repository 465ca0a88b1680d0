//! Framing of whole messages, from a buffer or from a stream.

use super::config::{Config, Configure};
use super::error::DecodeError;
use super::header::{scan_header, Header, HeaderInfo};
use super::utils::{
    checksum_matches, has_checksum_field, verify_body_length, verify_checksum,
    verify_checksum_field, FIELD_CHECKSUM_LEN_IN_BYTES, MIN_FIX_MESSAGE_LEN_IN_BYTES,
};
use core::ops::Range;
use vstd::prelude::*;

verus! {

/// A container of bytes that a [`RawFrame`] can hold: borrowed, as `&[u8]`
/// or `&[u8; N]`, or owned, as `Vec<u8>`.
pub trait AsBytes {
    /// The bytes that the container holds.
    spec fn spec_bytes(&self) -> Seq<u8>;

    /// Lends the bytes that the container holds.
    fn as_bytes(&self) -> (bytes: &[u8])
        ensures
            bytes@ == self.spec_bytes(),
    ;
}

impl<'a> AsBytes for &'a [u8] {
    open spec fn spec_bytes(&self) -> Seq<u8> {
        (*self)@
    }

    fn as_bytes(&self) -> (bytes: &[u8]) {
        *self
    }
}

impl<'a, const N: usize> AsBytes for &'a [u8; N] {
    open spec fn spec_bytes(&self) -> Seq<u8> {
        (*self)@
    }

    fn as_bytes(&self) -> (bytes: &[u8]) {
        vstd::array::array_as_slice(*self)
    }
}

impl AsBytes for Vec<u8> {
    open spec fn spec_bytes(&self) -> Seq<u8> {
        self@
    }

    fn as_bytes(&self) -> (bytes: &[u8]) {
        self.as_slice()
    }
}

/// What a [`RawFrame`] stands for: the bytes of a message, and where in them
/// the value of `BeginString <8>` and the payload lie.
pub struct FrameView {
    /// All bytes of the message.
    pub data: Seq<u8>,
    /// Index of the first byte of the value of `BeginString <8>`.
    pub begin_string_start: int,
    /// Index right after the last byte of the value of `BeginString <8>`.
    pub begin_string_end: int,
    /// Index of the first byte of the payload.
    pub payload_start: int,
    /// Index right after the last byte of the payload.
    pub payload_end: int,
}

impl FrameView {
    /// Whether both ranges are ranges of indices below `len`.
    pub open spec fn fits(self, len: int) -> bool {
        &&& 0 <= self.begin_string_start <= self.begin_string_end <= len
        &&& 0 <= self.payload_start <= self.payload_end <= len
    }

    /// The value of `BeginString <8>`.
    pub open spec fn begin_string(self) -> Seq<u8> {
        self.data.subrange(self.begin_string_start, self.begin_string_end)
    }

    /// The payload: all fields between `BodyLength <9>` and `CheckSum <10>`.
    pub open spec fn payload(self) -> Seq<u8> {
        self.data.subrange(self.payload_start, self.payload_end)
    }
}

/// The frame that `header` marks out in `data`.
pub open spec fn frame_of(data: Seq<u8>, header: Header) -> FrameView {
    FrameView {
        data,
        begin_string_start: header.begin_string_equal_sign + 1,
        begin_string_end: header.begin_string_end,
        payload_start: header.start_of_body(),
        payload_end: header.start_of_body() + header.body_length,
    }
}

/// What decoding `data` gives, under a separator and with checksum
/// verification on or off.
///
/// In this order: data shorter than [`MIN_FIX_MESSAGE_LEN_IN_BYTES`] has the
/// wrong length; a header must be found; the header, the body that it
/// announces and the seven bytes of `CheckSum <10>` must be all of the data;
/// those seven bytes must be a well-formed field; and, with verification on,
/// its value must be the checksum of the bytes before it.
pub open spec fn decode_spec(data: Seq<u8>, separator: u8, verify_checksum: bool) -> Result<
    FrameView,
    DecodeError,
> {
    if data.len() < MIN_FIX_MESSAGE_LEN_IN_BYTES {
        Err(DecodeError::Length)
    } else {
        match scan_header(data, separator) {
            None => Err(DecodeError::Invalid),
            Some(header) => {
                if header.start_of_body() + header.body_length + FIELD_CHECKSUM_LEN_IN_BYTES
                    != data.len() {
                    Err(DecodeError::Length)
                } else if !has_checksum_field(data, separator) {
                    Err(DecodeError::Invalid)
                } else if verify_checksum && !checksum_matches(data) {
                    Err(DecodeError::CheckSum)
                } else {
                    Ok(frame_of(data, header))
                }
            },
        }
    }
}

/// An immutable view over the contents of a FIX message by a [`RawDecoder`].
///
/// The view holds the bytes it was decoded from, borrowed or owned, and
/// never copies them. Its two ranges always lie within those bytes.
#[derive(Debug)]
pub struct RawFrame<T> where T: AsBytes {
    data: T,
    begin_string: Range<usize>,
    payload: Range<usize>,
    payload_offset: usize,
}

impl<T> View for RawFrame<T> where T: AsBytes {
    type V = FrameView;

    closed spec fn view(&self) -> FrameView {
        FrameView {
            data: self.data.spec_bytes(),
            begin_string_start: self.begin_string.start as int,
            begin_string_end: self.begin_string.end as int,
            payload_start: self.payload.start as int,
            payload_end: self.payload.end as int,
        }
    }
}

impl<T> RawFrame<T> where T: AsBytes {
    #[verifier::type_invariant]
    spec fn in_bounds(&self) -> bool {
        &&& self@.fits(self.data.spec_bytes().len() as int)
        &&& self.payload_offset == self.payload.start
    }

    /// The container that holds the bytes of the message.
    pub closed spec fn spec_data(&self) -> T {
        self.data
    }

    /// Hands the bytes to `f` and keeps the ranges over what `f` returns, for
    /// instance to turn borrowed bytes into owned ones. Whatever `f` returns
    /// must be long enough for the ranges.
    pub fn map_data<F, M>(self, f: F) -> (frame: RawFrame<M>) where F: Fn(T) -> M, M: AsBytes
        requires
            call_requires(f, (self.spec_data(),)),
            forall|mapped: M|
                call_ensures(f, (self.spec_data(),), mapped) ==> self@.fits(
                    mapped.spec_bytes().len() as int,
                ),
        ensures
            call_ensures(f, (self.spec_data(),), frame.spec_data()),
            frame@ == (FrameView { data: frame.spec_data().spec_bytes(), ..self@ }),
    {
        proof {
            use_type_invariant(&self);
        }
        RawFrame {
            data: f(self.data),
            begin_string: self.begin_string,
            payload: self.payload,
            payload_offset: self.payload_offset,
        }
    }

    /// Returns an immutable reference to the raw contents of `self`.
    pub fn as_bytes(&self) -> (bytes: &[u8])
        ensures
            bytes@ == self@.data,
            self@.data == self.spec_data().spec_bytes(),
            self@.fits(bytes@.len() as int),
    {
        proof {
            use_type_invariant(self);
        }
        self.data.as_bytes()
    }

    /// Returns an immutable reference to the `BeginString <8>` field value of
    /// `self`.
    pub fn begin_string(&self) -> (value: &[u8])
        ensures
            value@ == self@.begin_string(),
    {
        proof {
            use_type_invariant(self);
        }
        vstd::slice::slice_subrange(
            self.data.as_bytes(),
            self.begin_string.start,
            self.begin_string.end,
        )
    }

    /// Returns an immutable reference to the payload of `self`. In this
    /// context, "payload" means all fields besides
    ///
    /// - `BeginString <8>`;
    /// - `BodyLength <9>`;
    /// - `CheckSum <10>`.
    ///
    /// According to this definition, the payload may also contain fields that
    /// are technically part of `StandardHeader` and `StandardTrailer`, i.e.
    /// payload and body and *not* synonyms.
    pub fn payload(&self) -> (payload: &[u8])
        ensures
            payload@ == self@.payload(),
    {
        proof {
            use_type_invariant(self);
        }
        vstd::slice::slice_subrange(self.data.as_bytes(), self.payload.start, self.payload.end)
    }

    /// Returns the offset of [`RawFrame::payload`].
    pub fn payload_offset(&self) -> (offset: usize)
        ensures
            offset == self@.payload_start,
    {
        proof {
            use_type_invariant(self);
        }
        self.payload_offset
    }
}

/// Whether `result` is what decoding the bytes of `src` gives: the frame of
/// [`decode_spec`] around `src` itself, or the error of [`decode_spec`].
pub open spec fn is_decoding_of<T: AsBytes>(
    result: Result<RawFrame<T>, DecodeError>,
    src: T,
    separator: u8,
    verify_checksum: bool,
) -> bool {
    match result {
        Ok(frame) => frame.spec_data() == src && decode_spec(
            src.spec_bytes(),
            separator,
            verify_checksum,
        ) == Ok::<FrameView, DecodeError>(frame@),
        Err(error) => decode_spec(src.spec_bytes(), separator, verify_checksum) == Err::<
            FrameView,
            DecodeError,
        >(error),
    }
}

/// A bare-bones FIX decoder for low-level message handling.
///
/// [`RawDecoder`] is the fundamental building block for building
/// higher-level FIX decoders. It allows for decoding of arbitrary payloads
/// and only "hides" `BodyLength <9>` and `CheckSum <10>` to the final user.
/// Everything else is left to the user to deal with.
#[derive(Debug, Clone)]
pub struct RawDecoder<C = Config> where C: Configure {
    config: C,
}

impl<C> Default for RawDecoder<C> where C: Configure {
    fn default() -> (decoder: Self)
        ensures
            call_ensures(C::default, (), decoder.spec_config()),
    {
        RawDecoder { config: C::default() }
    }
}

impl<C> RawDecoder<C> where C: Configure {
    /// The configuration that `self` decodes under.
    pub closed spec fn spec_config(&self) -> C {
        self.config
    }

    /// Creates a new [`RawDecoder`] with default configuration options.
    pub fn new() -> (decoder: Self)
        ensures
            call_ensures(C::default, (), decoder.spec_config()),
    {
        Self::default()
    }

    /// Turns `self` into a [`RawDecoderBuffered`] by adding an internal
    /// buffer.
    pub fn buffered(self) -> (decoder: RawDecoderBuffered<C>)
        ensures
            decoder@ == (StreamView { buffer: Seq::empty(), stage: Stage::Sizing }),
            decoder.spec_config() == self.spec_config(),
    {
        RawDecoderBuffered { buffer: Vec::new(), decoder: self, stage: Stage::Sizing }
    }

    /// Creates a new [`RawDecoder`] with `config` as a [`Configure`]
    /// implementor.
    pub fn with_config(config: C) -> (decoder: Self)
        ensures
            decoder.spec_config() == config,
    {
        Self { config }
    }

    /// Returns an immutable reference to the [`Configure`] implementor used
    /// by `self`.
    pub fn config(&self) -> (config: &C)
        ensures
            *config == self.spec_config(),
    {
        &self.config
    }

    /// Returns a mutable reference to the [`Configure`] implementor used by
    /// `self`.
    pub fn config_mut(&mut self) -> (config: &mut C)
        ensures
            *config == old(self).spec_config(),
            final(self).spec_config() == *final(config),
    {
        &mut self.config
    }

    /// Does minimal parsing on `src` and returns a [`RawFrame`] if it's
    /// valid.
    ///
    /// The result is that of [`decode_spec`] on the bytes of `src`, under the
    /// separator and the checksum switch of the configuration. No input
    /// makes this function panic.
    pub fn decode<T>(&self, src: T) -> (result: Result<RawFrame<T>, DecodeError>) where T: AsBytes
        ensures
            is_decoding_of(
                result,
                src,
                self.spec_config().spec_separator(),
                self.spec_config().spec_verify_checksum(),
            ),
    {
        let separator = self.config.separator();
        let data = src.as_bytes();
        if data.len() < MIN_FIX_MESSAGE_LEN_IN_BYTES {
            return Err(DecodeError::Length);
        }
        let info = match HeaderInfo::parse(data, separator) {
            Ok(info) => info,
            Err(error) => { return Err(error); },
        };
        let body = info.body_range();
        match verify_body_length(data, info.start_of_body(), body.end - body.start) {
            Ok(()) => {},
            Err(error) => { return Err(error); },
        }
        match verify_checksum_field(data, separator) {
            Ok(()) => {},
            Err(error) => { return Err(error); },
        }
        if self.config.verify_checksum() {
            match verify_checksum(data) {
                Ok(()) => {},
                Err(error) => { return Err(error); },
            }
        }
        let begin_string = info.begin_string_range();
        let payload_offset = body.start;
        Ok(RawFrame { data: src, begin_string, payload: body, payload_offset })
    }
}

/// Where a [`RawDecoderBuffered`] stands with the message it is reading.
#[derive(Debug, Copy, Clone, PartialEq, Eq, Structural)]
pub enum Stage {
    /// The length of the message is not known yet.
    Sizing,
    /// The length is known, and the buffer has that length.
    Ready,
    /// The length cannot be known. Nothing but
    /// [`RawDecoderBuffered::clear`] leaves this stage.
    Failed(DecodeError),
}

/// What a [`RawDecoderBuffered`] stands for: the bytes that it holds, and
/// its stage.
pub struct StreamView {
    /// The bytes of the message read so far, then those still to be filled.
    pub buffer: Seq<u8>,
    /// Where the decoder stands.
    pub stage: Stage,
}

/// `count` bytes, all zero.
pub open spec fn zeros(count: int) -> Seq<u8> {
    Seq::new(count as nat, |i: int| 0u8)
}

/// The length of the message that starts with `buffered`, as its header
/// announces it.
///
/// Without a header it cannot be known ([`DecodeError::Invalid`]). A length
/// below the number of bytes already buffered, or beyond `usize::MAX`, is no
/// length that the buffer could be brought to ([`DecodeError::Length`]).
pub open spec fn announced_len(buffered: Seq<u8>, separator: u8) -> Result<int, DecodeError> {
    match scan_header(buffered, separator) {
        None => Err(DecodeError::Invalid),
        Some(header) => {
            let total = header.start_of_body() + header.body_length + FIELD_CHECKSUM_LEN_IN_BYTES;
            if buffered.len() <= total <= usize::MAX {
                Ok(total)
            } else {
                Err(DecodeError::Length)
            }
        },
    }
}

/// The state that asking for the next region to fill leads to, the new
/// bytes being zero until they are filled.
///
/// While sizing, a buffer below [`MIN_FIX_MESSAGE_LEN_IN_BYTES`] grows to
/// that length; a longer one grows to [`announced_len`] and is ready, or
/// fails where no length is announced. In the other stages nothing changes.
pub open spec fn after_supply(state: StreamView, separator: u8) -> StreamView {
    match state.stage {
        Stage::Sizing => {
            if state.buffer.len() < MIN_FIX_MESSAGE_LEN_IN_BYTES {
                StreamView {
                    buffer: state.buffer + zeros(
                        MIN_FIX_MESSAGE_LEN_IN_BYTES - state.buffer.len(),
                    ),
                    stage: Stage::Sizing,
                }
            } else {
                match announced_len(state.buffer, separator) {
                    Ok(total) => StreamView {
                        buffer: state.buffer + zeros(total - state.buffer.len()),
                        stage: Stage::Ready,
                    },
                    Err(error) => StreamView { buffer: state.buffer, stage: Stage::Failed(error) },
                }
            }
        },
        _ => state,
    }
}

/// What a decoder in `state` reports as its current frame: nothing while
/// sizing, the error once failed, and once ready what decoding the buffer
/// gives.
pub open spec fn current_frame_spec(
    state: StreamView,
    separator: u8,
    verify_checksum: bool,
) -> Result<Option<FrameView>, DecodeError> {
    match state.stage {
        Stage::Sizing => Ok(None),
        Stage::Failed(error) => Err(error),
        Stage::Ready => match decode_spec(state.buffer, separator, verify_checksum) {
            Ok(frame) => Ok(Some(frame)),
            Err(error) => Err(error),
        },
    }
}

/// The view of what [`RawDecoderBuffered::current_frame`] returns.
pub open spec fn current_frame_view<'a>(
    result: Result<Option<RawFrame<&'a [u8]>>, DecodeError>,
) -> Result<Option<FrameView>, DecodeError> {
    match result {
        Ok(Some(frame)) => Ok(Some(frame@)),
        Ok(None) => Ok(None),
        Err(error) => Err(error),
    }
}

/// A [`RawDecoder`] that can buffer incoming data and read a stream of
/// messages.
///
/// The decoder asks for bytes, region by region: [`supply_buffer`] hands out
/// the part of its buffer that is to be filled next, first up to the
/// shortest length that a message can have, then up to the length that the
/// header announces. Once that length is reached, [`current_frame`] decodes
/// the buffer.
///
/// [`supply_buffer`]: RawDecoderBuffered::supply_buffer
/// [`current_frame`]: RawDecoderBuffered::current_frame
#[derive(Debug, Clone)]
pub struct RawDecoderBuffered<C = Config> where C: Configure {
    buffer: Vec<u8>,
    decoder: RawDecoder<C>,
    stage: Stage,
}

impl<C> View for RawDecoderBuffered<C> where C: Configure {
    type V = StreamView;

    closed spec fn view(&self) -> StreamView {
        StreamView { buffer: self.buffer@, stage: self.stage }
    }
}

impl<C> RawDecoderBuffered<C> where C: Configure {
    /// The configuration that `self` decodes under.
    pub closed spec fn spec_config(&self) -> C {
        self.decoder.spec_config()
    }

    /// Returns an immutable reference to the [`Configure`] implementor used
    /// by `self`.
    pub fn config(&self) -> (config: &C)
        ensures
            *config == self.spec_config(),
    {
        self.decoder.config()
    }

    /// Returns a mutable reference to the [`Configure`] implementor used by
    /// `self`.
    pub fn config_mut(&mut self) -> (config: &mut C)
        ensures
            *config == old(self).spec_config(),
            final(self).spec_config() == *final(config),
            final(self)@ == old(self)@,
    {
        self.decoder.config_mut()
    }

    /// Discards all buffered bytes and any failure: `self` is as it was when
    /// it was made, ready for the next message.
    pub fn clear(&mut self)
        ensures
            final(self)@ == (StreamView { buffer: Seq::empty(), stage: Stage::Sizing }),
            final(self).spec_config() == old(self).spec_config(),
    {
        self.buffer.clear();
        self.stage = Stage::Sizing;
    }

    /// Provides a buffer that must be filled before re-attempting to
    /// deserialize the next [`RawFrame`].
    ///
    /// The state moves as [`after_supply`] says. The region handed out is
    /// what the buffer has grown by, and nothing of what was filled before:
    /// it is empty where the buffer did not grow. Whatever the caller writes
    /// into the region is what the buffer then holds behind its old bytes.
    pub fn supply_buffer(&mut self) -> (region: &mut [u8])
        ensures
            old(self)@.buffer + region@ == after_supply(
                old(self)@,
                old(self).spec_config().spec_separator(),
            ).buffer,
            final(self)@.buffer == old(self)@.buffer + final(region)@,
            final(self)@.stage == after_supply(
                old(self)@,
                old(self).spec_config().spec_separator(),
            ).stage,
            final(self).spec_config() == old(self).spec_config(),
    {
        let current_len = self.buffer.len();
        match self.stage {
            Stage::Sizing => {
                if current_len < MIN_FIX_MESSAGE_LEN_IN_BYTES {
                    self.buffer.resize(MIN_FIX_MESSAGE_LEN_IN_BYTES, 0);
                } else {
                    let separator = self.decoder.config().separator();
                    match announced_total(self.buffer.as_slice(), separator) {
                        Ok(total_len) => {
                            self.buffer.resize(total_len, 0);
                            self.stage = Stage::Ready;
                        },
                        Err(error) => {
                            self.stage = Stage::Failed(error);
                        },
                    }
                }
            },
            _ => {},
        }
        let (_, region) = self.buffer.as_mut_slice().split_at_mut(current_len);
        region
    }

    /// Reports the message that the buffer holds.
    ///
    /// `Ok(None)` while the decoder is still sizing; once the buffer has the
    /// announced length, the frame that decoding it gives, or the error;
    /// after a failure to size, that failure.
    pub fn current_frame<'a>(&'a self) -> (result: Result<Option<RawFrame<&'a [u8]>>, DecodeError>)
        ensures
            current_frame_view(result) == current_frame_spec(
                self@,
                self.spec_config().spec_separator(),
                self.spec_config().spec_verify_checksum(),
            ),
            result matches Ok(Some(frame)) ==> frame.spec_data()@ == self@.buffer,
    {
        match self.stage {
            Stage::Failed(error) => Err(error),
            Stage::Sizing => Ok(None),
            Stage::Ready => {
                match self.decoder.decode(self.buffer.as_slice()) {
                    Ok(frame) => Ok(Some(frame)),
                    Err(error) => Err(error),
                }
            },
        }
    }
}

/// Computes [`announced_len`].
fn announced_total(buffered: &[u8], separator: u8) -> (result: Result<usize, DecodeError>)
    ensures
        match result {
            Ok(total) => announced_len(buffered@, separator) == Ok::<int, DecodeError>(
                total as int,
            ),
            Err(error) => announced_len(buffered@, separator) == Err::<int, DecodeError>(error),
        },
{
    let info = match HeaderInfo::parse(buffered, separator) {
        Ok(info) => info,
        Err(error) => { return Err(error); },
    };
    let body = info.body_range();
    if body.end > usize::MAX - FIELD_CHECKSUM_LEN_IN_BYTES {
        return Err(DecodeError::Length);
    }
    let total_len = body.end + FIELD_CHECKSUM_LEN_IN_BYTES;
    if total_len < buffered.len() {
        Err(DecodeError::Length)
    } else {
        Ok(total_len)
    }
}

} // verus!
