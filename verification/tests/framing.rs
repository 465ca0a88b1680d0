use fefix::tagvalue::utils::{
    checksum_10, verify_body_length, verify_checksum, verify_checksum_field,
    FIELD_CHECKSUM_LEN_IN_BYTES, MIN_FIX_MESSAGE_LEN_IN_BYTES,
};
use fefix::tagvalue::{Config, Configure, DecodeError, HeaderInfo, RawDecoder};
use fefix::{OptError, OptResult};

const SAMPLE: &[u8] = b"8=FIX.4.2|9=40|35=D|49=AFUNDMGR|56=ABROKER|15=USD|59=0|10=091|";

fn decoder_with(separator: u8, verify_checksum: bool) -> RawDecoder {
    let mut config = Config::default();
    config.set_separator(separator);
    config.set_verify_checksum(verify_checksum);
    RawDecoder::with_config(config)
}

fn sum_of(bytes: &[u8]) -> u8 {
    bytes.iter().fold(0u8, |sum, byte| sum.wrapping_add(*byte))
}

fn framed(begin_string: &[u8], body: &[u8], separator: u8) -> Vec<u8> {
    let mut message = Vec::new();
    message.extend_from_slice(b"8=");
    message.extend_from_slice(begin_string);
    message.push(separator);
    message.extend_from_slice(format!("9={}", body.len()).as_bytes());
    message.push(separator);
    message.extend_from_slice(body);
    let checksum = sum_of(&message);
    message.extend_from_slice(format!("10={:03}", checksum).as_bytes());
    message.push(separator);
    message
}

#[test]
fn constants_have_their_values() {
    assert_eq!(MIN_FIX_MESSAGE_LEN_IN_BYTES, 20);
    assert_eq!(FIELD_CHECKSUM_LEN_IN_BYTES, 7);
}

#[test]
fn buffers_below_the_minimum_fail_with_length() {
    for verify in [true, false] {
        let decoder = decoder_with(b'|', verify);
        for len in 0..MIN_FIX_MESSAGE_LEN_IN_BYTES {
            assert_eq!(decoder.decode(&SAMPLE[..len]).err(), Some(DecodeError::Length));
            assert_eq!(decoder.decode(vec![0u8; len]).err(), Some(DecodeError::Length));
            assert_eq!(decoder.decode(vec![b'|'; len]).err(), Some(DecodeError::Length));
        }
    }
}

#[test]
fn buffers_of_the_minimum_length_are_read() {
    for verify in [true, false] {
        let decoder = decoder_with(b'|', verify);
        assert_eq!(
            decoder.decode(&SAMPLE[..19]).err(),
            Some(DecodeError::Length)
        );
        assert_eq!(
            decoder.decode(&SAMPLE[..20]).err(),
            Some(DecodeError::Length)
        );
        assert_eq!(decoder.decode(vec![0u8; 19]).err(), Some(DecodeError::Length));
        assert_eq!(decoder.decode(vec![0u8; 20]).err(), Some(DecodeError::Invalid));
        assert_eq!(
            decoder.decode(&b"8=?|9=1|x10=203|"[..]).err(),
            Some(DecodeError::Length)
        );
        assert_eq!(
            decoder.decode(&b"8=?|9=4|35=|10=119|"[..]).err(),
            Some(DecodeError::Length)
        );
        let frame = decoder.decode(&b"8=?|9=5|35=?|10=183|"[..]).unwrap();
        assert_eq!(frame.payload(), b"35=?|");
    }
}

#[test]
fn framed_messages_decode_with_the_declared_body_length() {
    let decoder = decoder_with(b'|', true);
    for len in 1..300usize {
        let body: Vec<u8> = (0..len).map(|i| b'a' + (i % 26) as u8).collect();
        let message = framed(b"FIX.4.4", &body, b'|');
        let frame = decoder.decode(message.as_slice()).unwrap();
        assert_eq!(frame.payload().len(), len);
        assert_eq!(frame.payload(), body.as_slice());
        assert_eq!(frame.begin_string(), b"FIX.4.4");
        assert_eq!(frame.as_bytes(), message.as_slice());
        assert_eq!(frame.payload_offset(), message.len() - 7 - len);
    }
}

#[test]
fn payload_may_hold_separators_and_equal_signs() {
    let decoder = decoder_with(1, true);
    let body = b"35=0\x0149=A\x0156=B\x01";
    let message = framed(b"FIXT.1.1", body, 1);
    let frame = decoder.decode(message.as_slice()).unwrap();
    assert_eq!(frame.begin_string(), b"FIXT.1.1");
    assert_eq!(frame.payload(), body);
    assert_eq!(frame.payload_offset(), 16);
}

#[test]
fn corrupted_checksum_digit_fails_only_under_verification() {
    let strict = decoder_with(b'|', true);
    let lenient = decoder_with(b'|', false);
    let intact = strict.decode(SAMPLE).unwrap();
    for at in [SAMPLE.len() - 4, SAMPLE.len() - 3, SAMPLE.len() - 2] {
        for digit in b'0'..=b'9' {
            if digit == SAMPLE[at] {
                continue;
            }
            let mut corrupted = SAMPLE.to_vec();
            corrupted[at] = digit;
            assert_eq!(
                strict.decode(corrupted.as_slice()).err(),
                Some(DecodeError::CheckSum)
            );
            let frame = lenient.decode(corrupted.as_slice()).unwrap();
            assert_eq!(frame.begin_string(), intact.begin_string());
            assert_eq!(frame.payload(), intact.payload());
            assert_eq!(frame.payload_offset(), intact.payload_offset());
        }
    }
}

#[test]
fn checksum_above_255_is_a_mismatch() {
    let message = b"8=?|9=5|35=?|10=999|";
    assert_eq!(
        decoder_with(b'|', true).decode(&message[..]).err(),
        Some(DecodeError::CheckSum)
    );
    assert!(decoder_with(b'|', false).decode(&message[..]).is_ok());
}

#[test]
fn malformed_checksum_field_is_invalid() {
    for verify in [true, false] {
        let decoder = decoder_with(b'|', verify);
        for message in [
            &b"8=?|9=5|35=?|10=18x|"[..],
            &b"8=?|9=5|35=?|10=x83|"[..],
            &b"8=?|9=5|35=?|10=1/3|"[..],
            &b"8=?|9=5|35=?|10=1:3|"[..],
            &b"8=?|9=5|35=?|11=183|"[..],
            &b"8=?|9=5|35=?|20=183|"[..],
            &b"8=?|9=5|35=?|10|183|"[..],
            &b"8=?|9=5|35=?|10=183="[..],
            &b"8=?|9=5|35=?|10=183\x01"[..],
        ] {
            assert_eq!(decoder.decode(message).err(), Some(DecodeError::Invalid));
        }
    }
}

#[test]
fn missing_header_is_invalid() {
    let decoder = decoder_with(b'|', true);
    for message in [
        &b"8=FIX.4.2 9=40 35=D 49=A"[..],
        &b"8=FIX.4.2|9=4035=D49=AFU"[..],
        &b"8FIX.4.2|9=40|35=D|49=A|"[..],
        &b"8=FIX.4.2|940|35=D|49=A|"[..],
        &b"=FIX.4.2|9=40|35=D|49=A|"[..],
        &b"|8=FIX.4.2|9=40|35=D|49|"[..],
        &[0u8; 40][..],
        &[b'|'; 40][..],
        &[b'='; 40][..],
    ] {
        assert_eq!(decoder.decode(message).err(), Some(DecodeError::Invalid));
    }
}

#[test]
fn wrong_announced_length_fails_with_length() {
    let decoder = decoder_with(b'|', false);
    for message in [
        &b"8=FIX.4.2|9=39|35=D|49=AFUNDMGR|56=ABROKER|15=USD|59=0|10=091|"[..],
        &b"8=FIX.4.2|9=41|35=D|49=AFUNDMGR|56=ABROKER|15=USD|59=0|10=091|"[..],
        &b"8=FIX.4.2|9=0|35=D|49=AFUNDMGR|56=ABROKER|15=USD|59=0|10=091|"[..],
        &b"8=FIX.4.2|9=99999999999999999999999999|35=D|10=091|"[..],
        &b"8=FIX.4.2|9=18446744073709551615|35=D|10=091|"[..],
        &b"8=FIX.4.2|9=18446744073709551600|35=D|10=091|"[..],
        &b"8=FIX.4.2|9=-1|35=D|10=091|"[..],
    ] {
        assert_eq!(decoder.decode(message).err(), Some(DecodeError::Length));
    }
}

#[test]
fn decoding_twice_gives_the_same_frame() {
    for verify in [true, false] {
        let decoder = decoder_with(b'|', verify);
        let first = decoder.decode(SAMPLE).unwrap();
        let second = decoder.decode(SAMPLE).unwrap();
        assert_eq!(first.as_bytes(), second.as_bytes());
        assert_eq!(first.begin_string(), second.begin_string());
        assert_eq!(first.payload(), second.payload());
        assert_eq!(first.payload_offset(), second.payload_offset());
        let bad = b"8=FIX.4.2|9=40|35=D|49=AFUNDMGR|56=ABROKER|15=USD|59=0|10=09";
        assert_eq!(decoder.decode(&bad[..]).err(), decoder.decode(&bad[..]).err());
    }
}

#[test]
fn arbitrary_bytes_never_panic() {
    let decoders = [
        decoder_with(b'|', true),
        decoder_with(b'|', false),
        decoder_with(1, true),
        decoder_with(b'=', true),
        decoder_with(b'0', true),
    ];
    let alphabet = b"8=9|10=\x01FIX.42-35:aZ\x00\xff";
    let mut state: u64 = 0x2545_F491_4F6C_DD1D;
    let mut inputs: Vec<Vec<u8>> = vec![
        Vec::new(),
        vec![0u8; 64],
        vec![b'|'; 64],
        vec![1u8; 64],
        b"|5=9|?=8|".to_vec(),
        b"|190=01|5=?3|5=9|?=8".to_vec(),
        SAMPLE.iter().rev().copied().collect(),
    ];
    for round in 0..4000usize {
        let len = round % 97;
        let mut bytes = Vec::with_capacity(len);
        for _ in 0..len {
            state = state
                .wrapping_mul(6364136223846793005)
                .wrapping_add(1442695040888963407);
            let pick = (state >> 33) as usize;
            if round % 2 == 0 {
                bytes.push(alphabet[pick % alphabet.len()]);
            } else {
                bytes.push((pick % 256) as u8);
            }
        }
        inputs.push(bytes);
    }
    for input in &inputs {
        for decoder in &decoders {
            match decoder.decode(input.as_slice()) {
                Ok(frame) => {
                    assert_eq!(frame.as_bytes(), input.as_slice());
                    assert_eq!(
                        frame.payload_offset() + frame.payload().len() + 7,
                        input.len()
                    );
                }
                Err(error) => assert!(matches!(
                    error,
                    DecodeError::Length | DecodeError::Invalid | DecodeError::CheckSum
                )),
            }
        }
    }
}

#[test]
fn header_scanner_reports_the_indices() {
    let info = HeaderInfo::parse(SAMPLE, b'|').unwrap();
    assert_eq!(info.start_of_body(), 15);
    assert_eq!(info.begin_string_range(), 2..9);
    assert_eq!(info.body_range(), 15..55);
    let info = HeaderInfo::parse(b"8=?|9=5|", b'|').unwrap();
    assert_eq!(info.start_of_body(), 8);
    assert_eq!(info.begin_string_range(), 2..3);
    assert_eq!(info.body_range(), 8..13);
    let info = HeaderInfo::parse(b"8=\x019=\x01", 1).unwrap();
    assert_eq!(info.start_of_body(), 6);
    assert_eq!(info.begin_string_range(), 2..2);
    assert_eq!(info.body_range(), 6..6);
}

#[test]
fn header_scanner_takes_the_last_equal_sign_of_a_field() {
    let info = HeaderInfo::parse(b"8==A=FIX|9=1=12|rest", b'|').unwrap();
    assert_eq!(info.begin_string_range(), 5..8);
    assert_eq!(info.start_of_body(), 16);
    assert_eq!(info.body_range(), 16..28);
    let info = HeaderInfo::parse(b"=8=FIX|9=7|", b'|').unwrap();
    assert_eq!(info.begin_string_range(), 3..6);
    assert_eq!(info.body_range(), 11..18);
}

#[test]
fn header_scanner_rejects_what_it_cannot_locate() {
    for data in [
        &b""[..],
        &b"8"[..],
        &b"8=FIX.4.2"[..],
        &b"8=FIX.4.2|"[..],
        &b"8=FIX.4.2|9=40"[..],
        &b"8=FIX.4.2|940|"[..],
        &b"8FIX.4.2|9=40|"[..],
        &b"=FIX.4.2|9=40|"[..],
        &b"|9=40|"[..],
        &b"||"[..],
        &b"=|=|"[..],
    ] {
        assert_eq!(
            HeaderInfo::parse(data, b'|').err(),
            Some(DecodeError::Invalid)
        );
    }
    assert_eq!(
        HeaderInfo::parse(b"8=FIX=9=40=", b'=').err(),
        Some(DecodeError::Invalid)
    );
}

#[test]
fn header_scanner_folds_bytes_that_are_no_digits() {
    let info = HeaderInfo::parse(b"8=F|9=1a|", b'|').unwrap();
    assert_eq!(info.body_range(), 9..9 + 10 + 49);
    let info = HeaderInfo::parse(b"8=F|9=-1|", b'|').unwrap();
    let folded = 0usize
        .wrapping_mul(10)
        .wrapping_add(b'-'.wrapping_sub(b'0') as usize)
        .wrapping_mul(10)
        .wrapping_add(1);
    assert_eq!(folded, 2531);
    assert_eq!(info.body_range(), 9..9 + 2531);
}

#[test]
fn header_scanner_wraps_and_the_body_range_saturates() {
    let digits = "99999999999999999999999999";
    let mut wrapped = 0usize;
    for digit in digits.bytes() {
        wrapped = wrapped.wrapping_mul(10).wrapping_add((digit - b'0') as usize);
    }
    let data = format!("8=F|9={}|", digits);
    let info = HeaderInfo::parse(data.as_bytes(), b'|').unwrap();
    let start = data.len();
    assert_eq!(info.start_of_body(), start);
    assert_eq!(
        info.body_range(),
        start..start.checked_add(wrapped).unwrap_or(usize::MAX)
    );
    let data = format!("8=F|9={}|", usize::MAX);
    let info = HeaderInfo::parse(data.as_bytes(), b'|').unwrap();
    assert_eq!(info.body_range(), data.len()..usize::MAX);
    let data = format!("8=F|9={}|", usize::MAX - 100);
    assert_eq!(data.len(), 27);
    let info = HeaderInfo::parse(data.as_bytes(), b'|').unwrap();
    assert_eq!(info.body_range(), 27..usize::MAX - 73);
    let data = format!("8=F|9={}|", usize::MAX - 26);
    let info = HeaderInfo::parse(data.as_bytes(), b'|').unwrap();
    assert_eq!(info.body_range(), 27..usize::MAX);
    let data = format!("8=F|9={}|", usize::MAX - 27);
    let info = HeaderInfo::parse(data.as_bytes(), b'|').unwrap();
    assert_eq!(info.body_range(), 27..usize::MAX);
    let data = format!("8=F|9={}|", usize::MAX - 28);
    let info = HeaderInfo::parse(data.as_bytes(), b'|').unwrap();
    assert_eq!(info.body_range(), 27..usize::MAX - 1);
}

#[test]
fn checksum_is_the_sum_modulo_256() {
    assert_eq!(checksum_10(b""), 0);
    assert_eq!(checksum_10(b"\xff\x02"), 1);
    assert_eq!(checksum_10(&[128u8; 4]), 0);
    assert_eq!(checksum_10(&SAMPLE[..SAMPLE.len() - 7]), 91);
    assert_eq!(checksum_10(b"8=?|9=5|35=?|"), 183);
}

#[test]
fn body_length_is_checked_against_the_total() {
    assert_eq!(verify_body_length(SAMPLE, 15, 40), Ok(()));
    assert_eq!(verify_body_length(SAMPLE, 15, 39), Err(DecodeError::Length));
    assert_eq!(verify_body_length(SAMPLE, 15, 41), Err(DecodeError::Length));
    assert_eq!(verify_body_length(SAMPLE, 14, 40), Err(DecodeError::Length));
    assert_eq!(verify_body_length(SAMPLE, 55, 0), Ok(()));
    assert_eq!(verify_body_length(SAMPLE, 56, 0), Err(DecodeError::Length));
    assert_eq!(
        verify_body_length(SAMPLE, 56, usize::MAX),
        Err(DecodeError::Length)
    );
    assert_eq!(
        verify_body_length(SAMPLE, usize::MAX, usize::MAX),
        Err(DecodeError::Length)
    );
    assert_eq!(verify_body_length(b"10=000|", 0, 0), Ok(()));
    assert_eq!(verify_body_length(b"0=000|", 0, 0), Err(DecodeError::Length));
    assert_eq!(verify_body_length(b"", 0, 0), Err(DecodeError::Length));
}

#[test]
fn checksum_field_is_checked_for_its_shape() {
    assert_eq!(verify_checksum_field(SAMPLE, b'|'), Ok(()));
    assert_eq!(verify_checksum_field(b"10=000|", b'|'), Ok(()));
    assert_eq!(verify_checksum_field(b"10=999\x01", 1), Ok(()));
    assert_eq!(
        verify_checksum_field(SAMPLE, 1),
        Err(DecodeError::Invalid)
    );
    for data in [
        &b""[..],
        &b"0=000|"[..],
        &b"10=00a|"[..],
        &b"10=0a0|"[..],
        &b"10=a00|"[..],
        &b"10-000|"[..],
        &b"11=000|"[..],
        &b"00=000|"[..],
        &b"10=000"[..],
    ] {
        assert_eq!(verify_checksum_field(data, b'|'), Err(DecodeError::Invalid));
    }
}

#[test]
fn checksum_value_is_compared_with_the_sum() {
    assert_eq!(verify_checksum(SAMPLE), Ok(()));
    assert_eq!(verify_checksum(b"8=?|9=5|35=?|10=183|"), Ok(()));
    assert_eq!(verify_checksum(b"10=000|"), Ok(()));
    assert_eq!(
        verify_checksum(b"8=?|9=5|35=?|10=184|"),
        Err(DecodeError::CheckSum)
    );
    assert_eq!(
        verify_checksum(b"8=?|9=5|35=?|10=083|"),
        Err(DecodeError::CheckSum)
    );
    assert_eq!(verify_checksum(b"10=256|"), Err(DecodeError::CheckSum));
    assert_eq!(
        verify_checksum(b"8=?|9=5|35=?|10=1x3|"),
        Err(DecodeError::Invalid)
    );
    assert_eq!(verify_checksum(b"183|"), Err(DecodeError::Invalid));
    assert_eq!(verify_checksum(b""), Err(DecodeError::Invalid));
}

#[test]
fn default_configuration_is_soh_with_verification() {
    let config = Config::default();
    assert_eq!(config.separator(), 1);
    assert!(config.verify_checksum());
    let decoder = RawDecoder::<Config>::new();
    assert_eq!(decoder.config().separator(), 1);
    assert!(decoder.config().verify_checksum());
    let decoder = RawDecoder::<Config>::default();
    assert_eq!(decoder.config().separator(), 1);
    let message = framed(b"FIX.4.2", b"35=0\x01", 1);
    let frame = decoder.decode(message.as_slice()).unwrap();
    assert_eq!(frame.payload(), b"35=0\x01");
    assert_eq!(
        decoder.decode(SAMPLE).err(),
        Some(DecodeError::Invalid)
    );
}

#[test]
fn configuration_can_be_changed() {
    let mut decoder = RawDecoder::<Config>::new();
    decoder.config_mut().set_separator(b'^');
    decoder.config_mut().set_verify_checksum(false);
    assert_eq!(decoder.config().separator(), b'^');
    assert!(!decoder.config().verify_checksum());
    let frame = decoder.decode(&b"8=?^9=5^35=?^10=000^"[..]).unwrap();
    assert_eq!(frame.payload(), b"35=?^");
    let mut buffered = decoder.buffered();
    assert_eq!(buffered.config().separator(), b'^');
    buffered.config_mut().set_separator(b'|');
    assert_eq!(buffered.config().separator(), b'|');
    assert!(!buffered.config().verify_checksum());
}

#[test]
fn frames_hold_borrowed_or_owned_bytes() {
    let decoder = decoder_with(b'|', true);
    let owned = decoder.decode(SAMPLE.to_vec()).unwrap();
    assert_eq!(owned.payload(), b"35=D|49=AFUNDMGR|56=ABROKER|15=USD|59=0|");
    let array = b"8=?|9=5|35=?|10=183|";
    let from_array = decoder.decode(array).unwrap();
    assert_eq!(from_array.begin_string(), b"?");
    assert_eq!(from_array.payload_offset(), 8);
}

#[test]
fn map_data_keeps_the_ranges() {
    let decoder = decoder_with(b'|', true);
    let borrowed = decoder.decode(SAMPLE).unwrap();
    let owned = borrowed.map_data(|data| data.to_vec());
    assert_eq!(owned.as_bytes(), SAMPLE);
    assert_eq!(owned.begin_string(), b"FIX.4.2");
    assert_eq!(owned.payload(), b"35=D|49=AFUNDMGR|56=ABROKER|15=USD|59=0|");
    assert_eq!(owned.payload_offset(), 15);
}

#[test]
fn absent_data_differs_from_other_errors() {
    let missing: OptResult<u8, DecodeError> = Err(OptError::Missing);
    let other: OptResult<u8, DecodeError> = Err(OptError::Other(DecodeError::Invalid));
    assert_ne!(missing, other);
    assert_eq!(other, Err(OptError::Other(DecodeError::Invalid)));
    assert_eq!(missing.clone(), Err(OptError::Missing));
}
