use tendermint_lite::block::{Id, PartSetHeader};
use tendermint_lite::error::Error;
use tendermint_lite::serializers::{
    parse_duration, parse_height_option, parse_i64, parse_non_empty_block_id,
    parse_non_empty_hash, parse_u64, serialize_duration, serialize_i64, serialize_u64,
    RawBlockId, RawPartSetHeader,
};
use tendermint_lite::time::Duration;

const HEX_UPPER: &str = "0123456789ABCDEF0123456789ABCDEF0123456789ABCDEF0123456789ABCDEF";
const HEX_LOWER: &str = "0123456789abcdef0123456789abcdef0123456789abcdef0123456789abcdef";

fn expected_digest() -> tendermint_lite::hash::Hash {
    let mut bytes = [0u8; 32];
    let pattern = [0x01u8, 0x23, 0x45, 0x67, 0x89, 0xab, 0xcd, 0xef];
    for i in 0..32 {
        bytes[i] = pattern[i % 8];
    }
    tendermint_lite::hash::Hash::Sha256(bytes)
}

#[test]
fn parse_u64_reads_decimal_text() {
    assert_eq!(parse_u64("0"), Ok(0));
    assert_eq!(parse_u64("123"), Ok(123));
    assert_eq!(parse_u64("007"), Ok(7));
    assert_eq!(parse_u64("+5"), Ok(5));
    assert_eq!(parse_u64("18446744073709551615"), Ok(u64::MAX));
}

#[test]
fn parse_u64_refuses_what_is_no_number() {
    assert_eq!(parse_u64(""), Err(Error::InvalidInteger));
    assert_eq!(parse_u64("+"), Err(Error::InvalidInteger));
    assert_eq!(parse_u64("-1"), Err(Error::InvalidInteger));
    assert_eq!(parse_u64("-0"), Err(Error::InvalidInteger));
    assert_eq!(parse_u64("12a"), Err(Error::InvalidInteger));
    assert_eq!(parse_u64(" 12"), Err(Error::InvalidInteger));
    assert_eq!(parse_u64("12 "), Err(Error::InvalidInteger));
    assert_eq!(parse_u64("1_000"), Err(Error::InvalidInteger));
    assert_eq!(parse_u64("++1"), Err(Error::InvalidInteger));
    assert_eq!(parse_u64("١٢"), Err(Error::InvalidInteger));
    assert_eq!(parse_u64("18446744073709551616"), Err(Error::InvalidInteger));
    assert_eq!(parse_u64("99999999999999999999999"), Err(Error::InvalidInteger));
}

#[test]
fn parse_u64_agrees_with_the_standard_parser() {
    let texts = [
        "0", "1", "+1", "-1", "", "+", "-", "00", "18446744073709551615",
        "18446744073709551616", "1844674407370955161x", "x", "1.5", "0x10",
    ];
    for text in texts {
        assert_eq!(parse_u64(text).ok(), text.parse::<u64>().ok());
    }
}

#[test]
fn parse_i64_reads_signed_decimal_text() {
    assert_eq!(parse_i64("0"), Ok(0));
    assert_eq!(parse_i64("-0"), Ok(0));
    assert_eq!(parse_i64("+42"), Ok(42));
    assert_eq!(parse_i64("-42"), Ok(-42));
    assert_eq!(parse_i64("9223372036854775807"), Ok(i64::MAX));
    assert_eq!(parse_i64("-9223372036854775808"), Ok(i64::MIN));
}

#[test]
fn parse_i64_refuses_what_is_no_number() {
    assert_eq!(parse_i64(""), Err(Error::InvalidInteger));
    assert_eq!(parse_i64("-"), Err(Error::InvalidInteger));
    assert_eq!(parse_i64("+"), Err(Error::InvalidInteger));
    assert_eq!(parse_i64("--1"), Err(Error::InvalidInteger));
    assert_eq!(parse_i64("+-1"), Err(Error::InvalidInteger));
    assert_eq!(parse_i64("9223372036854775808"), Err(Error::InvalidInteger));
    assert_eq!(parse_i64("-9223372036854775809"), Err(Error::InvalidInteger));
    assert_eq!(parse_i64("1e3"), Err(Error::InvalidInteger));
}

#[test]
fn parse_i64_agrees_with_the_standard_parser() {
    let texts = [
        "0", "-0", "+0", "1", "-1", "", "+", "-", "9223372036854775807",
        "9223372036854775808", "-9223372036854775808", "-9223372036854775809", "- 1", "1-",
    ];
    for text in texts {
        assert_eq!(parse_i64(text).ok(), text.parse::<i64>().ok());
    }
}

#[test]
fn integers_are_written_in_decimal() {
    assert_eq!(serialize_u64(&0), "0");
    assert_eq!(serialize_u64(&10), "10");
    assert_eq!(serialize_u64(&1_000_000), "1000000");
    assert_eq!(serialize_u64(&u64::MAX), "18446744073709551615");
    assert_eq!(serialize_i64(&0), "0");
    assert_eq!(serialize_i64(&-1), "-1");
    assert_eq!(serialize_i64(&i64::MAX), "9223372036854775807");
    assert_eq!(serialize_i64(&i64::MIN), "-9223372036854775808");
}

#[test]
fn integers_that_are_written_are_read_back() {
    for v in [0u64, 1, 9, 10, 99, 100, 12345678901234567890, u64::MAX] {
        assert_eq!(parse_u64(&serialize_u64(&v)), Ok(v));
    }
    for v in [0i64, 1, -1, 10, -10, i64::MAX, i64::MIN] {
        assert_eq!(parse_i64(&serialize_i64(&v)), Ok(v));
    }
}

#[test]
fn durations_are_counts_of_nanoseconds() {
    let d = parse_duration("1500000000").unwrap();
    assert_eq!(d.as_secs(), 1);
    assert_eq!(d.subsec_nanos(), 500_000_000);
    assert_eq!(d.as_nanos(), 1_500_000_000);
    assert_eq!(d, Duration::from_nanos(1_500_000_000));
    assert_eq!(serialize_duration(&d), "1500000000");
    assert_eq!(serialize_duration(&Duration::from_nanos(0)), "0");
    assert_eq!(parse_duration("-1"), Err(Error::InvalidInteger));
    assert_eq!(parse_duration("18446744073709551616"), Err(Error::InvalidInteger));
    let max = parse_duration("18446744073709551615").unwrap();
    assert_eq!(max.as_secs(), 18_446_744_073);
    assert_eq!(max.subsec_nanos(), 709_551_615);
    assert_eq!(serialize_duration(&max), "18446744073709551615");
}

#[test]
fn a_height_that_does_not_parse_is_none() {
    assert_eq!(parse_height_option("42"), Some(42));
    assert_eq!(parse_height_option("0"), Some(0));
    assert_eq!(parse_height_option(""), None);
    assert_eq!(parse_height_option("-3"), None);
    assert_eq!(parse_height_option("height"), None);
}

#[test]
fn an_empty_hash_is_absent() {
    assert_eq!(parse_non_empty_hash(&None), Ok(None));
    assert_eq!(parse_non_empty_hash(&Some(String::new())), Ok(None));
}

#[test]
fn a_hash_is_read_from_hexadecimal_in_either_case() {
    assert_eq!(parse_non_empty_hash(&Some(String::from(HEX_UPPER))), Ok(Some(expected_digest())));
    assert_eq!(parse_non_empty_hash(&Some(String::from(HEX_LOWER))), Ok(Some(expected_digest())));
    assert_eq!(tendermint_lite::hash::Hash::from_hex(HEX_UPPER), Ok(expected_digest()));
}

#[test]
fn a_text_that_is_no_digest_is_refused() {
    assert_eq!(parse_non_empty_hash(&Some(String::from("00"))), Err(Error::InvalidHash));
    assert_eq!(parse_non_empty_hash(&Some(String::from(&HEX_UPPER[..63]))), Err(Error::InvalidHash));
    let long = format!("{}00", HEX_UPPER);
    assert_eq!(parse_non_empty_hash(&Some(long)), Err(Error::InvalidHash));
    let bad = format!("{}G", &HEX_UPPER[..63]);
    assert_eq!(parse_non_empty_hash(&Some(bad)), Err(Error::InvalidHash));
    let wide = format!("{}é", &HEX_UPPER[..62]);
    assert_eq!(wide.len(), 64);
    assert_eq!(parse_non_empty_hash(&Some(wide)), Err(Error::InvalidHash));
    assert_eq!(tendermint_lite::hash::Hash::from_hex(""), Err(Error::InvalidHash));
}

#[test]
fn a_block_id_without_a_hash_is_absent() {
    assert_eq!(parse_non_empty_block_id(&None), Ok(None));
    let raw = RawBlockId {
        hash: String::new(),
        parts: RawPartSetHeader { total: 0, hash: String::new() },
    };
    assert_eq!(parse_non_empty_block_id(&Some(raw)), Ok(None));
    let odd = RawBlockId {
        hash: String::new(),
        parts: RawPartSetHeader { total: 3, hash: String::from("not looked at") },
    };
    assert_eq!(parse_non_empty_block_id(&Some(odd)), Ok(None));
}

#[test]
fn a_block_id_is_read_with_its_parts() {
    let raw = RawBlockId {
        hash: String::from(HEX_UPPER),
        parts: RawPartSetHeader { total: 4, hash: String::from(HEX_LOWER) },
    };
    assert_eq!(
        parse_non_empty_block_id(&Some(raw)),
        Ok(Some(Id {
            hash: expected_digest(),
            parts: Some(PartSetHeader { total: 4, hash: expected_digest() }),
        }))
    );
}

#[test]
fn a_block_id_without_a_parts_hash_has_no_parts() {
    let raw = RawBlockId {
        hash: String::from(HEX_UPPER),
        parts: RawPartSetHeader { total: 4, hash: String::new() },
    };
    assert_eq!(
        parse_non_empty_block_id(&Some(raw)),
        Ok(Some(Id { hash: expected_digest(), parts: None }))
    );
}

#[test]
fn a_block_id_with_a_bad_hash_is_refused() {
    let bad_hash = RawBlockId {
        hash: String::from("XYZ"),
        parts: RawPartSetHeader { total: 4, hash: String::from(HEX_UPPER) },
    };
    assert_eq!(parse_non_empty_block_id(&Some(bad_hash)), Err(Error::InvalidHash));
    let bad_parts = RawBlockId {
        hash: String::from(HEX_UPPER),
        parts: RawPartSetHeader { total: 4, hash: String::from("XYZ") },
    };
    assert_eq!(parse_non_empty_block_id(&Some(bad_parts)), Err(Error::InvalidHash));
}

#[test]
fn a_hash_is_written_in_upper_case_hexadecimal() {
    assert_eq!(expected_digest().to_hex(), HEX_UPPER);
    assert_eq!(
        tendermint_lite::hash::Hash::Sha256([0; 32]).to_hex(),
        "0000000000000000000000000000000000000000000000000000000000000000"
    );
    assert_eq!(
        tendermint_lite::hash::Hash::Sha256([0xff; 32]).to_hex(),
        "FFFFFFFFFFFFFFFFFFFFFFFFFFFFFFFFFFFFFFFFFFFFFFFFFFFFFFFFFFFFFFFF"
    );
}

#[test]
fn a_hash_that_is_written_is_read_back() {
    let mut bytes = [0u8; 32];
    for i in 0..32 {
        bytes[i] = (i * 8 + 3) as u8;
    }
    let hash = tendermint_lite::hash::Hash::Sha256(bytes);
    assert_eq!(tendermint_lite::hash::Hash::from_hex(&hash.to_hex()), Ok(hash));
}

#[test]
fn errors_are_written_in_words() {
    assert_eq!(Error::NotFound(50).to_string(), "could not load height 50 from store");
    assert_eq!(Error::NotFound(0).to_string(), "could not load height 0 from store");
    assert_eq!(
        Error::NotFound(u64::MAX).to_string(),
        "could not load height 18446744073709551615 from store"
    );
    assert_eq!(Error::FatalEncoding.to_string(), "header has no canonical encoding");
    assert_eq!(Error::InvalidInteger.to_string(), "invalid decimal integer");
    assert_eq!(Error::InvalidHash.to_string(), "invalid hexadecimal digest");
}
