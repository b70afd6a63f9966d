use oauth_sign::percent::percent_decode;
use oauth_sign::percent::percent_encode;

#[test]
fn unreserved_bytes_pass_through() {
    let input = b"AZaz09-_.~abcXYZ";
    assert_eq!(percent_encode(input), input.to_vec());
}

#[test]
fn reserved_bytes_become_uppercase_hex() {
    assert_eq!(percent_encode(b" "), b"%20".to_vec());
    assert_eq!(percent_encode(b"&"), b"%26".to_vec());
    assert_eq!(percent_encode(b"="), b"%3D".to_vec());
    assert_eq!(percent_encode(b"/"), b"%2F".to_vec());
    assert_eq!(percent_encode(b":"), b"%3A".to_vec());
    assert_eq!(percent_encode(b","), b"%2C".to_vec());
    assert_eq!(percent_encode(b"\xff"), b"%FF".to_vec());
}

#[test]
fn printable_ascii_round_trips_through_standard_decoder() {
    let mut input: Vec<u8> = Vec::new();
    let mut b = 0x20u8;
    while b < 0x7f {
        input.push(b);
        b += 1;
    }
    let encoded = percent_encode(&input);
    let decoded = urlencoding::decode_binary(&encoded);
    assert_eq!(decoded.into_owned(), input);
}

#[test]
fn arbitrary_bytes_round_trip_through_own_decoder() {
    let input: Vec<u8> = (0u8..=255u8).collect();
    let encoded = percent_encode(&input);
    let decoded = percent_decode(&encoded).expect("encoder output must decode");
    assert_eq!(decoded, input);
}

#[test]
fn url_example_encodes_as_expected() {
    assert_eq!(
        percent_encode(b"https://api.example.com/1.1/statuses/update.json"),
        b"https%3A%2F%2Fapi.example.com%2F1.1%2Fstatuses%2Fupdate.json".to_vec()
    );
}

#[test]
fn decoder_accepts_lowercase_hex() {
    assert_eq!(percent_decode(b"a%2fb"), Some(b"a/b".to_vec()));
}

#[test]
fn decoder_rejects_truncated_escape() {
    assert_eq!(percent_decode(b"abc%"), None);
    assert_eq!(percent_decode(b"abc%2"), None);
}

#[test]
fn decoder_rejects_bad_hex_digits() {
    assert_eq!(percent_decode(b"%G1"), None);
    assert_eq!(percent_decode(b"%2"), None);
}
