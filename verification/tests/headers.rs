use oauth_sign::client::bearer_header;
use oauth_sign::client::oauth_header_for_update;
use oauth_sign::client::Credentials;
use oauth_sign::header::build_auth_header;
use oauth_sign::header::OAuthParams;

fn sample_params() -> OAuthParams {
    OAuthParams {
        consumer_key: b"key with spaces".to_vec(),
        nonce: b"n&once".to_vec(),
        signature_method: b"HMAC-SHA1".to_vec(),
        timestamp: b"1191242096".to_vec(),
        token: b"tok=en".to_vec(),
        version: b"1.0".to_vec(),
    }
}

fn fixture_credentials() -> Credentials {
    Credentials {
        consumer_key: b"dpf43f3p2l4k3l03".to_vec(),
        consumer_secret: b"kd94hf93k423kf44".to_vec(),
        access_token: b"nnch734d00sl2jdk".to_vec(),
        access_secret: b"pfkkdhi9sl3r4s00".to_vec(),
        bearer_token: b"AAAA".to_vec(),
    }
}

#[test]
fn header_has_seven_fields_in_alphabetical_order() {
    let header = build_auth_header(&sample_params(), b"c2ln/nat+ure=");
    let text = String::from_utf8(header).unwrap();
    let body = text.strip_prefix("OAuth ").expect("header must start with OAuth ");
    let fields: Vec<&str> = body.split(", ").collect();
    assert_eq!(fields.len(), 7);
    let keys: Vec<&str> = fields.iter().map(|f| f.split('=').next().unwrap()).collect();
    assert_eq!(
        keys,
        vec![
            "oauth_consumer_key",
            "oauth_nonce",
            "oauth_signature",
            "oauth_signature_method",
            "oauth_timestamp",
            "oauth_token",
            "oauth_version",
        ]
    );
    let mut sorted_keys = keys.clone();
    sorted_keys.sort();
    assert_eq!(keys, sorted_keys);
}

#[test]
fn header_values_are_percent_encoded() {
    let header = build_auth_header(&sample_params(), b"c2ln/nat+ure=");
    let text = String::from_utf8(header).unwrap();
    let body = text.strip_prefix("OAuth ").unwrap();
    for field in body.split(", ") {
        let mut parts = field.splitn(2, '=');
        parts.next().unwrap();
        let value = parts.next().expect("every field is key=value");
        assert!(!value.contains(' '), "raw space in {field}");
        assert!(!value.contains('&'), "raw & in {field}");
        assert!(!value.contains('='), "raw = in {field}");
        assert!(!value.contains(','), "raw , in {field}");
    }
    assert!(text.contains("oauth_consumer_key=key%20with%20spaces"));
    assert!(text.contains("oauth_nonce=n%26once"));
    assert!(text.contains("oauth_signature=c2ln%2Fnat%2Bure%3D"));
    assert!(text.contains("oauth_token=tok%3Den"));
}

#[test]
fn full_pipeline_reproduces_recorded_header() {
    let credentials = fixture_credentials();
    let header = oauth_header_for_update(
        &credentials,
        b"https://api.twitter.com/1.1/statuses/update.json",
        b"hello world from twitter client5",
        b"1191242096",
        b"1191242096",
    );
    assert_eq!(
        String::from_utf8(header).unwrap(),
        "OAuth oauth_consumer_key=dpf43f3p2l4k3l03, oauth_nonce=1191242096, \
         oauth_signature=gPU5n0QDP2rBYFp9EdKF5CF9j5c%3D, oauth_signature_method=HMAC-SHA1, \
         oauth_timestamp=1191242096, oauth_token=nnch734d00sl2jdk, oauth_version=1.0"
    );
}

#[test]
fn full_pipeline_is_deterministic() {
    let credentials = fixture_credentials();
    let first = oauth_header_for_update(
        &credentials,
        b"https://api.twitter.com/1.1/statuses/update.json",
        b"status text",
        b"1300000000",
        b"1300000000",
    );
    let second = oauth_header_for_update(
        &credentials,
        b"https://api.twitter.com/1.1/statuses/update.json",
        b"status text",
        b"1300000000",
        b"1300000000",
    );
    assert_eq!(first, second);
}

#[test]
fn bearer_header_prefixes_the_token() {
    assert_eq!(bearer_header(b"AAAA%3D"), b"Bearer AAAA%3D".to_vec());
}
