use oauth_sign::params::normalize;
use oauth_sign::params::Param;

fn param(key: &[u8], value: &[u8]) -> Param {
    Param { key: key.to_vec(), value: value.to_vec() }
}

#[test]
fn nonce_and_status_normalize_sorted_and_encoded() {
    let params = vec![param(b"oauth_nonce", b"1"), param(b"status", b"hi there")];
    assert_eq!(normalize(&params), b"oauth_nonce=1&status=hi%20there".to_vec());
}

#[test]
fn normalization_ignores_input_order() {
    let forward = vec![
        param(b"oauth_nonce", b"1"),
        param(b"status", b"hi there"),
        param(b"oauth_timestamp", b"1191242096"),
    ];
    let backward = vec![
        param(b"oauth_timestamp", b"1191242096"),
        param(b"status", b"hi there"),
        param(b"oauth_nonce", b"1"),
    ];
    let out = normalize(&forward);
    assert_eq!(out, normalize(&backward));
    assert_eq!(
        out,
        b"oauth_nonce=1&oauth_timestamp=1191242096&status=hi%20there".to_vec()
    );
}

#[test]
fn ties_on_key_are_broken_by_value_and_kept() {
    let params = vec![param(b"a", b"z"), param(b"a", b"b")];
    assert_eq!(normalize(&params), b"a=b&a=z".to_vec());
}

#[test]
fn keys_and_values_are_encoded_before_sorting() {
    // "~" (0x7e) sorts after "%" (0x25): the encoded forms decide the order.
    let params = vec![param(b"~k", b"1"), param(b" k", b"2")];
    assert_eq!(normalize(&params), b"%20k=2&~k=1".to_vec());
}

#[test]
fn empty_parameter_list_normalizes_to_empty() {
    let params: Vec<Param> = Vec::new();
    assert_eq!(normalize(&params), Vec::<u8>::new());
}

#[test]
fn empty_value_keeps_its_equals_sign() {
    let params = vec![param(b"status", b"")];
    assert_eq!(normalize(&params), b"status=".to_vec());
}
