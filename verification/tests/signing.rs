use oauth_sign::sigbase::build_signature_base;
use oauth_sign::signer::sign;
use oauth_sign::signer::signing_key;

#[test]
fn signature_base_matches_canonical_form() {
    let base = build_signature_base(
        b"POST",
        b"https://api.example.com/1.1/statuses/update.json",
        b"status=hello",
    );
    assert_eq!(
        base,
        b"POST&https%3A%2F%2Fapi.example.com%2F1.1%2Fstatuses%2Fupdate.json&status%3Dhello"
            .to_vec()
    );
}

#[test]
fn signing_key_encodes_each_secret_once() {
    assert_eq!(signing_key(b"abc&d", b"x y"), b"abc%26d&x%20y".to_vec());
    assert_eq!(
        signing_key(b"kd94hf93k423kf44", b"pfkkdhi9sl3r4s00"),
        b"kd94hf93k423kf44&pfkkdhi9sl3r4s00".to_vec()
    );
}

#[test]
fn known_answer_signature() {
    // The worked HMAC-SHA1 example of the OAuth Core 1.0 specification,
    // Appendix A.5: this base string signed with the key
    // `kd94hf93k423kf44&pfkkdhi9sl3r4s00` yields this base64 signature.
    let base: &[u8] = b"GET&http%3A%2F%2Fphotos.example.net%2Fphotos&file%3Dvacation.jpg%26\
oauth_consumer_key%3Ddpf43f3p2l4k3l03%26oauth_nonce%3Dkllo9940pd9333jh%26\
oauth_signature_method%3DHMAC-SHA1%26oauth_timestamp%3D1191242096%26\
oauth_token%3Dnnch734d00sl2jdk%26oauth_version%3D1.0%26size%3Doriginal";
    let signature = sign(base, b"kd94hf93k423kf44", b"pfkkdhi9sl3r4s00");
    assert_eq!(
        String::from_utf8(signature).unwrap(),
        "tR3+Ty81lMeYAr/Fid0kMTYa/WM="
    );
}

#[test]
fn signature_is_always_28_base64_bytes() {
    let signature = sign(b"anything", b"secret", b"");
    assert_eq!(signature.len(), 28);
    assert_eq!(signature[27], b'=');
}
