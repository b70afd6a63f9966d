//! RFC 3986 percent-encoding over byte strings.
//!
//! Every byte outside the unreserved set (ASCII letters, digits, `-`, `_`,
//! `.`, `~`) is written as `%XX` with uppercase hexadecimal digits. This is
//! the encoding that every later stage of signing applies to keys, values,
//! URLs and the normalized parameter string.

use vstd::prelude::*;

verus! {

/// True of the bytes that percent-encoding leaves unchanged: ASCII letters,
/// digits, and `-`, `_`, `.`, `~`.
pub open spec fn is_unreserved(b: u8) -> bool {
    ('A' as u8 <= b && b <= 'Z' as u8) || ('a' as u8 <= b && b <= 'z' as u8) || ('0' as u8 <= b
        && b <= '9' as u8) || b == '-' as u8 || b == '_' as u8 || b == '.' as u8 || b == '~' as u8
}

/// The uppercase hexadecimal digit standing for a value below sixteen.
pub open spec fn hex_upper(n: u8) -> u8
    recommends
        n < 16,
{
    if n < 10 {
        ('0' as u8 + n) as u8
    } else {
        ('A' as u8 + n - 10) as u8
    }
}

/// How a single byte appears in percent-encoded output: an unreserved byte
/// stands for itself, every other byte becomes `%XX` in uppercase hex.
pub open spec fn encode_byte(b: u8) -> Seq<u8> {
    if is_unreserved(b) {
        seq![b]
    } else {
        seq!['%' as u8, hex_upper(b / 16), hex_upper(b % 16)]
    }
}

/// Percent-encoding of a whole byte string.
pub open spec fn percent_encode_spec(s: Seq<u8>) -> Seq<u8>
    decreases s.len(),
{
    if s.len() == 0 {
        Seq::empty()
    } else {
        encode_byte(s[0]) + percent_encode_spec(s.drop_first())
    }
}

/// Value of one hexadecimal digit byte; both digit cases are accepted on the
/// decoding side.
pub open spec fn is_hex_digit(b: u8) -> bool {
    ('0' as u8 <= b && b <= '9' as u8) || ('A' as u8 <= b && b <= 'F' as u8) || ('a' as u8 <= b
        && b <= 'f' as u8)
}

/// Numeric value of a hexadecimal digit byte.
pub open spec fn hex_val(b: u8) -> u8
    recommends
        is_hex_digit(b),
{
    if '0' as u8 <= b && b <= '9' as u8 {
        (b - '0' as u8) as u8
    } else if 'A' as u8 <= b && b <= 'F' as u8 {
        (b - 'A' as u8 + 10) as u8
    } else {
        (b - 'a' as u8 + 10) as u8
    }
}

/// Percent-decoding of a byte string: `%XX` becomes the byte with value `XX`,
/// any other byte stands for itself; a `%` not followed by two hexadecimal
/// digits is a malformed input.
pub open spec fn percent_decode_spec(s: Seq<u8>) -> Option<Seq<u8>>
    decreases s.len(),
{
    if s.len() == 0 {
        Some(Seq::empty())
    } else if s[0] == '%' as u8 {
        if s.len() >= 3 && is_hex_digit(s[1]) && is_hex_digit(s[2]) {
            match percent_decode_spec(s.skip(3)) {
                Some(t) => Some(seq![(hex_val(s[1]) * 16 + hex_val(s[2])) as u8] + t),
                None => None,
            }
        } else {
            None
        }
    } else {
        match percent_decode_spec(s.drop_first()) {
            Some(t) => Some(seq![s[0]] + t),
            None => None,
        }
    }
}

/// Encoding distributes over concatenation.
pub proof fn lemma_encode_app(a: Seq<u8>, b: Seq<u8>)
    ensures
        percent_encode_spec(a + b) == percent_encode_spec(a) + percent_encode_spec(b),
    decreases a.len(),
{
    if a.len() == 0 {
        assert(a + b =~= b);
        assert(percent_encode_spec(a) + percent_encode_spec(b) =~= percent_encode_spec(b));
    } else {
        assert((a + b).drop_first() =~= a.drop_first() + b);
        assert((a + b)[0] == a[0]);
        lemma_encode_app(a.drop_first(), b);
        assert(percent_encode_spec(a + b) =~= percent_encode_spec(a) + percent_encode_spec(b));
    }
}

/// Encoding of a one-byte string is the encoding of that byte.
pub proof fn lemma_encode_singleton(b: u8)
    ensures
        percent_encode_spec(seq![b]) == encode_byte(b),
{
    assert(seq![b].len() == 1);
    assert(seq![b][0] == b);
    assert(seq![b].drop_first() =~= Seq::<u8>::empty());
    assert(percent_encode_spec(seq![b]) == encode_byte(b) + percent_encode_spec(
        Seq::<u8>::empty(),
    ));
    assert(encode_byte(b) + Seq::<u8>::empty() =~= encode_byte(b));
}

/// A string of unreserved bytes passes through the encoder unchanged.
pub proof fn lemma_encode_unreserved_identity(s: Seq<u8>)
    requires
        forall|i: int| 0 <= i < s.len() ==> is_unreserved(#[trigger] s[i]),
    ensures
        percent_encode_spec(s) == s,
    decreases s.len(),
{
    if s.len() == 0 {
        assert(percent_encode_spec(s) =~= s);
    } else {
        lemma_encode_unreserved_identity(s.drop_first());
        assert(percent_encode_spec(s) =~= seq![s[0]] + s.drop_first());
        assert(seq![s[0]] + s.drop_first() =~= s);
    }
}

/// The uppercase hexadecimal digit of a value below sixteen is a digit the
/// decoder accepts, and decodes back to that value.
pub proof fn lemma_hex_upper_val(n: u8)
    requires
        n < 16,
    ensures
        is_hex_digit(hex_upper(n)),
        hex_val(hex_upper(n)) == n,
{
}

/// Every byte of encoded output is unreserved or `%`: no separator such as
/// `&`, `=`, a comma or a space survives encoding unescaped.
pub proof fn lemma_encode_output_chars(s: Seq<u8>)
    ensures
        forall|i: int|
            0 <= i < percent_encode_spec(s).len() ==> is_unreserved(
                #[trigger] percent_encode_spec(s)[i],
            ) || percent_encode_spec(s)[i] == '%' as u8,
    decreases s.len(),
{
    if s.len() == 0 {
    } else {
        lemma_encode_output_chars(s.drop_first());
        let e = percent_encode_spec(s);
        let head = encode_byte(s[0]);
        let tail = percent_encode_spec(s.drop_first());
        assert forall|i: int| 0 <= i < e.len() implies is_unreserved(#[trigger] e[i]) || e[i]
            == '%' as u8 by {
            if i < head.len() {
                assert(e[i] == head[i]);
                if !is_unreserved(s[0]) {
                    lemma_hex_upper_val(s[0] / 16);
                    lemma_hex_upper_val(s[0] % 16);
                }
            } else {
                assert(e[i] == tail[i - head.len()]);
            }
        }
    }
}

/// No byte that delimits header fields or parameter pairs — `&`, `=`, `,`,
/// a space or a double quote — survives encoding unescaped, so a value
/// placed into the header or the normalized string cannot add or split a
/// field.
pub proof fn lemma_encoded_value_no_delimiters(s: Seq<u8>)
    ensures
        forall|i: int|
            0 <= i < percent_encode_spec(s).len() ==> #[trigger] percent_encode_spec(s)[i]
                != '&' as u8 && percent_encode_spec(s)[i] != '=' as u8 && percent_encode_spec(s)[i]
                != ',' as u8 && percent_encode_spec(s)[i] != ' ' as u8 && percent_encode_spec(s)[i]
                != '"' as u8,
{
    lemma_encode_output_chars(s);
}

/// Decoding inverts encoding: every byte string is recovered from its
/// percent-encoded form.
pub proof fn lemma_percent_round_trip(s: Seq<u8>)
    ensures
        percent_decode_spec(percent_encode_spec(s)) == Some(s),
    decreases s.len(),
{
    if s.len() == 0 {
    } else {
        let b = s[0];
        let rest = s.drop_first();
        lemma_percent_round_trip(rest);
        let e = percent_encode_spec(s);
        if is_unreserved(b) {
            assert(e[0] == b);
            assert(e.drop_first() =~= percent_encode_spec(rest));
            assert(seq![b] + rest =~= s);
        } else {
            lemma_hex_upper_val(b / 16);
            lemma_hex_upper_val(b % 16);
            assert(e[0] == '%' as u8);
            assert(e[1] == hex_upper(b / 16));
            assert(e[2] == hex_upper(b % 16));
            assert(e.len() >= 3);
            assert(e.skip(3) =~= percent_encode_spec(rest));
            assert(hex_val(e[1]) * 16 + hex_val(e[2]) == b);
            assert(seq![b] + rest =~= s);
        }
    }
}

/// Whether a byte is unreserved under percent-encoding.
pub fn byte_is_unreserved(b: u8) -> (r: bool)
    ensures
        r == is_unreserved(b),
{
    ('A' as u8 <= b && b <= 'Z' as u8) || ('a' as u8 <= b && b <= 'z' as u8) || ('0' as u8 <= b
        && b <= '9' as u8) || b == '-' as u8 || b == '_' as u8 || b == '.' as u8 || b == '~' as u8
}

/// The uppercase hexadecimal digit for a value below sixteen.
fn hex_upper_exec(n: u8) -> (r: u8)
    requires
        n < 16,
    ensures
        r == hex_upper(n),
{
    if n < 10 {
        '0' as u8 + n
    } else {
        'A' as u8 + (n - 10)
    }
}

/// Numeric value of a hexadecimal digit byte, or nothing for any other byte.
fn hex_val_exec(b: u8) -> (r: Option<u8>)
    ensures
        r is Some <==> is_hex_digit(b),
        r matches Some(v) ==> v == hex_val(b) && v < 16,
{
    if '0' as u8 <= b && b <= '9' as u8 {
        Some(b - '0' as u8)
    } else if 'A' as u8 <= b && b <= 'F' as u8 {
        Some(b - 'A' as u8 + 10)
    } else if 'a' as u8 <= b && b <= 'f' as u8 {
        Some(b - 'a' as u8 + 10)
    } else {
        None
    }
}

/// Percent-encode a byte string.
pub fn percent_encode(input: &[u8]) -> (out: Vec<u8>)
    ensures
        out@ == percent_encode_spec(input@),
{
    let mut out: Vec<u8> = Vec::new();
    let mut i: usize = 0;
    while i < input.len()
        invariant
            i <= input.len(),
            out@ == percent_encode_spec(input@.take(i as int)),
        decreases input.len() - i,
    {
        let b = input[i];
        proof {
            assert(input@.take(i as int + 1) =~= input@.take(i as int) + seq![b]);
            lemma_encode_app(input@.take(i as int), seq![b]);
            lemma_encode_singleton(b);
        }
        if byte_is_unreserved(b) {
            out.push(b);
            assert(out@ =~= percent_encode_spec(input@.take(i as int + 1)));
        } else {
            out.push('%' as u8);
            out.push(hex_upper_exec(b / 16));
            out.push(hex_upper_exec(b % 16));
            assert(out@ =~= percent_encode_spec(input@.take(i as int + 1)));
        }
        i = i + 1;
    }
    proof {
        assert(input@.take(input@.len() as int) =~= input@);
    }
    out
}

/// Percent-decode a byte string; a `%` not followed by two hexadecimal
/// digits makes the whole input malformed.
pub fn percent_decode(input: &[u8]) -> (out: Option<Vec<u8>>)
    ensures
        match out {
            Some(v) => percent_decode_spec(input@) == Some(v@),
            None => percent_decode_spec(input@) is None,
        },
{
    let mut out: Vec<u8> = Vec::new();
    let mut i: usize = 0;
    proof {
        assert(input@.skip(0) =~= input@);
        match percent_decode_spec(input@) {
            Some(t) => {
                assert(Seq::<u8>::empty() + t =~= t);
            },
            None => {},
        }
    }
    while i < input.len()
        invariant
            i <= input.len(),
            match percent_decode_spec(input@.skip(i as int)) {
                Some(t) => percent_decode_spec(input@) == Some(out@ + t),
                None => percent_decode_spec(input@) is None,
            },
        decreases input.len() - i,
    {
        let b = input[i];
        proof {
            assert(input@.skip(i as int)[0] == b);
        }
        if b == '%' as u8 {
            if input.len() - i >= 3 {
                let h1 = input[i + 1];
                let h2 = input[i + 2];
                proof {
                    assert(input@.skip(i as int)[1] == h1);
                    assert(input@.skip(i as int)[2] == h2);
                    assert(input@.skip(i as int).skip(3) =~= input@.skip(i as int + 3));
                }
                let v1 = hex_val_exec(h1);
                let v2 = hex_val_exec(h2);
                match (v1, v2) {
                    (Some(a1), Some(a2)) => {
                        let ghost prev = out@;
                        let decoded: u8 = a1 * 16 + a2;
                        out.push(decoded);
                        proof {
                            assert(out@ =~= prev + seq![decoded]);
                            match percent_decode_spec(input@.skip(i as int + 3)) {
                                Some(t2) => {
                                    assert(prev + seq![decoded] + t2 =~= prev + (
                                    seq![decoded] + t2));
                                },
                                None => {},
                            }
                        }
                        i = i + 3;
                    },
                    _ => {
                        return None;
                    },
                }
            } else {
                return None;
            }
        } else {
            let ghost prev = out@;
            out.push(b);
            proof {
                assert(input@.skip(i as int).drop_first() =~= input@.skip(i as int + 1));
                assert(out@ =~= prev + seq![b]);
                match percent_decode_spec(input@.skip(i as int + 1)) {
                    Some(t2) => {
                        assert(prev + seq![b] + t2 =~= prev + (seq![b] + t2));
                    },
                    None => {},
                }
            }
            i = i + 1;
        }
    }
    proof {
        assert(input@.skip(input@.len() as int) =~= Seq::<u8>::empty());
        assert(out@ + Seq::<u8>::empty() =~= out@);
    }
    Some(out)
}

} // verus!
