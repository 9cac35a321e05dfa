//! Obfuscation of stored API keys: the key's UTF-8 bytes are XOR-ed with a fixed
//! key, cyclically, and written as lowercase hexadecimal.
use vstd::prelude::*;
use vstd::utf8::{
    decode_utf8, encode_utf8, encode_utf8_decode_utf8, encode_utf8_valid_utf8, is_ascii_chars,
    is_ascii_chars_encode_utf8, valid_utf8,
};

verus! {

/// The key that stored API keys are XOR-ed with.
pub const OBFUSCATION_KEY: &'static str = "mercury4win-linux-apikey-obfuscation-v1";

/// The bytes of [`OBFUSCATION_KEY`].
pub open spec fn key_bytes() -> Seq<u8> {
    encode_utf8(OBFUSCATION_KEY@)
}

/// Byte `i` of `data` XOR-ed with byte `i mod |key|` of `key`.
pub open spec fn xor_cycle(data: Seq<u8>, key: Seq<u8>) -> Seq<u8> {
    Seq::new(data.len(), |i: int| data[i] ^ key[i % (key.len() as int)])
}

/// The lowercase hexadecimal digit of a value below 16.
pub open spec fn hex_digit(n: int) -> char {
    if n < 10 {
        (48 + n) as char
    } else {
        (87 + n) as char
    }
}

/// Two lowercase hexadecimal digits per byte, high nibble first.
pub open spec fn hex_lower(bytes: Seq<u8>) -> Seq<char> {
    Seq::new(
        2 * bytes.len(),
        |i: int|
            if i % 2 == 0 {
                hex_digit(bytes[i / 2] as int / 16)
            } else {
                hex_digit(bytes[i / 2] as int % 16)
            },
    )
}

/// The value of a hexadecimal digit, in either case.
pub open spec fn hex_value(b: u8) -> Option<int> {
    if 48 <= b <= 57 {
        Some(b - 48)
    } else if 97 <= b <= 102 {
        Some(b - 87)
    } else if 65 <= b <= 70 {
        Some(b - 55)
    } else {
        None
    }
}

/// The bytes written by the hexadecimal text `bytes`: `None` when its length is odd
/// or one of its bytes is not a hexadecimal digit.
pub open spec fn hex_decode(bytes: Seq<u8>) -> Option<Seq<u8>> {
    if bytes.len() % 2 != 0 {
        None
    } else if forall|i: int| 0 <= i < bytes.len() ==> #[trigger] hex_value(bytes[i]) is Some {
        Some(
            Seq::new(
                bytes.len() / 2,
                |k: int| (hex_value(bytes[2 * k])->0 * 16 + hex_value(bytes[2 * k + 1])->0) as u8,
            ),
        )
    } else {
        None
    }
}

/// `hex::encode`: each byte as two lowercase hexadecimal digits.
#[verifier::external_body]
pub(crate) fn hex_encode(data: &[u8]) -> (s: String)
    ensures
        s@ == hex_lower(data@),
{
    hex::encode(data)
}

/// `hex::decode`: the bytes written by `text` in hexadecimal (either case); `None`
/// where the crate returns an error (odd length, or a byte that is not a digit).
#[verifier::external_body]
fn hex_decode_text(text: &str) -> (r: Option<Vec<u8>>)
    ensures
        match r {
            Some(v) => hex_decode(encode_utf8(text@)) == Some(v@),
            None => hex_decode(encode_utf8(text@)) is None,
        },
{
    hex::decode(text).ok()
}

/// The text that `String::from_utf8_lossy` reads from `bytes`.
pub uninterp spec fn utf8_lossy(bytes: Seq<u8>) -> Seq<char>;

/// The text read from `bytes`: the decoded text where they are valid UTF-8, else
/// what `String::from_utf8_lossy` makes of them.
pub open spec fn lossy_text(bytes: Seq<u8>) -> Seq<char> {
    if valid_utf8(bytes) {
        decode_utf8(bytes)
    } else {
        utf8_lossy(bytes)
    }
}

/// `String::from_utf8_lossy`: the text encoded by `bytes`, where each invalid sequence
/// stands as U+FFFD. For valid UTF-8 it is the decoded text, as the documentation
/// states; what it gives for invalid input is left to the name `utf8_lossy`.
#[verifier::external_body]
fn from_utf8_lossy(bytes: &[u8]) -> (s: String)
    ensures
        s@ == (if valid_utf8(bytes@) {
            decode_utf8(bytes@)
        } else {
            utf8_lossy(bytes@)
        }),
{
    String::from_utf8_lossy(bytes).into_owned()
}

/// The stored form of an API key.
pub open spec fn encrypted_text(input: Seq<char>) -> Seq<char> {
    hex_lower(xor_cycle(encode_utf8(input), key_bytes()))
}

/// The API key read back from its stored form; empty when that is not hexadecimal.
pub open spec fn decrypted_text(stored: Seq<char>) -> Seq<char> {
    match hex_decode(encode_utf8(stored)) {
        Some(bytes) => lossy_text(xor_cycle(bytes, key_bytes())),
        None => Seq::empty(),
    }
}

/// The obfuscation key is 39 bytes long.
pub proof fn lemma_key_len()
    ensures
        key_bytes().len() == 39,
{
    reveal_strlit("mercury4win-linux-apikey-obfuscation-v1");
    assert(is_ascii_chars(OBFUSCATION_KEY@));
    is_ascii_chars_encode_utf8(OBFUSCATION_KEY@);
}

proof fn lemma_xor_u8(a: u8, b: u8)
    ensures
        (a ^ b) ^ b == a,
{
    assert((a ^ b) ^ b == a) by (bit_vector);
}

/// XOR-ing with the same key twice gives the data back.
pub proof fn lemma_xor_cycle_twice(data: Seq<u8>, key: Seq<u8>)
    requires
        key.len() > 0,
    ensures
        xor_cycle(xor_cycle(data, key), key) == data,
{
    assert forall|i: int| 0 <= i < data.len() implies #[trigger] xor_cycle(xor_cycle(data, key), key)[i] == data[i] by {
        lemma_xor_u8(data[i], key[i % (key.len() as int)]);
    }
    assert(xor_cycle(xor_cycle(data, key), key) =~= data);
}

/// Hexadecimal text reads back as the bytes it was written from.
pub proof fn lemma_hex_roundtrip(x: Seq<u8>)
    ensures
        hex_decode(encode_utf8(hex_lower(x))) == Some(x),
{
    let h = hex_lower(x);
    assert forall|i: int| 0 <= i < h.len() implies '\0' <= #[trigger] h[i] <= '\u{7f}' by {
        let n = if i % 2 == 0 { x[i / 2] as int / 16 } else { x[i / 2] as int % 16 };
        assert(0 <= n < 16);
    }
    is_ascii_chars_encode_utf8(h);
    let e = encode_utf8(h);
    assert forall|i: int| 0 <= i < e.len() implies #[trigger] hex_value(e[i]) == Some(
        if i % 2 == 0 { x[i / 2] as int / 16 } else { x[i / 2] as int % 16 },
    ) by {
        assert(h[i] as u8 == e[i]);
    }
    assert(e.len() % 2 == 0);
    assert forall|k: int| 0 <= k < x.len() implies
        (hex_value(e[2 * k])->0 * 16 + hex_value(e[2 * k + 1])->0) as u8 == #[trigger] x[k] by {
        assert(hex_value(e[2 * k]) == Some(x[k] as int / 16));
        assert(hex_value(e[2 * k + 1]) == Some(x[k] as int % 16));
    }
    let d = Seq::new(
        e.len() / 2,
        |k: int| (hex_value(e[2 * k])->0 * 16 + hex_value(e[2 * k + 1])->0) as u8,
    );
    assert(d =~= x);
}

/// Reading back a stored API key gives the key: decrypting what encrypting wrote
/// returns the input.
pub proof fn lemma_decrypt_encrypt(input: Seq<char>)
    ensures
        decrypted_text(encrypted_text(input)) == input,
{
    lemma_key_len();
    let b = encode_utf8(input);
    let x = xor_cycle(b, key_bytes());
    lemma_hex_roundtrip(x);
    lemma_xor_cycle_twice(b, key_bytes());
    encode_utf8_valid_utf8(input);
    encode_utf8_decode_utf8(input);
}

/// XOR-ing the bytes of `data` with `key` cyclically.
fn xor_with_key(data: &[u8], key: &[u8]) -> (r: Vec<u8>)
    requires
        key.len() > 0,
    ensures
        r@ == xor_cycle(data@, key@),
{
    let mut out: Vec<u8> = Vec::new();
    for i in 0..data.len()
        invariant
            key.len() > 0,
            out@ == xor_cycle(data@.take(i as int), key@),
    {
        out.push(data[i] ^ key[i % key.len()]);
        assert(out@ =~= xor_cycle(data@.take(i + 1), key@));
    }
    assert(data@.take(data.len() as int) =~= data@);
    out
}

/// The stored form of `input`: its bytes XOR-ed with the obfuscation key, in hex.
pub fn simple_encrypt(input: &str) -> (r: String)
    ensures
        r@ == encrypted_text(input@),
{
    let key = OBFUSCATION_KEY.as_bytes();
    proof {
        lemma_key_len();
    }
    let mixed = xor_with_key(input.as_bytes(), key);
    hex_encode(mixed.as_slice())
}

/// The API key read back from its stored form; empty when `hex_str` is not hex.
pub fn simple_decrypt(hex_str: &str) -> (r: String)
    ensures
        r@ == decrypted_text(hex_str@),
{
    match hex_decode_text(hex_str) {
        Some(bytes) => {
            let key = OBFUSCATION_KEY.as_bytes();
            proof {
                lemma_key_len();
            }
            let mixed = xor_with_key(bytes.as_slice(), key);
            from_utf8_lossy(mixed.as_slice())
        },
        None => String::new(),
    }
}

} // verus!
