//! SHA-1 digests and Base64 text.
use base64::prelude::BASE64_STANDARD;
use base64::Engine;
use sha1::Digest;
use vstd::prelude::*;

verus! {

/// One more than the greatest number of bytes that SHA-1 can digest: the length in bits
/// is kept in 64 bits.
pub const SHA1_INPUT_LIMIT: u64 = 0x2000_0000_0000_0000;

/// The SHA-1 digest of `data`.
pub uninterp spec fn sha1_of(data: Seq<u8>) -> Seq<u8>;

/// `sha1::Sha1::digest`: hashes `data` in one call. The contract claims that the digest is
/// a function of the bytes alone; what that function computes is left to its name. Inputs
/// whose length in bits overflows the counter of the hasher are left out.
#[verifier::external_body]
pub(crate) fn sha1_digest(data: &[u8]) -> (digest: [u8; 20])
    requires
        data@.len() < SHA1_INPUT_LIMIT,
    ensures
        digest@ == sha1_of(data@),
{
    sha1::Sha1::digest(data).into()
}

/// The byte at index `i`, or zero past the end.
pub open spec fn byte_or_zero(bytes: Seq<u8>, i: int) -> int {
    if i < bytes.len() {
        bytes[i] as int
    } else {
        0
    }
}

/// The character at index `k` of the padded standard Base64 text of `bytes`: three bytes,
/// taken as one 24-bit number, give four digits of six bits each, and `=` stands where a
/// group has run out of bytes.
pub open spec fn base64_char(bytes: Seq<u8>, k: int) -> char {
    let first = k / 4 * 3;
    let place = k % 4;
    let group = byte_or_zero(bytes, first) * 65536 + byte_or_zero(bytes, first + 1) * 256
        + byte_or_zero(bytes, first + 2);
    let weight: int = if place == 0 {
        262144
    } else if place == 1 {
        4096
    } else if place == 2 {
        64
    } else {
        1
    };
    if first + place > bytes.len() {
        '='
    } else {
        "ABCDEFGHIJKLMNOPQRSTUVWXYZabcdefghijklmnopqrstuvwxyz0123456789+/"@[group / weight % 64]
    }
}

/// The length of the padded Base64 text of `n` bytes.
pub open spec fn base64_len(n: nat) -> nat {
    (n + 2) / 3 * 4
}

/// The standard Base64 text of `bytes`, with padding.
pub open spec fn base64_text(bytes: Seq<u8>) -> Seq<char> {
    Seq::new(base64_len(bytes.len()), |k: int| base64_char(bytes, k))
}

/// `base64::Engine::encode` of the engine `BASE64_STANDARD`. The contract claims that the
/// text is the standard-alphabet Base64 of the bytes, with padding. Inputs whose text would
/// not fit in memory are left out: the call panics on them.
#[verifier::external_body]
pub(crate) fn base64_encode(bytes: &[u8]) -> (text: String)
    requires
        base64_len(bytes@.len()) <= isize::MAX,
    ensures
        text@ == base64_text(bytes@),
{
    BASE64_STANDARD.encode(bytes)
}

/// A visible ASCII character, or a space.
pub open spec fn is_visible(c: char) -> bool {
    ' ' <= c <= '~'
}

/// A character of the standard Base64 alphabet.
pub open spec fn is_base64_digit(c: char) -> bool {
    'A' <= c <= 'Z' || 'a' <= c <= 'z' || '0' <= c <= '9' || c == '+' || c == '/'
}

/// Base64 text holds visible ASCII characters only, whatever bytes it stands for.
pub proof fn base64_text_is_visible(bytes: Seq<u8>)
    ensures
        forall|k: int| 0 <= k < base64_text(bytes).len() ==> is_visible(#[trigger] base64_text(bytes)[k]),
{
    reveal_strlit("ABCDEFGHIJKLMNOPQRSTUVWXYZabcdefghijklmnopqrstuvwxyz0123456789+/");
}

proof fn sextets(a: int, b: int, c: int)
    requires
        0 <= a < 256,
        0 <= b < 256,
        0 <= c < 256,
    ensures
        (a * 65536 + b * 256 + c) / 262144 % 64 == a / 4,
        (a * 65536 + b * 256 + c) / 4096 % 64 == a % 4 * 16 + b / 16,
        (a * 65536 + b * 256 + c) / 64 % 64 == b % 16 * 4 + c / 64,
        (a * 65536 + b * 256 + c) / 1 % 64 == c % 64,
{
    let group = a * 65536 + b * 256 + c;
    assert(group / 262144 == a / 4);
    assert(group / 4096 == a * 16 + b / 16);
    assert(group / 64 == a * 1024 + b * 4 + c / 64);
}

/// Each three bytes are spread over four digits, from the highest bit down; one or two bytes
/// at the end give two or three digits, and the group is filled up with `=`.
pub proof fn base64_spreads_the_bits(bytes: Seq<u8>, g: int)
    requires
        0 <= 3 * g < bytes.len(),
    ensures
        ({
            let digits = "ABCDEFGHIJKLMNOPQRSTUVWXYZabcdefghijklmnopqrstuvwxyz0123456789+/"@;
            let text = base64_text(bytes);
            let left = bytes.len() - 3 * g;
            let a = bytes[3 * g] as int;
            let b = bytes[3 * g + 1] as int;
            let c = bytes[3 * g + 2] as int;
            &&& text.len() % 4 == 0
            &&& text.len() >= 4 * g + 4
            &&& left <= 3 ==> text.len() == 4 * g + 4
            &&& text[4 * g] == digits[a / 4]
            &&& left >= 2 ==> text[4 * g + 1] == digits[a % 4 * 16 + b / 16]
            &&& left >= 3 ==> text[4 * g + 2] == digits[b % 16 * 4 + c / 64]
            &&& left >= 3 ==> text[4 * g + 3] == digits[c % 64]
            &&& left == 1 ==> text[4 * g + 1] == digits[a % 4 * 16]
            &&& left == 1 ==> text[4 * g + 2] == '='
            &&& left == 2 ==> text[4 * g + 2] == digits[b % 16 * 4]
            &&& left <= 2 ==> text[4 * g + 3] == '='
        }),
{
    let text = base64_text(bytes);
    sextets(byte_or_zero(bytes, 3 * g), byte_or_zero(bytes, 3 * g + 1), byte_or_zero(bytes, 3 * g + 2));
    assert(4 * g / 4 * 3 == 3 * g && (4 * g + 1) / 4 * 3 == 3 * g && (4 * g + 2) / 4 * 3 == 3 * g && (4 * g + 3) / 4 * 3
        == 3 * g);
    assert(text.len() == (bytes.len() + 2) / 3 * 4);
    assert(text[4 * g] == base64_char(bytes, 4 * g));
    assert(text[4 * g + 1] == base64_char(bytes, 4 * g + 1));
    assert(text[4 * g + 2] == base64_char(bytes, 4 * g + 2));
    assert(text[4 * g + 3] == base64_char(bytes, 4 * g + 3));
}

/// The Base64 text of 20 bytes is 27 digits and one `=`.
pub proof fn base64_of_twenty_bytes(bytes: Seq<u8>)
    requires
        bytes.len() == 20,
    ensures
        base64_text(bytes).len() == 28,
        base64_text(bytes)[27] == '=',
        forall|k: int| 0 <= k < 27 ==> is_base64_digit(#[trigger] base64_text(bytes)[k]),
{
    reveal_strlit("ABCDEFGHIJKLMNOPQRSTUVWXYZabcdefghijklmnopqrstuvwxyz0123456789+/");
}

} // verus!
