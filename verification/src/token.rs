//! Tokens: the 16 bytes of a UUID, their hyphenated text form (uuid crate)
//! and their unpadded base64url form (base64 crate), which the links carry.
use vstd::prelude::*;

verus! {

broadcast use vstd::array::array_len_matches_n;

/// Lower-case hexadecimal digit of a nibble.
pub open spec fn hex_digit(n: int) -> char {
    if n < 10 {
        ('0' as int + n) as char
    } else {
        ('a' as int + (n - 10)) as char
    }
}

/// The two lower-case hexadecimal digits of a byte, high nibble first.
pub open spec fn hex_byte(b: u8) -> Seq<char> {
    seq![hex_digit(b as int / 16), hex_digit(b as int % 16)]
}

/// Lower-case hexadecimal text of a byte sequence.
pub open spec fn hex(bs: Seq<u8>) -> Seq<char>
    decreases bs.len(),
{
    if bs.len() == 0 {
        seq![]
    } else {
        hex_byte(bs[0]) + hex(bs.drop_first())
    }
}

/// The hyphenated text of a UUID (8-4-4-4-12 lower-case hex digits), which is
/// what the uuid crate's `Display` writes.
pub open spec fn hyphenated(b: Seq<u8>) -> Seq<char> {
    hex(b.subrange(0, 4)) + seq!['-'] + hex(b.subrange(4, 6)) + seq!['-'] + hex(b.subrange(6, 8))
        + seq!['-'] + hex(b.subrange(8, 10)) + seq!['-'] + hex(b.subrange(10, 16))
}

/// The value of a hexadecimal digit, either case.
pub open spec fn hex_value(c: char) -> Option<int> {
    if '0' <= c <= '9' {
        Some(c as int - '0' as int)
    } else if 'a' <= c <= 'f' {
        Some(c as int - 'a' as int + 10)
    } else if 'A' <= c <= 'F' {
        Some(c as int - 'A' as int + 10)
    } else {
        None
    }
}

/// The 16 bytes that 32 hexadecimal digits write, high nibble first.
pub open spec fn hex_bytes(h: Seq<char>) -> Option<Seq<u8>> {
    if h.len() == 32 && forall|i: int| 0 <= i < 32 ==> #[trigger] hex_value(h[i]) is Some {
        Some(
            Seq::new(
                16,
                |i: int| (hex_value(h[2 * i])->0 * 16 + hex_value(h[2 * i + 1])->0) as u8,
            ),
        )
    } else {
        None
    }
}

/// The bytes of a hyphenated UUID text: groups of 8, 4, 4, 4 and 12 digits.
pub open spec fn hyphenated_bytes(s: Seq<char>) -> Option<Seq<u8>> {
    if s.len() == 36 && s[8] == '-' && s[13] == '-' && s[18] == '-' && s[23] == '-' {
        hex_bytes(
            s.take(8) + s.subrange(9, 13) + s.subrange(14, 18) + s.subrange(19, 23) + s.skip(24),
        )
    } else {
        None
    }
}

/// `urn:uuid:`
pub open spec fn urn_prefix() -> Seq<char> {
    seq!['u', 'r', 'n', ':', 'u', 'u', 'i', 'd', ':']
}

/// A character with ASCII capitals made small.
pub open spec fn ascii_lower(c: char) -> char {
    if 'A' <= c <= 'Z' {
        (c as int + 32) as char
    } else {
        c
    }
}

/// What `uuid::Uuid::parse_str` (and `str::parse::<Uuid>`) makes of a text:
/// 32 hexadecimal digits, the hyphenated form, the hyphenated form in braces
/// or after `urn:uuid:` (in either case); the 16 bytes, or nothing where the
/// text is none of these.
#[verifier::opaque]
pub open spec fn uuid_from_text(s: Seq<char>) -> Option<Seq<u8>> {
    if s.len() == 32 {
        hex_bytes(s)
    } else if s.len() == 36 {
        hyphenated_bytes(s)
    } else if s.len() == 38 && s[0] == '{' && s[37] == '}' {
        hyphenated_bytes(s.subrange(1, 37))
    } else if s.len() == 45 && forall|i: int|
        0 <= i < 9 ==> #[trigger] ascii_lower(s[i]) == urn_prefix()[i] {
        hyphenated_bytes(s.skip(9))
    } else {
        None
    }
}

/// Whether 16 bytes are those of a random (version 4, RFC 4122 variant) UUID.
pub open spec fn is_v4(b: Seq<u8>) -> bool {
    &&& b.len() == 16
    &&& b[6] / 16 == 4
    &&& b[8] / 64 == 2
}

/// `Uuid::from_bytes(..).to_string()`: the hyphenated lower-case text.
#[verifier::external_body]
pub(crate) fn format_uuid(b: &[u8; 16]) -> (res: String)
    ensures
        res@ == hyphenated(b@),
{
    uuid::Uuid::from_bytes(*b).to_string()
}

/// `Uuid::parse_str`: the bytes of the UUID that the text names, if any.
#[verifier::external_body]
pub(crate) fn parse_uuid(s: &str) -> (res: Option<[u8; 16]>)
    ensures
        res is Some == uuid_from_text(s@) is Some,
        res matches Some(b) ==> uuid_from_text(s@) == Some(b@),
{
    match uuid::Uuid::parse_str(s) {
        Ok(u) => Some(*u.as_bytes()),
        Err(_) => None,
    }
}

/// `Uuid::new_v4`: random bytes with the version-4 and RFC 4122 variant bits
/// set; nothing more is known of them.
#[verifier::external_body]
pub(crate) fn new_v4() -> (res: [u8; 16])
    ensures
        is_v4(res@),
{
    *uuid::Uuid::new_v4().as_bytes()
}

/// `Uuid::from_slice`: a UUID from exactly 16 bytes, and none otherwise.
#[verifier::external_body]
pub(crate) fn uuid_from_slice(b: &[u8]) -> (res: Option<[u8; 16]>)
    ensures
        res is Some == (b@.len() == 16),
        res matches Some(u) ==> u@ == b@,
{
    match uuid::Uuid::from_slice(b) {
        Ok(u) => Some(*u.as_bytes()),
        Err(_) => None,
    }
}

/// The symbol of a 6-bit value in the URL-safe base64 alphabet.
pub open spec fn b64_symbol(v: int) -> char {
    if v < 26 {
        ('A' as int + v) as char
    } else if v < 52 {
        ('a' as int + (v - 26)) as char
    } else if v < 62 {
        ('0' as int + (v - 52)) as char
    } else if v == 62 {
        '-'
    } else {
        '_'
    }
}

/// Unpadded URL-safe base64 (RFC 4648, section 5, without `=`).
pub open spec fn b64url(b: Seq<u8>) -> Seq<char>
    decreases b.len(),
{
    if b.len() == 0 {
        seq![]
    } else if b.len() == 1 {
        seq![b64_symbol(b[0] as int / 4), b64_symbol((b[0] as int % 4) * 16)]
    } else if b.len() == 2 {
        seq![
            b64_symbol(b[0] as int / 4),
            b64_symbol((b[0] as int % 4) * 16 + b[1] as int / 16),
            b64_symbol((b[1] as int % 16) * 4),
        ]
    } else {
        seq![
            b64_symbol(b[0] as int / 4),
            b64_symbol((b[0] as int % 4) * 16 + b[1] as int / 16),
            b64_symbol((b[1] as int % 16) * 4 + b[2] as int / 64),
            b64_symbol(b[2] as int % 64),
        ] + b64url(b.skip(3))
    }
}

/// `URL_SAFE_NO_PAD.encode`: the unpadded URL-safe base64 text of the bytes.
#[verifier::external_body]
pub(crate) fn b64url_encode(bytes: &[u8]) -> (res: String)
    ensures
        res@ == b64url(bytes@),
{
    base64::Engine::encode(&base64::engine::general_purpose::URL_SAFE_NO_PAD, bytes)
}

/// `URL_SAFE_NO_PAD.decode`: with no padding allowed and non-zero trailing
/// bits refused, it accepts exactly the canonical encodings, and gives back
/// the bytes that encode to the text.
#[verifier::external_body]
pub(crate) fn b64url_decode(s: &str) -> (res: Option<Vec<u8>>)
    ensures
        res matches Some(v) ==> b64url(v@) == s@,
        (exists|b: Seq<u8>| #[trigger] b64url(b) == s@) ==> res is Some,
{
    match base64::Engine::decode(&base64::engine::general_purpose::URL_SAFE_NO_PAD, s) {
        Ok(v) => Some(v),
        Err(_) => None,
    }
}

} // verus!

verus! {

/// The length of the unpadded base64 text of `n` bytes.
pub open spec fn b64url_len(n: nat) -> nat {
    let tail: nat = if n % 3 == 0 {
        0
    } else if n % 3 == 1 {
        2
    } else {
        3
    };
    4 * (n / 3) + tail
}

proof fn lemma_b64_symbol_injective(x: int, y: int)
    requires
        0 <= x < 64,
        0 <= y < 64,
        b64_symbol(x) == b64_symbol(y),
    ensures
        x == y,
{
}

proof fn lemma_b64url_len(b: Seq<u8>)
    ensures
        b64url(b).len() == b64url_len(b.len()),
    decreases b.len(),
{
    if b.len() >= 3 {
        lemma_b64url_len(b.skip(3));
    }
}

proof fn lemma_b64url_len_injective(n: nat, m: nat)
    requires
        b64url_len(n) == b64url_len(m),
    ensures
        n == m,
{
}

/// Distinct byte sequences have distinct base64 texts.
proof fn lemma_b64url_injective(a: Seq<u8>, b: Seq<u8>)
    requires
        b64url(a) == b64url(b),
    ensures
        a == b,
    decreases a.len(),
{
    lemma_b64url_len(a);
    lemma_b64url_len(b);
    lemma_b64url_len_injective(a.len(), b.len());
    let ea = b64url(a);
    let eb = b64url(b);
    if a.len() == 0 {
        assert(a =~= b);
    } else if a.len() == 1 {
        assert(ea[0] == eb[0] && ea[1] == eb[1]);
        lemma_b64_symbol_injective(a[0] as int / 4, b[0] as int / 4);
        lemma_b64_symbol_injective((a[0] as int % 4) * 16, (b[0] as int % 4) * 16);
        assert(a =~= b);
    } else if a.len() == 2 {
        assert(ea[0] == eb[0] && ea[1] == eb[1] && ea[2] == eb[2]);
        lemma_b64_symbol_injective(a[0] as int / 4, b[0] as int / 4);
        lemma_b64_symbol_injective(
            (a[0] as int % 4) * 16 + a[1] as int / 16,
            (b[0] as int % 4) * 16 + b[1] as int / 16,
        );
        lemma_b64_symbol_injective((a[1] as int % 16) * 4, (b[1] as int % 16) * 4);
        assert(a =~= b);
    } else {
        assert(ea[0] == eb[0] && ea[1] == eb[1] && ea[2] == eb[2] && ea[3] == eb[3]);
        lemma_b64_symbol_injective(a[0] as int / 4, b[0] as int / 4);
        lemma_b64_symbol_injective(
            (a[0] as int % 4) * 16 + a[1] as int / 16,
            (b[0] as int % 4) * 16 + b[1] as int / 16,
        );
        lemma_b64_symbol_injective(
            (a[1] as int % 16) * 4 + a[2] as int / 64,
            (b[1] as int % 16) * 4 + b[2] as int / 64,
        );
        lemma_b64_symbol_injective(a[2] as int % 64, b[2] as int % 64);
        assert(b64url(a.skip(3)) =~= ea.skip(4));
        assert(b64url(b.skip(3)) =~= eb.skip(4));
        lemma_b64url_injective(a.skip(3), b.skip(3));
        assert(a =~= a.take(3) + a.skip(3));
        assert(b =~= b.take(3) + b.skip(3));
        assert(a.take(3) =~= b.take(3));
    }
}

} // verus!

verus! {

/// The link form of a token: the unpadded base64url text of its 16 bytes.
pub fn uuid_to_b64url(uuid: &[u8; 16]) -> (res: String)
    ensures
        res@ == b64url(uuid@),
{
    b64url_encode(uuid.as_slice())
}

/// The token that a link form names: the 16 bytes whose base64url text it
/// is, if there are such bytes (there is at most one such token).
pub open spec fn link_token(s: Seq<char>) -> Option<Seq<u8>> {
    if exists|u: Seq<u8>| u.len() == 16 && #[trigger] b64url(u) == s {
        Some(choose|u: Seq<u8>| u.len() == 16 && #[trigger] b64url(u) == s)
    } else {
        None
    }
}

/// The token that a link form names.
pub fn b64url_to_uuid(s: &str) -> (res: Option<[u8; 16]>)
    ensures
        res is Some == link_token(s@) is Some,
        res matches Some(u) ==> link_token(s@) == Some(u@),
{
    let bytes = match b64url_decode(s) {
        Some(v) => v,
        None => return None,
    };
    proof {
        if exists|u: Seq<u8>| u.len() == 16 && #[trigger] b64url(u) == s@ {
            let u = choose|u: Seq<u8>| u.len() == 16 && #[trigger] b64url(u) == s@;
            lemma_b64url_injective(u, bytes@);
        }
    }
    uuid_from_slice(bytes.as_slice())
}

/// The link form of a token is 22 ASCII characters long, so its path is one
/// that `is_token_path` accepts, and it names that token.
pub proof fn token_link_shape(u: Seq<u8>)
    requires
        u.len() == 16,
    ensures
        b64url(u).len() == 22,
        vstd::utf8::is_ascii_chars(b64url(u)),
        crate::text::byte_len(b64url(u)) == 22,
        link_token(b64url(u)) == Some(u),
{
    lemma_b64url_len(u);
    lemma_b64url_ascii(u);
    vstd::utf8::is_ascii_chars_encode_utf8(b64url(u));
    let w = choose|w: Seq<u8>| w.len() == 16 && #[trigger] b64url(w) == b64url(u);
    lemma_b64url_injective(w, u);
}

proof fn lemma_b64url_ascii(b: Seq<u8>)
    ensures
        vstd::utf8::is_ascii_chars(b64url(b)),
    decreases b.len(),
{
    if b.len() >= 3 {
        lemma_b64url_ascii(b.skip(3));
        let head = b64url(b).take(4);
        assert(b64url(b) =~= head + b64url(b.skip(3)));
        vstd::utf8::is_ascii_chars_concat(b64url(b), head, b64url(b.skip(3)));
    }
}

} // verus!

verus! {

/// A symbol of the URL-safe base64 alphabet.
pub open spec fn is_b64_symbol(c: char) -> bool {
    ||| 'A' <= c <= 'Z'
    ||| 'a' <= c <= 'z'
    ||| '0' <= c <= '9'
    ||| c == '-'
    ||| c == '_'
}

/// Base64url text consists of alphabet symbols only.
pub proof fn lemma_b64url_symbols(b: Seq<u8>)
    ensures
        forall|i: int| 0 <= i < b64url(b).len() ==> is_b64_symbol(#[trigger] b64url(b)[i]),
    decreases b.len(),
{
    if b.len() >= 3 {
        lemma_b64url_symbols(b.skip(3));
        let head = b64url(b).take(4);
        assert(b64url(b) =~= head + b64url(b.skip(3)));
        assert forall|i: int| 0 <= i < b64url(b).len() implies is_b64_symbol(
            #[trigger] b64url(b)[i],
        ) by {
            if i >= 4 {
                assert(b64url(b)[i] == b64url(b.skip(3))[i - 4]);
            }
        }
    }
}

} // verus!

verus! {

proof fn lemma_hex_len(bs: Seq<u8>)
    ensures
        hex(bs).len() == 2 * bs.len(),
    decreases bs.len(),
{
    if bs.len() > 0 {
        lemma_hex_len(bs.drop_first());
    }
}

proof fn lemma_hex_concat(a: Seq<u8>, c: Seq<u8>)
    ensures
        hex(a + c) == hex(a) + hex(c),
    decreases a.len(),
{
    if a.len() == 0 {
        assert(a + c =~= c);
        assert(hex(a) + hex(c) =~= hex(c));
    } else {
        lemma_hex_concat(a.drop_first(), c);
        assert((a + c).drop_first() =~= a.drop_first() + c);
        assert((a + c)[0] == a[0]);
        assert(hex(a + c) =~= hex(a) + hex(c));
    }
}

proof fn lemma_hex_index(bs: Seq<u8>, k: int)
    requires
        0 <= k < bs.len(),
    ensures
        hex(bs)[2 * k] == hex_digit(bs[k] as int / 16),
        hex(bs)[2 * k + 1] == hex_digit(bs[k] as int % 16),
    decreases bs.len(),
{
    lemma_hex_len(bs.drop_first());
    if k > 0 {
        lemma_hex_index(bs.drop_first(), k - 1);
    }
}

proof fn lemma_hex_digit_value(n: int)
    requires
        0 <= n < 16,
    ensures
        hex_value(hex_digit(n)) == Some(n),
{
}

/// The hyphenated text of 16 bytes reads back as those bytes: the text that
/// a token is stored and sent as names the token.
pub proof fn hyphenated_text_reads_back(b: Seq<u8>)
    requires
        b.len() == 16,
    ensures
        uuid_from_text(hyphenated(b)) == Some(b),
{
    reveal(uuid_from_text);
    let (g1, g2, g3, g4, g5) = (
        b.subrange(0, 4),
        b.subrange(4, 6),
        b.subrange(6, 8),
        b.subrange(8, 10),
        b.subrange(10, 16),
    );
    lemma_hex_len(g1);
    lemma_hex_len(g2);
    lemma_hex_len(g3);
    lemma_hex_len(g4);
    lemma_hex_len(g5);
    let s = hyphenated(b);
    let (h1, h2, h3, h4, h5) = (hex(g1), hex(g2), hex(g3), hex(g4), hex(g5));
    assert(s.take(8) =~= h1);
    assert(s.subrange(9, 13) =~= h2);
    assert(s.subrange(14, 18) =~= h3);
    assert(s.subrange(19, 23) =~= h4);
    assert(s.skip(24) =~= h5);
    assert(b =~= g1 + g2 + g3 + g4 + g5);
    lemma_hex_concat(g1, g2);
    lemma_hex_concat(g1 + g2, g3);
    lemma_hex_concat(g1 + g2 + g3, g4);
    lemma_hex_concat(g1 + g2 + g3 + g4, g5);
    let h = hex(b);
    assert(h1 + h2 + h3 + h4 + h5 == h);
    lemma_hex_len(b);
    assert forall|i: int| 0 <= i < 32 implies #[trigger] hex_value(h[i]) is Some by {
        let k = i / 2;
        lemma_hex_index(b, k);
        if i % 2 == 0 {
            lemma_hex_digit_value(b[k] as int / 16);
        } else {
            assert(i == 2 * k + 1);
            lemma_hex_digit_value(b[k] as int % 16);
        }
    }
    let bytes = Seq::new(
        16,
        |i: int| (hex_value(h[2 * i])->0 * 16 + hex_value(h[2 * i + 1])->0) as u8,
    );
    assert forall|k: int| 0 <= k < 16 implies bytes[k] == b[k] by {
        lemma_hex_index(b, k);
        lemma_hex_digit_value(b[k] as int / 16);
        lemma_hex_digit_value(b[k] as int % 16);
    }
    assert(bytes =~= b);
}

} // verus!
