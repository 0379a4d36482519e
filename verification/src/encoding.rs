//! Encodings: percent-encoding for URLs, escaping inside JSON templates, Base64,
//! HMAC tags and the signature of webhook payloads.
use crate::text::{begins_with, hex16, hex_text, replace, replaced};
use base64::engine::general_purpose;
use base64::Engine;
use std::collections::hash_map::DefaultHasher;
use std::hash::{Hash, Hasher};
use vstd::prelude::*;
use vstd::std_specs::hash::DefaultHasherAdditionalSpecFns;
use vstd::utf8::{decode_utf8, encode_utf8, encode_utf8_decode_utf8};

verus! {

/// Whether a byte is an ASCII letter or digit.
pub open spec fn is_ascii_alphanumeric(byte: u8) -> bool {
    ||| 48 <= byte <= 57
    ||| 65 <= byte <= 90
    ||| 97 <= byte <= 122
}

/// The upper-case hexadecimal digit of a number below sixteen.
pub open spec fn upper_hex_char(n: int) -> char {
    if n < 10 {
        ('0' as int + n) as char
    } else {
        ('A' as int + n - 10) as char
    }
}

/// How one byte is percent-encoded: letters and digits stay as they are.
pub open spec fn percent_byte(byte: u8) -> Seq<char> {
    if is_ascii_alphanumeric(byte) {
        seq![byte as char]
    } else {
        seq!['%', upper_hex_char(byte as int / 16), upper_hex_char(byte as int % 16)]
    }
}

/// How a row of bytes is percent-encoded.
pub open spec fn percent_bytes(bytes: Seq<u8>) -> Seq<char>
    decreases bytes.len(),
{
    if bytes.len() == 0 {
        seq![]
    } else {
        percent_byte(bytes[0]) + percent_bytes(bytes.skip(1))
    }
}

/// The percent-encoding of a text: that of its UTF-8 bytes.
pub open spec fn percent_encoded(text: Seq<char>) -> Seq<char> {
    percent_bytes(encode_utf8(text))
}

/// `percent_encoding::utf8_percent_encode` with the set `NON_ALPHANUMERIC`: every
/// byte of the UTF-8 encoding but ASCII letters and digits becomes `%` and two
/// upper-case hexadecimal digits.
#[verifier::external_body]
fn percent_encode(value: &str) -> (result: String)
    ensures
        result@ == percent_encoded(value@),
{
    percent_encoding::utf8_percent_encode(value, percent_encoding::NON_ALPHANUMERIC).to_string()
}

/// A text as the value of a query parameter.
pub fn encode_query_value(value: &str) -> (result: String)
    ensures
        result@ == percent_encoded(value@),
{
    percent_encode(value)
}

/// A text as one segment of a path.
pub fn encode_path_segment(value: &str) -> (result: String)
    ensures
        result@ == percent_encoded(value@),
{
    percent_encode(value)
}

/// Whether a character is safe in any part of a URL: an ASCII letter or digit, or the percent
/// sign that leads an encoded byte.
pub open spec fn is_url_safe(c: char) -> bool {
    ||| 'a' <= c <= 'z'
    ||| 'A' <= c <= 'Z'
    ||| '0' <= c <= '9'
    ||| c == '%'
}

/// The number that an upper-case hexadecimal digit stands for.
pub open spec fn upper_hex_value(c: char) -> int {
    if '0' <= c <= '9' {
        c as int - '0' as int
    } else {
        c as int - 'A' as int + 10
    }
}

/// The bytes that a percent-encoded text stands for.
pub open spec fn percent_decoded(text: Seq<char>) -> Seq<u8>
    decreases text.len(),
{
    if text.len() == 0 {
        seq![]
    } else if text[0] == '%' && text.len() >= 3 {
        seq![(upper_hex_value(text[1]) * 16 + upper_hex_value(text[2])) as u8] + percent_decoded(
            text.skip(3),
        )
    } else {
        seq![text[0] as u8] + percent_decoded(text.skip(1))
    }
}

proof fn lemma_percent_bytes_are_url_safe(bytes: Seq<u8>)
    ensures
        forall|i: int|
            0 <= i < percent_bytes(bytes).len() ==> is_url_safe(#[trigger] percent_bytes(bytes)[i]),
    decreases bytes.len(),
{
    if bytes.len() > 0 {
        let head = percent_byte(bytes[0]);
        let tail = percent_bytes(bytes.skip(1));
        lemma_percent_bytes_are_url_safe(bytes.skip(1));
        assert forall|i: int| 0 <= i < percent_bytes(bytes).len() implies is_url_safe(
            #[trigger] percent_bytes(bytes)[i],
        ) by {
            if i < head.len() {
                assert(percent_bytes(bytes)[i] == head[i]);
            } else {
                assert(percent_bytes(bytes)[i] == tail[i - head.len()]);
            }
        }
    }
}

proof fn lemma_percent_bytes_can_be_decoded(bytes: Seq<u8>)
    ensures
        percent_decoded(percent_bytes(bytes)) == bytes,
    decreases bytes.len(),
{
    if bytes.len() > 0 {
        let head = percent_byte(bytes[0]);
        let tail = percent_bytes(bytes.skip(1));
        lemma_percent_bytes_can_be_decoded(bytes.skip(1));
        let text = head + tail;
        assert(text.skip(head.len() as int) =~= tail);
        assert(text[0] == head[0]);
        assert(percent_decoded(text) =~= seq![bytes[0]] + percent_decoded(tail));
        assert(seq![bytes[0]] + bytes.skip(1) =~= bytes);
    }
}

/// A percent-encoded text fits into any part of a URL: none of its characters has a meaning
/// there.
pub proof fn law_percent_encoding_is_url_safe(text: Seq<char>)
    ensures
        forall|i: int|
            0 <= i < percent_encoded(text).len() ==> is_url_safe(
                #[trigger] percent_encoded(text)[i],
            ),
{
    lemma_percent_bytes_are_url_safe(encode_utf8(text));
}

/// Percent-encoding loses nothing: the text can be read back, and no two texts are encoded
/// alike.
pub proof fn law_percent_encoding_can_be_undone(text: Seq<char>, other: Seq<char>)
    ensures
        decode_utf8(percent_decoded(percent_encoded(text))) == text,
        percent_encoded(text) == percent_encoded(other) ==> text == other,
{
    lemma_percent_bytes_can_be_decoded(encode_utf8(text));
    lemma_percent_bytes_can_be_decoded(encode_utf8(other));
    encode_utf8_decode_utf8(text);
    encode_utf8_decode_utf8(other);
}

/// The character of the standard Base64 alphabet for a number below 64.
pub open spec fn base64_char(n: int) -> char {
    if n < 26 {
        ('A' as int + n) as char
    } else if n < 52 {
        ('a' as int + n - 26) as char
    } else if n < 62 {
        ('0' as int + n - 52) as char
    } else if n == 62 {
        '+'
    } else {
        '/'
    }
}

/// Standard Base64 with padding: three bytes make four characters.
pub open spec fn base64_text(bytes: Seq<u8>) -> Seq<char>
    decreases bytes.len(),
{
    if bytes.len() == 0 {
        seq![]
    } else if bytes.len() == 1 {
        let n = bytes[0] as int;
        seq![base64_char(n / 4), base64_char(n % 4 * 16), '=', '=']
    } else if bytes.len() == 2 {
        let n = bytes[0] as int * 256 + bytes[1] as int;
        seq![
            base64_char(n / 1024),
            base64_char(n / 16 % 64),
            base64_char(n % 16 * 4),
            '=',
        ]
    } else {
        let n = bytes[0] as int * 65536 + bytes[1] as int * 256 + bytes[2] as int;
        seq![
            base64_char(n / 262144),
            base64_char(n / 4096 % 64),
            base64_char(n / 64 % 64),
            base64_char(n % 64),
        ] + base64_text(bytes.skip(3))
    }
}

/// `Engine::encode` of `base64::engine::general_purpose::STANDARD`: the standard
/// alphabet, with padding. The bound keeps the length of the result within a `usize`.
#[verifier::external_body]
fn base64_encode(bytes: &[u8]) -> (result: String)
    requires
        bytes@.len() <= usize::MAX / 4,
    ensures
        result@ == base64_text(bytes@),
{
    general_purpose::STANDARD.encode(bytes)
}

/// The HMAC-SHA-256 tag of `data` under `key`, as `ring::hmac` computes it.
pub uninterp spec fn hmac_sha256(key: Seq<u8>, data: Seq<u8>) -> Seq<u8>;

/// The longest key and data, in bytes, that SHA-256 can digest with its 64-bit
/// count of bits, the block of the padded key left aside.
pub const MAX_HMAC_BYTES: u64 = 0x1FFF_FFFF_FFFF_FF00;

/// `ring::hmac::sign` with a `ring::hmac::Key` for `HMAC_SHA256`: a tag of 32 bytes
/// that the key and the data decide. `ring` panics on input beyond the bound.
#[verifier::external_body]
fn hmac_sha256_tag(key: &[u8], data: &[u8]) -> (result: Vec<u8>)
    requires
        key@.len() <= MAX_HMAC_BYTES,
        data@.len() <= MAX_HMAC_BYTES,
    ensures
        result@ == hmac_sha256(key@, data@),
        result@.len() == 32,
{
    let key = ring::hmac::Key::new(ring::hmac::HMAC_SHA256, key);
    ring::hmac::sign(&key, data).as_ref().to_vec()
}

/// The HMAC-SHA-256 tag of `data` under `key`, in Base64.
pub fn hmac_sha256_base64(key: &[u8], data: &[u8]) -> (result: String)
    requires
        key@.len() <= MAX_HMAC_BYTES,
        data@.len() <= MAX_HMAC_BYTES,
    ensures
        result@ == base64_text(hmac_sha256(key@, data@)),
{
    let tag = hmac_sha256_tag(key, data);
    tag_to_base64(&tag)
}

/// A tag in Base64.
pub fn tag_to_base64(tag: &Vec<u8>) -> (result: String)
    requires
        tag@.len() <= usize::MAX / 4,
    ensures
        result@ == base64_text(tag@),
{
    base64_encode(tag.as_slice())
}

/// How a character is written inside a JSON string of a template.
pub open spec fn escaped_char(c: char) -> Seq<char> {
    if c == '\\' {
        seq!['\\', '\\']
    } else if c == '"' {
        seq!['\\', '"']
    } else if c == '\n' {
        seq!['\\', 'n']
    } else if c == '\r' {
        seq!['\\', 'r']
    } else if c == '\t' {
        seq!['\\', 't']
    } else {
        seq![c]
    }
}

/// A text with each character written as inside a JSON string.
pub open spec fn escaped(text: Seq<char>) -> Seq<char>
    decreases text.len(),
{
    if text.len() == 0 {
        seq![]
    } else {
        escaped_char(text[0]) + escaped(text.skip(1))
    }
}

/// Escapes backslashes, quotes, line breaks and tabs for use inside a JSON string.
pub fn escape_json_string(s: &str) -> (result: String)
    ensures
        result@ == escaped(s@),
{
    proof {
        reveal_strlit("\\");
        reveal_strlit("\\\\");
        reveal_strlit("\"");
        reveal_strlit("\\\"");
        reveal_strlit("\n");
        reveal_strlit("\\n");
        reveal_strlit("\r");
        reveal_strlit("\\r");
        reveal_strlit("\t");
        reveal_strlit("\\t");
        assert("\\"@ =~= seq!['\\']);
        assert("\\\\"@ =~= seq!['\\', '\\']);
        assert("\""@ =~= seq!['"']);
        assert("\\\""@ =~= seq!['\\', '"']);
        assert("\n"@ =~= seq!['\n']);
        assert("\\n"@ =~= seq!['\\', 'n']);
        assert("\r"@ =~= seq!['\r']);
        assert("\\r"@ =~= seq!['\\', 'r']);
        assert("\t"@ =~= seq!['\t']);
        assert("\\t"@ =~= seq!['\\', 't']);
        lemma_escaped_by_replacing(s@);
    }
    let s = replace(s, "\\", "\\\\");
    let s = replace(s.as_str(), "\"", "\\\"");
    let s = replace(s.as_str(), "\n", "\\n");
    let s = replace(s.as_str(), "\r", "\\r");
    replace(s.as_str(), "\t", "\\t")
}

/// Five replacements, the backslash first.
spec fn escaped_by_replacing(s: Seq<char>) -> Seq<char> {
    let s = replaced(s, seq!['\\'], seq!['\\', '\\']);
    let s = replaced(s, seq!['"'], seq!['\\', '"']);
    let s = replaced(s, seq!['\n'], seq!['\\', 'n']);
    let s = replaced(s, seq!['\r'], seq!['\\', 'r']);
    replaced(s, seq!['\t'], seq!['\\', 't'])
}

proof fn lemma_begins_with_char(s: Seq<char>, c: char)
    requires
        s.len() > 0,
    ensures
        begins_with(s, seq![c]) == (s[0] == c),
{
    if s[0] == c {
        assert(s.take(1) =~= seq![c]);
    } else {
        assert(s.take(1)[0] != seq![c][0]);
    }
}

/// Replacing one character goes through a text piece by piece.
proof fn lemma_replaced_char_splits(a: Seq<char>, b: Seq<char>, c: char, to: Seq<char>)
    ensures
        replaced(a + b, seq![c], to) == replaced(a, seq![c], to) + replaced(b, seq![c], to),
    decreases a.len(),
{
    let s = a + b;
    if a.len() == 0 {
        assert(s =~= b);
        assert(replaced(a, seq![c], to) + replaced(b, seq![c], to) =~= replaced(b, seq![c], to));
    } else {
        assert(s.skip(1) =~= a.skip(1) + b);
        assert(s[0] == a[0]);
        lemma_replaced_char_splits(a.skip(1), b, c, to);
        lemma_begins_with_char(s, c);
        lemma_begins_with_char(a, c);
        assert(replaced(s, seq![c], to) =~= replaced(a, seq![c], to) + replaced(b, seq![c], to));
    }
}

/// What replacing one character makes of a text of one or two characters.
proof fn lemma_replaced_char_in_short(x: char, y: char, c: char, to: Seq<char>)
    ensures
        replaced(seq![x], seq![c], to) == (if x == c {
            to
        } else {
            seq![x]
        }),
        x != c && y != c ==> replaced(seq![x, y], seq![c], to) == seq![x, y],
{
    let one = seq![x];
    assert(one.skip(1).len() == 0);
    lemma_begins_with_char(one, c);
    assert(replaced(one.skip(1), seq![c], to) =~= Seq::<char>::empty());
    assert(to + Seq::<char>::empty() =~= to);
    assert(replaced(one, seq![c], to) =~= (if x == c {
        to
    } else {
        one
    }));
    if x != c && y != c {
        let last = seq![y];
        assert(last.skip(1).len() == 0);
        lemma_begins_with_char(last, c);
        assert(replaced(last.skip(1), seq![c], to) =~= Seq::<char>::empty());
        assert(replaced(last, seq![c], to) =~= last);
        assert(seq![x, y] =~= one + last);
        lemma_replaced_char_splits(one, last, c, to);
    }
}

/// Replacing in five rounds is writing each character escaped.
proof fn lemma_escaped_by_replacing(s: Seq<char>)
    ensures
        escaped_by_replacing(s) == escaped(s),
    decreases s.len(),
{
    if s.len() == 0 {
        assert(escaped_by_replacing(s) =~= escaped(s));
    } else {
        let head = seq![s[0]];
        let tail = s.skip(1);
        assert(s =~= head + tail);
        lemma_escaped_by_replacing(tail);
        lemma_escaping_splits(head, tail);
        lemma_escaping_of_char(s[0]);
    }
}

proof fn lemma_escaping_splits(a: Seq<char>, b: Seq<char>)
    ensures
        escaped_by_replacing(a + b) == escaped_by_replacing(a) + escaped_by_replacing(b),
{
    lemma_replaced_char_splits(a, b, '\\', seq!['\\', '\\']);
    let a = replaced(a, seq!['\\'], seq!['\\', '\\']);
    let b = replaced(b, seq!['\\'], seq!['\\', '\\']);
    lemma_replaced_char_splits(a, b, '"', seq!['\\', '"']);
    let a = replaced(a, seq!['"'], seq!['\\', '"']);
    let b = replaced(b, seq!['"'], seq!['\\', '"']);
    lemma_replaced_char_splits(a, b, '\n', seq!['\\', 'n']);
    let a = replaced(a, seq!['\n'], seq!['\\', 'n']);
    let b = replaced(b, seq!['\n'], seq!['\\', 'n']);
    lemma_replaced_char_splits(a, b, '\r', seq!['\\', 'r']);
    let a = replaced(a, seq!['\r'], seq!['\\', 'r']);
    let b = replaced(b, seq!['\r'], seq!['\\', 'r']);
    lemma_replaced_char_splits(a, b, '\t', seq!['\\', 't']);
}

proof fn lemma_escaping_of_char(c: char)
    ensures
        escaped_by_replacing(seq![c]) == escaped_char(c),
{
    lemma_replaced_char_in_short(c, c, '\\', seq!['\\', '\\']);
    if c == '\\' {
        lemma_replaced_char_in_short('\\', '\\', '"', seq!['\\', '"']);
        lemma_replaced_char_in_short('\\', '\\', '\n', seq!['\\', 'n']);
        lemma_replaced_char_in_short('\\', '\\', '\r', seq!['\\', 'r']);
        lemma_replaced_char_in_short('\\', '\\', '\t', seq!['\\', 't']);
    } else {
        lemma_replaced_char_in_short(c, c, '"', seq!['\\', '"']);
        if c == '"' {
            lemma_replaced_char_in_short('\\', '"', '\n', seq!['\\', 'n']);
            lemma_replaced_char_in_short('\\', '"', '\r', seq!['\\', 'r']);
            lemma_replaced_char_in_short('\\', '"', '\t', seq!['\\', 't']);
        } else {
            lemma_replaced_char_in_short(c, c, '\n', seq!['\\', 'n']);
            if c == '\n' {
                lemma_replaced_char_in_short('\\', 'n', '\r', seq!['\\', 'r']);
                lemma_replaced_char_in_short('\\', 'n', '\t', seq!['\\', 't']);
            } else {
                lemma_replaced_char_in_short(c, c, '\r', seq!['\\', 'r']);
                if c == '\r' {
                    lemma_replaced_char_in_short('\\', 'r', '\t', seq!['\\', 't']);
                } else {
                    lemma_replaced_char_in_short(c, c, '\t', seq!['\\', 't']);
                }
            }
        }
    }
}

/// The character that an escape letter stands for.
pub open spec fn unescaped_char(c: char) -> char {
    if c == 'n' {
        '\n'
    } else if c == 'r' {
        '\r'
    } else if c == 't' {
        '\t'
    } else {
        c
    }
}

/// The text that an escaped text stands for.
pub open spec fn unescaped(text: Seq<char>) -> Seq<char>
    decreases text.len(),
{
    if text.len() == 0 {
        seq![]
    } else if text[0] == '\\' && text.len() >= 2 {
        seq![unescaped_char(text[1])] + unescaped(text.skip(2))
    } else {
        seq![text[0]] + unescaped(text.skip(1))
    }
}

/// Whether a text stays within a JSON string: no quote ends it, no backslash reaches beyond
/// it, and no line break or tab stands in it.
pub open spec fn stays_in_string(text: Seq<char>) -> bool
    decreases text.len(),
{
    if text.len() == 0 {
        true
    } else if text[0] == '\\' {
        text.len() >= 2 && text[1] != '\n' && text[1] != '\r' && text[1] != '\t' && stays_in_string(
            text.skip(2),
        )
    } else {
        text[0] != '"' && text[0] != '\n' && text[0] != '\r' && text[0] != '\t' && stays_in_string(
            text.skip(1),
        )
    }
}

/// Whether a text has no character that is escaped.
pub open spec fn is_ordinary(text: Seq<char>) -> bool {
    forall|i: int| 0 <= i < text.len() ==> escaped_char(#[trigger] text[i]) == seq![text[i]]
}

/// A text without a character that is escaped stays as it is.
pub proof fn law_ordinary_text_is_not_changed(text: Seq<char>)
    requires
        is_ordinary(text),
    ensures
        escaped(text) == text,
    decreases text.len(),
{
    if text.len() > 0 {
        let rest = text.skip(1);
        assert forall|i: int| 0 <= i < rest.len() implies escaped_char(#[trigger] rest[i])
            == seq![rest[i]] by {
            assert(rest[i] == text[i + 1]);
        }
        law_ordinary_text_is_not_changed(rest);
        assert(escaped(text) =~= text);
    }
}

/// Escaping goes through a text piece by piece.
pub(crate) proof fn lemma_escaped_splits(a: Seq<char>, b: Seq<char>)
    ensures
        escaped(a + b) == escaped(a) + escaped(b),
    decreases a.len(),
{
    if a.len() == 0 {
        assert(a + b =~= b);
        assert(escaped(a) + escaped(b) =~= escaped(b));
    } else {
        assert((a + b).skip(1) =~= a.skip(1) + b);
        lemma_escaped_splits(a.skip(1), b);
        assert(escaped(a + b) =~= escaped(a) + escaped(b));
    }
}

/// Escaping goes through a text piece by piece: a backslash or a quote gets a backslash before
/// it, line breaks and tabs are written with letters, and any other character stays.
pub proof fn law_escaping_is_by_character(a: Seq<char>, b: Seq<char>, c: char)
    ensures
        escaped(a + b) == escaped(a) + escaped(b),
        escaped(seq![]).len() == 0,
        escaped(seq!['\\']) == seq!['\\', '\\'],
        escaped(seq!['"']) == seq!['\\', '"'],
        escaped(seq!['\n']) == seq!['\\', 'n'],
        escaped(seq!['\r']) == seq!['\\', 'r'],
        escaped(seq!['\t']) == seq!['\\', 't'],
        c != '\\' && c != '"' && c != '\n' && c != '\r' && c != '\t' ==> escaped(seq![c]) == seq![
            c,
        ],
{
    lemma_escaped_splits(a, b);
    lemma_escaped_char('\\');
    lemma_escaped_char('"');
    lemma_escaped_char('\n');
    lemma_escaped_char('\r');
    lemma_escaped_char('\t');
    lemma_escaped_char(c);
}

proof fn lemma_escaped_char(c: char)
    ensures
        escaped(seq![c]) == escaped_char(c),
{
    assert(seq![c].skip(1).len() == 0);
    assert(escaped(seq![c].skip(1)) =~= Seq::<char>::empty());
    assert(escaped(seq![c]) =~= escaped_char(c));
}

/// Escaping loses nothing: the text can be read back.
pub proof fn law_escaping_can_be_undone(text: Seq<char>)
    ensures
        unescaped(escaped(text)) == text,
    decreases text.len(),
{
    if text.len() > 0 {
        let head = escaped_char(text[0]);
        let tail = escaped(text.skip(1));
        law_escaping_can_be_undone(text.skip(1));
        assert((head + tail).skip(head.len() as int) =~= tail);
        assert(unescaped(head + tail) =~= seq![text[0]] + unescaped(tail));
        assert(seq![text[0]] + text.skip(1) =~= text);
    }
}

/// An escaped text stays within the JSON string that it is put into.
pub proof fn law_escaped_text_stays_in_string(text: Seq<char>)
    ensures
        stays_in_string(escaped(text)),
    decreases text.len(),
{
    if text.len() > 0 {
        let head = escaped_char(text[0]);
        let tail = escaped(text.skip(1));
        law_escaped_text_stays_in_string(text.skip(1));
        assert((head + tail).skip(head.len() as int) =~= tail);
    }
}

/// What hashing a text writes into a hasher.
pub uninterp spec fn hashed_writes(text: Seq<char>) -> Seq<Seq<u8>>;

/// `<str as Hash>::hash` into a `DefaultHasher`: appends writes that the text alone
/// decides.
#[verifier::external_body]
fn hash_text(text: &str, hasher: &mut DefaultHasher)
    ensures
        final(hasher)@ == old(hasher)@ + hashed_writes(text@),
{
    text.hash(hasher)
}

/// The hash of a text by a fresh `DefaultHasher`.
pub open spec fn text_hash(text: Seq<char>) -> u64 {
    DefaultHasher::spec_finish(Seq::<Seq<u8>>::empty() + hashed_writes(text))
}

/// The signature of a webhook payload: the hash of the secret followed by the
/// payload, in sixteen hexadecimal digits.
pub fn compute_legacy_signature(secret: &str, data: &str) -> (result: String)
    ensures
        result@ == hex_text(text_hash(secret@ + data@) as nat, 16),
{
    let mut input = secret.to_owned();
    input.append(data);
    let mut hasher = DefaultHasher::new();
    hash_text(input.as_str(), &mut hasher);
    let hash: u64 = hasher.finish();
    hex16(hash)
}

} // verus!
