//! Naming of cache entries: the canonical text of a request, its SHA-256
//! digest in hexadecimal, and the file that holds the audio.

use crate::request::{RequestModel, SynthesisRequest};
use crate::text::{decimal_text, digit_char, lemma_decimal_text_injective, push_decimal};
use vstd::prelude::*;
use vstd::string::{StringExecFns, StringSliceAdditionalSpecFns};
use vstd::utf8::{encode_utf8, encode_utf8_decode_utf8};

verus! {

/// The character that stands between the fields of a canonical text.
pub const FIELD_SEPARATOR: char = ':';

/// The canonical text of a request: input, voice, format, speed, step
/// count and language specifier, in this order, with a colon between them.
pub open spec fn canonical_key(m: RequestModel) -> Seq<char> {
    m.input + seq![FIELD_SEPARATOR] + m.voice + seq![FIELD_SEPARATOR] + m.format
        + seq![FIELD_SEPARATOR] + m.speed + seq![FIELD_SEPARATOR] + decimal_text(m.total_step)
        + seq![FIELD_SEPARATOR] + m.lang
}

/// The canonical text of `request`.
pub fn canonical_key_text(request: &SynthesisRequest) -> (text: String)
    ensures
        text@ == canonical_key(request@),
{
    let mut text = String::from_str(request.input().as_str());
    text.push(FIELD_SEPARATOR);
    text.append(request.voice().as_str());
    text.push(FIELD_SEPARATOR);
    text.append(request.format().as_str());
    text.push(FIELD_SEPARATOR);
    text.append(request.speed().as_str());
    text.push(FIELD_SEPARATOR);
    push_decimal(&mut text, request.total_step() as u64);
    text.push(FIELD_SEPARATOR);
    text.append(request.lang().as_str());
    proof {
        let m = request@;
        let sep = seq![FIELD_SEPARATOR];
        let t1 = m.input.push(FIELD_SEPARATOR);
        assert(t1 == m.input + sep);
        let t2 = (t1 + m.voice).push(FIELD_SEPARATOR);
        assert(t2 == t1 + m.voice + sep);
        let t3 = (t2 + m.format).push(FIELD_SEPARATOR);
        assert(t3 == t2 + m.format + sep);
        let t4 = (t3 + m.speed).push(FIELD_SEPARATOR);
        assert(t4 == t3 + m.speed + sep);
        let t5 = (t4 + decimal_text(m.total_step)).push(FIELD_SEPARATOR);
        assert(t5 == t4 + decimal_text(m.total_step) + sep);
        assert(text@ == t5 + m.lang);
    }
    text
}

/// The SHA-256 digest of `data`.
pub uninterp spec fn sha256_digest(data: Seq<u8>) -> Seq<u8>;

/// `sha2::Sha256::digest` computes the SHA-256 digest of its input, which
/// is 32 bytes long. The digest is a function of the input alone; the
/// library names it and does not restate the algorithm.
#[verifier::external_body]
fn sha256(data: &[u8]) -> (digest: Vec<u8>)
    ensures
        digest@ == sha256_digest(data@),
        digest@.len() == 32,
{
    <sha2::Sha256 as sha2::Digest>::digest(data).to_vec()
}

/// The lower-case hexadecimal digit that stands for `v`, for `v` from 0
/// to 15.
pub open spec fn hex_digit(v: int) -> char {
    if v < 10 {
        digit_char(v)
    } else if v == 10 {
        'a'
    } else if v == 11 {
        'b'
    } else if v == 12 {
        'c'
    } else if v == 13 {
        'd'
    } else if v == 14 {
        'e'
    } else {
        'f'
    }
}

/// `bytes` in lower-case hexadecimal: two digits for each byte, the high
/// half first.
pub open spec fn hex_text(bytes: Seq<u8>) -> Seq<char> {
    Seq::new(
        2 * bytes.len(),
        |i: int|
            if i % 2 == 0 {
                hex_digit(bytes[i / 2] as int / 16)
            } else {
                hex_digit(bytes[i / 2] as int % 16)
            },
    )
}

/// `hex::encode` renders each byte as two lower-case hexadecimal digits,
/// the high half first, in the order of the bytes.
#[verifier::external_body]
fn hex_encode(bytes: &Vec<u8>) -> (text: String)
    ensures
        text@ == hex_text(bytes@),
{
    hex::encode(bytes)
}

/// The cache key of a request: the digest of the UTF-8 bytes of its
/// canonical text, in hexadecimal.
pub open spec fn cache_key_of(m: RequestModel) -> Seq<char> {
    hex_text(sha256_digest(encode_utf8(canonical_key(m))))
}

/// The name of the file that holds the audio of the request with the
/// given key, in the given format.
pub open spec fn cache_file_of(key: Seq<char>, format: Seq<char>) -> Seq<char> {
    key + seq!['.'] + format
}

/// The cache key of `request`, 64 hexadecimal digits.
pub fn cache_key(request: &SynthesisRequest) -> (key: String)
    ensures
        key@ == cache_key_of(request@),
        key@.len() == 64,
{
    let text = canonical_key_text(request);
    let digest = sha256(text.as_str().as_bytes());
    hex_encode(&digest)
}

/// The name of the file that holds the audio of the request with the
/// given key, in the given format.
pub fn cache_file_name(key: &str, format: &str) -> (name: String)
    ensures
        name@ == cache_file_of(key@, format@),
{
    let mut name = String::from_str(key);
    name.push('.');
    name.append(format);
    assert(key@.push('.') == key@ + seq!['.']);
    name
}

/// The name of the file that holds the audio of `request`.
pub fn cache_file(request: &SynthesisRequest) -> (name: String)
    ensures
        name@ == cache_file_of(cache_key_of(request@), request@.format),
{
    let key = cache_key(request);
    cache_file_name(key.as_str(), request.format().as_str())
}

/// The number of fields of the canonical text in which `a` and `b`
/// differ.
pub open spec fn differing_fields(a: RequestModel, b: RequestModel) -> nat {
    let input: nat = if a.input != b.input { 1 } else { 0 };
    let voice: nat = if a.voice != b.voice { 1 } else { 0 };
    let format: nat = if a.format != b.format { 1 } else { 0 };
    let speed: nat = if a.speed != b.speed { 1 } else { 0 };
    let step: nat = if a.total_step != b.total_step { 1 } else { 0 };
    let lang: nat = if a.lang != b.lang { 1 } else { 0 };
    input + voice + format + speed + step + lang
}

proof fn lemma_cancel(p: Seq<char>, x: Seq<char>, y: Seq<char>, s: Seq<char>)
    requires
        p + x + s == p + y + s,
    ensures
        x == y,
{
    assert((p + x + s).len() == p.len() + x.len() + s.len());
    assert((p + y + s).len() == p.len() + y.len() + s.len());
    assert forall|i: int| 0 <= i < x.len() implies x[i] == y[i] by {
        assert((p + x + s)[p.len() + i] == x[i]);
        assert((p + y + s)[p.len() + i] == y[i]);
    }
    assert(x =~= y);
}

/// Two requests that agree on input, voice, format, speed, step count and
/// language specifier have the same cache key.
pub proof fn lemma_cache_key_is_determined(a: RequestModel, b: RequestModel)
    requires
        differing_fields(a, b) == 0,
    ensures
        canonical_key(a) == canonical_key(b),
        cache_key_of(a) == cache_key_of(b),
{
}

/// Two requests that differ in exactly one of input, voice, format, speed,
/// step count and language specifier have different canonical texts, and
/// so different bytes are digested for them.
pub proof fn lemma_single_field_changes_canonical_key(a: RequestModel, b: RequestModel)
    requires
        differing_fields(a, b) == 1,
    ensures
        canonical_key(a) != canonical_key(b),
        encode_utf8(canonical_key(a)) != encode_utf8(canonical_key(b)),
{
    let sep = seq![FIELD_SEPARATOR];
    let none = Seq::<char>::empty();
    if canonical_key(a) == canonical_key(b) {
        let da = decimal_text(a.total_step);
        let db = decimal_text(b.total_step);
        if a.input != b.input {
            let s = sep + a.voice + sep + a.format + sep + a.speed + sep + da + sep + a.lang;
            assert(none + a.input + s =~= canonical_key(a));
            assert(none + b.input + s =~= canonical_key(b));
            lemma_cancel(none, a.input, b.input, s);
        } else if a.voice != b.voice {
            let p = a.input + sep;
            let s = sep + a.format + sep + a.speed + sep + da + sep + a.lang;
            assert(p + a.voice + s =~= canonical_key(a));
            assert(p + b.voice + s =~= canonical_key(b));
            lemma_cancel(p, a.voice, b.voice, s);
        } else if a.format != b.format {
            let p = a.input + sep + a.voice + sep;
            let s = sep + a.speed + sep + da + sep + a.lang;
            assert(p + a.format + s =~= canonical_key(a));
            assert(p + b.format + s =~= canonical_key(b));
            lemma_cancel(p, a.format, b.format, s);
        } else if a.speed != b.speed {
            let p = a.input + sep + a.voice + sep + a.format + sep;
            let s = sep + da + sep + a.lang;
            assert(p + a.speed + s =~= canonical_key(a));
            assert(p + b.speed + s =~= canonical_key(b));
            lemma_cancel(p, a.speed, b.speed, s);
        } else if a.total_step != b.total_step {
            let p = a.input + sep + a.voice + sep + a.format + sep + a.speed + sep;
            let s = sep + a.lang;
            assert(p + da + s =~= canonical_key(a));
            assert(p + db + s =~= canonical_key(b));
            lemma_cancel(p, da, db, s);
            lemma_decimal_text_injective(a.total_step, b.total_step);
        } else {
            let p = a.input + sep + a.voice + sep + a.format + sep + a.speed + sep + da + sep;
            assert(p + a.lang + none =~= canonical_key(a));
            assert(p + b.lang + none =~= canonical_key(b));
            lemma_cancel(p, a.lang, b.lang, none);
        }
    }
    encode_utf8_decode_utf8(canonical_key(a));
    encode_utf8_decode_utf8(canonical_key(b));
}

/// Two byte sequences with the same hexadecimal text are the same.
pub proof fn lemma_hex_text_injective(x: Seq<u8>, y: Seq<u8>)
    requires
        hex_text(x) == hex_text(y),
    ensures
        x == y,
{
    assert(hex_text(x).len() == 2 * x.len());
    assert(hex_text(y).len() == 2 * y.len());
    assert forall|i: int| 0 <= i < x.len() implies x[i] == y[i] by {
        assert(hex_text(x)[2 * i] == hex_digit(x[i] as int / 16));
        assert(hex_text(y)[2 * i] == hex_digit(y[i] as int / 16));
        assert(hex_text(x)[2 * i + 1] == hex_digit(x[i] as int % 16));
        assert(hex_text(y)[2 * i + 1] == hex_digit(y[i] as int % 16));
    }
    assert(x =~= y);
}

/// Two requests have the same cache key exactly when the digests of their
/// canonical texts are the same: the hexadecimal rendering loses nothing.
pub proof fn lemma_cache_keys_differ_as_digests_do(a: RequestModel, b: RequestModel)
    ensures
        cache_key_of(a) == cache_key_of(b) <==> sha256_digest(encode_utf8(canonical_key(a)))
            == sha256_digest(encode_utf8(canonical_key(b))),
{
    if cache_key_of(a) == cache_key_of(b) {
        lemma_hex_text_injective(
            sha256_digest(encode_utf8(canonical_key(a))),
            sha256_digest(encode_utf8(canonical_key(b))),
        );
    }
}

} // verus!
