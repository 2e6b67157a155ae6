//! Canonical textual encoding of annotations.
//!
//! The encoding is a fixed-shape object text with the external field names
//! `id, key, hash, host, kind, signature, isSatisfied, timestamp`; tag fields
//! carry their bare tag string and free-text fields are escaped. Encoding and
//! decoding are specified over `Seq<char>` and the decoder is proved to be a
//! left inverse of the encoder.
use vstd::prelude::*;
use vstd::string::StrSliceExecFns;
use vstd::string::StringExecFns;

use crate::annotations::{Annotation, AnnotationModel};
use crate::constants::{AnnotationType, HashType};

verus! {

broadcast use vstd::string::group_string_axioms;

/// Relies on `alloc::string::String::push`: appends the given character to
/// the end of the string.
pub assume_specification[ String::push ](s: &mut String, ch: char)
    ensures
        final(s)@ == old(s)@ + seq![ch],
;

/// Character-for-character equality of two text slices.
pub fn str_equal(a: &str, b: &str) -> (r: bool)
    ensures
        r == (a@ == b@),
{
    let a_len = a.unicode_len();
    let b_len = b.unicode_len();
    if a_len != b_len {
        return false;
    }
    let mut i: usize = 0;
    while i < a_len
        invariant
            i <= a_len,
            a_len == a@.len(),
            b_len == b@.len(),
            a_len == b_len,
            forall|j: int| 0 <= j < i ==> a@[j] == b@[j],
        decreases a_len - i,
    {
        if a.get_char(i) != b.get_char(i) {
            return false;
        }
        i = i + 1;
    }
    proof {
        assert(a@ =~= b@);
    }
    true
}

/// The characters of a text slice as a vector.
pub fn str_to_chars(s: &str) -> (r: Vec<char>)
    ensures
        r@ == s@,
{
    let n = s.unicode_len();
    let mut r: Vec<char> = Vec::new();
    let mut i: usize = 0;
    while i < n
        invariant
            i <= n,
            n == s@.len(),
            r@ == s@.take(i as int),
        decreases n - i,
    {
        r.push(s.get_char(i));
        proof {
            assert(r@ =~= s@.take(i as int + 1));
        }
        i = i + 1;
    }
    proof {
        assert(s@.take(n as int) =~= s@);
    }
    r
}

/// The vector's characters gathered into a `String`.
pub fn string_from_chars(v: &Vec<char>) -> (r: String)
    ensures
        r@ == v@,
{
    let mut r = String::new();
    let mut i: usize = 0;
    while i < v.len()
        invariant
            i <= v.len(),
            r@ == v@.take(i as int),
        decreases v.len() - i,
    {
        r.push(v[i]);
        proof {
            assert(r@ =~= v@.take(i as int + 1));
        }
        i = i + 1;
    }
    proof {
        assert(v@.take(v@.len() as int) =~= v@);
    }
    r
}

/// The lower-case hexadecimal digit for a value below sixteen.
pub open spec fn hex_digit(n: int) -> char {
    if n == 0 {
        '0'
    } else if n == 1 {
        '1'
    } else if n == 2 {
        '2'
    } else if n == 3 {
        '3'
    } else if n == 4 {
        '4'
    } else if n == 5 {
        '5'
    } else if n == 6 {
        '6'
    } else if n == 7 {
        '7'
    } else if n == 8 {
        '8'
    } else if n == 9 {
        '9'
    } else if n == 10 {
        'a'
    } else if n == 11 {
        'b'
    } else if n == 12 {
        'c'
    } else if n == 13 {
        'd'
    } else if n == 14 {
        'e'
    } else {
        'f'
    }
}

/// The value of a hexadecimal digit, or -1 for any other character.
pub open spec fn hex_val(c: char) -> int {
    if c == '0' {
        0
    } else if c == '1' {
        1
    } else if c == '2' {
        2
    } else if c == '3' {
        3
    } else if c == '4' {
        4
    } else if c == '5' {
        5
    } else if c == '6' {
        6
    } else if c == '7' {
        7
    } else if c == '8' {
        8
    } else if c == '9' {
        9
    } else if c == 'a' {
        10
    } else if c == 'b' {
        11
    } else if c == 'c' {
        12
    } else if c == 'd' {
        13
    } else if c == 'e' {
        14
    } else if c == 'f' {
        15
    } else {
        -1
    }
}

pub proof fn lemma_hex_val_digit(n: int)
    requires
        0 <= n < 16,
    ensures
        hex_val(hex_digit(n)) == n,
{
}

fn hex_digit_exec(n: u8) -> (r: char)
    requires
        n < 16,
    ensures
        r == hex_digit(n as int),
{
    if n == 0 {
        '0'
    } else if n == 1 {
        '1'
    } else if n == 2 {
        '2'
    } else if n == 3 {
        '3'
    } else if n == 4 {
        '4'
    } else if n == 5 {
        '5'
    } else if n == 6 {
        '6'
    } else if n == 7 {
        '7'
    } else if n == 8 {
        '8'
    } else if n == 9 {
        '9'
    } else if n == 10 {
        'a'
    } else if n == 11 {
        'b'
    } else if n == 12 {
        'c'
    } else if n == 13 {
        'd'
    } else if n == 14 {
        'e'
    } else {
        'f'
    }
}

fn hex_val_exec(c: char) -> (r: i8)
    ensures
        r as int == hex_val(c),
{
    if c == '0' {
        0
    } else if c == '1' {
        1
    } else if c == '2' {
        2
    } else if c == '3' {
        3
    } else if c == '4' {
        4
    } else if c == '5' {
        5
    } else if c == '6' {
        6
    } else if c == '7' {
        7
    } else if c == '8' {
        8
    } else if c == '9' {
        9
    } else if c == 'a' {
        10
    } else if c == 'b' {
        11
    } else if c == 'c' {
        12
    } else if c == 'd' {
        13
    } else if c == 'e' {
        14
    } else if c == 'f' {
        15
    } else {
        -1
    }
}

/// How one character is written inside a quoted value: quote and backslash
/// get a backslash prefix, control characters become a `\u00` escape, and
/// every other character stands for itself.
pub open spec fn escape_char(c: char) -> Seq<char> {
    if c == '"' {
        seq!['\\', '"']
    } else if c == '\\' {
        seq!['\\', '\\']
    } else if (c as u32) < 32 {
        seq!['\\', 'u', '0', '0', hex_digit(c as u32 as int / 16), hex_digit(c as u32 as int % 16)]
    } else {
        seq![c]
    }
}

/// A whole text written inside a quoted value.
pub open spec fn escape(s: Seq<char>) -> Seq<char>
    decreases s.len(),
{
    if s.len() == 0 {
        Seq::empty()
    } else {
        escape_char(s[0]) + escape(s.drop_first())
    }
}

pub proof fn lemma_escape_append(s: Seq<char>, t: Seq<char>)
    ensures
        escape(s + t) == escape(s) + escape(t),
    decreases s.len(),
{
    if s.len() == 0 {
        assert(s + t =~= t);
        assert(escape(s) + escape(t) =~= escape(t));
    } else {
        assert((s + t).drop_first() =~= s.drop_first() + t);
        lemma_escape_append(s.drop_first(), t);
        assert(escape_char((s + t)[0]) + (escape(s.drop_first()) + escape(t)) =~= (escape_char(
            s[0],
        ) + escape(s.drop_first())) + escape(t));
    }
}

pub proof fn lemma_escape_single(c: char)
    ensures
        escape(seq![c]) == escape_char(c),
{
    let s = seq![c];
    assert(s.drop_first() =~= Seq::<char>::empty());
    assert(escape(s) == escape_char(c) + escape(Seq::<char>::empty()));
    assert(escape_char(c) + Seq::<char>::empty() =~= escape_char(c));
}

proof fn lemma_escape_take_succ(s: Seq<char>, i: int)
    requires
        0 <= i < s.len(),
    ensures
        escape(s.take(i + 1)) == escape(s.take(i)) + escape_char(s[i]),
{
    assert(s.take(i + 1) =~= s.take(i) + seq![s[i]]);
    lemma_escape_append(s.take(i), seq![s[i]]);
    lemma_escape_single(s[i]);
}

/// The character with the given code, for codes below 256.
pub open spec fn code_char(n: int) -> char {
    (n as u8) as char
}

/// Whether `c` is one of the short escape letters a standard JSON writer may
/// use for a control character. This codec writes only `\u00` escapes, but
/// the decoder accepts the short forms too.
pub open spec fn is_short_escape(c: char) -> bool {
    c == 'n' || c == 't' || c == 'r' || c == 'b' || c == 'f'
}

/// The control character a short escape letter stands for.
pub open spec fn short_escape_char(c: char) -> char {
    if c == 'n' {
        '\n'
    } else if c == 't' {
        '\t'
    } else if c == 'r' {
        '\r'
    } else if c == 'b' {
        '\u{0008}'
    } else {
        '\u{000C}'
    }
}

/// Reads a quoted value from the front of `s`, which starts just after the
/// opening quote: the decoded text and what follows the closing quote, or
/// nothing if `s` holds no well-formed quoted value. Accepted escapes are the
/// ones this codec writes (`\"`, `\\`, `\u00` plus two hex digits) and the
/// short control escapes of a standard JSON writer (`\n`, `\t`, `\r`, `\b`,
/// `\f`).
pub open spec fn unescape(s: Seq<char>) -> Option<(Seq<char>, Seq<char>)>
    decreases s.len(),
{
    if s.len() == 0 {
        None
    } else if s[0] == '"' {
        Some((Seq::empty(), s.drop_first()))
    } else if s[0] == '\\' {
        if s.len() >= 2 && (s[1] == '"' || s[1] == '\\') {
            match unescape(s.skip(2)) {
                Some(p) => Some((seq![s[1]] + p.0, p.1)),
                None => None,
            }
        } else if s.len() >= 2 && is_short_escape(s[1]) {
            match unescape(s.skip(2)) {
                Some(p) => Some((seq![short_escape_char(s[1])] + p.0, p.1)),
                None => None,
            }
        } else if s.len() >= 6 && s[1] == 'u' && s[2] == '0' && s[3] == '0' && hex_val(s[4]) >= 0
            && hex_val(s[5]) >= 0 {
            match unescape(s.skip(6)) {
                Some(p) => Some((seq![code_char(16 * hex_val(s[4]) + hex_val(s[5]))] + p.0, p.1)),
                None => None,
            }
        } else {
            None
        }
    } else if (s[0] as u32) >= 32 {
        match unescape(s.drop_first()) {
            Some(p) => Some((seq![s[0]] + p.0, p.1)),
            None => None,
        }
    } else {
        None
    }
}

/// Decoding is a left inverse of encoding: a quoted value written by `escape`
/// and closed by a quote reads back as the text that was escaped, leaving
/// the rest untouched.
pub proof fn lemma_unescape_escape(s: Seq<char>, rest: Seq<char>)
    ensures
        unescape(escape(s) + seq!['"'] + rest) == Some((s, rest)),
    decreases s.len(),
{
    let t = escape(s) + seq!['"'] + rest;
    if s.len() == 0 {
        assert(t =~= seq!['"'] + rest);
        assert(t.drop_first() =~= rest);
        assert(s =~= Seq::<char>::empty());
    } else {
        let c = s[0];
        let tail_enc = escape(s.drop_first()) + seq!['"'] + rest;
        lemma_unescape_escape(s.drop_first(), rest);
        assert(t =~= escape_char(c) + tail_enc);
        if c == '"' || c == '\\' {
            assert(t.skip(2) =~= tail_enc);
            assert(seq![t[1]] + s.drop_first() =~= s);
        } else if (c as u32) < 32 {
            let v = c as u32 as int;
            lemma_hex_val_digit(v / 16);
            lemma_hex_val_digit(v % 16);
            assert(t.skip(6) =~= tail_enc);
            assert(16 * (v / 16) + v % 16 == v);
            vstd::utf8::char_u32_cast(c, c as u32);
            assert(code_char(v) == c);
            assert(seq![code_char(16 * hex_val(t[4]) + hex_val(t[5]))] + s.drop_first() =~= s);
        } else {
            assert(t.drop_first() =~= tail_enc);
            assert(seq![t[0]] + s.drop_first() =~= s);
        }
    }
}

fn is_short_escape_exec(c: char) -> (r: bool)
    ensures
        r == is_short_escape(c),
{
    c == 'n' || c == 't' || c == 'r' || c == 'b' || c == 'f'
}

fn short_escape_char_exec(c: char) -> (r: char)
    requires
        is_short_escape(c),
    ensures
        r == short_escape_char(c),
{
    if c == 'n' {
        '\n'
    } else if c == 't' {
        '\t'
    } else if c == 'r' {
        '\r'
    } else if c == 'b' {
        '\u{0008}'
    } else {
        '\u{000C}'
    }
}

/// Reads a quoted value from position `i` of `v`, mirroring `unescape`.
fn unescape_exec(v: &Vec<char>, i: usize) -> (r: Option<(Vec<char>, usize)>)
    requires
        i <= v.len(),
    ensures
        match r {
            Some(p) => i <= p.1 <= v.len() && unescape(v@.skip(i as int)) == Some(
                (p.0@, v@.skip(p.1 as int)),
            ),
            None => unescape(v@.skip(i as int)) is None,
        },
    decreases v.len() - i,
{
    let ghost s = v@.skip(i as int);
    if i == v.len() {
        return None;
    }
    let c = v[i];
    assert(s[0] == c);
    if c == '"' {
        proof {
            assert(s.drop_first() =~= v@.skip(i as int + 1));
        }
        return Some((Vec::new(), i + 1));
    }
    if c == '\\' {
        if i + 1 < v.len() && (v[i + 1] == '"' || v[i + 1] == '\\') {
            let e = v[i + 1];
            proof {
                assert(s.len() >= 2 && s[1] == e);
                assert(s.skip(2) =~= v@.skip(i as int + 2));
            }
            match unescape_exec(v, i + 2) {
                Some((mut val, j)) => {
                    val.insert(0, e);
                    proof {
                        assert(val@ =~= seq![s[1]] + val@.drop_first());
                    }
                    Some((val, j))
                },
                None => None,
            }
        } else if i + 1 < v.len() && is_short_escape_exec(v[i + 1]) {
            let e = short_escape_char_exec(v[i + 1]);
            proof {
                assert(s.len() >= 2 && s[1] == v@[i + 1]);
                assert(s.skip(2) =~= v@.skip(i as int + 2));
            }
            match unescape_exec(v, i + 2) {
                Some((mut val, j)) => {
                    val.insert(0, e);
                    proof {
                        assert(val@ =~= seq![e] + val@.drop_first());
                    }
                    Some((val, j))
                },
                None => None,
            }
        } else if v.len() - i >= 6 && v[i + 1] == 'u' && v[i + 2] == '0' && v[i + 3] == '0'
            && hex_val_exec(v[i + 4]) >= 0 && hex_val_exec(v[i + 5]) >= 0 {
            let h1 = hex_val_exec(v[i + 4]);
            let h2 = hex_val_exec(v[i + 5]);
            let code: u8 = 16 * (h1 as u8) + (h2 as u8);
            let e = code as char;
            proof {
                assert(s.len() >= 6 && s[1] == 'u' && s[2] == '0' && s[3] == '0' && s[4] == v@[i
                    + 4] && s[5] == v@[i + 5]);
                assert(s.skip(6) =~= v@.skip(i as int + 6));
                assert(e == code_char(16 * hex_val(s[4]) + hex_val(s[5])));
            }
            match unescape_exec(v, i + 6) {
                Some((mut val, j)) => {
                    val.insert(0, e);
                    proof {
                        assert(val@ =~= seq![e] + val@.drop_first());
                    }
                    Some((val, j))
                },
                None => None,
            }
        } else {
            proof {
                assert(!(s.len() >= 2 && (s[1] == '"' || s[1] == '\\')));
                assert(!(s.len() >= 2 && is_short_escape(s[1])));
                assert(!(s.len() >= 6 && s[1] == 'u' && s[2] == '0' && s[3] == '0' && hex_val(s[4])
                    >= 0 && hex_val(s[5]) >= 0));
            }
            None
        }
    } else if (c as u32) >= 32 {
        proof {
            assert(s.drop_first() =~= v@.skip(i as int + 1));
        }
        match unescape_exec(v, i + 1) {
            Some((mut val, j)) => {
                val.insert(0, c);
                proof {
                    assert(val@ =~= seq![s[0]] + val@.drop_first());
                }
                Some((val, j))
            },
            None => None,
        }
    } else {
        None
    }
}

/// The rest of `s` after the prefix `p`, if `p` is a prefix of `s`.
pub open spec fn strip_prefix(s: Seq<char>, p: Seq<char>) -> Option<Seq<char>> {
    if p.is_prefix_of(s) {
        Some(s.skip(p.len() as int))
    } else {
        None
    }
}

pub proof fn lemma_strip_prefix_concat(p: Seq<char>, x: Seq<char>)
    ensures
        strip_prefix(p + x, p) == Some(x),
{
    assert((p + x).subrange(0, p.len() as int) =~= p);
    assert((p + x).skip(p.len() as int) =~= x);
}

/// Consumes the literal `lit` at position `i` of `v`, mirroring
/// `strip_prefix`.
fn expect_lit(v: &Vec<char>, i: usize, lit: &str) -> (r: Option<usize>)
    requires
        i <= v.len(),
    ensures
        match r {
            Some(j) => i <= j <= v.len() && strip_prefix(v@.skip(i as int), lit@) == Some(
                v@.skip(j as int),
            ),
            None => strip_prefix(v@.skip(i as int), lit@) is None,
        },
{
    let ghost s = v@.skip(i as int);
    let n = lit.unicode_len();
    if v.len() - i < n {
        proof {
            assert(!lit@.is_prefix_of(s));
        }
        return None;
    }
    let mut k: usize = 0;
    while k < n
        invariant
            k <= n,
            n == lit@.len(),
            i <= v.len(),
            n <= v.len() - i,
            s == v@.skip(i as int),
            forall|j: int| 0 <= j < k ==> s[j] == lit@[j],
        decreases n - k,
    {
        if v[i + k] != lit.get_char(k) {
            proof {
                assert(s[k as int] != lit@[k as int]);
                assert(!lit@.is_prefix_of(s)) by {
                    if lit@.is_prefix_of(s) {
                        assert(s.subrange(0, n as int)[k as int] == s[k as int]);
                    }
                }
            }
            return None;
        }
        k = k + 1;
    }
    proof {
        assert(s.subrange(0, n as int) =~= lit@);
        assert(s.skip(n as int) =~= v@.skip(i as int + n as int));
    }
    Some(i + n)
}

/// Appends the escaped form of `field` to `out`.
pub(crate) fn append_escaped(out: &mut String, field: &str)
    ensures
        final(out)@ == old(out)@ + escape(field@),
{
    let n = field.unicode_len();
    let mut i: usize = 0;
    while i < n
        invariant
            i <= n,
            n == field@.len(),
            out@ == old(out)@ + escape(field@.take(i as int)),
        decreases n - i,
    {
        let c = field.get_char(i);
        proof {
            lemma_escape_take_succ(field@, i as int);
        }
        if c == '"' {
            out.push('\\');
            out.push('"');
        } else if c == '\\' {
            out.push('\\');
            out.push('\\');
        } else {
            let code = c as u32;
            if code < 32 {
                out.push('\\');
                out.push('u');
                out.push('0');
                out.push('0');
                out.push(hex_digit_exec((code / 16) as u8));
                out.push(hex_digit_exec((code % 16) as u8));
            } else {
                out.push(c);
            }
        }
        proof {
            assert(out@ =~= old(out)@ + escape(field@.take(i as int + 1)));
        }
        i = i + 1;
    }
    proof {
        assert(field@.take(n as int) =~= field@);
    }
}

/// A single double quote, closing a quoted value.
pub open spec fn quote() -> Seq<char> {
    seq!['"']
}

/// Opens the object and the quoted `id` value.
pub open spec fn lit_id() -> Seq<char> {
    "{\"id\":\""@
}

/// Separates the `id` value from the quoted `key` value.
pub open spec fn lit_key() -> Seq<char> {
    ",\"key\":\""@
}

/// Separates the `key` value from the quoted `hash` tag.
pub open spec fn lit_hash() -> Seq<char> {
    ",\"hash\":\""@
}

/// Separates the `hash` tag from the quoted `host` value.
pub open spec fn lit_host() -> Seq<char> {
    ",\"host\":\""@
}

/// Separates the `host` value from the quoted `kind` tag.
pub open spec fn lit_kind() -> Seq<char> {
    ",\"kind\":\""@
}

/// Separates the `kind` tag from the quoted `signature` value.
pub open spec fn lit_sig() -> Seq<char> {
    ",\"signature\":\""@
}

/// Separates the `signature` value from the unquoted `isSatisfied` flag; the
/// external field name is exactly `isSatisfied`.
pub open spec fn lit_sat() -> Seq<char> {
    ",\"isSatisfied\":"@
}

/// Separates the flag from the quoted `timestamp` value.
pub open spec fn lit_ts() -> Seq<char> {
    ",\"timestamp\":\""@
}

/// Closes the object.
pub open spec fn lit_end() -> Seq<char> {
    "}"@
}

/// The unquoted text of a flag.
pub open spec fn bool_seq(b: bool) -> Seq<char> {
    if b {
        "true"@
    } else {
        "false"@
    }
}

/// The canonical encoding of an annotation: the fields `id, key, hash, host,
/// kind, signature, isSatisfied, timestamp` in that order, tags written as
/// their bare tag string, free text escaped.
pub open spec fn spec_serialize_annotation(m: AnnotationModel) -> Seq<char> {
    lit_id() + enc_id(m)
}

/// The hash algorithm a bare tag names, if any.
pub open spec fn hash_from_tag(t: Seq<char>) -> Option<HashType> {
    if t == HashType::Md5.tag() {
        Some(HashType::Md5)
    } else if t == HashType::Sha256.tag() {
        Some(HashType::Sha256)
    } else if t == HashType::NoHash.tag() {
        Some(HashType::NoHash)
    } else {
        None
    }
}

/// The category a bare tag names, if any.
pub open spec fn kind_from_tag(t: Seq<char>) -> Option<AnnotationType> {
    if t == AnnotationType::Pki.tag() {
        Some(AnnotationType::Pki)
    } else if t == AnnotationType::Source.tag() {
        Some(AnnotationType::Source)
    } else if t == AnnotationType::Tls.tag() {
        Some(AnnotationType::Tls)
    } else if t == AnnotationType::Tpm.tag() {
        Some(AnnotationType::Tpm)
    } else {
        None
    }
}

/// An unquoted flag read from the front of `s`.
pub open spec fn parse_bool(s: Seq<char>) -> Option<(bool, Seq<char>)> {
    match strip_prefix(s, "true"@) {
        Some(r) => Some((true, r)),
        None => match strip_prefix(s, "false"@) {
            Some(r) => Some((false, r)),
            None => None,
        },
    }
}

/// Reads the canonical encoding back: the model it encodes, or nothing if the
/// text is not exactly an encoded annotation.
pub open spec fn spec_deserialize_annotation(s: Seq<char>) -> Option<AnnotationModel> {
    match strip_prefix(s, lit_id()) {
        None => None,
        Some(s1) => match unescape(s1) {
            None => None,
            Some((id, s2)) => match strip_prefix(s2, lit_key()) {
                None => None,
                Some(s3) => match unescape(s3) {
                    None => None,
                    Some((key, s4)) => match strip_prefix(s4, lit_hash()) {
                        None => None,
                        Some(s5) => match unescape(s5) {
                            None => None,
                            Some((htag, s6)) => match hash_from_tag(htag) {
                                None => None,
                                Some(hash) => match strip_prefix(s6, lit_host()) {
                                    None => None,
                                    Some(s7) => match unescape(s7) {
                                        None => None,
                                        Some((host, s8)) => match strip_prefix(s8, lit_kind()) {
                                            None => None,
                                            Some(s9) => match unescape(s9) {
                                                None => None,
                                                Some((ktag, s10)) => match kind_from_tag(ktag) {
                                                    None => None,
                                                    Some(kind) => match strip_prefix(
                                                        s10,
                                                        lit_sig(),
                                                    ) {
                                                        None => None,
                                                        Some(s11) => match unescape(s11) {
                                                            None => None,
                                                            Some((sig, s12)) => match strip_prefix(
                                                                s12,
                                                                lit_sat(),
                                                            ) {
                                                                None => None,
                                                                Some(s13) => match parse_bool(
                                                                    s13,
                                                                ) {
                                                                    None => None,
                                                                    Some(
                                                                        (sat, s14),
                                                                    ) => match strip_prefix(
                                                                        s14,
                                                                        lit_ts(),
                                                                    ) {
                                                                        None => None,
                                                                        Some(
                                                                            s15,
                                                                        ) => match unescape(s15) {
                                                                            None => None,
                                                                            Some(
                                                                                (ts, s16),
                                                                            ) => if s16
                                                                                == lit_end() {
                                                                                Some(
                                                                                    AnnotationModel {
                                                                                        id,
                                                                                        key,
                                                                                        hash,
                                                                                        host,
                                                                                        kind,
                                                                                        signature: sig,
                                                                                        is_satisfied: sat,
                                                                                        timestamp: ts,
                                                                                    },
                                                                                )
                                                                            } else {
                                                                                None
                                                                            },
                                                                        },
                                                                    },
                                                                },
                                                            },
                                                        },
                                                    },
                                                },
                                            },
                                        },
                                    },
                                },
                            },
                        },
                    },
                },
            },
        },
    }
}

/// A bare tag reads back as the algorithm that wrote it.
pub proof fn lemma_hash_tag_inverse(h: HashType)
    ensures
        hash_from_tag(h.tag()) == Some(h),
{
    reveal_strlit("md5");
    reveal_strlit("sha256");
    reveal_strlit("none");
    assert("md5"@.len() == 3 && "sha256"@.len() == 6 && "none"@.len() == 4);
}

/// A bare tag reads back as the category that wrote it.
pub proof fn lemma_kind_tag_inverse(k: AnnotationType)
    ensures
        kind_from_tag(k.tag()) == Some(k),
{
    reveal_strlit("pki");
    reveal_strlit("source");
    reveal_strlit("tls");
    reveal_strlit("tpm");
    assert("pki"@.len() == 3 && "source"@.len() == 6 && "tls"@.len() == 3 && "tpm"@.len() == 3);
    assert("pki"@[0] == 'p' && "tls"@[0] == 't' && "tpm"@[0] == 't' && "tls"@[1] == 'l' && "tpm"@[1]
        == 'p');
}

/// The encoding from the `timestamp` value on.
pub open spec fn enc_ts(m: AnnotationModel) -> Seq<char> {
    escape(m.timestamp) + seq!['"'] + lit_end()
}

/// The encoding from the `isSatisfied` flag on.
pub open spec fn enc_sat(m: AnnotationModel) -> Seq<char> {
    bool_seq(m.is_satisfied) + (lit_ts() + enc_ts(m))
}

/// The encoding from the `signature` value on.
pub open spec fn enc_sig(m: AnnotationModel) -> Seq<char> {
    escape(m.signature) + seq!['"'] + (lit_sat() + enc_sat(m))
}

/// The encoding from the `kind` tag on.
pub open spec fn enc_kind(m: AnnotationModel) -> Seq<char> {
    escape(m.kind.tag()) + seq!['"'] + (lit_sig() + enc_sig(m))
}

/// The encoding from the `host` value on.
pub open spec fn enc_host(m: AnnotationModel) -> Seq<char> {
    escape(m.host) + seq!['"'] + (lit_kind() + enc_kind(m))
}

/// The encoding from the `hash` tag on.
pub open spec fn enc_hash(m: AnnotationModel) -> Seq<char> {
    escape(m.hash.tag()) + seq!['"'] + (lit_host() + enc_host(m))
}

/// The encoding from the `key` value on.
pub open spec fn enc_key(m: AnnotationModel) -> Seq<char> {
    escape(m.key) + seq!['"'] + (lit_hash() + enc_hash(m))
}

/// The encoding from the `id` value on.
pub open spec fn enc_id(m: AnnotationModel) -> Seq<char> {
    escape(m.id) + seq!['"'] + (lit_key() + enc_key(m))
}

/// Decoding is a left inverse of encoding for whole annotations.
#[verifier::rlimit(100)]
pub proof fn lemma_annotation_round_trip(m: AnnotationModel)
    ensures
        spec_deserialize_annotation(spec_serialize_annotation(m)) == Some(m),
{
    let t = spec_serialize_annotation(m);
    lemma_strip_prefix_concat(lit_id(), enc_id(m));
    lemma_unescape_escape(m.id, lit_key() + enc_key(m));
    lemma_strip_prefix_concat(lit_key(), enc_key(m));
    lemma_unescape_escape(m.key, lit_hash() + enc_hash(m));
    lemma_strip_prefix_concat(lit_hash(), enc_hash(m));
    lemma_unescape_escape(m.hash.tag(), lit_host() + enc_host(m));
    lemma_hash_tag_inverse(m.hash);
    lemma_strip_prefix_concat(lit_host(), enc_host(m));
    lemma_unescape_escape(m.host, lit_kind() + enc_kind(m));
    lemma_strip_prefix_concat(lit_kind(), enc_kind(m));
    lemma_unescape_escape(m.kind.tag(), lit_sig() + enc_sig(m));
    lemma_kind_tag_inverse(m.kind);
    lemma_strip_prefix_concat(lit_sig(), enc_sig(m));
    lemma_unescape_escape(m.signature, lit_sat() + enc_sat(m));
    lemma_strip_prefix_concat(lit_sat(), enc_sat(m));
    reveal_strlit("true");
    reveal_strlit("false");
    if m.is_satisfied {
        lemma_strip_prefix_concat("true"@, lit_ts() + enc_ts(m));
    } else {
        assert("true"@.len() == 4 && "false"@.len() == 5);
        assert("true"@[0] == 't' && "false"@[0] == 'f');
        assert(!"true"@.is_prefix_of(enc_sat(m))) by {
            if "true"@.is_prefix_of(enc_sat(m)) {
                assert(enc_sat(m).subrange(0, 4)[0] == enc_sat(m)[0]);
                assert(enc_sat(m)[0] == 'f');
            }
        }
        lemma_strip_prefix_concat("false"@, lit_ts() + enc_ts(m));
    }
    lemma_strip_prefix_concat(lit_ts(), enc_ts(m));
    lemma_unescape_escape(m.timestamp, lit_end());
    assert(spec_deserialize_annotation(t) == Some(m));
}

/// Writes the canonical encoding of `a`.
pub fn serialize_annotation(a: &Annotation) -> (r: String)
    ensures
        r@ == spec_serialize_annotation(a@),
{
    proof {
        reveal_strlit("\"");
    }
    let mut out = String::new();
    out.append("{\"id\":\"");
    let ghost o1 = out@;
    append_escaped(&mut out, a.id.as_str());
    let ghost o2 = out@;
    out.append("\"");
    let ghost o3 = out@;
    out.append(",\"key\":\"");
    let ghost o4 = out@;
    append_escaped(&mut out, a.key.as_str());
    let ghost o5 = out@;
    out.append("\"");
    let ghost o6 = out@;
    out.append(",\"hash\":\"");
    let ghost o7 = out@;
    append_escaped(&mut out, a.hash.tag_text());
    let ghost o8 = out@;
    out.append("\"");
    let ghost o9 = out@;
    out.append(",\"host\":\"");
    let ghost o10 = out@;
    append_escaped(&mut out, a.host.as_str());
    let ghost o11 = out@;
    out.append("\"");
    let ghost o12 = out@;
    out.append(",\"kind\":\"");
    let ghost o13 = out@;
    append_escaped(&mut out, a.kind.kind());
    let ghost o14 = out@;
    out.append("\"");
    let ghost o15 = out@;
    out.append(",\"signature\":\"");
    let ghost o16 = out@;
    append_escaped(&mut out, a.signature.as_str());
    let ghost o17 = out@;
    out.append("\"");
    let ghost o18 = out@;
    out.append(",\"isSatisfied\":");
    let ghost o19 = out@;
    if a.is_satisfied {
        out.append("true");
    } else {
        out.append("false");
    }
    let ghost o20 = out@;
    out.append(",\"timestamp\":\"");
    let ghost o21 = out@;
    append_escaped(&mut out, a.timestamp.as_str());
    let ghost o22 = out@;
    out.append("\"");
    let ghost o23 = out@;
    out.append("}");
    proof {
        let m = a@;
        let q = seq!['"'];
        assert("\""@ =~= q);
        // Regroup the flat chain of appends, suffix by suffix, into the
        // right-nested form of the specification.
        vstd::seq_lib::lemma_concat_associative(escape(m.timestamp), q, lit_end());
        vstd::seq_lib::lemma_concat_associative(o22, q, lit_end());
        vstd::seq_lib::lemma_concat_associative(o21, escape(m.timestamp), q + lit_end());
        assert(out@ == o21 + enc_ts(m));
        vstd::seq_lib::lemma_concat_associative(o20, lit_ts(), enc_ts(m));
        vstd::seq_lib::lemma_concat_associative(o19, bool_seq(m.is_satisfied), lit_ts() + enc_ts(m));
        assert(out@ == o19 + enc_sat(m));
        vstd::seq_lib::lemma_concat_associative(escape(m.signature), q, lit_sat() + enc_sat(m));
        vstd::seq_lib::lemma_concat_associative(o18, lit_sat(), enc_sat(m));
        vstd::seq_lib::lemma_concat_associative(o17, q, lit_sat() + enc_sat(m));
        vstd::seq_lib::lemma_concat_associative(o16, escape(m.signature), q + (lit_sat() + enc_sat(m)));
        assert(out@ == o16 + enc_sig(m));
        vstd::seq_lib::lemma_concat_associative(escape(m.kind.tag()), q, lit_sig() + enc_sig(m));
        vstd::seq_lib::lemma_concat_associative(o15, lit_sig(), enc_sig(m));
        vstd::seq_lib::lemma_concat_associative(o14, q, lit_sig() + enc_sig(m));
        vstd::seq_lib::lemma_concat_associative(o13, escape(m.kind.tag()), q + (lit_sig() + enc_sig(m)));
        assert(out@ == o13 + enc_kind(m));
        vstd::seq_lib::lemma_concat_associative(escape(m.host), q, lit_kind() + enc_kind(m));
        vstd::seq_lib::lemma_concat_associative(o12, lit_kind(), enc_kind(m));
        vstd::seq_lib::lemma_concat_associative(o11, q, lit_kind() + enc_kind(m));
        vstd::seq_lib::lemma_concat_associative(o10, escape(m.host), q + (lit_kind() + enc_kind(m)));
        assert(out@ == o10 + enc_host(m));
        vstd::seq_lib::lemma_concat_associative(escape(m.hash.tag()), q, lit_host() + enc_host(m));
        vstd::seq_lib::lemma_concat_associative(o9, lit_host(), enc_host(m));
        vstd::seq_lib::lemma_concat_associative(o8, q, lit_host() + enc_host(m));
        vstd::seq_lib::lemma_concat_associative(o7, escape(m.hash.tag()), q + (lit_host() + enc_host(m)));
        assert(out@ == o7 + enc_hash(m));
        vstd::seq_lib::lemma_concat_associative(escape(m.key), q, lit_hash() + enc_hash(m));
        vstd::seq_lib::lemma_concat_associative(o6, lit_hash(), enc_hash(m));
        vstd::seq_lib::lemma_concat_associative(o5, q, lit_hash() + enc_hash(m));
        vstd::seq_lib::lemma_concat_associative(o4, escape(m.key), q + (lit_hash() + enc_hash(m)));
        assert(out@ == o4 + enc_key(m));
        vstd::seq_lib::lemma_concat_associative(escape(m.id), q, lit_key() + enc_key(m));
        vstd::seq_lib::lemma_concat_associative(o3, lit_key(), enc_key(m));
        vstd::seq_lib::lemma_concat_associative(o2, q, lit_key() + enc_key(m));
        vstd::seq_lib::lemma_concat_associative(o1, escape(m.id), q + (lit_key() + enc_key(m)));
        assert(out@ == o1 + enc_id(m));
        assert(o1 =~= lit_id());
        assert(out@ == spec_serialize_annotation(m));
    }
    out
}

/// Reads the canonical encoding back into a record, mirroring
/// `spec_deserialize_annotation`: the record whose encoding is exactly `s`,
/// or nothing.
pub fn deserialize_annotation(s: &str) -> (r: Option<Annotation>)
    ensures
        match r {
            Some(a) => spec_deserialize_annotation(s@) == Some(a@),
            None => spec_deserialize_annotation(s@) is None,
        },
{
    let v = str_to_chars(s);
    proof {
        assert(v@.skip(0) =~= s@);
    }
    let i1 = match expect_lit(&v, 0, "{\"id\":\"") {
        Some(j) => j,
        None => {
            return None;
        },
    };
    let (idv, i2) = match unescape_exec(&v, i1) {
        Some(p) => p,
        None => {
            return None;
        },
    };
    let i3 = match expect_lit(&v, i2, ",\"key\":\"") {
        Some(j) => j,
        None => {
            return None;
        },
    };
    let (keyv, i4) = match unescape_exec(&v, i3) {
        Some(p) => p,
        None => {
            return None;
        },
    };
    let i5 = match expect_lit(&v, i4, ",\"hash\":\"") {
        Some(j) => j,
        None => {
            return None;
        },
    };
    let (htagv, i6) = match unescape_exec(&v, i5) {
        Some(p) => p,
        None => {
            return None;
        },
    };
    let htag_str = string_from_chars(&htagv);
    let hash = if str_equal(htag_str.as_str(), "md5") {
        HashType::Md5
    } else if str_equal(htag_str.as_str(), "sha256") {
        HashType::Sha256
    } else if str_equal(htag_str.as_str(), "none") {
        HashType::NoHash
    } else {
        return None;
    };
    let i7 = match expect_lit(&v, i6, ",\"host\":\"") {
        Some(j) => j,
        None => {
            return None;
        },
    };
    let (hostv, i8) = match unescape_exec(&v, i7) {
        Some(p) => p,
        None => {
            return None;
        },
    };
    let i9 = match expect_lit(&v, i8, ",\"kind\":\"") {
        Some(j) => j,
        None => {
            return None;
        },
    };
    let (ktagv, i10) = match unescape_exec(&v, i9) {
        Some(p) => p,
        None => {
            return None;
        },
    };
    let ktag_str = string_from_chars(&ktagv);
    let kind = if str_equal(ktag_str.as_str(), "pki") {
        AnnotationType::Pki
    } else if str_equal(ktag_str.as_str(), "source") {
        AnnotationType::Source
    } else if str_equal(ktag_str.as_str(), "tls") {
        AnnotationType::Tls
    } else if str_equal(ktag_str.as_str(), "tpm") {
        AnnotationType::Tpm
    } else {
        return None;
    };
    let i11 = match expect_lit(&v, i10, ",\"signature\":\"") {
        Some(j) => j,
        None => {
            return None;
        },
    };
    let (sigv, i12) = match unescape_exec(&v, i11) {
        Some(p) => p,
        None => {
            return None;
        },
    };
    let i13 = match expect_lit(&v, i12, ",\"isSatisfied\":") {
        Some(j) => j,
        None => {
            return None;
        },
    };
    let (sat, i14) = match expect_lit(&v, i13, "true") {
        Some(j) => (true, j),
        None => match expect_lit(&v, i13, "false") {
            Some(j) => (false, j),
            None => {
                return None;
            },
        },
    };
    let i15 = match expect_lit(&v, i14, ",\"timestamp\":\"") {
        Some(j) => j,
        None => {
            return None;
        },
    };
    let (tsv, i16) = match unescape_exec(&v, i15) {
        Some(p) => p,
        None => {
            return None;
        },
    };
    let ghost s16 = v@.skip(i16 as int);
    proof {
        reveal_strlit("}");
    }
    let i17 = match expect_lit(&v, i16, "}") {
        Some(j) => j,
        None => {
            proof {
                assert(s16 != lit_end()) by {
                    if s16 == lit_end() {
                        assert(s16.subrange(0, 1) =~= s16);
                        assert(lit_end().is_prefix_of(s16));
                    }
                }
            }
            return None;
        },
    };
    if i17 != v.len() {
        proof {
            assert(lit_end().len() == 1);
            assert(s16.skip(1) == v@.skip(i17 as int));
            assert(s16.skip(1).len() == s16.len() - 1);
            assert(v@.skip(i17 as int).len() == v@.len() - i17);
            assert(s16.len() > 1);
            assert(s16 != lit_end());
        }
        return None;
    }
    proof {
        assert(lit_end().len() == 1);
        assert(lit_end().is_prefix_of(s16));
        assert(s16.skip(1) == v@.skip(i17 as int));
        assert(s16.skip(1).len() == s16.len() - 1);
        assert(v@.skip(i17 as int).len() == 0);
        assert(s16.len() == 1);
        assert(s16.subrange(0, 1) == lit_end());
        assert(s16[0] == s16.subrange(0, 1)[0]);
        assert(s16 =~= lit_end());
    }
    let a = Annotation {
        id: string_from_chars(&idv),
        key: string_from_chars(&keyv),
        hash,
        host: string_from_chars(&hostv),
        kind,
        signature: string_from_chars(&sigv),
        is_satisfied: sat,
        timestamp: string_from_chars(&tsv),
    };
    proof {
        assert(a@ =~= (AnnotationModel {
            id: idv@,
            key: keyv@,
            hash,
            host: hostv@,
            kind,
            signature: sigv@,
            is_satisfied: sat,
            timestamp: tsv@,
        }));
        assert(spec_deserialize_annotation(s@) == Some(a@));
    }
    Some(a)
}

} // verus!
