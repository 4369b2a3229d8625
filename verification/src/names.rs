//! File names: which of them are safe to join to a directory, and how an
//! extension is recognised and removed.

use vstd::prelude::*;
use vstd::slice::slice_to_vec;
use vstd::std_specs::iter::IteratorSpec;
use vstd::string::StrSliceExecFns;
use vstd::string::StringSliceAdditionalSpecFns;
use vstd::utf8::*;

verus! {

/// The bytes that may occur in a safe name: ASCII letters, digits, `_`, `.`
/// and `-`.
pub open spec fn is_safe_byte(b: u8) -> bool {
    ||| 0x30 <= b <= 0x39
    ||| 0x41 <= b <= 0x5a
    ||| 0x61 <= b <= 0x7a
    ||| b == 0x5f
    ||| b == 0x2e
    ||| b == 0x2d
}

/// The same set, as characters.
pub open spec fn is_safe_char(c: char) -> bool {
    ||| '0' <= c <= '9'
    ||| 'A' <= c <= 'Z'
    ||| 'a' <= c <= 'z'
    ||| c == '_'
    ||| c == '.'
    ||| c == '-'
}

/// A raw name all of whose bytes are safe.
pub open spec fn all_safe_bytes(raw: Seq<u8>) -> bool {
    forall|i: int| 0 <= i < raw.len() ==> is_safe_byte(#[trigger] raw[i])
}

/// A name all of whose characters are safe. Such a name needs no escaping in
/// a path, a URL or a page.
pub open spec fn is_safe_name(name: Seq<char>) -> bool {
    forall|i: int| 0 <= i < name.len() ==> is_safe_char(#[trigger] name[i])
}

/// The text that a sequence of ASCII bytes spells.
pub open spec fn ascii_text(raw: Seq<u8>) -> Seq<char> {
    Seq::new(raw.len(), |i: int| raw[i] as char)
}

/// The error of [`validate_name`]: the name as it was given.
#[derive(Debug)]
pub struct DubiousFilename(pub Vec<u8>);

/// Bytes below 0x80 are valid UTF-8 and decode to one character each.
pub proof fn lemma_decode_ascii(raw: Seq<u8>)
    requires
        forall|i: int| 0 <= i < raw.len() ==> #[trigger] raw[i] < 0x80,
    ensures
        valid_utf8(raw),
        decode_utf8(raw) == ascii_text(raw),
    decreases raw.len(),
{
    if raw.len() > 0 {
        let rest = pop_first_scalar(raw);
        assert(raw[0] < 0x80);
        assert(rest == raw.subrange(1, raw.len() as int));
        assert forall|i: int| 0 <= i < rest.len() implies #[trigger] rest[i] < 0x80 by {
            assert(rest[i] == raw[i + 1]);
        }
        lemma_decode_ascii(rest);
        let b = raw[0];
        assert(b & 0x7f == b) by (bit_vector)
            requires
                b < 0x80,
        ;
        assert(decode_first_scalar(raw) == raw[0] as u32);
        assert(decode_utf8(raw) =~= ascii_text(raw));
    }
}

/// A safe raw name spells a safe name.
pub proof fn lemma_safe_bytes_spell_safe_name(raw: Seq<u8>)
    requires
        all_safe_bytes(raw),
    ensures
        is_safe_name(ascii_text(raw)),
{
    assert forall|i: int| 0 <= i < raw.len() implies is_safe_char(
        #[trigger] ascii_text(raw)[i],
    ) by {
        assert(is_safe_byte(raw[i]));
    }
}

/// What [`core::str::from_utf8`] documents: the bytes are taken as a string
/// exactly when they are valid UTF-8, and the string then has those bytes.
#[verifier::external_body]
fn str_from_utf8(raw: &[u8]) -> (r: Option<&str>)
    ensures
        r is Some <==> valid_utf8(raw@),
        r matches Some(s) ==> s.spec_bytes() == raw@,
{
    core::str::from_utf8(raw).ok()
}

fn is_safe(b: u8) -> (r: bool)
    ensures
        r == is_safe_byte(b),
{
    (0x30 <= b && b <= 0x39) || (0x41 <= b && b <= 0x5a) || (0x61 <= b && b <= 0x7a) || b == 0x5f
        || b == 0x2e || b == 0x2d
}

/// Accepts a raw name whose every byte is an ASCII letter, a digit, `_`, `.`
/// or `-`, and hands it back as text; any other name comes back in the error.
///
/// The names `.` and `..` pass: dot segments are to be resolved before a
/// name gets here, as URL parsing does.
pub fn validate_name(raw: &[u8]) -> (r: Result<&str, DubiousFilename>)
    ensures
        r is Ok <==> all_safe_bytes(raw@),
        r matches Ok(name) ==> name@ == ascii_text(raw@) && is_safe_name(name@),
        r matches Err(e) ==> e.0@ == raw@,
{
    let mut i: usize = 0;
    while i < raw.len()
        invariant
            i <= raw.len(),
            forall|k: int| 0 <= k < i ==> is_safe_byte(#[trigger] raw@[k]),
        decreases raw.len() - i,
    {
        if !is_safe(raw[i]) {
            return Err(DubiousFilename(slice_to_vec(raw)));
        }
        i = i + 1;
    }
    proof {
        lemma_decode_ascii(raw@);
        lemma_safe_bytes_spell_safe_name(raw@);
    }
    match str_from_utf8(raw) {
        Some(name) => {
            proof {
                encode_utf8_decode_utf8(name@);
            }
            Ok(name)
        },
        None => Err(DubiousFilename(slice_to_vec(raw))),
    }
}

/// A letter in lower case, where it is an ASCII letter; any other character
/// as it is.
pub open spec fn ascii_lower(c: char) -> char {
    if 'A' <= c <= 'Z' {
        ((c as u8 + 32) as u8) as char
    } else {
        c
    }
}

/// Two texts that differ at most in the case of their ASCII letters.
pub open spec fn eq_ignore_ascii_case(a: Seq<char>, b: Seq<char>) -> bool {
    &&& a.len() == b.len()
    &&& forall|i: int| 0 <= i < a.len() ==> ascii_lower(#[trigger] a[i]) == ascii_lower(b[i])
}

/// The last `ext.len()` characters of `name`.
pub open spec fn suffix(name: Seq<char>, ext: Seq<char>) -> Seq<char> {
    name.skip(name.len() - ext.len())
}

/// What is left of `name` in front of the dot of its extension.
pub open spec fn stem(name: Seq<char>, ext: Seq<char>) -> Seq<char> {
    name.take(name.len() - ext.len() - 1)
}

/// `name` ends with a dot and `ext`, whatever the case of the letters of the
/// extension. Nothing is asked of what stands before the dot: it may be empty.
pub open spec fn has_extension(name: Seq<char>, ext: Seq<char>) -> bool {
    &&& name.len() > ext.len()
    &&& name[name.len() - ext.len() - 1] == '.'
    &&& eq_ignore_ascii_case(suffix(name, ext), ext)
}

fn to_ascii_lower(c: char) -> (r: char)
    ensures
        r == ascii_lower(c),
{
    if 'A' <= c && c <= 'Z' {
        (c as u8 + 32) as char
    } else {
        c
    }
}

/// Given `"foo.BAR"` and `"bar"` returns `Some("foo")`: the name without its
/// extension, if it has that extension in any case of letters, else `None`.
pub fn remove_extension<'a>(filename: &'a str, extension: &str) -> (base: Option<&'a str>)
    ensures
        base is Some <==> has_extension(filename@, extension@),
        base matches Some(b) ==> b@ == stem(filename@, extension@) && filename@ == b@ + seq!['.']
            + suffix(filename@, extension@),
{
    let n: usize = filename.unicode_len();
    let m: usize = extension.unicode_len();
    if n <= m {
        return None;
    }
    let dot: usize = n - m - 1;
    let mut tail = filename.chars();
    let mut i: usize = 0;
    while i < dot
        invariant
            i <= dot < filename@.len(),
            tail.remaining() == filename@.skip(i as int),
        decreases dot - i,
    {
        let _ = tail.next();
        i = i + 1;
    }
    match tail.next() {
        Some('.') => {},
        _ => {
            return None;
        },
    }
    let mut wanted = extension.chars();
    let mut j: usize = 0;
    while j < m
        invariant
            j <= m == extension@.len(),
            dot + 1 + m == filename@.len(),
            tail.remaining() == filename@.skip(dot + 1 + j),
            wanted.remaining() == extension@.skip(j as int),
            forall|k: int|
                0 <= k < j ==> ascii_lower(#[trigger] suffix(filename@, extension@)[k])
                    == ascii_lower(extension@[k]),
        decreases m - j,
    {
        let have = tail.next();
        let want = wanted.next();
        match (have, want) {
            (Some(a), Some(b)) => {
                if to_ascii_lower(a) != to_ascii_lower(b) {
                    assert(suffix(filename@, extension@)[j as int] == a);
                    return None;
                }
                assert(suffix(filename@, extension@)[j as int] == a);
            },
            _ => {
                return None;
            },
        }
        j = j + 1;
    }
    let base = filename.substring_char(0, dot);
    assert(filename@ =~= base@ + seq!['.'] + suffix(filename@, extension@));
    Some(base)
}

/// Whether two strings hold the same text.
pub fn str_eq(a: &str, b: &str) -> (same: bool)
    ensures
        same == (a@ == b@),
{
    let x = a.as_bytes();
    let y = b.as_bytes();
    proof {
        encode_utf8_decode_utf8(a@);
        encode_utf8_decode_utf8(b@);
    }
    if x.len() != y.len() {
        return false;
    }
    let mut i: usize = 0;
    while i < x.len()
        invariant
            i <= x.len() == y.len(),
            x@ == encode_utf8(a@),
            y@ == encode_utf8(b@),
            forall|k: int| 0 <= k < i ==> x@[k] == y@[k],
        decreases x.len() - i,
    {
        if x[i] != y[i] {
            return false;
        }
        i = i + 1;
    }
    assert(x@ =~= y@);
    true
}

/// A text is a safe name exactly when its bytes are safe, and then the bytes
/// spell the text.
pub proof fn lemma_safe_text_has_safe_bytes(text: Seq<char>)
    ensures
        is_safe_name(text) <==> all_safe_bytes(encode_utf8(text)),
        is_safe_name(text) ==> ascii_text(encode_utf8(text)) == text,
{
    let raw = encode_utf8(text);
    encode_utf8_decode_utf8(text);
    if is_safe_name(text) {
        assert forall|i: int| 0 <= i < text.len() implies '\0' <= #[trigger] text[i]
            <= '\u{7f}' by {
            assert(is_safe_char(text[i]));
        }
        is_ascii_chars_encode_utf8(text);
        assert forall|i: int| 0 <= i < raw.len() implies is_safe_byte(#[trigger] raw[i]) by {
            assert(is_safe_char(text[i]));
            assert(raw[i] == text[i] as u8);
        }
        assert(ascii_text(raw) =~= text);
    }
    if all_safe_bytes(raw) {
        assert forall|i: int| 0 <= i < raw.len() implies #[trigger] raw[i] < 0x80 by {
            assert(is_safe_byte(raw[i]));
        }
        lemma_decode_ascii(raw);
        lemma_safe_bytes_spell_safe_name(raw);
    }
}

/// [`validate_name`] for a name that is text already: the name itself where
/// it is safe.
pub fn validate_text(name: &str) -> (r: Result<&str, DubiousFilename>)
    ensures
        r is Ok <==> is_safe_name(name@),
        r matches Ok(safe) ==> safe@ == name@,
        r matches Err(e) ==> e.0@ == name.spec_bytes(),
{
    proof {
        lemma_safe_text_has_safe_bytes(name@);
    }
    validate_name(name.as_bytes())
}

} // verus!
