//! Choosing how a file is read from its name, and turning the bytes read
//! (from a file or from standard input) into text: gzip data is
//! decompressed, anything else must be UTF-8.

use vstd::prelude::*;
use crate::text::chars_of;
use std::io::Read;
use vstd::utf8::{decode_utf8, valid_utf8};

verus! {

/// `s` ends with `suffix`.
pub open spec fn has_suffix(s: Seq<char>, suffix: Seq<char>) -> bool {
    suffix.len() <= s.len() && s.skip(s.len() - suffix.len()) == suffix
}

/// The name without a trailing `.gz`.
pub open spec fn without_gz(s: Seq<char>) -> Seq<char> {
    if has_suffix(s, ".gz"@) {
        s.take(s.len() - 3)
    } else {
        s
    }
}

fn ends_with(s: &Vec<char>, n: usize, suffix: &str) -> (r: bool)
    requires
        n <= s@.len(),
    ensures
        r == has_suffix(s@.take(n as int), suffix@),
{
    let t = chars_of(suffix);
    if t.len() > n {
        return false;
    }
    let start = n - t.len();
    let mut i: usize = 0;
    while i < t.len()
        invariant
            n <= s@.len(),
            t@ == suffix@,
            start == n - t@.len(),
            i <= t@.len(),
            forall|j: int| 0 <= j < i ==> s@[start + j] == t@[j],
        decreases t.len() - i,
    {
        if s[start + i] != t[i] {
            assert(s@.take(n as int).skip(start as int)[i as int] != t@[i as int]);
            return false;
        }
        i = i + 1;
    }
    assert(s@.take(n as int).skip(start as int) =~= t@);
    true
}

/// Whether a file name names a multi-document file: it ends with `.yaml`,
/// after any trailing `.gz` is set aside.
pub fn determine_jsonl_format(path: &str) -> (r: bool)
    ensures
        r == has_suffix(without_gz(path@), ".yaml"@),
{
    let v = chars_of(path);
    let n = v.len();
    proof {
        reveal_strlit(".gz");
    }
    let gz = ends_with(&v, n, ".gz");
    assert(v@.take(n as int) =~= path@);
    let base_len = if gz { n - 3 } else { n };
    proof {
        if gz {
            assert(path@.take(n - 3) =~= v@.take(base_len as int));
        }
    }
    ends_with(&v, base_len, ".yaml")
}


/// Why bytes read give no text.
#[derive(Debug, Clone, Copy, PartialEq, Eq, Structural)]
pub enum LoadError {
    /// The gzip data does not decompress to UTF-8 text
    Decompress,
    /// The bytes are not UTF-8
    NotUtf8,
}

/// The text that flate2's gzip decoder reads from `bytes`, if it reads to
/// the end without an error and the result is UTF-8.
pub uninterp spec fn gunzip_text(bytes: Seq<u8>) -> Option<Seq<char>>;

/// Decompresses gzip data.
///
/// Trusted: reads `bytes` to a string through flate2's `read::GzDecoder`
/// (`Read::read_to_string`); none when that reports an error. The result
/// is named `gunzip_text`.
#[verifier::external_body]
pub fn decompress_gzip_bytes(bytes: &[u8]) -> (r: Option<String>)
    ensures
        match r {
            Some(s) => gunzip_text(bytes@) == Some(s@),
            None => gunzip_text(bytes@) is None,
        },
{
    let mut decoder = flate2::read::GzDecoder::new(bytes);
    let mut text = String::new();
    match decoder.read_to_string(&mut text) {
        Ok(_) => Some(text),
        Err(_) => None,
    }
}

/// The bytes as a string.
///
/// Trusted: calls `String::from_utf8`, which the standard library documents
/// as succeeding exactly when the bytes are valid UTF-8, the string then
/// holding the characters they encode.
#[verifier::external_body]
fn utf8_string(bytes: Vec<u8>) -> (r: Option<String>)
    ensures
        match r {
            Some(s) => valid_utf8(bytes@) && s@ == decode_utf8(bytes@),
            None => !valid_utf8(bytes@),
        },
{
    match String::from_utf8(bytes) {
        Ok(s) => Some(s),
        Err(_) => None,
    }
}

/// A file name whose extension is `gz` (a name that is only `.gz` has none).
pub open spec fn has_gz_extension(name: Seq<char>) -> bool {
    name.len() > 3 && name[name.len() - 3] == '.' && name[name.len() - 2] == 'g' && name[name.len() - 1] == 'z'
}

/// Bytes that start with the gzip magic bytes `1f 8b`.
pub open spec fn is_gzip_data(b: Seq<u8>) -> bool {
    b.len() >= 2 && b[0] == 0x1fu8 && b[1] == 0x8bu8
}

/// The text of gzip data.
pub open spec fn gzip_text(b: Seq<u8>) -> Result<Seq<char>, LoadError> {
    match gunzip_text(b) {
        Some(t) => Ok(t),
        None => Err(LoadError::Decompress),
    }
}

/// The text of UTF-8 bytes.
pub open spec fn plain_text(b: Seq<u8>) -> Result<Seq<char>, LoadError> {
    if valid_utf8(b) {
        Ok(decode_utf8(b))
    } else {
        Err(LoadError::NotUtf8)
    }
}

/// The view of a loaded text.
pub open spec fn text_result(r: Result<String, LoadError>) -> Result<Seq<char>, LoadError> {
    match r {
        Ok(s) => Ok(s@),
        Err(e) => Err(e),
    }
}

fn gzip_or_plain(gz: bool, bytes: Vec<u8>) -> (r: Result<String, LoadError>)
    ensures
        text_result(r) == if gz { gzip_text(bytes@) } else { plain_text(bytes@) },
{
    if gz {
        match decompress_gzip_bytes(bytes.as_slice()) {
            Some(t) => Ok(t),
            None => Err(LoadError::Decompress),
        }
    } else {
        match utf8_string(bytes) {
            Some(t) => Ok(t),
            None => Err(LoadError::NotUtf8),
        }
    }
}

/// The text of a file named `file_name` holding `bytes`: decompressed when
/// the name's extension is `gz`, else the bytes read as UTF-8.
pub fn loaded_text(file_name: &str, bytes: Vec<u8>) -> (r: Result<String, LoadError>)
    ensures
        text_result(r) == if has_gz_extension(file_name@) { gzip_text(bytes@) } else { plain_text(bytes@) },
{
    let c = chars_of(file_name);
    let n = c.len();
    let gz = n > 3 && c[n - 3] == '.' && c[n - 2] == 'g' && c[n - 1] == 'z';
    gzip_or_plain(gz, bytes)
}

/// The text of what standard input gave: decompressed when it starts with
/// the gzip magic bytes, else the bytes read as UTF-8.
pub fn stdin_text(bytes: Vec<u8>) -> (r: Result<String, LoadError>)
    ensures
        text_result(r) == if is_gzip_data(bytes@) { gzip_text(bytes@) } else { plain_text(bytes@) },
{
    let gz = bytes.len() >= 2 && bytes[0] == 0x1fu8 && bytes[1] == 0x8bu8;
    gzip_or_plain(gz, bytes)
}

} // verus!
