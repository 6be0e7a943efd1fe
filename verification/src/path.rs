//! File paths as the bytes that name them on Unix.

use vstd::prelude::*;
use vstd::string::*;
use vstd::utf8::{encode_utf8, is_ascii_chars_encode_utf8};

use crate::text::lemma_encode_concat;

verus! {

/// The byte between the components of a path.
pub const SEPARATOR: u8 = 47;

/// A path, held as its bytes so that every path the system can name has one.
#[derive(Debug, PartialEq, Eq)]
pub struct FilePath {
    pub bytes: Vec<u8>,
}

impl View for FilePath {
    type V = Seq<u8>;

    open spec fn view(&self) -> Seq<u8> {
        self.bytes@
    }
}

impl Clone for FilePath {
    fn clone(&self) -> (r: FilePath)
        ensures
            r@ == self@,
    {
        FilePath { bytes: self.bytes.clone() }
    }
}

/// `part` appended to `base` as further components. An absolute `part` takes
/// the place of `base`.
pub open spec fn joined(base: Seq<u8>, part: Seq<u8>) -> Seq<u8> {
    if part.len() > 0 && part[0] == SEPARATOR {
        part
    } else if base.len() == 0 || base.last() == SEPARATOR {
        base + part
    } else {
        base.push(SEPARATOR) + part
    }
}

/// The bytes of `text` as a path.
pub open spec fn path_of(text: &str) -> Seq<u8> {
    text.spec_bytes()
}

/// The bytes of an optional path.
pub open spec fn opt_path(path: Option<FilePath>) -> Option<Seq<u8>> {
    match path {
        Some(found) => Some(found@),
        None => None,
    }
}

/// `base` as it stands before a component below it: with a separator at its
/// end, unless it is empty.
pub open spec fn as_dir(base: Seq<u8>) -> Seq<u8> {
    if base.len() == 0 || base.last() == 47 {
        base
    } else {
        base.push(47)
    }
}

/// A part that begins with a slash is the whole result. Any other follows the
/// whole of the base, with one slash between them unless the base is empty or
/// ends in one.
pub proof fn law_join_puts_one_slash_between(base: Seq<u8>, part: Seq<u8>)
    ensures
        part.len() > 0 && part[0] == 47 ==> joined(base, part) == part,
        part.len() == 0 || part[0] != 47 ==> {
            let all = joined(base, part);
            let gap = all.len() - base.len() - part.len();
            &&& base.is_prefix_of(all)
            &&& part.is_suffix_of(all)
            &&& gap == 0 <==> base.len() == 0 || base[base.len() - 1] == 47
            &&& gap == 0 || gap == 1
            &&& gap == 1 ==> all[base.len() as int] == 47
        },
{
    let all = joined(base, part);
    if part.len() == 0 || part[0] != 47 {
        assert(all.take(base.len() as int) == base);
        assert(all.skip(all.len() - part.len()) == part);
    }
}

/// The bytes of a path's text are the UTF-8 encoding of that text.
pub proof fn law_path_bytes_encode_the_text(text: &str)
    ensures
        path_of(text) == encode_utf8(text@),
{
}

proof fn lemma_ascii_ends(text: Seq<char>)
    requires
        text.len() > 0,
        vstd::utf8::is_ascii_chars(text),
    ensures
        encode_utf8(text).len() > 0,
        text.first() != '/' ==> encode_utf8(text).first() != 47,
        text.last() != '/' ==> encode_utf8(text).last() != 47,
        text.last() == '/' ==> encode_utf8(text).last() == 47,
{
    is_ascii_chars_encode_utf8(text);
    let first = text.first();
    let last = text.last();
    assert(encode_utf8(text)[0] == text[0] as u8);
    assert(encode_utf8(text)[text.len() - 1] == text[text.len() - 1] as u8);
}

/// A relative part below `base`.
pub proof fn lemma_below(base: Seq<u8>, part: Seq<char>)
    requires
        part.len() > 0,
        vstd::utf8::is_ascii_chars(part),
        part.first() != '/',
        part.last() != '/',
    ensures
        joined(base, encode_utf8(part)) == as_dir(base) + encode_utf8(part),
        joined(base, encode_utf8(part)).last() != 47,
{
    lemma_ascii_ends(part);
}

/// A relative part below a relative part below `base`.
pub proof fn lemma_two_below(base: Seq<u8>, first: Seq<char>, second: Seq<char>)
    requires
        first.len() > 0,
        vstd::utf8::is_ascii_chars(first),
        first.first() != '/',
        first.last() != '/',
        second.len() > 0,
        vstd::utf8::is_ascii_chars(second),
        second.first() != '/',
        second.last() != '/',
    ensures
        joined(joined(base, encode_utf8(first)), encode_utf8(second)) == as_dir(base)
            + encode_utf8(first + seq!['/'] + second),
{
    lemma_below(base, first);
    lemma_below(joined(base, encode_utf8(first)), second);
    is_ascii_chars_encode_utf8(seq!['/']);
    assert(encode_utf8(seq!['/']) =~= seq![47u8]);
    lemma_encode_concat(first, seq!['/']);
    lemma_encode_concat(first + seq!['/'], second);
    assert(as_dir(as_dir(base) + encode_utf8(first)) == as_dir(base) + encode_utf8(first)
        + seq![47u8]);
    assert(as_dir(base) + encode_utf8(first) + seq![47u8] + encode_utf8(second) =~= as_dir(base)
        + (encode_utf8(first) + seq![47u8] + encode_utf8(second)));
}

/// Every path there is, the empty one too, is seen as its bytes.
pub proof fn law_paths_are_seen_as_their_bytes(path: FilePath, found: Option<FilePath>)
    ensures
        path@ == path.bytes@,
        opt_path(found) is Some <==> found is Some,
        found is Some ==> opt_path(found)->0 == found->0.bytes@,
{
}

impl FilePath {
    /// The path that `text` writes.
    pub fn from_text(text: &str) -> (r: FilePath)
        ensures
            r@ == path_of(text),
    {
        FilePath { bytes: text.as_bytes_vec() }
    }

    /// This path with `part` appended.
    pub fn join(&self, part: &str) -> (r: FilePath)
        ensures
            r@ == joined(self@, path_of(part)),
    {
        let part = part.as_bytes();
        if part.len() > 0 && part[0] == SEPARATOR {
            let mut bytes: Vec<u8> = Vec::new();
            bytes.extend_from_slice(part);
            assert(bytes@ == part@);
            FilePath { bytes }
        } else {
            let mut bytes = self.bytes.clone();
            if bytes.len() > 0 && bytes[bytes.len() - 1] != SEPARATOR {
                bytes.push(SEPARATOR);
            }
            let ghost start = bytes@;
            bytes.extend_from_slice(part);
            assert(bytes@ == start + part@);
            FilePath { bytes }
        }
    }
}

} // verus!
