//! Paths of the file system, by the rules of the platform that the crate is compiled for.
//!
//! A `PathBuf` stands in contracts for the bytes it holds, in the encoding that
//! `OsStr::as_encoded_bytes` describes: UTF-8 wherever the path is text.
use std::path::PathBuf;
use vstd::prelude::*;
use vstd::string::*;
use vstd::utf8::{decode_utf8, encode_utf8, valid_utf8};

verus! {

// ---------------------------------------------------------------------------------------------
// Functions of std
// ---------------------------------------------------------------------------------------------

/// `std::path::PathBuf`, an owned path.
#[verifier::external_type_specification]
#[verifier::external_body]
pub struct ExPathBuf(std::path::PathBuf);

/// The bytes that a path holds (`OsStr::as_encoded_bytes`).
pub uninterp spec fn path_bytes(path: PathBuf) -> Seq<u8>;

/// What `Path::join` makes of the bytes of two paths.
pub uninterp spec fn joined(base: Seq<u8>, tail: Seq<u8>) -> Seq<u8>;

/// What `Path::is_absolute` says of the bytes of a path.
pub uninterp spec fn called_absolute(path: Seq<u8>) -> bool;

/// What `Path::display` prints for the bytes of a path.
pub uninterp spec fn displayed(path: Seq<u8>) -> Seq<char>;

/// What `Path::to_string_lossy` gives for the bytes of a path.
pub uninterp spec fn lossy(path: Seq<u8>) -> Seq<char>;

/// What `Path::file_name` gives for the bytes of a path: its final component, if there is one.
pub uninterp spec fn final_component(path: Seq<u8>) -> Option<Seq<u8>>;

/// `PathBuf::clone`: the same path.
pub assume_specification[ <PathBuf as Clone>::clone ](path: &PathBuf) -> (copy: PathBuf)
    ensures
        copy == *path,
;

/// `PathBuf::from`: the path that a text spells, byte for byte.
#[verifier::external_body]
pub(crate) fn path_from(text: &str) -> (path: PathBuf)
    ensures
        path_bytes(path) == encode_utf8(text@),
{
    PathBuf::from(text)
}

/// Whether a byte is that of an ASCII letter.
pub open spec fn is_letter(byte: u8) -> bool {
    65 <= byte <= 90 || 97 <= byte <= 122
}

/// Whether a path begins with a slash of either kind or with a letter, as the root, the prefix of
/// a share and the letter of a drive do.
pub open spec fn begins_as_a_root(path: Seq<u8>) -> bool {
    path.len() > 0 && (path[0] == 47 || path[0] == 92 || is_letter(path[0]))
}

/// Whether a path is independent of the current directory.
pub open spec fn absolute(path: Seq<u8>) -> bool {
    called_absolute(path) && begins_as_a_root(path)
}

/// Whether a path begins with a drive and replaces any path that it is joined to.
pub open spec fn goes_to_a_drive(path: Seq<u8>) -> bool {
    &&& path.len() >= 2 && is_letter(path[0]) && path[1] == 58
    &&& forall|base: Seq<u8>| #[trigger] joined(base, path) == path
}

/// `Path::join`: `tail` below `base`, or `tail` alone where `tail` is absolute. What is joined to
/// an absolute path gives an absolute path, unless it begins with a drive and no root, such as
/// `c:x` where drives are known: such a path replaces whatever it is joined to.
#[verifier::external_body]
pub(crate) fn join(base: &PathBuf, tail: &PathBuf) -> (path: PathBuf)
    ensures
        path_bytes(path) == joined(path_bytes(*base), path_bytes(*tail)),
        absolute(path_bytes(*tail)) ==> path_bytes(path) == path_bytes(*tail),
        absolute(path_bytes(*base)) ==> absolute(path_bytes(path)) || goes_to_a_drive(
            path_bytes(*tail),
        ),
{
    base.join(tail)
}

/// `Path::is_absolute`: whether the path is independent of the current directory. Such a path
/// starts with the root, or with a prefix such as `c:` or that of a share, and so with a slash of
/// either kind or with a letter.
#[verifier::external_body]
pub(crate) fn is_absolute(path: &PathBuf) -> (res: bool)
    ensures
        res == called_absolute(path_bytes(*path)),
        res ==> begins_as_a_root(path_bytes(*path)),
{
    path.is_absolute()
}

/// `Path::display`, printed: the text of the path, exact where the path is text.
#[verifier::external_body]
pub(crate) fn display(path: &PathBuf) -> (text: String)
    ensures
        text@ == displayed(path_bytes(*path)),
        valid_utf8(path_bytes(*path)) ==> text@ == decode_utf8(path_bytes(*path)),
{
    path.display().to_string()
}

/// `Path::to_string_lossy`: the text of the path, exact where the path is text.
#[verifier::external_body]
pub(crate) fn to_string_lossy(path: &PathBuf) -> (text: String)
    ensures
        text@ == lossy(path_bytes(*path)),
        valid_utf8(path_bytes(*path)) ==> text@ == decode_utf8(path_bytes(*path)),
{
    path.to_string_lossy().into_owned()
}

/// `Path::file_name`: the bytes of the final component of the path.
#[verifier::external_body]
pub(crate) fn file_name(path: &PathBuf) -> (name: Option<Vec<u8>>)
    ensures
        match name {
            Some(bytes) => final_component(path_bytes(*path)) == Some(bytes@),
            None => final_component(path_bytes(*path)) is None,
        },
{
    match path.file_name() {
        Some(name) => Some(name.as_encoded_bytes().to_vec()),
        None => None,
    }
}

/// `String::from_utf8`: the text that the bytes spell, where they are UTF-8.
#[verifier::external_body]
pub(crate) fn text_from_utf8(bytes: Vec<u8>) -> (text: Option<String>)
    ensures
        match text {
            Some(text) => valid_utf8(bytes@) && text@ == decode_utf8(bytes@),
            None => !valid_utf8(bytes@),
        },
{
    String::from_utf8(bytes).ok()
}

// ---------------------------------------------------------------------------------------------
// Stem and extension
// ---------------------------------------------------------------------------------------------

/// One past the last dot of a file name; 0 where it has none.
pub open spec fn past_last_dot(name: Seq<u8>) -> int
    decreases name.len(),
{
    if name.len() == 0 {
        0
    } else if name.last() == 46 {
        name.len() as int
    } else {
        past_last_dot(name.drop_last())
    }
}

/// A file name has an extension where it holds a dot other than as its first byte.
pub open spec fn has_extension(name: Seq<u8>) -> bool {
    past_last_dot(name) > 1
}

/// What stands behind the last dot of a file name with an extension.
pub open spec fn extension_of(name: Seq<u8>) -> Option<Seq<u8>> {
    if has_extension(name) {
        Some(name.skip(past_last_dot(name)))
    } else {
        None
    }
}

/// What stands before the last dot of a file name, or all of it where it has no extension.
pub open spec fn stem_of(name: Seq<u8>) -> Seq<u8> {
    if has_extension(name) {
        name.take(past_last_dot(name) - 1)
    } else {
        name
    }
}

/// The extension of a path: that of its final component.
pub open spec fn path_extension(path: Seq<u8>) -> Option<Seq<u8>> {
    match final_component(path) {
        Some(name) => extension_of(name),
        None => None,
    }
}

/// The text of the stem of a path's final component, where there is one and it is text.
pub open spec fn path_stem_text(path: Seq<u8>) -> Option<Seq<char>> {
    match final_component(path) {
        Some(name) => if valid_utf8(stem_of(name)) {
            Some(decode_utf8(stem_of(name)))
        } else {
            None
        },
        None => None,
    }
}

/// One past the last dot of `name`.
fn past_dot(name: &Vec<u8>) -> (index: usize)
    ensures
        index == past_last_dot(name@),
        index <= name@.len(),
{
    let mut end: usize = name.len();
    assert(name@.take(end as int) =~= name@);
    while end > 0 && name[end - 1] != 46
        invariant
            end <= name@.len(),
            past_last_dot(name@) == past_last_dot(name@.take(end as int)),
        decreases end,
    {
        assert(name@.take(end as int).drop_last() =~= name@.take(end - 1));
        end = end - 1;
    }
    end
}

/// The bytes from `from` up to, not including, `to`.
fn bytes_between(bytes: &Vec<u8>, from: usize, to: usize) -> (res: Vec<u8>)
    requires
        from <= to <= bytes@.len(),
    ensures
        res@ == bytes@.subrange(from as int, to as int),
{
    let mut res: Vec<u8> = Vec::new();
    let mut i: usize = from;
    while i < to
        invariant
            from <= i <= to <= bytes@.len(),
            res@ == bytes@.subrange(from as int, i as int),
        decreases to - i,
    {
        res.push(bytes[i]);
        i = i + 1;
        assert(bytes@.subrange(from as int, i as int) =~= bytes@.subrange(
            from as int,
            i - 1,
        ).push(bytes@[i - 1]));
    }
    res
}

/// The extension of a path.
pub fn extension(path: &PathBuf) -> (res: Option<Vec<u8>>)
    ensures
        match res {
            Some(bytes) => path_extension(path_bytes(*path)) == Some(bytes@),
            None => path_extension(path_bytes(*path)) is None,
        },
{
    let name = match file_name(path) {
        Some(name) => name,
        None => {
            return None;
        },
    };
    let start = past_dot(&name);
    if start <= 1 {
        return None;
    }
    let res = bytes_between(&name, start, name.len());
    assert(res@ =~= name@.skip(start as int));
    Some(res)
}

/// The stem of a path's final component, where it is text.
pub fn file_stem(path: &PathBuf) -> (res: Option<String>)
    ensures
        match res {
            Some(text) => path_stem_text(path_bytes(*path)) == Some(text@),
            None => path_stem_text(path_bytes(*path)) is None,
        },
{
    let name = match file_name(path) {
        Some(name) => name,
        None => {
            return None;
        },
    };
    let start = past_dot(&name);
    if start <= 1 {
        return text_from_utf8(name);
    }
    let stem = bytes_between(&name, 0, start - 1);
    assert(stem@ =~= name@.take(start - 1));
    text_from_utf8(stem)
}

} // verus!
