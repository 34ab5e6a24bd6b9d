//! File-system paths, as the standard library reads them.
//!
//! Nothing here touches the disk. The standard library takes a path apart
//! and puts paths together by the rules of the platform. Those rules are not
//! restated here: the last component of a path, its parent, and what joining
//! two paths gives each have a name, and the functions of this crate that
//! build on one say what they make of it. The stem and the extension of a
//! file name are taken from the name here, at its last dot.

use std::path::Path;
use vstd::prelude::*;
use crate::text::{chars_of, last_index, rfind_char, string_of};

verus! {

/// The last component of `path`, as `Path::file_name` gives it.
pub uninterp spec fn path_file_name(path: Seq<char>) -> Option<Seq<char>>;

/// `path` without its last component, as `Path::parent` gives it.
pub uninterp spec fn path_parent(path: Seq<char>) -> Option<Seq<char>>;

/// `name` adjoined to `dir`, as `Path::join` gives it.
pub uninterp spec fn path_join(dir: Seq<char>, name: Seq<char>) -> Seq<char>;

/// The stem of a file name: all of it if it has no dot, or none but the one
/// it begins with; else what stands before its last dot.
pub open spec fn stem_of_name(name: Seq<char>) -> Seq<char> {
    if last_index(name, '.') <= 0 {
        name
    } else {
        name.take(last_index(name, '.'))
    }
}

/// The extension of a file name: none if it has no dot, or none but the one
/// it begins with; else what stands after its last dot.
pub open spec fn extension_of_name(name: Seq<char>) -> Option<Seq<char>> {
    if last_index(name, '.') <= 0 {
        None
    } else {
        Some(name.skip(last_index(name, '.') + 1))
    }
}

/// The stem of the file that `path` names, if it names one.
pub open spec fn path_file_stem(path: Seq<char>) -> Option<Seq<char>> {
    match path_file_name(path) {
        Some(name) => Some(stem_of_name(name)),
        None => None,
    }
}

/// The extension of the file that `path` names, if it names one that has an
/// extension.
pub open spec fn path_extension(path: Seq<char>) -> Option<Seq<char>> {
    match path_file_name(path) {
        Some(name) => extension_of_name(name),
        None => None,
    }
}

/// Calls `Path::file_name`: the last component of `path`, if it has one
/// that is the name of a file or directory. The result is a function of the
/// text of `path` alone.
#[verifier::external_body]
pub(crate) fn file_name(path: &str) -> (name: Option<String>)
    ensures
        match name {
            Some(s) => path_file_name(path@) == Some(s@),
            None => path_file_name(path@) is None,
        },
{
    match Path::new(path).file_name() {
        Some(s) => Some(s.to_string_lossy().into_owned()),
        None => None,
    }
}

/// The stem of a file name.
pub fn stem_of(name: &str) -> (stem: String)
    ensures
        stem@ == stem_of_name(name@),
{
    let v = chars_of(name);
    match rfind_char(&v, '.') {
        Some(dot) => {
            if dot > 0 {
                assert(v@.subrange(0, dot as int) =~= v@.take(dot as int));
                string_of(&v, 0, dot)
            } else {
                name.to_owned()
            }
        },
        None => name.to_owned(),
    }
}

/// The extension of a file name, if it has one.
pub fn extension_of(name: &str) -> (ext: Option<String>)
    ensures
        match ext {
            Some(e) => extension_of_name(name@) == Some(e@),
            None => extension_of_name(name@) is None,
        },
{
    let v = chars_of(name);
    match rfind_char(&v, '.') {
        Some(dot) => {
            if dot > 0 {
                assert(v@.subrange(dot + 1, v.len() as int) =~= v@.skip(dot + 1));
                Some(string_of(&v, dot + 1, v.len()))
            } else {
                None
            }
        },
        None => None,
    }
}

/// The stem of the file that `path` names, if it names one.
pub fn file_stem(path: &str) -> (stem: Option<String>)
    ensures
        match stem {
            Some(s) => path_file_stem(path@) == Some(s@),
            None => path_file_stem(path@) is None,
        },
{
    match file_name(path) {
        Some(name) => Some(stem_of(name.as_str())),
        None => None,
    }
}

/// The extension of the file that `path` names, if it names one that has
/// an extension.
pub fn extension(path: &str) -> (ext: Option<String>)
    ensures
        match ext {
            Some(s) => path_extension(path@) == Some(s@),
            None => path_extension(path@) is None,
        },
{
    match file_name(path) {
        Some(name) => extension_of(name.as_str()),
        None => None,
    }
}

/// Calls `Path::parent`: `path` without its last component, if it has one
/// to lose. The result is a function of the text of `path` alone.
#[verifier::external_body]
pub(crate) fn parent(path: &str) -> (dir: Option<String>)
    ensures
        match dir {
            Some(s) => path_parent(path@) == Some(s@),
            None => path_parent(path@) is None,
        },
{
    match Path::new(path).parent() {
        Some(p) => Some(p.to_string_lossy().into_owned()),
        None => None,
    }
}

/// Calls `Path::join`: `name` adjoined to `dir`. The result is a function of
/// the two texts alone.
#[verifier::external_body]
pub(crate) fn join(dir: &str, name: &str) -> (joined: String)
    ensures
        joined@ == path_join(dir@, name@),
{
    Path::new(dir).join(name).to_string_lossy().into_owned()
}

} // verus!
