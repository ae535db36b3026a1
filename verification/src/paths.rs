//! Where a download is written: the file name that stands for a mod's name,
//! and the paths built from it.

use crate::text::{chars_of, string_of};
use vstd::prelude::*;

verus! {

/// A character that a file name should not hold.
pub open spec fn is_reserved(c: char) -> bool {
    c == ' ' || c == ':' || c == '/' || c == '\\' || c == '?' || c == '*' || c == '"' || c == '<'
        || c == '>' || c == '|'
}

/// `name` with an underscore in the place of each reserved character.
pub open spec fn compatible_name(name: Seq<char>) -> Seq<char> {
    Seq::new(
        name.len(),
        |i: int|
            if is_reserved(name[i]) {
                '_'
            } else {
                name[i]
            },
    )
}

fn is_reserved_char(c: char) -> (b: bool)
    ensures
        b == is_reserved(c),
{
    c == ' ' || c == ':' || c == '/' || c == '\\' || c == '?' || c == '*' || c == '"' || c == '<'
        || c == '>' || c == '|'
}

/// The file name that stands for a mod's name: blanks and the characters
/// that file systems reserve give way to underscores, one for one.
pub fn make_path_compatible_name(name: &str) -> (file_name: String)
    ensures
        file_name@ == compatible_name(name@),
{
    let chars = chars_of(name);
    let mut out: Vec<char> = Vec::new();
    let mut i: usize = 0;
    while i < chars.len()
        invariant
            i <= chars.len(),
            chars@ == name@,
            out@ == compatible_name(name@).take(i as int),
        decreases chars.len() - i,
    {
        let c = chars[i];
        if is_reserved_char(c) {
            out.push('_');
        } else {
            out.push(c);
        }
        i += 1;
        assert(out@ =~= compatible_name(name@).take(i as int));
    }
    assert(compatible_name(name@).take(chars.len() as int) =~= compatible_name(name@));
    string_of(&out)
}

/// The path of the entry `file` of the directory `dir`, as
/// `std::path::Path::join` builds it on the platform that the library is
/// built for. The two texts fix the result on one platform; it is not the
/// same on all, since Windows and Unix part the names of a path by different
/// separators.
pub uninterp spec fn joined_path(dir: Seq<char>, file: Seq<char>) -> Seq<char>;

/// `std::path::Path::join`, on paths that are text: the result is the path
/// that std builds from these two on this platform, and depends on nothing
/// else.
#[verifier::external_body]
pub(crate) fn join_path(dir: &str, file: &str) -> (path: String)
    ensures
        path@ == joined_path(dir@, file@),
{
    std::path::Path::new(dir).join(file).to_string_lossy().into_owned()
}

/// The path that differs from `path` in its file name alone, which is `file`,
/// as `std::path::Path::with_file_name` builds it on the platform that the
/// library is built for. The two texts fix the result on one platform; it
/// is not the same on all, since Windows and Unix part the names of a path
/// by different separators.
pub uninterp spec fn sibling_path(path: Seq<char>, file: Seq<char>) -> Seq<char>;

/// `std::path::Path::with_file_name`, on paths that are text: the result is
/// the path that std builds from these two on this platform, and depends on
/// nothing else.
#[verifier::external_body]
pub(crate) fn with_file_name(path: &str, file: &str) -> (sibling: String)
    ensures
        sibling@ == sibling_path(path@, file@),
{
    std::path::Path::new(path).with_file_name(file).to_string_lossy().into_owned()
}

} // verus!
