//! Paths as text.

use std::path::PathBuf;
use vstd::prelude::*;

verus! {

/// A path of the standard library. Its inside is not looked at here.
#[verifier::external_type_specification]
#[verifier::external_body]
pub struct ExPathBuf(PathBuf);

/// The text of a path, where the path is valid Unicode.
pub uninterp spec fn path_text(path: &PathBuf) -> Option<Seq<char>>;

/// `Path::to_str` of the standard library: the path as a string slice, if it
/// is valid Unicode. The contract gives that result a name and says no more.
#[verifier::external_body]
fn path_to_str(path: &PathBuf) -> (s: Option<&str>)
    ensures
        match s {
            Some(text) => path_text(path) == Some(text@),
            None => path_text(path) is None,
        },
{
    path.to_str()
}

/// The path as text, or the empty text where the path is not valid Unicode.
pub fn path_str(path: &PathBuf) -> (s: &str)
    ensures
        s@ == match path_text(path) {
            Some(text) => text,
            None => Seq::<char>::empty(),
        },
{
    match path_to_str(path) {
        Some(text) => text,
        None => {
            proof {
                reveal_strlit("");
                assert(""@ =~= Seq::<char>::empty());
            }
            ""
        },
    }
}

/// Whether the path is the empty path.
pub fn path_is_empty(p: &PathBuf) -> (empty: bool)
    ensures
        empty == (path_text(p) == Some(Seq::<char>::empty())),
{
    match path_to_str(p) {
        Some(text) => {
            let empty = text.is_empty();
            assert(empty ==> text@ =~= Seq::<char>::empty());
            empty
        },
        None => false,
    }
}

} // verus!
