//! Listing the installed patterns and picking one of them.
use rand::seq::IndexedRandom;
use vstd::prelude::*;
use vstd::string::StringExecFns;
use crate::text::{extension_of, file_extension, file_stem, stem_of};

verus! {

/// The line that lists the pattern file `name`: its stem, followed by its
/// extension in brackets where it has one.
pub open spec fn label_of(name: Seq<char>) -> Seq<char> {
    match extension_of(name) {
        Some(extension) => stem_of(name) + " ("@ + extension + ")"@,
        None => stem_of(name),
    }
}

/// The line that lists the pattern file `name`.
pub fn file_label(name: &str) -> (label: String)
    ensures
        label@ == label_of(name@),
{
    let mut label = file_stem(name);
    match file_extension(name) {
        Some(extension) => {
            label.append(" (");
            label.append(extension.as_str());
            label.append(")");
        },
        None => {},
    }
    label
}

/// One of `files`, picked at random, or `None` where there is none.
///
/// Trusted: this is `rand::seq::IndexedRandom::choose` on the slice of
/// `files`, with the generator of `rand::rng()`. It returns `None` for an
/// empty slice and a reference to one of the elements otherwise; which one
/// is left open.
#[verifier::external_body]
fn choose_one(files: &Vec<String>) -> (picked: Option<&String>)
    ensures
        files.len() == 0 ==> picked is None,
        files.len() > 0 ==> picked is Some && files@.contains(*picked->0),
{
    files.choose(&mut rand::rng())
}

/// Picks one of `files` at random: `None` exactly where there is none to
/// pick, else one of them.
pub fn select_random(files: &Vec<String>) -> (picked: Option<String>)
    ensures
        picked is None <==> files.len() == 0,
        picked matches Some(file) ==> exists|i: int|
            0 <= i < files.len() && #[trigger] files[i]@ == file@,
{
    match choose_one(files) {
        Some(file) => {
            let picked = file.clone();
            proof {
                let i = choose|i: int| 0 <= i < files@.len() && files@[i] == *file;
                assert(files[i]@ == picked@);
            }
            Some(picked)
        },
        None => None,
    }
}

/// The file name under which a pattern is looked for when no file has its
/// name: the name with `toml` for its extension.
pub open spec fn toml_name_of(name: Seq<char>) -> Seq<char> {
    stem_of(name) + ".toml"@
}

/// The file name `name` with `toml` for its extension.
pub fn toml_name(name: &str) -> (file: String)
    ensures
        file@ == toml_name_of(name@),
{
    let mut file = file_stem(name);
    file.append(".toml");
    file
}

/// Which file shows a pattern that is asked for by name.
#[derive(Debug, Clone, Copy, PartialEq, Eq, Structural)]
pub enum NamedFile {
    /// The file of that very name.
    AsGiven,
    /// The file with `toml` for its extension.
    WithToml,
    /// No file.
    Missing,
}

/// The file that shows a pattern asked for by name, given whether a file of
/// that name exists and whether the file with `toml` for its extension
/// does: the first where it exists, else the second where that exists, else
/// none.
pub open spec fn named_file(exists: bool, toml_exists: bool) -> NamedFile {
    if exists {
        NamedFile::AsGiven
    } else if toml_exists {
        NamedFile::WithToml
    } else {
        NamedFile::Missing
    }
}

/// Picks the file that shows a pattern asked for by name.
pub fn select_named(exists: bool, toml_exists: bool) -> (file: NamedFile)
    ensures
        file == named_file(exists, toml_exists),
{
    if exists {
        NamedFile::AsGiven
    } else if toml_exists {
        NamedFile::WithToml
    } else {
        NamedFile::Missing
    }
}

} // verus!
