//! Which files the mirror annotates, and where their output goes.

use vstd::prelude::*;
use vstd::string::StringExecFns;

verus! {

/// Where the files to annotate are looked for when no folder is given.
pub const DEFAULT_SOURCE_FOLDER: &'static str = ".";

/// Where the annotated files go when no folder is given.
pub const DEFAULT_OUTPUT_FOLDER: &'static str = "./inlay-hints";

/// What std::path::Path::extension gives for `path`, as text.
pub uninterp spec fn extension_of(path: Seq<char>) -> Option<Seq<char>>;

/// What std::path::Path::strip_prefix gives for `path` and `root`, as text.
pub uninterp spec fn path_without_root(path: Seq<char>, root: Seq<char>) -> Option<Seq<char>>;

/// Relies on std::path::Path::extension: the text after the last `.` of the
/// final component, or nothing; it depends on the path alone.
#[verifier::external_body]
fn path_extension(p: &str) -> (r: Option<String>)
    ensures
        match r {
            Some(e) => extension_of(p@) == Some(e@),
            None => extension_of(p@) is None,
        },
{
    std::path::Path::new(p).extension().map(|e| e.to_string_lossy().into_owned())
}

/// Relies on std::path::Path::strip_prefix: the path relative to `root`,
/// or nothing where `root` is not a prefix of it; it depends on both alone.
#[verifier::external_body]
fn strip_root(p: &str, root: &str) -> (r: Option<String>)
    ensures
        match r {
            Some(rel) => path_without_root(p@, root@) == Some(rel@),
            None => path_without_root(p@, root@) is None,
        },
{
    std::path::Path::new(p).strip_prefix(root).ok().map(|r| r.to_string_lossy().into_owned())
}

/// Whether a file with extension `ext` (or none) is one to annotate.
pub fn extension_matches(ext: Option<String>, file_ext: &str) -> (r: bool)
    ensures
        r == (ext matches Some(e) && e@ == file_ext@),
{
    match ext {
        Some(e) => e == String::from_str(file_ext),
        None => false,
    }
}

/// Whether the path `p` has the extension `file_ext`.
pub fn is_file_with_ext(p: &str, file_ext: &str) -> (r: bool)
    ensures
        r == (extension_of(p@) == Some(file_ext@)),
{
    extension_matches(path_extension(p), file_ext)
}

/// Where the file at `relative` under the input root is written: the same
/// relative path under `output_folder`.
pub fn mirrored_path(output_folder: &str, relative: &str) -> (r: String)
    ensures
        r@ == output_folder@ + seq!['/'] + relative@,
{
    let mut r = String::from_str(output_folder);
    r.append("/");
    r.append(relative);
    proof {
        reveal_strlit("/");
    }
    r
}

/// Where the annotated copy of `file`, found under `source_folder`, is
/// written; nothing where `file` does not lie under `source_folder`.
pub fn output_path(source_folder: &str, file: &str, output_folder: &str) -> (r: Option<String>)
    ensures
        match path_without_root(file@, source_folder@) {
            Some(rel) => r matches Some(o) && o@ == output_folder@ + seq!['/'] + rel,
            None => r is None,
        },
{
    match strip_root(file, source_folder) {
        Some(rel) => Some(mirrored_path(output_folder, rel.as_str())),
        None => None,
    }
}

/// The source and output folders from the command line `args` (the
/// program's name first): the first two arguments, each defaulted where
/// it is missing.
pub fn folders(args: &Vec<String>) -> (r: (String, String))
    ensures
        r.0@ == if args@.len() >= 2 {
            args@[1]@
        } else {
            DEFAULT_SOURCE_FOLDER@
        },
        r.1@ == if args@.len() >= 3 {
            args@[2]@
        } else {
            DEFAULT_OUTPUT_FOLDER@
        },
{
    let source = if args.len() >= 2 {
        args[1].clone()
    } else {
        String::from_str(DEFAULT_SOURCE_FOLDER)
    };
    let output = if args.len() >= 3 {
        args[2].clone()
    } else {
        String::from_str(DEFAULT_OUTPUT_FOLDER)
    };
    (source, output)
}

} // verus!
