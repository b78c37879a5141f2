use vstd::prelude::*;
use crate::text::{chars_of, string_of};

verus! {

/// Whether a source file belongs to the package's library code or to its tests.
#[derive(Clone, Copy, Debug, PartialEq, Eq, Structural)]
pub enum Origin {
    Src,
    Test,
}

/// One source file of a package, as handed to the compiler.
#[derive(Debug)]
pub struct Source {
    pub code: String,
    pub origin: Origin,
    pub path: String,
    pub name: String,
}

/// Why a file of a fixture cannot be turned into a source record.
#[derive(Clone, Copy, Debug, PartialEq, Eq, Structural)]
pub enum FixtureError {
    /// The file does not lie below the package root.
    OutsideRoot,
    /// The file does not lie below the directory of its origin.
    OutsideOrigin,
    /// The file does not carry the source extension.
    NotSource,
}

/// The directory, relative to the package root, that holds sources of an origin.
pub open spec fn origin_dir_spec(origin: Origin) -> Seq<char> {
    match origin {
        Origin::Src => seq!['s', 'r', 'c'],
        Origin::Test => seq!['t', 'e', 's', 't'],
    }
}

/// The extension of source files, with its dot.
pub open spec fn source_ext() -> Seq<char> {
    seq!['.', 'g', 'l', 'e', 'a', 'm']
}

/// A path names a source file when its file name is a non-empty stem followed by
/// the source extension.
pub open spec fn is_source_path(p: Seq<char>) -> bool {
    &&& p.len() > source_ext().len()
    &&& p.subrange(p.len() - source_ext().len(), p.len() as int) == source_ext()
    &&& p[p.len() - source_ext().len() - 1] != '/'
}

/// The part of `p` below the directory `dir`, if `p` lies below it.
pub open spec fn strip_dir_spec(dir: Seq<char>, p: Seq<char>) -> Option<Seq<char>> {
    if p.len() > dir.len() && p.subrange(0, dir.len() as int) == dir && p[dir.len() as int] == '/' {
        Some(p.subrange(dir.len() as int + 1, p.len() as int))
    } else {
        None
    }
}

/// The module name of a source path relative to the package root: the origin's
/// directory and the extension taken off.
pub open spec fn module_name_spec(origin: Origin, rel: Seq<char>) -> Seq<char> {
    let below = strip_dir_spec(origin_dir_spec(origin), rel)->0;
    below.subrange(0, below.len() - source_ext().len())
}

/// The root-relative paths that make up the source set of an origin, from the list
/// of files below its directory.
pub open spec fn selected_paths(subtree_exists: bool, listing: Seq<String>) -> Seq<String> {
    if subtree_exists {
        listing.filter(|s: String| is_source_path(s@))
    } else {
        Seq::empty()
    }
}

/// What `source_from_file` makes of a file: the error, or the relative path and
/// module name of the record.
pub open spec fn source_outcome(root: Seq<char>, file: Seq<char>, origin: Origin) -> Result<
    (Seq<char>, Seq<char>),
    FixtureError,
> {
    match strip_dir_spec(root, file) {
        None => Err(FixtureError::OutsideRoot),
        Some(rel) => if strip_dir_spec(origin_dir_spec(origin), rel) is None {
            Err(FixtureError::OutsideOrigin)
        } else if !is_source_path(rel) {
            Err(FixtureError::NotSource)
        } else {
            Ok((rel, module_name_spec(origin, rel)))
        },
    }
}

/// The directory name of an origin's sources.
pub fn origin_dir(origin: Origin) -> (r: String)
    ensures
        r@ == origin_dir_spec(origin),
{
    match origin {
        Origin::Src => {
            let r = string_of(&['s', 'r', 'c']);
            assert(r@ == origin_dir_spec(origin));
            r
        },
        Origin::Test => {
            let r = string_of(&['t', 'e', 's', 't']);
            assert(r@ == origin_dir_spec(origin));
            r
        },
    }
}

fn ends_with_source_ext(p: &Vec<char>) -> (r: bool)
    ensures
        r == (p@.len() >= source_ext().len() && p@.subrange(
            p@.len() - source_ext().len(),
            p@.len() as int,
        ) == source_ext()),
{
    let ext: [char; 6] = ['.', 'g', 'l', 'e', 'a', 'm'];
    assert(ext@ == source_ext());
    if p.len() < 6 {
        return false;
    }
    let base = p.len() - 6;
    let mut i: usize = 0;
    while i < 6
        invariant
            base + 6 == p@.len(),
            p@.len() <= usize::MAX,
            i <= 6,
            ext@ == source_ext(),
            forall|j: int| 0 <= j < i ==> p@[base + j] == ext@[j],
        decreases 6 - i,
    {
        assert(base + i < p@.len());
        if p[base + i] != ext[i] {
            assert(p@.subrange(base as int, p@.len() as int)[i as int] != source_ext()[i as int]);
            return false;
        }
        i = i + 1;
    }
    assert(p@.subrange(base as int, p@.len() as int) =~= source_ext());
    true
}

fn is_source_chars(p: &Vec<char>) -> (r: bool)
    ensures
        r == is_source_path(p@),
{
    if p.len() <= 6 {
        return false;
    }
    ends_with_source_ext(p) && p[p.len() - 7] != '/'
}

/// Whether a path names a source file.
pub fn is_source_file(path: &str) -> (r: bool)
    ensures
        r == is_source_path(path@),
{
    let p = chars_of(path);
    is_source_chars(&p)
}

fn strip_dir_chars(dir: &Vec<char>, p: &Vec<char>) -> (r: Option<Vec<char>>)
    ensures
        match r {
            Some(v) => strip_dir_spec(dir@, p@) == Some(v@),
            None => strip_dir_spec(dir@, p@) is None,
        },
{
    if p.len() <= dir.len() {
        return None;
    }
    let mut i: usize = 0;
    while i < dir.len()
        invariant
            dir@.len() < p@.len(),
            i <= dir@.len(),
            forall|j: int| 0 <= j < i ==> p@[j] == dir@[j],
        decreases dir@.len() - i,
    {
        if p[i] != dir[i] {
            assert(p@.subrange(0, dir@.len() as int)[i as int] != dir@[i as int]);
            return None;
        }
        i = i + 1;
    }
    assert(p@.subrange(0, dir@.len() as int) =~= dir@);
    if p[dir.len()] != '/' {
        return None;
    }
    let mut out: Vec<char> = Vec::new();
    let mut k: usize = dir.len() + 1;
    while k < p.len()
        invariant
            dir@.len() + 1 <= k <= p@.len(),
            out@ == p@.subrange(dir@.len() as int + 1, k as int),
        decreases p@.len() - k,
    {
        out.push(p[k]);
        k = k + 1;
        assert(out@ =~= p@.subrange(dir@.len() as int + 1, k as int));
    }
    Some(out)
}

/// The part of `path` below the directory `dir`, if `path` lies below it.
pub fn strip_dir(dir: &str, path: &str) -> (r: Option<String>)
    ensures
        match r {
            Some(s) => strip_dir_spec(dir@, path@) == Some(s@),
            None => strip_dir_spec(dir@, path@) is None,
        },
{
    let d = chars_of(dir);
    let p = chars_of(path);
    match strip_dir_chars(&d, &p) {
        Some(v) => Some(string_of(v.as_slice())),
        None => None,
    }
}

/// The files of a listing to be read as sources of one origin. Where the origin's
/// directory does not exist there are none: an absent test tree is no error.
pub fn source_files(subtree_exists: bool, listing: &Vec<String>) -> (r: Vec<String>)
    ensures
        r@ == selected_paths(subtree_exists, listing@),
        !subtree_exists ==> r@.len() == 0,
{
    let mut out: Vec<String> = Vec::new();
    if !subtree_exists {
        return out;
    }
    let mut i: usize = 0;
    while i < listing.len()
        invariant
            i <= listing@.len(),
            out@ == listing@.subrange(0, i as int).filter(|s: String| is_source_path(s@)),
        decreases listing@.len() - i,
    {
        let keep = is_source_file(listing[i].as_str());
        let ghost pred = |s: String| is_source_path(s@);
        proof {
            reveal(Seq::filter);
            let next = listing@.subrange(0, i + 1);
            assert(next.drop_last() =~= listing@.subrange(0, i as int));
            assert(next.last() == listing@[i as int]);
            assert(next.filter(pred) == if pred(next.last()) {
                next.drop_last().filter(pred).push(next.last())
            } else {
                next.drop_last().filter(pred)
            });
        }
        if keep {
            let item = listing[i].clone();
            out.push(item);
        }
        i = i + 1;
    }
    assert(listing@.subrange(0, listing@.len() as int) =~= listing@);
    out
}

/// The source record of a file of the fixture, given the package root, the file's
/// path and its text.
pub fn source_from_file(root: &str, file: &str, origin: Origin, code: String) -> (r: Result<
    Source,
    FixtureError,
>)
    ensures
        match source_outcome(root@, file@, origin) {
            Ok((rel, name)) => r matches Ok(s) && s.path@ == rel && s.name@ == name && s.code
                == code && s.origin == origin,
            Err(e) => r == Err::<Source, FixtureError>(e),
        },
{
    let root_chars = chars_of(root);
    let file_chars = chars_of(file);
    let rel = match strip_dir_chars(&root_chars, &file_chars) {
        Some(v) => v,
        None => return Err(FixtureError::OutsideRoot),
    };
    let dir = origin_dir(origin);
    let dir_chars = chars_of(dir.as_str());
    let below = match strip_dir_chars(&dir_chars, &rel) {
        Some(v) => v,
        None => return Err(FixtureError::OutsideOrigin),
    };
    if !is_source_chars(&rel) {
        return Err(FixtureError::NotSource);
    }
    let stem = &below.as_slice()[0..below.len() - 6];
    Ok(Source { code, origin, path: string_of(rel.as_slice()), name: string_of(stem) })
}

} // verus!
