use vstd::prelude::*;
use itertools::Itertools;
use crate::text::{push_text, push_char, chars_of};

verus! {

/// What the compiler wrote under one path: text, or raw bytes.
#[derive(Debug)]
pub enum Content {
    Text(String),
    Binary(Vec<u8>),
}

/// The decimal digits of a number.
pub open spec fn decimal(n: nat) -> Seq<char>
    decreases n,
{
    let digit = (('0' as u32) + (n % 10) as u32) as char;
    if n < 10 {
        seq![digit]
    } else {
        decimal(n / 10).push(digit)
    }
}

/// One line for each byte: four spaces, its decimal digits and a comma.
pub open spec fn byte_lines(b: Seq<u8>) -> Seq<char>
    decreases b.len(),
{
    if b.len() == 0 {
        Seq::empty()
    } else {
        byte_lines(b.drop_last()) + seq![' ', ' ', ' ', ' '] + decimal(b.last() as nat) + seq![',', '\n']
    }
}

/// How the standard library's pretty `Debug` output (`{:#?}`) renders a byte vector.
pub open spec fn pretty_debug_bytes(b: Seq<u8>) -> Seq<char> {
    if b.len() == 0 {
        seq!['[', ']']
    } else {
        seq!['[', '\n'] + byte_lines(b) + seq![']']
    }
}

/// Relies on `format!("{:#?}", ..)` on a `Vec<u8>`: `[]` when empty, else one
/// indented line per byte between brackets.
#[verifier::external_body]
fn debug_bytes(data: &Vec<u8>) -> (r: String)
    ensures
        r@ == pretty_debug_bytes(data@),
{
    format!("{:#?}", data)
}

/// `a` comes no later than `b` in the order of `str`: by code points, a prefix
/// first.
pub open spec fn text_le(a: Seq<char>, b: Seq<char>) -> bool
    decreases a.len(),
{
    if a.len() == 0 {
        true
    } else if b.len() == 0 {
        false
    } else if a[0] != b[0] {
        (a[0] as u32) < (b[0] as u32)
    } else {
        text_le(a.drop_first(), b.drop_first())
    }
}

/// The pieces of a path between its separators, empty ones included.
pub open spec fn split_on_slash(p: Seq<char>) -> Seq<Seq<char>>
    decreases p.len(),
{
    if p.len() == 0 {
        seq![Seq::empty()]
    } else {
        let rest = split_on_slash(p.drop_last());
        if p.last() == '/' {
            rest.push(Seq::empty())
        } else {
            rest.update(rest.len() - 1, rest.last().push(p.last()))
        }
    }
}

/// A component of a path, as a rank in the order of `std::path::Component` (root
/// 1, current directory 2, parent directory 3, a name 4) and, for a name, its text.
pub type PathPart = (nat, Seq<char>);

/// Empty pieces and `.` pieces past the start name no component.
pub open spec fn names_part(piece: Seq<char>) -> bool {
    piece.len() > 0 && piece != seq!['.']
}

pub open spec fn part_of_piece(piece: Seq<char>) -> PathPart {
    if piece == seq!['.', '.'] {
        (3, Seq::empty())
    } else {
        (4, piece)
    }
}

/// The components of a path as `std::path::Path::components` gives them on Unix.
pub open spec fn path_parts(p: Seq<char>) -> Seq<PathPart> {
    let pieces = split_on_slash(p);
    let body = pieces.filter(|piece: Seq<char>| names_part(piece)).map_values(
        |piece: Seq<char>| part_of_piece(piece),
    );
    if p.len() > 0 && p[0] == '/' {
        seq![(1nat, Seq::<char>::empty())] + body
    } else if pieces[0] == seq!['.'] {
        seq![(2nat, Seq::<char>::empty())] + body
    } else {
        body
    }
}

/// `a` comes before `b` in the derived order of `Component`.
pub open spec fn part_lt(a: PathPart, b: PathPart) -> bool {
    a.0 < b.0 || (a.0 == b.0 && text_le(a.1, b.1) && a.1 != b.1)
}

/// Component sequences in lexicographic order, a prefix first.
pub open spec fn parts_le(a: Seq<PathPart>, b: Seq<PathPart>) -> bool
    decreases a.len(),
{
    if a.len() == 0 {
        true
    } else if b.len() == 0 {
        false
    } else if a[0] != b[0] {
        part_lt(a[0], b[0])
    } else {
        parts_le(a.drop_first(), b.drop_first())
    }
}

/// `a` comes no later than `b` in the order of `std::path::Path`, which compares
/// the components in turn.
pub open spec fn path_le(a: Seq<char>, b: Seq<char>) -> bool {
    parts_le(path_parts(a), path_parts(b))
}

/// The entries are in ascending order of path.
pub open spec fn sorted_by_path(files: Seq<(String, Content)>) -> bool {
    forall|i: int, j: int| 0 <= i < j < files.len() ==> path_le(#[trigger] files[i].0@, #[trigger] files[j].0@)
}

/// `sorted` holds the entries of `files`, each as often, in ascending order of path.
pub open spec fn is_path_ordering(sorted: Seq<(String, Content)>, files: Seq<(String, Content)>) -> bool {
    &&& sorted.to_multiset() == files.to_multiset()
    &&& sorted_by_path(sorted)
}

/// Relies on itertools' `sorted_by`, which collects the items and sorts them with
/// the slice's `sort_by`, here by `std::path::Path`'s order: the same entries, in
/// ascending order of path.
#[verifier::external_body]
fn sort_by_path(files: Vec<(String, Content)>) -> (r: Vec<(String, Content)>)
    ensures
        is_path_ordering(r@, files@),
{
    files.into_iter().sorted_by(|a, b| std::path::Path::new(&a.0).cmp(std::path::Path::new(&b.0))).collect()
}

/// `p` is `name`, or ends in a path separator followed by `name`.
pub open spec fn has_file_name(p: Seq<char>, name: Seq<char>) -> bool {
    ||| p == name
    ||| (p.len() > name.len() && p.subrange(p.len() - name.len(), p.len() as int) == name
        && p[p.len() - name.len() - 1] == '/')
}

pub open spec fn js_prelude_name() -> Seq<char> {
    seq!['g', 'l', 'e', 'a', 'm', '.', 'm', 'j', 's']
}

pub open spec fn ts_prelude_name() -> Seq<char> {
    seq!['g', 'l', 'e', 'a', 'm', '.', 'd', '.', 't', 's']
}

/// The generated runtime-support files, whose text the snapshot leaves out.
pub open spec fn is_prelude_path(p: Seq<char>) -> bool {
    has_file_name(p, js_prelude_name()) || has_file_name(p, ts_prelude_name())
}

pub open spec fn prelude_placeholder() -> Seq<char> {
    seq!['<', 'p', 'r', 'e', 'l', 'u', 'd', 'e', '>']
}

pub open spec fn header_mark() -> Seq<char> {
    seq!['/', '/', '/', '/', ' ']
}

pub open spec fn warning_header() -> Seq<char> {
    header_mark() + seq!['W', 'a', 'r', 'n', 'i', 'n', 'g', '\n']
}

/// What the snapshot shows as the content of one file.
pub open spec fn shown_content(path: Seq<char>, content: Content) -> Seq<char> {
    if is_prelude_path(path) {
        prelude_placeholder()
    } else {
        match content {
            Content::Text(t) => t@,
            Content::Binary(b) => pretty_debug_bytes(b@),
        }
    }
}

/// The section of the snapshot for one file.
pub open spec fn file_section(path: Seq<char>, content: Content) -> Seq<char> {
    header_mark() + path + seq!['\n'] + shown_content(path, content) + seq!['\n', '\n']
}

/// The section of the snapshot for one warning, given its debug rendering.
pub open spec fn warning_section(w: Seq<char>) -> Seq<char> {
    warning_header() + w + seq!['\n', '\n']
}

pub open spec fn files_text(files: Seq<(String, Content)>) -> Seq<char>
    decreases files.len(),
{
    if files.len() == 0 {
        Seq::empty()
    } else {
        files_text(files.drop_last()) + file_section(files.last().0@, files.last().1)
    }
}

pub open spec fn warnings_text(warnings: Seq<String>) -> Seq<char>
    decreases warnings.len(),
{
    if warnings.len() == 0 {
        Seq::empty()
    } else {
        warnings_text(warnings.drop_last()) + warning_section(warnings.last()@)
    }
}

/// The snapshot of a successful compilation: the files in the order given, then
/// the warnings.
pub open spec fn overview_text(files: Seq<(String, Content)>, warnings: Seq<String>) -> Seq<char> {
    files_text(files) + warnings_text(warnings)
}

fn has_file_name_chars(p: &Vec<char>, name: &[char]) -> (r: bool)
    ensures
        r == has_file_name(p@, name@),
{
    let n = name.len();
    if p.len() < n {
        return false;
    }
    let base = p.len() - n;
    let mut i: usize = 0;
    while i < n
        invariant
            base + n == p@.len(),
            p@.len() <= usize::MAX,
            n == name@.len(),
            i <= n,
            forall|j: int| 0 <= j < i ==> p@[base + j] == name@[j],
        decreases n - i,
    {
        if p[base + i] != name[i] {
            assert(p@.subrange(base as int, p@.len() as int)[i as int] != name@[i as int]);
            return false;
        }
        i = i + 1;
    }
    assert(p@.subrange(base as int, p@.len() as int) =~= name@);
    if base == 0 {
        assert(p@ =~= name@);
        true
    } else {
        p[base - 1] == '/'
    }
}

/// Whether the snapshot shows a placeholder in place of the file under `path`.
pub fn is_prelude(path: &str) -> (r: bool)
    ensures
        r == is_prelude_path(path@),
{
    let p = chars_of(path);
    let js = ['g', 'l', 'e', 'a', 'm', '.', 'm', 'j', 's'];
    let ts = ['g', 'l', 'e', 'a', 'm', '.', 'd', '.', 't', 's'];
    assert(js@ == js_prelude_name());
    assert(ts@ == ts_prelude_name());
    has_file_name_chars(&p, &js) || has_file_name_chars(&p, &ts)
}

fn push_chars(buf: &mut String, cs: &[char])
    ensures
        final(buf)@ == old(buf)@ + cs@,
{
    let mut i: usize = 0;
    while i < cs.len()
        invariant
            i <= cs@.len(),
            buf@ == old(buf)@ + cs@.subrange(0, i as int),
        decreases cs@.len() - i,
    {
        push_char(buf, cs[i]);
        i = i + 1;
        assert(buf@ =~= old(buf)@ + cs@.subrange(0, i as int));
    }
    assert(cs@.subrange(0, cs@.len() as int) =~= cs@);
}

fn push_file_section(buf: &mut String, path: &String, content: &Content)
    ensures
        final(buf)@ == old(buf)@ + file_section(path@, *content),
{
    let mark = ['/', '/', '/', '/', ' '];
    assert(mark@ == header_mark());
    push_chars(buf, &mark);
    push_text(buf, path.as_str());
    push_char(buf, '\n');
    if is_prelude(path.as_str()) {
        let placeholder = ['<', 'p', 'r', 'e', 'l', 'u', 'd', 'e', '>'];
        assert(placeholder@ == prelude_placeholder());
        push_chars(buf, &placeholder);
    } else {
        match content {
            Content::Text(text) => push_text(buf, text.as_str()),
            Content::Binary(data) => {
                let shown = debug_bytes(data);
                push_text(buf, shown.as_str());
            },
        }
    }
    push_char(buf, '\n');
    push_char(buf, '\n');
    assert(buf@ =~= old(buf)@ + file_section(path@, *content));
}

fn push_warning_section(buf: &mut String, warning: &String)
    ensures
        final(buf)@ == old(buf)@ + warning_section(warning@),
{
    let head = ['/', '/', '/', '/', ' ', 'W', 'a', 'r', 'n', 'i', 'n', 'g', '\n'];
    assert(head@ =~= warning_header());
    push_chars(buf, &head);
    push_text(buf, warning.as_str());
    push_char(buf, '\n');
    push_char(buf, '\n');
    assert(buf@ =~= old(buf)@ + warning_section(warning@));
}

/// The files and warnings of a successful compilation, ready to be rendered.
#[derive(Debug)]
pub struct TestCompileOutput {
    files: Vec<(String, Content)>,
    warnings: Vec<String>,
}

impl TestCompileOutput {
    /// The files, in the order in which they are rendered.
    pub closed spec fn files(&self) -> Seq<(String, Content)> {
        self.files@
    }

    /// The debug renderings of the warnings, in the order in which they came.
    pub closed spec fn warnings(&self) -> Seq<String> {
        self.warnings@
    }

    /// Gathers what a compilation wrote, whatever the order the writes came in, and
    /// its warnings in the order they were emitted.
    pub fn new(files: Vec<(String, Content)>, warnings: Vec<String>) -> (r: Self)
        ensures
            is_path_ordering(r.files(), files@),
            r.warnings() == warnings@,
    {
        TestCompileOutput { files: sort_by_path(files), warnings }
    }

    /// The snapshot text: each file under a header line, in ascending order of
    /// path, then each warning.
    pub fn as_overview_text(&self) -> (r: String)
        ensures
            r@ == overview_text(self.files(), self.warnings()),
    {
        let mut buffer = String::new();
        let mut i: usize = 0;
        while i < self.files.len()
            invariant
                i <= self.files@.len(),
                buffer@ == files_text(self.files@.subrange(0, i as int)),
            decreases self.files@.len() - i,
        {
            push_file_section(&mut buffer, &self.files[i].0, &self.files[i].1);
            i = i + 1;
            assert(self.files@.subrange(0, i as int).drop_last() =~= self.files@.subrange(0, i - 1));
        }
        assert(self.files@.subrange(0, i as int) =~= self.files@);
        let mut k: usize = 0;
        while k < self.warnings.len()
            invariant
                i == self.files@.len(),
                k <= self.warnings@.len(),
                buffer@ == files_text(self.files@) + warnings_text(self.warnings@.subrange(0, k as int)),
            decreases self.warnings@.len() - k,
        {
            push_warning_section(&mut buffer, &self.warnings[k]);
            k = k + 1;
            assert(self.warnings@.subrange(0, k as int).drop_last() =~= self.warnings@.subrange(0, k - 1));
            assert(buffer@ =~= files_text(self.files@) + warnings_text(self.warnings@.subrange(0, k as int)));
        }
        assert(self.warnings@.subrange(0, k as int) =~= self.warnings@);
        buffer
    }
}

} // verus!
