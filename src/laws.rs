use vstd::prelude::*;
use vstd::multiset::Multiset;
use crate::fixture::{
    is_source_path, origin_dir_spec, source_outcome, strip_dir_spec, source_ext, Origin,
};
use crate::manifest::{manifest_of, target_key, target_named, toml_entries, TomlField};
use crate::render::{
    file_section, files_text, header_mark, is_path_ordering, is_prelude_path, overview_text,
    prelude_placeholder, sorted_by_path, text_le, parts_le, path_le, path_parts, PathPart,
    Content,
};

verus! {

broadcast use vstd::seq_lib::group_to_multiset_ensures;

/// Each file is written with one content only: entries whose paths have the same
/// components, as `std::path::Path` compares them, are the same entry.
pub open spec fn one_content_per_path(files: Seq<(String, Content)>) -> bool {
    forall|i: int, j: int|
        0 <= i < files.len() && 0 <= j < files.len() && path_parts(#[trigger] files[i].0@)
            == path_parts(#[trigger] files[j].0@) ==> files[i] == files[j]
}

/// Entries of `m` whose paths have the same components are the same entry.
spec fn paths_identify(m: Multiset<(String, Content)>) -> bool {
    forall|x: (String, Content), y: (String, Content)|
        m.contains(x) && m.contains(y) && path_parts(x.0@) == path_parts(y.0@) ==> #[trigger] m.count(x)
            > 0 && x == y && #[trigger] m.count(y) > 0
}

proof fn lemma_text_le_antisymmetric(a: Seq<char>, b: Seq<char>)
    requires
        text_le(a, b),
        text_le(b, a),
    ensures
        a == b,
    decreases a.len(),
{
    if a.len() != 0 && b.len() != 0 && a[0] == b[0] {
        lemma_text_le_antisymmetric(a.drop_first(), b.drop_first());
        assert(a =~= seq![a[0]] + a.drop_first());
        assert(b =~= seq![b[0]] + b.drop_first());
    } else if a.len() == 0 && b.len() == 0 {
        assert(a =~= b);
    }
}

proof fn lemma_parts_le_antisymmetric(a: Seq<PathPart>, b: Seq<PathPart>)
    requires
        parts_le(a, b),
        parts_le(b, a),
    ensures
        a == b,
    decreases a.len(),
{
    if a.len() == 0 && b.len() == 0 {
        assert(a =~= b);
    } else if a.len() != 0 && b.len() != 0 {
        if a[0] != b[0] {
            if a[0].0 == b[0].0 {
                lemma_text_le_antisymmetric(a[0].1, b[0].1);
            }
        } else {
            lemma_parts_le_antisymmetric(a.drop_first(), b.drop_first());
            assert(a =~= seq![a[0]] + a.drop_first());
            assert(b =~= seq![b[0]] + b.drop_first());
        }
    }
}

proof fn lemma_sorted_ordering_unique(a: Seq<(String, Content)>, b: Seq<(String, Content)>)
    requires
        a.to_multiset() == b.to_multiset(),
        sorted_by_path(a),
        sorted_by_path(b),
        paths_identify(a.to_multiset()),
    ensures
        a == b,
    decreases a.len(),
{
    if a.len() == 0 {
        assert(a.to_multiset().len() == a.len());
        assert(b.to_multiset().len() == b.len());
        assert(a =~= b);
    } else {
        assert(a.to_multiset().len() == a.len());
        assert(b.to_multiset().len() == b.len());
        assert(a.to_multiset().count(a[0]) > 0);
        assert(b.contains(a[0]));
        let k = choose|k: int| 0 <= k < b.len() && b[k] == a[0];
        assert(b.to_multiset().count(b[0]) > 0);
        assert(a.contains(b[0]));
        let m = choose|m: int| 0 <= m < a.len() && a[m] == b[0];
        if k > 0 && m > 0 {
            assert(path_le(b[0].0@, b[k].0@));
            assert(path_le(a[0].0@, a[m].0@));
            lemma_parts_le_antisymmetric(path_parts(a[0].0@), path_parts(b[0].0@));
        }
        assert(a.to_multiset().contains(a[0]) && a.to_multiset().contains(b[0]));
        assert(a.to_multiset().count(a[0]) > 0 && a.to_multiset().count(b[0]) > 0);
        assert(a[0] == b[0]);
        let ra = a.drop_first();
        let rb = b.drop_first();
        assert(ra =~= a.remove(0));
        assert(rb =~= b.remove(0));
        assert(ra.to_multiset() =~= rb.to_multiset());
        assert forall|x: (String, Content), y: (String, Content)|
            ra.to_multiset().contains(x) && ra.to_multiset().contains(y) && path_parts(x.0@)
                == path_parts(y.0@) implies
            #[trigger] ra.to_multiset().count(x) > 0 && x == y && #[trigger] ra.to_multiset().count(y) > 0 by {
            assert(a.to_multiset().count(x) > 0 && a.to_multiset().count(y) > 0);
        }
        assert forall|i: int, j: int| 0 <= i < j < ra.len() implies path_le(
            #[trigger] ra[i].0@,
            #[trigger] ra[j].0@,
        ) by {
            assert(path_le(a[i + 1].0@, a[j + 1].0@));
        }
        assert forall|i: int, j: int| 0 <= i < j < rb.len() implies path_le(
            #[trigger] rb[i].0@,
            #[trigger] rb[j].0@,
        ) by {
            assert(path_le(b[i + 1].0@, b[j + 1].0@));
        }
        lemma_sorted_ordering_unique(ra, rb);
        assert(a =~= seq![a[0]] + ra);
        assert(b =~= seq![b[0]] + rb);
    }
}

/// The snapshot does not depend on the order in which the compiler wrote its
/// files: two runs that write the same entries, each path with one content, in any
/// order, render to the same text. In particular rendering one outcome twice gives
/// the same text.
pub proof fn lemma_write_order_irrelevant(
    written1: Seq<(String, Content)>,
    written2: Seq<(String, Content)>,
    sorted1: Seq<(String, Content)>,
    sorted2: Seq<(String, Content)>,
    warnings: Seq<String>,
)
    requires
        written1.to_multiset() == written2.to_multiset(),
        one_content_per_path(written1),
        is_path_ordering(sorted1, written1),
        is_path_ordering(sorted2, written2),
    ensures
        sorted1 == sorted2,
        overview_text(sorted1, warnings) == overview_text(sorted2, warnings),
{
    let m = sorted1.to_multiset();
    assert forall|x: (String, Content), y: (String, Content)|
        m.contains(x) && m.contains(y) && path_parts(x.0@) == path_parts(y.0@) implies #[trigger] m.count(x) > 0 && x == y
        && #[trigger] m.count(y) > 0 by {
        assert(written1.to_multiset().count(x) > 0);
        assert(written1.to_multiset().count(y) > 0);
        assert(written1.contains(x));
        assert(written1.contains(y));
        let i = choose|i: int| 0 <= i < written1.len() && written1[i] == x;
        let j = choose|j: int| 0 <= j < written1.len() && written1[j] == y;
        assert(path_parts(written1[i].0@) == path_parts(written1[j].0@));
    }
    lemma_sorted_ordering_unique(sorted1, sorted2);
}

/// A prelude file is shown as the placeholder whatever the compiler put in it.
pub proof fn lemma_prelude_hidden(path: Seq<char>, content1: Content, content2: Content)
    requires
        is_prelude_path(path),
    ensures
        file_section(path, content1) == file_section(path, content2),
        file_section(path, content1) == header_mark() + path + seq!['\n'] + prelude_placeholder()
            + seq!['\n', '\n'],
{
}

/// A manifest whose target names no supported target is refused.
pub proof fn lemma_unsupported_target_refused(doc: toml::Value, name: String)
    requires
        toml_entries(doc).contains_key(target_key()),
        toml_entries(doc)[target_key()] == TomlField::Text(name),
        target_named(name@) is None,
    ensures
        manifest_of(doc) is Err,
{
}

proof fn lemma_prelude_files_text(files1: Seq<(String, Content)>, files2: Seq<(String, Content)>)
    requires
        files1.len() == files2.len(),
        forall|i: int| 0 <= i < files1.len() ==> #[trigger] files1[i].0 == files2[i].0,
        forall|i: int|
            0 <= i < files1.len() && !is_prelude_path(#[trigger] files1[i].0@) ==> files1[i].1
                == files2[i].1,
    ensures
        files_text(files1) == files_text(files2),
    decreases files1.len(),
{
    if files1.len() > 0 {
        let n = files1.len() - 1;
        assert(files1[n].0 == files2[n].0);
        lemma_prelude_files_text(files1.drop_last(), files2.drop_last());
        if is_prelude_path(files1[n].0@) {
            lemma_prelude_hidden(files1[n].0@, files1[n].1, files2[n].1);
        }
    }
}

/// Prelude files never change the snapshot: two file lists that agree on every
/// path, and on every content but those of prelude files, render alike.
pub proof fn lemma_prelude_content_irrelevant(
    files1: Seq<(String, Content)>,
    files2: Seq<(String, Content)>,
    warnings: Seq<String>,
)
    requires
        files1.len() == files2.len(),
        forall|i: int| 0 <= i < files1.len() ==> #[trigger] files1[i].0 == files2[i].0,
        forall|i: int|
            0 <= i < files1.len() && !is_prelude_path(#[trigger] files1[i].0@) ==> files1[i].1
                == files2[i].1,
    ensures
        overview_text(files1, warnings) == overview_text(files2, warnings),
{
    lemma_prelude_files_text(files1, files2);
}

proof fn lemma_files_text_concat(a: Seq<(String, Content)>, b: Seq<(String, Content)>)
    ensures
        files_text(a + b) == files_text(a) + files_text(b),
    decreases b.len(),
{
    if b.len() == 0 {
        assert(a + b =~= a);
        assert(files_text(b) =~= Seq::<char>::empty());
        assert(files_text(a) + files_text(b) =~= files_text(a));
    } else {
        lemma_files_text_concat(a, b.drop_last());
        assert((a + b).drop_last() =~= a + b.drop_last());
        assert((a + b).last() == b.last());
        let sec = file_section(b.last().0@, b.last().1);
        assert(files_text(a) + files_text(b.drop_last()) + sec =~= files_text(a) + (files_text(
            b.drop_last(),
        ) + sec));
    }
}

/// Every file that the compiler wrote has its section in the snapshot, between the
/// sections of the files ordered before it and those ordered after it.
pub proof fn lemma_every_file_shown(
    written: Seq<(String, Content)>,
    sorted: Seq<(String, Content)>,
    i: int,
)
    requires
        is_path_ordering(sorted, written),
        0 <= i < written.len(),
    ensures
        exists|j: int|
            0 <= j < sorted.len() && sorted[j] == written[i] && files_text(sorted) == files_text(
                sorted.subrange(0, j),
            ) + file_section(written[i].0@, written[i].1) + files_text(
                sorted.subrange(j + 1, sorted.len() as int),
            ),
{
    assert(written.contains(written[i]));
    assert(written.to_multiset().count(written[i]) > 0);
    assert(sorted.contains(written[i]));
    let j = choose|j: int| 0 <= j < sorted.len() && sorted[j] == written[i];
    let front = sorted.subrange(0, j);
    let back = sorted.subrange(j + 1, sorted.len() as int);
    assert(sorted =~= front.push(sorted[j]) + back);
    lemma_files_text_concat(front.push(sorted[j]), back);
    assert(front.push(sorted[j]).drop_last() =~= front);
}

/// A file that the walk found below an origin's directory and that carries the
/// source extension always makes a source record: loading never fails on it.
pub proof fn lemma_listed_source_loads(root: Seq<char>, origin: Origin, below: Seq<char>)
    requires
        is_source_path(root + seq!['/'] + origin_dir_spec(origin) + seq!['/'] + below),
    ensures
        source_outcome(root, root + seq!['/'] + origin_dir_spec(origin) + seq!['/'] + below, origin)
            is Ok,
{
    let dir = origin_dir_spec(origin);
    let rel = dir + seq!['/'] + below;
    let file = root + seq!['/'] + rel;
    assert(root + seq!['/'] + dir + seq!['/'] + below =~= file);
    assert(file.subrange(0, root.len() as int) =~= root);
    assert(file.subrange(root.len() as int + 1, file.len() as int) =~= rel);
    assert(strip_dir_spec(root, file) == Some(rel));
    assert(rel.subrange(0, dir.len() as int) =~= dir);
    assert(strip_dir_spec(dir, rel) is Some);
    let ext = source_ext();
    assert(below.len() >= ext.len()) by {
        if below.len() < ext.len() {
            let k = ext.len() - below.len() - 1;
            assert(file[file.len() - ext.len() + k] == file.subrange(
                file.len() - ext.len(),
                file.len() as int,
            )[k]);
            assert(file[file.len() - ext.len() + k] == '/');
        }
    }
    assert(rel.len() > ext.len()) by {
        if below.len() == ext.len() {
            assert(file[file.len() - ext.len() - 1] == '/');
        }
    }
    assert(rel.subrange(rel.len() - ext.len(), rel.len() as int) =~= file.subrange(
        file.len() - ext.len(),
        file.len() as int,
    ));
    assert(rel[rel.len() - ext.len() - 1] == file[file.len() - ext.len() - 1]);
    assert(file == root + seq!['/'] + origin_dir_spec(origin) + seq!['/'] + below);
}

} // verus!
