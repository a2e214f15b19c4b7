//! Packing a project: its media are copied into one folder beside it, and its
//! cues are pointed there.

use vstd::prelude::*;

use crate::path::FilePath;
use crate::show::{Cue, CueKind, ShowView};
use crate::state::{SharedState, StateView};
use crate::text::{
    chars_of, decimal, has_char, join, lemma_decimal_value, lemma_join_apart, lemma_join_first,
    push_decimal, same, text_of, text_opt, texts,
};

verus! {

/// The file a cue refers to: its media, or the font of a text.
pub open spec fn file_of(kind: CueKind) -> Option<Seq<char>> {
    match kind {
        CueKind::Sound { path, .. } => Some(path@),
        CueKind::Video { path, .. } => Some(path@),
        CueKind::Image { path, .. } => Some(path@),
        CueKind::PixelMap { path } => Some(path@),
        CueKind::Text { font, .. } => Some(font@),
        _ => None,
    }
}

/// The files that the first `n` cues refer to, each once, in order.
pub open spec fn files_of(cues: Seq<Cue>, n: int) -> Seq<Seq<char>>
    decreases n,
{
    if n <= 0 {
        Seq::empty()
    } else {
        let before = files_of(cues, n - 1);
        match file_of(cues[n - 1].kind) {
            Some(f) if f.len() > 0 && !before.contains(f) => before.push(f),
            _ => before,
        }
    }
}

fn cue_file(kind: &CueKind) -> (r: Option<&String>)
    ensures
        r is Some == (file_of(*kind) is Some),
        r matches Some(f) ==> f@ == file_of(*kind)->0,
{
    match kind {
        CueKind::Sound { path, .. } => Some(path),
        CueKind::Video { path, .. } => Some(path),
        CueKind::Image { path, .. } => Some(path),
        CueKind::PixelMap { path } => Some(path),
        CueKind::Text { font, .. } => Some(font),
        _ => None,
    }
}

fn holds_text(v: &Vec<String>, t: &str) -> (b: bool)
    ensures
        b == texts(v@).contains(t@),
{
    let mut i: usize = 0;
    while i < v.len()
        invariant
            i <= v@.len(),
            forall|j: int| 0 <= j < i ==> texts(v@)[j] != t@,
        decreases v@.len() - i,
    {
        assert(texts(v@)[i as int] == v@[i as int]@);
        if same(v[i].as_str(), t) {
            return true;
        }
        i = i + 1;
    }
    false
}

/// The files that the cues refer to, each once.
pub fn referenced_files(cues: &Vec<Cue>) -> (r: Vec<String>)
    ensures
        texts(r@) == files_of(cues@, cues@.len() as int),
{
    let mut r: Vec<String> = Vec::new();
    let mut i: usize = 0;
    assert(texts(r@) =~= files_of(cues@, 0));
    while i < cues.len()
        invariant
            i <= cues@.len(),
            texts(r@) == files_of(cues@, i as int),
        decreases cues@.len() - i,
    {
        if let Some(f) = cue_file(&cues[i].kind) {
            if !f.as_str().is_empty() && !holds_text(&r, f.as_str()) {
                let ghost before = r@;
                r.push(f.as_str().to_owned());
                assert(texts(r@) =~= texts(before).push(f@));
            }
        }
        i = i + 1;
    }
    r
}

proof fn lemma_files_distinct(cues: Seq<Cue>, n: int)
    requires
        0 <= n <= cues.len(),
    ensures
        forall|i: int, j: int|
            0 <= i < j < files_of(cues, n).len() ==> #[trigger] files_of(cues, n)[i]
                != #[trigger] files_of(cues, n)[j],
        forall|k: int|
            0 <= k < n && file_of((#[trigger] cues[k]).kind) is Some && file_of(
                cues[k].kind,
            )->0.len() > 0 ==> files_of(cues, n).contains(file_of(cues[k].kind)->0),
    decreases n,
{
    if n > 0 {
        lemma_files_distinct(cues, n - 1);
        let before = files_of(cues, n - 1);
        let after = files_of(cues, n);
        assert forall|i: int, j: int| 0 <= i < j < after.len() implies #[trigger] after[i]
            != #[trigger] after[j] by {
            if j == before.len() {
                assert(before[i] == after[i]);
                assert(before.contains(before[i]));
            } else {
                assert(before[i] == after[i] && before[j] == after[j]);
            }
        }
        assert forall|k: int|
            0 <= k < n && file_of((#[trigger] cues[k]).kind) is Some && file_of(
                cues[k].kind,
            )->0.len() > 0 implies after.contains(file_of(cues[k].kind)->0) by {
            let f = file_of(cues[k].kind)->0;
            if k < n - 1 {
                let x = choose|x: int| 0 <= x < before.len() && before[x] == f;
                assert(after[x] == f);
            } else if before.contains(f) {
            } else {
                assert(after[before.len() as int] == f);
            }
        }
    }
}

/// Every file that a cue refers to is packed, and each of them once.
pub proof fn every_file_is_packed_once(cues: Seq<Cue>)
    ensures
        forall|i: int, j: int|
            0 <= i < j < files_of(cues, cues.len() as int).len() ==> #[trigger] files_of(
                cues,
                cues.len() as int,
            )[i] != #[trigger] files_of(cues, cues.len() as int)[j],
        forall|k: int|
            0 <= k < cues.len() && file_of((#[trigger] cues[k]).kind) is Some && file_of(
                cues[k].kind,
            )->0.len() > 0 ==> files_of(cues, cues.len() as int).contains(
                file_of(cues[k].kind)->0,
            ),
{
    lemma_files_distinct(cues, cues.len() as int);
}

/// A file to pack: how the cues write it, the parts of its full path, how many
/// of them are the root that it hangs on, the name it has there, which is empty
/// where it has none, and the name it is told apart by.
pub struct MediaFile {
    pub original: String,
    pub parts: Vec<String>,
    pub root: usize,
    pub leaf: String,
    pub name: String,
}

#[verifier::ext_equal]
pub struct MediaView {
    pub parts: Seq<Seq<char>>,
    pub root: nat,
    pub leaf: Seq<char>,
    pub name: Seq<char>,
}

pub open spec fn media_view(m: MediaFile) -> MediaView {
    MediaView { parts: texts(m.parts@), root: m.root as nat, leaf: m.leaf@, name: m.name@ }
}

pub open spec fn media_views(v: Seq<MediaFile>) -> Seq<MediaView> {
    v.map_values(|m: MediaFile| media_view(m))
}

/// The directory of a file; a root is its own.
pub open spec fn parent(f: MediaView) -> Seq<Seq<char>> {
    if f.parts.len() > f.root {
        f.parts.drop_last()
    } else {
        f.parts
    }
}

/// The longest path that two paths start with.
pub open spec fn common(a: Seq<Seq<char>>, b: Seq<Seq<char>>) -> Seq<Seq<char>>
    decreases a.len(),
{
    if a.len() == 0 || b.len() == 0 || a[0] != b[0] {
        Seq::empty()
    } else {
        seq![a[0]] + common(a.drop_first(), b.drop_first())
    }
}

/// The longest directory that the first `n` files of a name have in common.
pub open spec fn common_dir(files: Seq<MediaView>, name: Seq<char>, n: int) -> Option<
    Seq<Seq<char>>,
>
    decreases n,
{
    if n <= 0 {
        None
    } else {
        let before = common_dir(files, name, n - 1);
        let f = files[n - 1];
        if f.name != name {
            before
        } else {
            match before {
                None => Some(parent(f)),
                Some(d) => Some(common(d, parent(f))),
            }
        }
    }
}

/// The longest directory that all files of a name have in common; it is empty
/// where there is none.
pub open spec fn common_prefix(files: Seq<MediaView>, name: Seq<char>) -> Seq<Seq<char>> {
    match common_dir(files, name, files.len() as int) {
        Some(d) => d,
        None => Seq::empty(),
    }
}

/// How many of the first `n` files have a name.
pub open spec fn named(files: Seq<MediaView>, name: Seq<char>, n: int) -> nat
    decreases n,
{
    if n <= 0 {
        0
    } else if files[n - 1].name == name {
        named(files, name, n - 1) + 1
    } else {
        named(files, name, n - 1)
    }
}

/// The root that a file hangs on, such as a drive.
pub open spec fn root_of(f: MediaView) -> Seq<Seq<char>> {
    f.parts.take(f.root as int)
}

/// The first file that hangs on a root.
pub open spec fn first_on_root(files: Seq<MediaView>, root: Seq<Seq<char>>) -> nat
    decreases files.len(),
{
    if files.len() == 0 || root_of(files[0]) == root {
        0
    } else {
        first_on_root(files.drop_first(), root) + 1
    }
}

/// Whether what the files of a name have in common is less than the root of
/// one of them, so that they hang on different roots.
pub open spec fn scattered(files: Seq<MediaView>, name: Seq<char>) -> bool {
    exists|k: int|
        0 <= k < files.len() && (#[trigger] files[k]).name == name && common_prefix(
            files,
            name,
        ).len() < files[k].root
}

/// The directory in `Media` that stands for a root, by the first file on it.
pub open spec fn root_name(first: nat) -> Seq<char> {
    "root-"@ + decimal(first + 1)
}

/// A place right in `Media`.
pub open spec fn in_media(leaf: Seq<char>) -> Seq<Seq<char>> {
    if leaf.len() > 0 {
        seq!["Media"@, leaf]
    } else {
        seq!["Media"@]
    }
}

/// Where a file goes, below the folder: into `Media` under its name, or, where
/// others have the same name, with the directories in which they differ. Where
/// these hang on different roots, a plain name stands for each root.
pub open spec fn packed_parts(files: Seq<MediaView>, i: int) -> Seq<Seq<char>> {
    let f = files[i];
    if named(files, f.name, files.len() as int) <= 1 {
        in_media(f.leaf)
    } else if scattered(files, f.name) {
        seq!["Media"@, root_name(first_on_root(files, root_of(f)))] + f.parts.skip(f.root as int)
    } else {
        seq!["Media"@] + f.parts.skip(common_prefix(files, f.name).len() as int)
    }
}

proof fn lemma_common(a: Seq<Seq<char>>, b: Seq<Seq<char>>)
    ensures
        common(a, b).len() <= a.len(),
        common(a, b).len() <= b.len(),
        a.take(common(a, b).len() as int) == common(a, b),
        b.take(common(a, b).len() as int) == common(a, b),
    decreases a.len(),
{
    let c = common(a, b);
    if a.len() == 0 || b.len() == 0 || a[0] != b[0] {
        assert(a.take(0) =~= c);
        assert(b.take(0) =~= c);
    } else {
        lemma_common(a.drop_first(), b.drop_first());
        let d = common(a.drop_first(), b.drop_first());
        assert(a.take(c.len() as int) =~= seq![a[0]] + a.drop_first().take(d.len() as int));
        assert(b.take(c.len() as int) =~= seq![b[0]] + b.drop_first().take(d.len() as int));
    }
}

/// What two paths both start with is no longer than what they have in common.
proof fn lemma_common_longest(a: Seq<Seq<char>>, b: Seq<Seq<char>>, d: Seq<Seq<char>>)
    requires
        d.is_prefix_of(a),
        d.is_prefix_of(b),
    ensures
        d.is_prefix_of(common(a, b)),
    decreases d.len(),
{
    lemma_common(a, b);
    if d.len() > 0 {
        assert(d[0] == a[0] && d[0] == b[0]);
        assert(d.drop_first().is_prefix_of(a.drop_first()));
        assert(d.drop_first().is_prefix_of(b.drop_first()));
        lemma_common_longest(a.drop_first(), b.drop_first(), d.drop_first());
        let c = common(a.drop_first(), b.drop_first());
        assert forall|i: int| 0 <= i < d.len() implies d[i] == common(a, b)[i] by {
            if i > 0 {
                assert(d.drop_first()[i - 1] == c[i - 1]);
            }
        }
    }
}

/// The common directory starts the path of each file of the name.
proof fn lemma_common_dir(files: Seq<MediaView>, name: Seq<char>, n: int, i: int)
    requires
        0 <= i < n <= files.len(),
        files[i].name == name,
    ensures
        common_dir(files, name, n) is Some,
        common_dir(files, name, n)->0.is_prefix_of(parent(files[i])),
    decreases n,
{
    let f = files[n - 1];
    if i < n - 1 {
        lemma_common_dir(files, name, n - 1, i);
        let d = common_dir(files, name, n - 1)->0;
        if f.name == name {
            lemma_common(d, parent(f));
            let c = common(d, parent(f));
            assert forall|k: int| 0 <= k < c.len() implies c[k] == parent(files[i])[k] by {
                assert(d.take(c.len() as int)[k] == d[k]);
            }
        }
    } else {
        match common_dir(files, name, n - 1) {
            None => {},
            Some(d) => {
                lemma_common(d, parent(f));
            },
        }
    }
}

proof fn lemma_common_dir_longest(
    files: Seq<MediaView>,
    name: Seq<char>,
    n: int,
    d: Seq<Seq<char>>,
)
    requires
        0 <= n <= files.len(),
        forall|k: int|
            0 <= k < n && (#[trigger] files[k]).name == name ==> d.is_prefix_of(parent(files[k])),
    ensures
        common_dir(files, name, n) matches Some(c) ==> d.is_prefix_of(c),
    decreases n,
{
    if n > 0 {
        lemma_common_dir_longest(files, name, n - 1, d);
        let f = files[n - 1];
        if f.name == name {
            if let Some(c) = common_dir(files, name, n - 1) {
                lemma_common_longest(c, parent(f), d);
            }
        }
    }
}

/// The common directory of the files of a name is the longest that starts all
/// their paths.
pub proof fn the_common_directory_is_the_longest(
    files: Seq<MediaView>,
    name: Seq<char>,
    d: Seq<Seq<char>>,
)
    requires
        exists|k: int| 0 <= k < files.len() && (#[trigger] files[k]).name == name,
    ensures
        d.is_prefix_of(common_prefix(files, name)) <==> (forall|k: int|
            0 <= k < files.len() && (#[trigger] files[k]).name == name ==> d.is_prefix_of(
                parent(files[k]),
            )),
{
    let n = files.len() as int;
    let c = common_prefix(files, name);
    let one = choose|k: int| 0 <= k < files.len() && (#[trigger] files[k]).name == name;
    lemma_common_dir(files, name, n, one);
    assert forall|k: int|
        0 <= k < files.len() && (#[trigger] files[k]).name == name && d.is_prefix_of(
            c,
        ) implies d.is_prefix_of(parent(files[k])) by {
        lemma_common_dir(files, name, n, k);
        assert forall|x: int| 0 <= x < d.len() implies d[x] == parent(files[k])[x] by {
            assert(d[x] == c[x]);
        }
    }
    if forall|k: int|
        0 <= k < files.len() && (#[trigger] files[k]).name == name ==> d.is_prefix_of(
            parent(files[k]),
        ) {
        lemma_common_dir_longest(files, name, n, d);
    }
}

proof fn lemma_named(files: Seq<MediaView>, name: Seq<char>, n: int, i: int, j: int)
    requires
        0 <= i < j < n <= files.len(),
        files[i].name == name,
        files[j].name == name,
    ensures
        named(files, name, n) > 1,
    decreases n,
{
    if j < n - 1 {
        lemma_named(files, name, n - 1, i, j);
    } else {
        lemma_named_once(files, name, n - 1, i);
    }
}

proof fn lemma_named_once(files: Seq<MediaView>, name: Seq<char>, n: int, i: int)
    requires
        0 <= i < n <= files.len(),
        files[i].name == name,
    ensures
        named(files, name, n) > 0,
    decreases n,
{
    if i < n - 1 {
        lemma_named_once(files, name, n - 1, i);
    }
}

proof fn lemma_first_on_root(files: Seq<MediaView>, i: int)
    requires
        0 <= i < files.len(),
    ensures
        first_on_root(files, root_of(files[i])) <= i,
        root_of(files[first_on_root(files, root_of(files[i])) as int]) == root_of(files[i]),
    decreases files.len(),
{
    if root_of(files[0]) != root_of(files[i]) {
        assert(files.drop_first()[i - 1] == files[i]);
        lemma_first_on_root(files.drop_first(), i - 1);
    }
}

/// Two roots have two names.
proof fn lemma_root_names(a: nat, b: nat)
    requires
        root_name(a) == root_name(b),
    ensures
        a == b,
{
    let k = "root-"@.len() as int;
    assert(root_name(a).skip(k) =~= decimal(a + 1));
    assert(root_name(b).skip(k) =~= decimal(b + 1));
    lemma_decimal_value(a + 1);
    lemma_decimal_value(b + 1);
}

/// Whether a file has a name, which is the last part of its path.
pub open spec fn has_name(f: MediaView) -> bool {
    &&& f.parts.len() > f.root
    &&& f.name.len() > 0
    &&& f.parts.last() == f.name
    &&& f.leaf == f.name
}

/// Packing keeps files apart: what lands at one place was one file. The files
/// are such as have a name.
pub proof fn packing_keeps_files_apart(files: Seq<MediaView>, i: int, j: int)
    requires
        0 <= i < files.len(),
        0 <= j < files.len(),
        forall|k: int| 0 <= k < files.len() ==> has_name(#[trigger] files[k]),
        packed_parts(files, i) == packed_parts(files, j),
    ensures
        files[i].parts == files[j].parts,
{
    let n = files.len() as int;
    let (a, b) = (files[i], files[j]);
    let (p, q) = (packed_parts(files, i), packed_parts(files, j));
    let k = common_prefix(files, a.name).len() as int;
    lemma_common_dir(files, a.name, n, i);
    lemma_common_dir(files, b.name, n, j);
    assert(has_name(a) && has_name(b));
    assert(p.last() == a.name);
    assert(q.last() == b.name);
    assert(a.name == b.name);
    if i != j {
        if i < j {
            lemma_named(files, a.name, n, i, j);
        } else {
            lemma_named(files, a.name, n, j, i);
        }
        if scattered(files, a.name) {
            let (x, y) = (
                first_on_root(files, root_of(a)),
                first_on_root(files, root_of(b)),
            );
            assert(p[1] == root_name(x) && q[1] == root_name(y));
            lemma_root_names(x, y);
            lemma_first_on_root(files, i);
            lemma_first_on_root(files, j);
            assert(p.skip(2) =~= a.parts.skip(a.root as int));
            assert(q.skip(2) =~= b.parts.skip(b.root as int));
            assert(a.parts =~= root_of(a) + a.parts.skip(a.root as int));
            assert(b.parts =~= root_of(b) + b.parts.skip(b.root as int));
        } else {
            let d = common_prefix(files, a.name);
            assert(p.skip(1) =~= a.parts.skip(k));
            assert(q.skip(1) =~= b.parts.skip(k));
            assert(a.parts =~= d + a.parts.skip(k));
            assert(b.parts =~= d + b.parts.skip(k));
        }
    }
}

/// A file that two cues write differently is packed to one place.
pub proof fn one_file_is_packed_to_one_place(files: Seq<MediaView>, i: int, j: int)
    requires
        0 <= i < files.len(),
        0 <= j < files.len(),
        files[i] == files[j],
    ensures
        packed_parts(files, i) == packed_parts(files, j),
{
}

/// Every file that has a name is packed into `Media`: its place starts there,
/// ends in its name, and what lies between are directories below the file's
/// root, or the plain name that stands for the root.
pub proof fn files_are_packed_into_media(files: Seq<MediaView>, i: int)
    requires
        0 <= i < files.len(),
        has_name(files[i]),
    ensures
        packed_parts(files, i).len() >= 2,
        packed_parts(files, i)[0] == "Media"@,
        packed_parts(files, i).last() == files[i].name,
        forall|k: int|
            1 <= k < packed_parts(files, i).len() ==> files[i].parts.skip(
                files[i].root as int,
            ).contains(#[trigger] packed_parts(files, i)[k]) || (exists|first: nat|
                packed_parts(files, i)[k] == #[trigger] root_name(first)),
{
    let f = files[i];
    let p = packed_parts(files, i);
    let n = files.len() as int;
    let below = f.parts.skip(f.root as int);
    let d = common_prefix(files, f.name);
    lemma_common_dir(files, f.name, n, i);
    assert(below.last() == f.name);
    assert forall|k: int| 1 <= k < p.len() implies below.contains(#[trigger] p[k]) || (exists|
        first: nat,
    | p[k] == #[trigger] root_name(first)) by {
        if named(files, f.name, n) <= 1 {
            assert(below[below.len() - 1] == p[k]);
        } else if scattered(files, f.name) {
            if k >= 2 {
                assert(below[k - 2] == p[k]);
            } else {
                assert(p[k] == root_name(first_on_root(files, root_of(f))));
            }
        } else {
            assert(d.len() >= f.root) by {
                assert(files[i].name == f.name);
            }
            assert(p[k] == f.parts[k - 1 + d.len()]);
            assert(below[k - 1 + d.len() - f.root] == p[k]);
        }
    }
}

fn copy_text_range(v: &Vec<String>, from: usize, to: usize) -> (r: Vec<String>)
    requires
        from <= to <= v@.len(),
    ensures
        texts(r@) == texts(v@).subrange(from as int, to as int),
{
    let mut r: Vec<String> = Vec::new();
    let mut i: usize = from;
    while i < to
        invariant
            from <= i <= to <= v@.len(),
            r@.len() == i - from,
            forall|j: int| 0 <= j < i - from ==> (#[trigger] r@[j])@ == v@[from + j]@,
        decreases to - i,
    {
        r.push(v[i].as_str().to_owned());
        i = i + 1;
    }
    assert(texts(r@) =~= texts(v@).subrange(from as int, to as int));
    r
}

/// How many parts the directory of a file has.
fn dir_len(f: &MediaFile) -> (n: usize)
    ensures
        n <= f.parts@.len(),
        texts(f.parts@).take(n as int) == parent(media_view(*f)),
{
    let n: usize = f.parts.len();
    assert(texts(f.parts@).take(n as int) =~= texts(f.parts@));
    if n > f.root {
        assert(texts(f.parts@).take(n - 1) =~= texts(f.parts@).drop_last());
        n - 1
    } else {
        n
    }
}

/// How many parts two paths have in common at their start, up to these lengths.
fn shared_parts(a: &Vec<String>, n: usize, b: &Vec<String>, m: usize) -> (k: usize)
    requires
        n <= a@.len(),
        m <= b@.len(),
    ensures
        k <= n,
        k <= m,
        k == common(texts(a@).take(n as int), texts(b@).take(m as int)).len(),
{
    let ghost x = texts(a@).take(n as int);
    let ghost y = texts(b@).take(m as int);
    let mut k: usize = 0;
    assert(x.skip(0) =~= x);
    assert(y.skip(0) =~= y);
    while k < n && k < m && same(a[k].as_str(), b[k].as_str())
        invariant
            k <= n <= a@.len(),
            k <= m <= b@.len(),
            x == texts(a@).take(n as int),
            y == texts(b@).take(m as int),
            common(x, y).len() == k + common(x.skip(k as int), y.skip(k as int)).len(),
        decreases n - k,
    {
        assert(x.skip(k as int)[0] == a@[k as int]@);
        assert(y.skip(k as int)[0] == b@[k as int]@);
        assert(x.skip(k as int).drop_first() =~= x.skip(k + 1));
        assert(y.skip(k as int).drop_first() =~= y.skip(k + 1));
        k = k + 1;
    }
    proof {
        if k < n && k < m {
            assert(x.skip(k as int)[0] == a@[k as int]@);
            assert(y.skip(k as int)[0] == b@[k as int]@);
        }
    }
    k
}

/// The longest directory that all files of a name have in common.
pub fn common_path_prefix(files: &Vec<MediaFile>, name: &str) -> (r: Vec<String>)
    ensures
        texts(r@) == common_prefix(media_views(files@), name@),
{
    let ghost views = media_views(files@);
    // The first file of the name, and how much of its path all share.
    let mut first: Option<usize> = None;
    let mut shared: usize = 0;
    let mut k: usize = 0;
    while k < files.len()
        invariant
            k <= files@.len(),
            views == media_views(files@),
            first is None ==> common_dir(views, name@, k as int) is None,
            first matches Some(f) ==> f < files@.len() && shared <= files@[f as int].parts@.len()
                && common_dir(views, name@, k as int) == Some(
                texts(files@[f as int].parts@).take(shared as int),
            ),
        decreases files@.len() - k,
    {
        assert(views[k as int] == media_view(files@[k as int]));
        if same(files[k].name.as_str(), name) {
            let m: usize = dir_len(&files[k]);
            match first {
                None => {
                    first = Some(k);
                    shared = m;
                },
                Some(f) => {
                    let ghost whole = texts(files@[f as int].parts@);
                    let ghost d = whole.take(shared as int);
                    let n: usize = shared_parts(&files[f].parts, shared, &files[k].parts, m);
                    proof {
                        lemma_common(d, parent(views[k as int]));
                        assert(whole.take(n as int) =~= d.take(n as int));
                    }
                    shared = n;
                },
            }
        }
        k = k + 1;
    }
    match first {
        Some(f) => {
            let r: Vec<String> = copy_text_range(&files[f].parts, 0, shared);
            assert(texts(r@) =~= texts(files@[f as int].parts@).take(shared as int));
            r
        },
        None => {
            let r: Vec<String> = Vec::new();
            assert(texts(r@) =~= Seq::<Seq<char>>::empty());
            r
        },
    }
}

/// How many files have a name.
fn count_named(files: &Vec<MediaFile>, name: &str) -> (n: usize)
    ensures
        n == named(media_views(files@), name@, files@.len() as int),
{
    let ghost views = media_views(files@);
    let mut n: usize = 0;
    let mut k: usize = 0;
    while k < files.len()
        invariant
            n <= k <= files@.len(),
            views == media_views(files@),
            n == named(views, name@, k as int),
        decreases files@.len() - k,
    {
        assert(views[k as int] == media_view(files@[k as int]));
        if same(files[k].name.as_str(), name) {
            n = n + 1;
        }
        k = k + 1;
    }
    n
}

/// Whether a file of a name has a root longer than what is common.
fn are_scattered(files: &Vec<MediaFile>, name: &str, common: usize) -> (b: bool)
    requires
        common == common_prefix(media_views(files@), name@).len(),
    ensures
        b == scattered(media_views(files@), name@),
{
    let ghost views = media_views(files@);
    let mut k: usize = 0;
    while k < files.len()
        invariant
            k <= files@.len(),
            views == media_views(files@),
            common == common_prefix(views, name@).len(),
            forall|j: int|
                0 <= j < k && (#[trigger] views[j]).name == name@ ==> common >= views[j].root,
        decreases files@.len() - k,
    {
        assert(views[k as int] == media_view(files@[k as int]));
        if common < files[k].root && same(files[k].name.as_str(), name) {
            return true;
        }
        k = k + 1;
    }
    false
}

fn same_root(a: &MediaFile, b: &MediaFile) -> (r: bool)
    requires
        a.root <= a.parts@.len(),
        b.root <= b.parts@.len(),
    ensures
        r == (root_of(media_view(*a)) == root_of(media_view(*b))),
{
    let ghost x = root_of(media_view(*a));
    let ghost y = root_of(media_view(*b));
    assert(x.len() == a.root && y.len() == b.root);
    if a.root != b.root {
        return false;
    }
    let mut i: usize = 0;
    while i < a.root
        invariant
            i <= a.root == b.root,
            a.root <= a.parts@.len(),
            b.root <= b.parts@.len(),
            x == root_of(media_view(*a)),
            y == root_of(media_view(*b)),
            forall|j: int| 0 <= j < i ==> x[j] == y[j],
        decreases a.root - i,
    {
        assert(x[i as int] == a.parts@[i as int]@);
        assert(y[i as int] == b.parts@[i as int]@);
        if !same(a.parts[i].as_str(), b.parts[i].as_str()) {
            return false;
        }
        i = i + 1;
    }
    assert(x =~= y);
    true
}

/// The first file on the root of a file.
fn find_root(files: &Vec<MediaFile>, i: usize) -> (n: usize)
    requires
        i < files@.len(),
        forall|k: int|
            0 <= k < files@.len() ==> (#[trigger] files@[k]).root <= files@[k].parts@.len(),
    ensures
        n <= i,
        n == first_on_root(media_views(files@), root_of(media_view(files@[i as int]))),
{
    let ghost views = media_views(files@);
    let ghost root = root_of(media_view(files@[i as int]));
    let mut k: usize = 0;
    assert(views.skip(0) =~= views);
    while k < i && !same_root(&files[k], &files[i])
        invariant
            k <= i < files@.len(),
            views == media_views(files@),
            root == root_of(media_view(files@[i as int])),
            forall|k: int|
                0 <= k < files@.len() ==> (#[trigger] files@[k]).root <= files@[k].parts@.len(),
            first_on_root(views, root) == k + first_on_root(views.skip(k as int), root),
        decreases i - k,
    {
        assert(views.skip(k as int)[0] == media_view(files@[k as int]));
        assert(views.skip(k as int).drop_first() =~= views.skip(k + 1));
        k = k + 1;
    }
    assert(views.skip(k as int)[0] == media_view(files@[k as int]));
    k
}

/// Where each file goes, below the folder. A root is part of its path.
pub fn packed_to(files: &Vec<MediaFile>, i: usize) -> (r: Vec<String>)
    requires
        i < files@.len(),
        forall|k: int|
            0 <= k < files@.len() ==> (#[trigger] files@[k]).root <= files@[k].parts@.len(),
    ensures
        texts(r@) == packed_parts(media_views(files@), i as int),
{
    let ghost views = media_views(files@);
    let f: &MediaFile = &files[i];
    assert(views[i as int] == media_view(files@[i as int]));
    let mut r: Vec<String> = Vec::new();
    r.push("Media".to_owned());
    if count_named(files, f.name.as_str()) <= 1 {
        if !f.leaf.as_str().is_empty() {
            r.push(f.leaf.as_str().to_owned());
        }
        assert(texts(r@) =~= packed_parts(views, i as int));
        return r;
    }
    let dir: Vec<String> = common_path_prefix(files, f.name.as_str());
    proof {
        lemma_common_dir(views, f.name@, views.len() as int, i as int);
        assert(texts(dir@).len() == dir@.len());
    }
    let from: usize = if are_scattered(files, f.name.as_str(), dir.len()) {
        let first: usize = find_root(files, i);
        assert(first < files.len());
        let mut name: String = "root-".to_owned();
        push_decimal(&mut name, (first + 1) as u64);
        r.push(name);
        f.root
    } else {
        dir.len()
    };
    let ghost head = r@;
    let mut rest: Vec<String> = copy_text_range(&f.parts, from, f.parts.len());
    let ghost tail = rest@;
    r.append(&mut rest);
    proof {
        assert(texts(r@) =~= texts(head) + texts(tail));
        assert(texts(tail) =~= texts(f.parts@).skip(from as int));
        if scattered(views, f.name@) {
            assert(texts(head) =~= seq![
                "Media"@,
                root_name(first_on_root(views, root_of(views[i as int]))),
            ]);
        } else {
            assert(texts(head) =~= seq!["Media"@]);
        }
    }
    r
}

/// A directory with the slash that parts it from what lies in it.
pub open spec fn with_slash(base: Seq<char>) -> Seq<char> {
    if base.len() > 0 && base.last() == '/' {
        base
    } else {
        base.push('/')
    }
}

/// Whether a text is taken apart at slashes alone on every system: it holds
/// neither backslash nor colon.
pub open spec fn slashes_only(s: Seq<char>) -> bool {
    forall|i: int| 0 <= i < s.len() ==> #[trigger] s[i] != '\\' && s[i] != ':'
}

/// Whether a directory is read alike on every system: its path is not empty,
/// is taken apart at slashes alone and does not begin with two of them.
pub open spec fn plain_dir(base: Seq<char>) -> bool {
    &&& base.len() > 0
    &&& slashes_only(base)
    &&& !(base.len() > 1 && base[0] == '/' && base[1] == '/')
}

/// Whether a part of a path that begins at `i` is missing or a single dot.
pub open spec fn idle_part(s: Seq<char>, i: int) -> bool {
    ||| i >= s.len()
    ||| s[i] == '/'
    ||| s[i] == '.' && (i + 1 >= s.len() || s[i + 1] == '/')
}

/// Whether every part of a path counts, on every system.
pub open spec fn plain_path(s: Seq<char>) -> bool {
    &&& slashes_only(s)
    &&& !idle_part(s, 0)
    &&& forall|i: int| 0 <= i < s.len() && #[trigger] s[i] == '/' ==> !idle_part(s, i + 1)
}

/// The path of what lies in a directory, as seen from there.
pub open spec fn rest_of(path: Seq<char>, base: Seq<char>) -> Seq<char> {
    path.skip(with_slash(base).len() as int)
}

/// Whether a path plainly leads into a directory: it is the directory's,
/// a slash, and the parts below it.
pub open spec fn leads_into(path: Seq<char>, base: Seq<char>) -> bool {
    &&& plain_dir(base)
    &&& with_slash(base).is_prefix_of(path)
    &&& plain_path(rest_of(path, base))
}

/// A path with backslashes for its slashes.
pub open spec fn backslashed(s: Seq<char>) -> Seq<char> {
    s.map_values(
        |c: char|
            if c == '/' {
                '\\'
            } else {
                c
            },
    )
}

/// Whether `shown` is what lies in a directory as seen from there, with the
/// slashes or the backslashes of the system.
pub open spec fn seen_from(shown: Seq<char>, path: Seq<char>, base: Seq<char>) -> bool {
    shown == rest_of(path, base) || shown == backslashed(rest_of(path, base))
}

/// A path as seen from a directory, by `pathdiff::diff_paths`: of a path that
/// plainly leads into the directory, the parts below it; of the directory
/// itself, the empty path. Nothing is said of other paths: how they are taken
/// apart, and which of them are absolute, depends on the system.
#[verifier::external_body]
fn relative_to(path: &str, base: &str) -> (r: Option<String>)
    ensures
        leads_into(path@, base@) ==> r is Some && seen_from(r->0@, path@, base@),
        path@ == base@ ==> r is Some && r->0@ == Seq::<char>::empty(),
{
    pathdiff::diff_paths(path, base).map(|p| p.to_string_lossy().to_string())
}

/// How a packed file is written in the cues, where `relative` is its path as
/// seen from the project's folder.
pub fn packed_name(relative: Option<String>, path: String) -> (r: String)
    ensures
        r == (match relative {
            Some(p) => p,
            None => path,
        }),
{
    match relative {
        Some(p) => p,
        None => path,
    }
}

/// How a packed file is written in the cues: as seen from the project's folder
/// where it can be, else by its path. Of a path that neither plainly leads into
/// the folder nor is the folder's it is not stated which: that depends on the
/// system.
pub fn packed_path(path: String, folder: &str) -> (r: String)
    ensures
        leads_into(path@, folder@) ==> seen_from(r@, path@, folder@),
        path@ == folder@ ==> r@ == Seq::<char>::empty(),
{
    let relative: Option<String> = relative_to(path.as_str(), folder);
    packed_name(relative, path)
}

/// A place below a folder, written out.
pub open spec fn place_in(folder: Seq<char>, parts: Seq<Seq<char>>) -> Seq<char> {
    with_slash(folder) + join(parts, "/"@)
}

/// A place in `Media` holds a slash only between its parts, as the paths of
/// its files do.
proof fn lemma_packed_parts_plain(files: Seq<MediaView>, i: int)
    requires
        0 <= i < files.len(),
        has_name(files[i]),
        forall|x: int|
            files[i].root <= x < files[i].parts.len() ==> !has_char(
                #[trigger] files[i].parts[x],
                '/',
            ),
    ensures
        packed_parts(files, i).len() >= 2,
        forall|x: int|
            0 <= x < packed_parts(files, i).len() ==> !has_char(
                #[trigger] packed_parts(files, i)[x],
                '/',
            ),
{
    files_are_packed_into_media(files, i);
    let f = files[i];
    let p = packed_parts(files, i);
    let below = f.parts.skip(f.root as int);
    assert forall|x: int| 0 <= x < p.len() implies !has_char(#[trigger] p[x], '/') by {
        if x == 0 {
            reveal_strlit("Media");
        } else if below.contains(p[x]) {
            let k = choose|k: int| 0 <= k < below.len() && below[k] == p[x];
            assert(f.parts[k + f.root] == p[x]);
        } else {
            let first = choose|first: nat| p[x] == #[trigger] root_name(first);
            lemma_decimal_value(first + 1);
            reveal_strlit("root-");
            let digits = decimal(first + 1);
            assert forall|k: int| 0 <= k < p[x].len() implies p[x][k] != '/' by {
                if k >= 5 {
                    assert(p[x][k] == digits[k - 5]);
                }
            }
        }
    }
}

/// Files that are packed are written differently in the cues, unless they are
/// one file: `r` and `s` are how the places of two files are written there.
pub proof fn packed_paths_keep_files_apart(
    files: Seq<MediaView>,
    i: int,
    j: int,
    folder: Seq<char>,
    r: Seq<char>,
    s: Seq<char>,
)
    requires
        0 <= i < files.len(),
        0 <= j < files.len(),
        forall|k: int| 0 <= k < files.len() ==> has_name(#[trigger] files[k]),
        forall|k: int, x: int|
            0 <= k < files.len() && files[k].root <= x < files[k].parts.len() ==> !has_char(
                #[trigger] files[k].parts[x],
                '/',
            ),
        leads_into(place_in(folder, packed_parts(files, i)), folder),
        leads_into(place_in(folder, packed_parts(files, j)), folder),
        seen_from(r, place_in(folder, packed_parts(files, i)), folder),
        seen_from(s, place_in(folder, packed_parts(files, j)), folder),
        r == s,
    ensures
        files[i].parts == files[j].parts,
{
    let (p, q) = (packed_parts(files, i), packed_parts(files, j));
    let (a, b) = (join(p, "/"@), join(q, "/"@));
    let (path, other) = (place_in(folder, p), place_in(folder, q));
    lemma_packed_parts_plain(files, i);
    lemma_packed_parts_plain(files, j);
    reveal_strlit("/");
    assert(rest_of(path, folder) =~= a);
    assert(rest_of(other, folder) =~= b);
    // Both hold a slash and neither a backslash.
    let (x, y) = (join(p.drop_last(), "/"@).len() as int, join(q.drop_last(), "/"@).len() as int);
    assert(a[x] == '/' && b[y] == '/');
    assert(backslashed(a)[x] == '\\' && backslashed(b)[y] == '\\');
    assert(slashes_only(a) && slashes_only(b));
    assert(a =~= b) by {
        if r != a {
            assert(r[x] == '\\');
            assert(s == backslashed(b)) by {
                assert(s == b ==> b[x] == '\\');
            }
            assert(backslashed(a).len() == a.len() && backslashed(b).len() == b.len());
            assert forall|k: int| 0 <= k < a.len() implies a[k] == b[k] by {
                assert(backslashed(a)[k] == backslashed(b)[k]);
                assert(a[k] != '\\' && b[k] != '\\');
            }
        } else if s != b {
            assert(a[y] == '\\');
        }
    }
    assert("/"@ =~= seq!['/']);
    lemma_join_apart(p, q, '/');
    packing_keeps_files_apart(files, i, j);
}

/// Where a file was packed to, by the map of those that were.
pub open spec fn mapped(map: Seq<(String, String)>, file: Seq<char>) -> Option<Seq<char>>
    decreases map.len(),
{
    if map.len() == 0 {
        None
    } else if map[0].0@ == file {
        Some(map[0].1@)
    } else {
        mapped(map.drop_first(), file)
    }
}

/// What a cue does, with another file.
pub open spec fn with_file(kind: CueKind, file: String) -> CueKind {
    match kind {
        CueKind::Sound {
            path,
            start_time,
            duration,
            volume,
            pan,
            fade_in,
            fade_out,
            fade_type,
        } => CueKind::Sound {
            path: file,
            start_time,
            duration,
            volume,
            pan,
            fade_in,
            fade_out,
            fade_type,
        },
        CueKind::Video {
            path,
            start_time,
            duration,
            volume,
            pan,
            fade_in,
            fade_out,
            fade_type,
            follow_mtc,
            mtc_start,
        } => CueKind::Video {
            path: file,
            start_time,
            duration,
            volume,
            pan,
            fade_in,
            fade_out,
            fade_type,
            follow_mtc,
            mtc_start,
        },
        CueKind::Image { path, fit } => CueKind::Image { path: file, fit },
        CueKind::PixelMap { path } => CueKind::PixelMap { path: file },
        CueKind::Text { text, font_size, colour, fit, font } => CueKind::Text {
            text,
            font_size,
            colour,
            fit,
            font: file,
        },
        other => other,
    }
}

/// Whether `b` is the cue `a` pointed to where its file was packed to.
pub open spec fn repointed(a: Cue, b: Cue, map: Seq<(String, String)>) -> bool {
    &&& b.base == a.base
    &&& b.extra == a.extra
    &&& match file_of(a.kind) {
        Some(f) if mapped(map, f) is Some => {
            &&& file_of(b.kind) == mapped(map, f)
            &&& exists|file: String| b.kind == #[trigger] with_file(a.kind, file)
        },
        _ => b.kind == a.kind,
    }
}

fn find_mapped(map: &Vec<(String, String)>, file: &str) -> (r: Option<String>)
    ensures
        text_opt(r) == mapped(map@, file@),
{
    let mut i: usize = 0;
    assert(map@.skip(0) =~= map@);
    while i < map.len()
        invariant
            i <= map@.len(),
            mapped(map@, file@) == mapped(map@.skip(i as int), file@),
        decreases map@.len() - i,
    {
        assert(map@.skip(i as int)[0] == map@[i as int]);
        assert(map@.skip(i as int).drop_first() =~= map@.skip(i + 1));
        if same(map[i].0.as_str(), file) {
            return Some(map[i].1.as_str().to_owned());
        }
        i = i + 1;
    }
    None
}

fn set_file(kind: CueKind, file: String) -> (r: CueKind)
    ensures
        r == with_file(kind, file),
{
    match kind {
        CueKind::Sound {
            path,
            start_time,
            duration,
            volume,
            pan,
            fade_in,
            fade_out,
            fade_type,
        } => CueKind::Sound {
            path: file,
            start_time,
            duration,
            volume,
            pan,
            fade_in,
            fade_out,
            fade_type,
        },
        CueKind::Video {
            path,
            start_time,
            duration,
            volume,
            pan,
            fade_in,
            fade_out,
            fade_type,
            follow_mtc,
            mtc_start,
        } => CueKind::Video {
            path: file,
            start_time,
            duration,
            volume,
            pan,
            fade_in,
            fade_out,
            fade_type,
            follow_mtc,
            mtc_start,
        },
        CueKind::Image { path, fit } => CueKind::Image { path: file, fit },
        CueKind::PixelMap { path } => CueKind::PixelMap { path: file },
        CueKind::Text { text, font_size, colour, fit, font } => CueKind::Text {
            text,
            font_size,
            colour,
            fit,
            font: file,
        },
        other => other,
    }
}

fn repoint(cue: &Cue, map: &Vec<(String, String)>) -> (r: Cue)
    ensures
        repointed(*cue, r, map@),
{
    let c: Cue = cue.clone();
    let found: Option<String> = match cue_file(&cue.kind) {
        Some(f) => find_mapped(map, f.as_str()),
        None => None,
    };
    match found {
        Some(file) => {
            let ghost new = file;
            let kind: CueKind = set_file(c.kind, file);
            assert(kind == with_file(cue.kind, new));
            Cue { base: c.base, kind, extra: c.extra }
        },
        None => c,
    }
}

/// Point the cues to where their files were packed to. The project is saved
/// after that, so it is no edit to be taken back.
pub fn pack_project(state: &mut SharedState, map: &Vec<(String, String)>)
    ensures
        final(state)@ == (StateView {
            show_file: ShowView {
                cues: final(state)@.show_file.cues,
                ..old(state)@.show_file
            },
            ..old(state)@
        }),
        final(state)@.show_file.cues.len() == old(state)@.show_file.cues.len(),
        forall|i: int|
            0 <= i < old(state)@.show_file.cues.len() ==> repointed(
                old(state)@.show_file.cues[i],
                #[trigger] final(state)@.show_file.cues[i],
                map@,
            ),
{
    let mut cues: Vec<Cue> = Vec::new();
    let mut i: usize = 0;
    while i < state.show_file.cues.len()
        invariant
            state@ == old(state)@,
            i <= state.show_file.cues@.len(),
            cues@.len() == i,
            forall|j: int|
                0 <= j < i ==> repointed(
                    old(state)@.show_file.cues[j],
                    #[trigger] cues@[j],
                    map@,
                ),
        decreases state.show_file.cues@.len() - i,
    {
        let c: Cue = repoint(&state.show_file.cues[i], map);
        cues.push(c);
        i = i + 1;
    }
    state.show_file.cues = cues;
}

/// Whether a part of a path is read alike on every system: it is no empty one
/// and no single dot, and holds no separator.
pub open spec fn plain_part(s: Seq<char>) -> bool {
    &&& s.len() > 0
    &&& !(s.len() == 1 && s[0] == '.')
    &&& slashes_only(s)
    &&& !has_char(s, '/')
}

/// Whether the parts of a file's path below its root are all plain.
pub open spec fn plain_below(f: MediaView) -> bool {
    forall|x: int| f.root <= x < f.parts.len() ==> plain_part(#[trigger] f.parts[x])
}

/// Plain parts make a plain path.
proof fn lemma_plain_path(parts: Seq<Seq<char>>)
    requires
        parts.len() > 0,
        forall|x: int| 0 <= x < parts.len() ==> plain_part(#[trigger] parts[x]),
    ensures
        plain_path(join(parts, "/"@)),
    decreases parts.len(),
{
    reveal_strlit("/");
    let s = join(parts, "/"@);
    let last = parts.last();
    assert(plain_part(last));
    if parts.len() == 1 {
        assert(s == last);
        assert forall|i: int| 0 <= i < s.len() implies s[i] != '/' by {}
    } else {
        let front = join(parts.drop_last(), "/"@);
        assert forall|x: int| 0 <= x < parts.len() - 1 implies plain_part(
            #[trigger] parts.drop_last()[x],
        ) by {
            assert(parts.drop_last()[x] == parts[x]);
        }
        lemma_plain_path(parts.drop_last());
        let k = front.len() as int;
        assert(s == front + "/"@ + last);
        assert(s.len() == k + 1 + last.len());
        assert forall|i: int| 0 <= i < s.len() implies s[i] == (if i < k {
            front[i]
        } else if i == k {
            '/'
        } else {
            last[i - k - 1]
        }) by {}
        assert forall|i: int| 0 <= i < s.len() implies #[trigger] s[i] != '\\' && s[i] != ':' by {
            if i < k {
                assert(front[i] != '\\' && front[i] != ':');
            } else if i > k {
                assert(last[i - k - 1] != '\\' && last[i - k - 1] != ':');
            }
        }
        assert(!idle_part(front, 0));
        assert(!idle_part(s, 0));
        assert forall|i: int| 0 <= i < s.len() && #[trigger] s[i] == '/' implies !idle_part(
            s,
            i + 1,
        ) by {
            if i < k {
                assert(front[i] == '/');
                assert(!idle_part(front, i + 1));
            } else if i > k {
                assert(has_char(last, last[i - k - 1]));
            } else {
                assert(s[i + 1] == last[0]);
                assert(has_char(last, last[0]));
                if last.len() > 1 {
                    assert(has_char(last, last[1]));
                    assert(s[i + 2] == last[1]);
                }
            }
        }
    }
}

/// The place of a file whose path is plain leads into the folder.
proof fn lemma_place_leads_into(files: Seq<MediaView>, i: int, folder: Seq<char>)
    requires
        0 <= i < files.len(),
        has_name(files[i]),
        plain_below(files[i]),
        plain_dir(folder),
    ensures
        leads_into(place_in(folder, packed_parts(files, i)), folder),
        rest_of(place_in(folder, packed_parts(files, i)), folder) == join(
            packed_parts(files, i),
            "/"@,
        ),
{
    let f = files[i];
    let p = packed_parts(files, i);
    let below = f.parts.skip(f.root as int);
    files_are_packed_into_media(files, i);
    assert forall|x: int| 0 <= x < p.len() implies plain_part(#[trigger] p[x]) by {
        if x == 0 {
            reveal_strlit("Media");
        } else if below.contains(p[x]) {
            let k = choose|k: int| 0 <= k < below.len() && below[k] == p[x];
            assert(f.parts[k + f.root] == p[x]);
        } else {
            let first = choose|first: nat| p[x] == #[trigger] root_name(first);
            lemma_decimal_value(first + 1);
            reveal_strlit("root-");
            let digits = decimal(first + 1);
            assert forall|k: int| 0 <= k < p[x].len() implies #[trigger] p[x][k] != '/' && p[x][k]
                != '\\' && p[x][k] != ':' by {
                if k >= 5 {
                    assert(p[x][k] == digits[k - 5]);
                }
            }
        }
    }
    lemma_plain_path(p);
    let path = place_in(folder, p);
    assert(rest_of(path, folder) =~= join(p, "/"@));
    assert(with_slash(folder).is_prefix_of(path));
}

/// What each file that was packed is called in the cues, by how they call it
/// now: `places` are the places that the files were packed to.
pub fn packed_map(files: &Vec<MediaFile>, places: &Vec<String>, folder: &str) -> (map: Vec<
    (String, String),
>)
    requires
        places@.len() == files@.len(),
    ensures
        map@.len() == files@.len(),
        forall|i: int|
            0 <= i < files@.len() ==> (#[trigger] map@[i]).0@ == files@[i].original@ && (
            leads_into(places@[i]@, folder@) ==> seen_from(map@[i].1@, places@[i]@, folder@)),
{
    let mut map: Vec<(String, String)> = Vec::new();
    let mut i: usize = 0;
    while i < files.len()
        invariant
            i <= files@.len() == places@.len(),
            map@.len() == i,
            forall|j: int|
                0 <= j < i ==> (#[trigger] map@[j]).0@ == files@[j].original@ && (leads_into(
                    places@[j]@,
                    folder@,
                ) ==> seen_from(map@[j].1@, places@[j]@, folder@)),
        decreases files@.len() - i,
    {
        let name: String = packed_path(places[i].as_str().to_owned(), folder);
        map.push((files[i].original.as_str().to_owned(), name));
        i = i + 1;
    }
    map
}

/// Whether the map tells of each file what its place in the folder is called.
pub open spec fn map_tells(
    map: Seq<(String, String)>,
    files: Seq<MediaFile>,
    folder: Seq<char>,
) -> bool {
    &&& map.len() == files.len()
    &&& forall|i: int|
        0 <= i < files.len() ==> (#[trigger] map[i]).0@ == files[i].original@ && seen_from(
            map[i].1@,
            place_in(folder, packed_parts(media_views(files), i)),
            folder,
        )
}

/// Whether these are the files that the cues refer to, each once, in order, and
/// each with a plain path that ends in a name.
pub open spec fn files_gathered(cues: Seq<Cue>, files: Seq<MediaFile>) -> bool {
    let all = files_of(cues, cues.len() as int);
    &&& files.len() == all.len()
    &&& forall|i: int| 0 <= i < files.len() ==> (#[trigger] files[i]).original@ == all[i]
    &&& forall|i: int|
        0 <= i < files.len() ==> has_name(#[trigger] media_views(files)[i]) && plain_below(
            media_views(files)[i],
        )
}

/// Where the files were packed to their places in the folder, the map tells of
/// each what its place is called. `map` is what `packed_map` makes of `places`.
pub proof fn the_map_tells_of_each_file(
    cues: Seq<Cue>,
    files: Seq<MediaFile>,
    places: Seq<Seq<char>>,
    folder: Seq<char>,
    map: Seq<(String, String)>,
)
    requires
        files_gathered(cues, files),
        plain_dir(folder),
        places.len() == files.len(),
        forall|i: int|
            0 <= i < files.len() ==> #[trigger] places[i] == place_in(
                folder,
                packed_parts(media_views(files), i),
            ),
        map.len() == files.len(),
        forall|i: int|
            0 <= i < files.len() ==> (#[trigger] map[i]).0@ == files[i].original@ && (leads_into(
                places[i],
                folder,
            ) ==> seen_from(map[i].1@, places[i], folder)),
    ensures
        map_tells(map, files, folder),
{
    let views = media_views(files);
    assert forall|i: int| 0 <= i < files.len() implies (#[trigger] map[i]).0@
        == files[i].original@ && seen_from(
        map[i].1@,
        place_in(folder, packed_parts(views, i)),
        folder,
    ) by {
        assert(has_name(views[i]) && plain_below(views[i]));
        lemma_place_leads_into(views, i, folder);
        assert(places[i] == place_in(folder, packed_parts(views, i)));
    }
}

/// Whether a path is relative and leads into `Media`.
pub open spec fn under_media(path: Seq<char>) -> bool {
    path.len() > 6 && path.take(5) == "Media"@ && (path[5] == '/' || path[5] == '\\')
}

/// The file that a cue refers to.
pub open spec fn refers_to(cue: Cue, file: MediaFile) -> bool {
    file_of(cue.kind) == Some(file.original@)
}

/// The map finds what a file's place is called.
proof fn lemma_mapped(map: Seq<(String, String)>, file: Seq<char>)
    ensures
        match mapped(map, file) {
            Some(r) => exists|i: int|
                0 <= i < map.len() && (#[trigger] map[i]).0@ == file && map[i].1@ == r,
            None => forall|i: int| 0 <= i < map.len() ==> (#[trigger] map[i]).0@ != file,
        },
    decreases map.len(),
{
    if map.len() > 0 && map[0].0@ != file {
        let rest = map.drop_first();
        lemma_mapped(rest, file);
        match mapped(rest, file) {
            Some(r) => {
                let i = choose|i: int|
                    0 <= i < rest.len() && (#[trigger] rest[i]).0@ == file && rest[i].1@ == r;
                assert(map[i + 1] == rest[i]);
            },
            None => {
                assert forall|i: int| 0 <= i < map.len() implies (#[trigger] map[i]).0@
                    != file by {
                    if i > 0 {
                        assert(map[i] == rest[i - 1]);
                    }
                }
            },
        }
    }
}

/// What a file is called that the map tells of.
proof fn lemma_told(
    cues: Seq<Cue>,
    files: Seq<MediaFile>,
    folder: Seq<char>,
    map: Seq<(String, String)>,
    i: int,
)
    requires
        files_gathered(cues, files),
        plain_dir(folder),
        map_tells(map, files, folder),
        0 <= i < files.len(),
    ensures
        mapped(map, files[i].original@) == Some(map[i].1@),
        under_media(map[i].1@),
{
    let all = files_of(cues, cues.len() as int);
    let views = media_views(files);
    let f = files[i].original@;
    lemma_files_distinct(cues, cues.len() as int);
    lemma_mapped(map, f);
    assert(map[i].0@ == f);
    assert(mapped(map, f) is Some);
    let k = choose|k: int|
        0 <= k < map.len() && (#[trigger] map[k]).0@ == f && map[k].1@ == mapped(map, f)->0;
    assert(all[k] == files[k].original@);
    assert(all[i] == f);
    assert(k == i) by {
        if k < i {
            assert(all[k] != all[i]);
        } else if i < k {
            assert(all[i] != all[k]);
        }
    }
    let p = packed_parts(views, i);
    assert(has_name(views[i]) && plain_below(views[i]));
    lemma_place_leads_into(views, i, folder);
    files_are_packed_into_media(views, i);
    let text = join(p, "/"@);
    reveal_strlit("/");
    reveal_strlit("Media");
    lemma_join_first(p, "/"@);
    let tail = join(p.drop_first(), "/"@);
    assert(text == "Media"@ + "/"@ + tail);
    assert(tail.len() > 0) by {
        lemma_plain_tail(views, i);
    }
    assert(text.take(5) =~= "Media"@);
    assert(text[5] == '/');
    assert(backslashed(text).take(5) =~= "Media"@);
    assert(backslashed(text)[5] == '\\');
}

/// A place does not end with `Media`.
proof fn lemma_plain_tail(files: Seq<MediaView>, i: int)
    requires
        0 <= i < files.len(),
        has_name(files[i]),
    ensures
        join(packed_parts(files, i).drop_first(), "/"@).len() > 0,
{
    files_are_packed_into_media(files, i);
    let tail = packed_parts(files, i).drop_first();
    assert(tail.last() == files[i].name);
}

/// A packed project is whole: every cue that refers to a file now refers to one
/// in `Media`, by a path relative to the project; cues that refer to one file
/// by one path still do; and two cues refer to one path only where they
/// referred to one file. Nothing else of a cue changes.
pub proof fn a_packed_project_is_whole(
    cues: Seq<Cue>,
    packed: Seq<Cue>,
    files: Seq<MediaFile>,
    folder: Seq<char>,
    map: Seq<(String, String)>,
)
    requires
        files_gathered(cues, files),
        plain_dir(folder),
        map_tells(map, files, folder),
        packed.len() == cues.len(),
        forall|k: int| 0 <= k < cues.len() ==> repointed(cues[k], #[trigger] packed[k], map),
    ensures
        forall|k: int|
            0 <= k < cues.len() && file_of(cues[k].kind) is Some && file_of(cues[k].kind)->0.len()
                > 0 ==> file_of((#[trigger] packed[k]).kind) is Some && under_media(
                file_of(packed[k].kind)->0,
            ),
        forall|k: int, l: int|
            0 <= k < cues.len() && 0 <= l < cues.len() && file_of(cues[k].kind) is Some && file_of(
                cues[k].kind,
            ) == file_of(cues[l].kind) ==> file_of((#[trigger] packed[k]).kind) == file_of(
                (#[trigger] packed[l]).kind,
            ),
        forall|k: int, l: int, i: int, j: int|
            0 <= k < cues.len() && 0 <= l < cues.len() && 0 <= i < files.len() && 0 <= j
                < files.len() && #[trigger] refers_to(cues[k], files[i]) && #[trigger] refers_to(
                cues[l],
                files[j],
            ) && file_of(packed[k].kind) == file_of(packed[l].kind) ==> texts(files[i].parts@)
                == texts(files[j].parts@),
        forall|k: int|
            0 <= k < cues.len() ==> (#[trigger] packed[k]).base == cues[k].base && packed[k].extra
                == cues[k].extra && (packed[k].kind == cues[k].kind || exists|file: String|
                packed[k].kind == #[trigger] with_file(cues[k].kind, file)),
{
    let all = files_of(cues, cues.len() as int);
    let views = media_views(files);
    lemma_files_distinct(cues, cues.len() as int);
    assert forall|k: int|
        0 <= k < cues.len() && file_of(cues[k].kind) is Some && file_of(cues[k].kind)->0.len()
            > 0 implies file_of((#[trigger] packed[k]).kind) is Some && under_media(
        file_of(packed[k].kind)->0,
    ) by {
        let f = file_of(cues[k].kind)->0;
        assert(all.contains(f));
        let i = choose|i: int| 0 <= i < all.len() && all[i] == f;
        assert(files[i].original@ == f);
        lemma_told(cues, files, folder, map, i);
    }
    assert forall|k: int, l: int, i: int, j: int|
        0 <= k < cues.len() && 0 <= l < cues.len() && 0 <= i < files.len() && 0 <= j < files.len()
            && #[trigger] refers_to(cues[k], files[i]) && #[trigger] refers_to(cues[l], files[j])
            && file_of(packed[k].kind) == file_of(packed[l].kind) implies texts(files[i].parts@)
        == texts(files[j].parts@) by {
        lemma_told(cues, files, folder, map, i);
        lemma_told(cues, files, folder, map, j);
        assert(repointed(cues[k], packed[k], map));
        assert(repointed(cues[l], packed[l], map));
        assert(map[i].1@ == map[j].1@);
        assert(has_name(views[i]) && has_name(views[j]));
        lemma_place_leads_into(views, i, folder);
        lemma_place_leads_into(views, j, folder);
        assert forall|a: int, x: int|
            0 <= a < views.len() && views[a].root <= x < views[a].parts.len() implies !has_char(
            #[trigger] views[a].parts[x],
            '/',
        ) by {
            assert(plain_below(views[a]));
            assert(plain_part(views[a].parts[x]));
        }
        packed_paths_keep_files_apart(views, i, j, folder, map[i].1@, map[j].1@);
        assert(views[i].parts == texts(files[i].parts@));
    }
}

/// The last place of `c` in `s`, or the length of `s`.
pub open spec fn find_last(s: Seq<char>, c: char) -> nat
    decreases s.len(),
{
    if s.len() == 0 {
        0
    } else if s.last() == c {
        (s.len() - 1) as nat
    } else if find_last(s.drop_last(), c) < s.len() - 1 {
        find_last(s.drop_last(), c)
    } else {
        s.len()
    }
}

/// How much of a file name is left without its extension: what comes before
/// its last dot. A name that has only the dot it begins with has no extension.
pub open spec fn stem_len(name: Seq<char>) -> nat {
    let k = find_last(name, '.');
    if k == 0 || name == ".."@ {
        name.len()
    } else {
        k
    }
}

/// A path that ends in a file name, without the extension of that name.
pub open spec fn without_extension(path: Seq<char>, name: Seq<char>) -> Seq<char> {
    if name.is_suffix_of(path) {
        path.take(path.len() - name.len() + stem_len(name))
    } else {
        path
    }
}

fn last_place(v: &Vec<char>, c: char) -> (k: usize)
    ensures
        k == find_last(v@, c),
        k <= v@.len(),
{
    let n: usize = v.len();
    let mut k: usize = n;
    assert(v@.take(n as int) =~= v@);
    while k > 0
        invariant
            k <= n == v@.len(),
            find_last(v@, c) == (if find_last(v@.take(k as int), c) < k {
                find_last(v@.take(k as int), c)
            } else {
                n as nat
            }),
        decreases k,
    {
        assert(v@.take(k as int).drop_last() =~= v@.take(k - 1));
        assert(v@.take(k as int).last() == v@[k - 1]);
        if v[k - 1] == c {
            return k - 1;
        }
        k = k - 1;
    }
    n
}

fn strip_extension(path: &str, name: &str) -> (r: String)
    ensures
        r@ == without_extension(path@, name@),
{
    let p: Vec<char> = chars_of(path);
    let n: Vec<char> = chars_of(name);
    if n.len() > p.len() {
        return path.to_owned();
    }
    let start: usize = p.len() - n.len();
    let tail: String = text_of(&p, start, p.len());
    if !same(tail.as_str(), name) {
        return path.to_owned();
    }
    let dot: usize = last_place(&n, '.');
    let kept: usize = if dot == 0 || same(name, "..") {
        n.len()
    } else {
        dot
    };
    text_of(&p, 0, start + kept)
}

/// The folder that a project is packed into: the path that was picked, without
/// the extension. `name` is the file name in which that path ends, if it has
/// one.
pub fn pack_folder(picked: &FilePath, name: Option<&str>) -> (r: FilePath)
    ensures
        match name {
            Some(n) => r.text@ == without_extension(picked.text@, n@) && r.key@
                == without_extension(picked.key@, n@),
            None => r == *picked,
        },
{
    match name {
        Some(n) => FilePath {
            text: strip_extension(picked.text.as_str(), n),
            key: strip_extension(picked.key.as_str(), n),
        },
        None => picked.clone(),
    }
}

/// The project file inside a folder: it has the folder's name.
pub fn packed_project_name(folder: Option<&str>) -> (r: String)
    ensures
        r@ == (match folder {
            Some(n) => n@,
            None => "Packed"@,
        }) + ".qproj"@,
{
    let mut r: String = match folder {
        Some(n) => n.to_owned(),
        None => "Packed".to_owned(),
    };
    r.append(".qproj");
    r
}

proof fn lemma_files_prefix(a: Seq<Cue>, b: Seq<Cue>, n: int)
    requires
        n <= a.len(),
        n <= b.len(),
        forall|i: int| 0 <= i < n ==> a[i] == b[i],
    ensures
        files_of(a, n) == files_of(b, n),
    decreases n,
{
    if n > 0 {
        lemma_files_prefix(a, b, n - 1);
    }
}

/// One cue more adds its media, or the font of its text, behind the files of
/// the others, unless it has none or one of these is the same.
pub proof fn a_cue_adds_its_file(
    cues: &Vec<Cue>,
    more: &Vec<Cue>,
    cue: Cue,
    file: Seq<char>,
    r: Vec<String>,
    s: Vec<String>,
)
    requires
        call_ensures(referenced_files, (cues,), r),
        call_ensures(referenced_files, (more,), s),
        more@ == cues@.push(cue),
    ensures
        cues@.len() == 0 ==> r@.len() == 0,
        ({
            let its = match cue.kind {
                CueKind::Sound { path, .. } => path@ == file,
                CueKind::Video { path, .. } => path@ == file,
                CueKind::Image { path, .. } => path@ == file,
                CueKind::PixelMap { path } => path@ == file,
                CueKind::Text { font, .. } => font@ == file,
                _ => false,
            };
            &&& its && file.len() > 0 && !texts(r@).contains(file) ==> texts(s@) == texts(
                r@,
            ).push(file)
            &&& its && (file.len() == 0 || texts(r@).contains(file)) ==> texts(s@) == texts(r@)
        }),
        !(cue.kind is Sound || cue.kind is Video || cue.kind is Image || cue.kind is PixelMap
            || cue.kind is Text) ==> texts(s@) == texts(r@),
{
    let n = cues@.len() as int;
    lemma_files_prefix(cues@, more@, n);
    assert(more@[n] == cue);
    assert(texts(r@).len() == r@.len());
}

/// What starts the directory of every file of a name starts what they have in
/// common, and the other way round; without such a file nothing is in common.
pub proof fn the_prefix_is_what_all_directories_share(
    files: &Vec<MediaFile>,
    name: &str,
    r: Vec<String>,
    d: Seq<Seq<char>>,
)
    requires
        call_ensures(common_path_prefix, (files, name), r),
    ensures
        (exists|k: int| 0 <= k < files@.len() && (#[trigger] files@[k]).name@ == name@) ==> (
        d.is_prefix_of(texts(r@)) <==> (forall|k: int|
            0 <= k < files@.len() && (#[trigger] files@[k]).name@ == name@ ==> d.is_prefix_of(
                if files@[k].parts@.len() > files@[k].root {
                    texts(files@[k].parts@).drop_last()
                } else {
                    texts(files@[k].parts@)
                },
            ))),
        (forall|k: int| 0 <= k < files@.len() ==> (#[trigger] files@[k]).name@ != name@)
            ==> r@.len() == 0,
{
    let views = media_views(files@);
    let n = views.len() as int;
    assert forall|k: int| 0 <= k < n implies #[trigger] views[k] == media_view(files@[k]) && texts(
        files@[k].parts@,
    ).len() == files@[k].parts@.len() by {}
    assert(texts(r@).len() == r@.len());
    if exists|k: int| 0 <= k < files@.len() && (#[trigger] files@[k]).name@ == name@ {
        let k = choose|k: int| 0 <= k < files@.len() && (#[trigger] files@[k]).name@ == name@;
        assert(views[k].name == name@);
        the_common_directory_is_the_longest(views, name@, d);
        if d.is_prefix_of(texts(r@)) {
            assert forall|k: int|
                0 <= k < files@.len() && (#[trigger] files@[k]).name@ == name@ implies d.is_prefix_of(
                if files@[k].parts@.len() > files@[k].root {
                    texts(files@[k].parts@).drop_last()
                } else {
                    texts(files@[k].parts@)
                },
            ) by {
                assert(views[k].name == name@);
            }
        }
        if forall|k: int|
            0 <= k < files@.len() && (#[trigger] files@[k]).name@ == name@ ==> d.is_prefix_of(
                if files@[k].parts@.len() > files@[k].root {
                    texts(files@[k].parts@).drop_last()
                } else {
                    texts(files@[k].parts@)
                },
            ) {
            assert forall|k: int|
                0 <= k < views.len() && (#[trigger] views[k]).name == name@ implies d.is_prefix_of(
                parent(views[k]),
            ) by {
                assert(files@[k].name@ == name@);
            }
        }
    } else {
        assert forall|k: int| 0 <= k < n implies (#[trigger] views[k]).name != name@ by {
            assert(files@[k].name@ != name@);
        }
        lemma_unnamed(views, name@, n);
    }
}

proof fn lemma_unnamed(files: Seq<MediaView>, name: Seq<char>, n: int)
    requires
        0 <= n <= files.len(),
        forall|k: int| 0 <= k < n ==> (#[trigger] files[k]).name != name,
    ensures
        common_dir(files, name, n) is None,
        named(files, name, n) == 0,
    decreases n,
{
    if n > 0 {
        lemma_unnamed(files, name, n - 1);
    }
}

proof fn lemma_named_by_one(files: Seq<MediaView>, name: Seq<char>, n: int, i: int)
    requires
        0 <= i < files.len(),
        0 <= n <= files.len(),
        forall|k: int| 0 <= k < n && k != i ==> (#[trigger] files[k]).name != name,
    ensures
        named(files, name, n) <= 1,
        n <= i ==> named(files, name, n) == 0,
    decreases n,
{
    if n > 0 {
        lemma_named_by_one(files, name, n - 1, i);
    }
}

/// A file whose name no other has is packed right into `Media`.
pub proof fn a_name_of_its_own_stands_in_media(files: &Vec<MediaFile>, i: usize, r: Vec<String>)
    requires
        call_ensures(packed_to, (files, i), r),
        i < files@.len(),
        forall|k: int|
            0 <= k < files@.len() && k != i ==> (#[trigger] files@[k]).name@
                != files@[i as int].name@,
    ensures
        files@[i as int].leaf@.len() > 0 ==> texts(r@) == seq!["Media"@, files@[i as int].leaf@],
        files@[i as int].leaf@.len() == 0 ==> texts(r@) == seq!["Media"@],
{
    let views = media_views(files@);
    let f = views[i as int];
    assert(f == media_view(files@[i as int]));
    assert forall|k: int| 0 <= k < views.len() && k != i implies (#[trigger] views[k]).name
        != f.name by {
        assert(views[k] == media_view(files@[k]));
        assert(files@[k].name@ != files@[i as int].name@);
    }
    lemma_named_by_one(views, f.name, views.len() as int, i as int);
}

/// A file that shares its name keeps the directories below what all files of
/// the name have in common, where that reaches their roots.
pub proof fn a_shared_name_keeps_its_directories(
    files: &Vec<MediaFile>,
    i: usize,
    j: int,
    name: &str,
    r: Vec<String>,
    shared: Vec<String>,
)
    requires
        call_ensures(packed_to, (files, i), r),
        call_ensures(common_path_prefix, (files, name), shared),
        i < files@.len(),
        0 <= j < files@.len(),
        j != i,
        files@[i as int].name@ == name@,
        files@[j].name@ == name@,
        forall|k: int|
            0 <= k < files@.len() && (#[trigger] files@[k]).name@ == name@ ==> files@[k].root
                <= shared@.len(),
    ensures
        texts(r@) == seq!["Media"@] + texts(files@[i as int].parts@).skip(shared@.len() as int),
{
    let views = media_views(files@);
    let f = views[i as int];
    assert(f == media_view(files@[i as int]));
    assert(views[j] == media_view(files@[j]));
    assert(texts(shared@).len() == shared@.len());
    if i < j {
        lemma_named(views, f.name, views.len() as int, i as int, j);
    } else {
        lemma_named(views, f.name, views.len() as int, j, i as int);
    }
    assert(!scattered(views, f.name)) by {
        assert forall|k: int| 0 <= k < views.len() && (#[trigger] views[k]).name == f.name implies {
            common_prefix(views, f.name).len() >= views[k].root
        } by {
            assert(views[k] == media_view(files@[k]));
            assert(files@[k].name@ == name@);
        }
    }
}

proof fn lemma_first_on_root_is(files: Seq<MediaView>, root: Seq<Seq<char>>, first: int)
    requires
        0 <= first < files.len(),
        root_of(files[first]) == root,
        forall|k: int| 0 <= k < first ==> root_of(#[trigger] files[k]) != root,
    ensures
        first_on_root(files, root) == first,
    decreases files.len(),
{
    if first > 0 {
        assert(root_of(files[0]) != root);
        let rest = files.drop_first();
        assert(rest[first - 1] == files[first]);
        assert forall|k: int| 0 <= k < first - 1 implies root_of(#[trigger] rest[k]) != root by {
            assert(rest[k] == files[k + 1]);
        }
        lemma_first_on_root_is(rest, root, first - 1);
    }
}

/// A file that shares its name with one on another root goes below a directory
/// that is numbered by the first file on its root, with all its directories.
pub proof fn a_name_on_two_roots_gets_a_directory_for_each(
    files: &Vec<MediaFile>,
    i: usize,
    j: int,
    first: int,
    name: &str,
    r: Vec<String>,
    shared: Vec<String>,
)
    requires
        call_ensures(packed_to, (files, i), r),
        call_ensures(common_path_prefix, (files, name), shared),
        i < files@.len(),
        0 <= j < files@.len(),
        j != i,
        files@[i as int].name@ == name@,
        files@[j].name@ == name@,
        files@[j].root > shared@.len(),
        0 <= first < files@.len(),
        texts(files@[first].parts@).take(files@[first].root as int) == texts(
            files@[i as int].parts@,
        ).take(files@[i as int].root as int),
        forall|k: int|
            0 <= k < first ==> texts((#[trigger] files@[k]).parts@).take(files@[k].root as int)
                != texts(files@[i as int].parts@).take(files@[i as int].root as int),
    ensures
        texts(r@) == seq!["Media"@, "root-"@ + decimal((first + 1) as nat)] + texts(
            files@[i as int].parts@,
        ).skip(files@[i as int].root as int),
{
    let views = media_views(files@);
    let f = views[i as int];
    assert(f == media_view(files@[i as int]));
    assert(views[j] == media_view(files@[j]));
    assert(texts(shared@).len() == shared@.len());
    if i < j {
        lemma_named(views, f.name, views.len() as int, i as int, j);
    } else {
        lemma_named(views, f.name, views.len() as int, j, i as int);
    }
    assert(views[j].name == f.name && common_prefix(views, f.name).len() < views[j].root);
    assert(scattered(views, f.name));
    assert(views[first] == media_view(files@[first]));
    assert forall|k: int| 0 <= k < first implies root_of(#[trigger] views[k]) != root_of(f) by {
        assert(views[k] == media_view(files@[k]));
        assert(files@[k] == files@[k]);
    }
    lemma_first_on_root_is(views, root_of(f), first);
}

/// A packed file is written as seen from the folder, and by its path where it
/// cannot be seen from there.
pub proof fn a_packed_file_is_written_from_the_folder(
    relative: String,
    path: String,
    r: String,
    s: String,
)
    requires
        call_ensures(packed_name, (Some(relative), path), r),
        call_ensures(packed_name, (None, path), s),
    ensures
        r == relative,
        s == path,
{
}

proof fn lemma_mapped_first(map: Seq<(String, String)>, file: Seq<char>, k: int)
    requires
        0 <= k <= map.len(),
        forall|j: int| 0 <= j < k ==> (#[trigger] map[j]).0@ != file,
        k < map.len() ==> map[k].0@ == file,
    ensures
        k < map.len() ==> mapped(map, file) == Some(map[k].1@),
        k == map.len() ==> mapped(map, file) is None,
    decreases map.len(),
{
    if map.len() > 0 && k > 0 {
        assert(map[0].0@ != file);
        let rest = map.drop_first();
        assert forall|j: int| 0 <= j < k - 1 implies (#[trigger] rest[j]).0@ != file by {
            assert(rest[j] == map[j + 1]);
        }
        if k < map.len() {
            assert(rest[k - 1] == map[k]);
        }
        lemma_mapped_first(rest, file, k - 1);
    }
}

/// Packing points a cue to where its file went and leaves the rest of the cue:
/// the first entry of the map for the file decides.
pub proof fn a_packed_cue_keeps_all_but_its_file(
    state: &mut SharedState,
    map: &Vec<(String, String)>,
    i: int,
    k: int,
)
    requires
        call_ensures(pack_project, (state, map), ()),
        0 <= i < old(state)@.show_file.cues.len(),
        0 <= k < map@.len(),
        forall|j: int| 0 <= j < k ==> (#[trigger] map@[j]).0@ != map@[k].0@,
    ensures
        final(state)@.show_file.cues.len() == old(state)@.show_file.cues.len(),
        ({
            let a = old(state)@.show_file.cues[i];
            let b = final(state)@.show_file.cues[i];
            let from = map@[k].0@;
            let to = map@[k].1@;
            &&& b.base == a.base
            &&& b.extra == a.extra
            &&& a.kind matches CueKind::Sound {
                path,
                start_time,
                duration,
                volume,
                pan,
                fade_in,
                fade_out,
                fade_type,
            } ==> path@ == from ==> (b.kind matches CueKind::Sound {
                path: p,
                start_time: s1,
                duration: s2,
                volume: s3,
                pan: s4,
                fade_in: s5,
                fade_out: s6,
                fade_type: s7,
            } && p@ == to && s1 == start_time && s2 == duration && s3 == volume && s4 == pan && s5
                == fade_in && s6 == fade_out && s7 == fade_type)
            &&& a.kind matches CueKind::Video {
                path,
                start_time,
                duration,
                volume,
                pan,
                fade_in,
                fade_out,
                fade_type,
                follow_mtc,
                mtc_start,
            } ==> path@ == from ==> (b.kind matches CueKind::Video {
                path: p,
                start_time: s1,
                duration: s2,
                volume: s3,
                pan: s4,
                fade_in: s5,
                fade_out: s6,
                fade_type: s7,
                follow_mtc: s8,
                mtc_start: s9,
            } && p@ == to && s1 == start_time && s2 == duration && s3 == volume && s4 == pan && s5
                == fade_in && s6 == fade_out && s7 == fade_type && s8 == follow_mtc && s9
                == mtc_start)
            &&& a.kind matches CueKind::Image { path, fit } ==> path@ == from ==> (
            b.kind matches CueKind::Image { path: p, fit: f } && p@ == to && f == fit)
            &&& a.kind matches CueKind::PixelMap { path } ==> path@ == from ==> (
            b.kind matches CueKind::PixelMap { path: p } && p@ == to)
            &&& a.kind matches CueKind::Text { text, font_size, colour, fit, font } ==> font@ == from
                ==> (b.kind matches CueKind::Text {
                text: s1,
                font_size: s2,
                colour: s3,
                fit: s4,
                font: p,
            } && p@ == to && s1 == text && s2 == font_size && s3 == colour && s4 == fit)
        }),
{
    lemma_mapped_first(map@, map@[k].0@, k);
    let a = old(state)@.show_file.cues[i];
    let b = final(state)@.show_file.cues[i];
    assert(repointed(a, b, map@));
}

/// A cue without a file, or with one that was not packed, stays as it is, and
/// so does everything but the cues.
pub proof fn packing_touches_nothing_else(
    state: &mut SharedState,
    map: &Vec<(String, String)>,
    i: int,
)
    requires
        call_ensures(pack_project, (state, map), ()),
        0 <= i < old(state)@.show_file.cues.len(),
    ensures
        ({
            let a = old(state)@.show_file.cues[i];
            let b = final(state)@.show_file.cues[i];
            let unpacked = |t: Seq<char>|
                forall|j: int| 0 <= j < map@.len() ==> (#[trigger] map@[j]).0@ != t;
            match a.kind {
                CueKind::Sound { path, .. } => unpacked(path@) ==> b == a,
                CueKind::Video { path, .. } => unpacked(path@) ==> b == a,
                CueKind::Image { path, .. } => unpacked(path@) ==> b == a,
                CueKind::PixelMap { path } => unpacked(path@) ==> b == a,
                CueKind::Text { font, .. } => unpacked(font@) ==> b == a,
                _ => b == a,
            }
        }),
        final(state)@.dirty == old(state)@.dirty,
        final(state)@.undo_redo == old(state)@.undo_redo,
        final(state)@ == (StateView {
            show_file: ShowView { cues: final(state)@.show_file.cues, ..old(state)@.show_file },
            ..old(state)@
        }),
{
    let a = old(state)@.show_file.cues[i];
    let b = final(state)@.show_file.cues[i];
    assert(repointed(a, b, map@));
    if let Some(f) = file_of(a.kind) {
        if forall|j: int| 0 <= j < map@.len() ==> (#[trigger] map@[j]).0@ != f {
            lemma_mapped_first(map@, f, map@.len() as int);
        }
    }
}

proof fn lemma_find_last(stem: Seq<char>, ext: Seq<char>, c: char)
    requires
        forall|i: int| 0 <= i < ext.len() ==> ext[i] != c,
    ensures
        find_last(stem + seq![c] + ext, c) == stem.len(),
        find_last(ext, c) == ext.len(),
    decreases ext.len(),
{
    let s = stem + seq![c] + ext;
    if ext.len() > 0 {
        let short = ext.drop_last();
        lemma_find_last(stem, short, c);
        assert(s.drop_last() =~= stem + seq![c] + short);
        assert(s.last() == ext.last());
    }
}

/// A project is packed into a folder that has the name of the file without its
/// extension: what stands behind the last dot, and the dot.
pub proof fn a_folder_has_no_extension(
    picked: &FilePath,
    name: &str,
    r: FilePath,
    dir: Seq<char>,
    key_dir: Seq<char>,
    stem: Seq<char>,
    ext: Seq<char>,
)
    requires
        call_ensures(pack_folder, (picked, Some(name)), r),
        stem.len() > 0,
        forall|i: int| 0 <= i < ext.len() ==> ext[i] != '.',
        name@ == stem + seq!['.'] + ext,
        name@ != ".."@,
        picked.text@ == dir + name@,
        picked.key@ == key_dir + name@,
    ensures
        r.text@ == dir + stem,
        r.key@ == key_dir + stem,
{
    lemma_find_last(stem, ext, '.');
    assert(name@.is_suffix_of(picked.text@)) by {
        assert(picked.text@.subrange(dir.len() as int, picked.text@.len() as int) =~= name@);
    }
    assert(name@.is_suffix_of(picked.key@)) by {
        assert(picked.key@.subrange(key_dir.len() as int, picked.key@.len() as int) =~= name@);
    }
    assert(r.text@ =~= dir + stem);
    assert(r.key@ =~= key_dir + stem);
}

/// A name without a dot, or with none but the one it begins with, has no
/// extension, and the folder is the path that was picked; so it is where there
/// is no name.
pub proof fn a_folder_without_extension_is_as_picked(
    picked: &FilePath,
    name: &str,
    r: FilePath,
    s: FilePath,
)
    requires
        call_ensures(pack_folder, (picked, Some(name)), r),
        call_ensures(pack_folder, (picked, None), s),
        name@ == ".."@ || forall|i: int| 1 <= i < name@.len() ==> name@[i] != '.',
    ensures
        r.text@ == picked.text@,
        r.key@ == picked.key@,
        s == *picked,
{
    let n = name@;
    if n != ".."@ {
        if n.len() > 0 && n[0] == '.' {
            let ext = n.drop_first();
            lemma_find_last(Seq::empty(), ext, '.');
            assert(n =~= Seq::<char>::empty() + seq!['.'] + ext);
        } else {
            lemma_find_last(Seq::empty(), n, '.');
        }
    }
    assert(stem_len(n) == n.len());
    assert(r.text@ =~= picked.text@);
    assert(r.key@ =~= picked.key@);
}

/// The project file has the folder's name, or a name for any pack.
pub proof fn the_project_has_the_name_of_its_folder(folder: &str, r: String, s: String)
    requires
        call_ensures(packed_project_name, (Some(folder),), r),
        call_ensures(packed_project_name, (None,), s),
    ensures
        r@ == folder@ + ".qproj"@,
        s@ == "Packed"@ + ".qproj"@,
{
}

} // verus!
