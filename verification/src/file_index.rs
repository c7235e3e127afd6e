//! Per-file index: trimmed line content, the line offset of every local
//! function definition, and the resolved target of every imported name.

use vstd::prelude::*;

use crate::assoc::{assoc_find, assoc_map};
use crate::paths::{parent_dir, parent_dir_x, resolve_import, resolve_import_spec};
use crate::patterns::{import_pairs, import_pairs_x, line_capture, line_capture_x};
use crate::text::{content_of, join_lines, join_lines_x, split_content};

verus! {

/// One indexed file.
pub struct FileIndex {
    pub(crate) content: Vec<String>,
    pub(crate) fn_offsets: Vec<(String, usize)>,
    pub(crate) fn_imports: Vec<(String, String)>,
}

/// The mathematical content of a [`FileIndex`].
pub struct FileIndexView {
    pub content: Seq<Seq<char>>,
    pub fn_offsets: Map<Seq<char>, usize>,
    pub fn_imports: Map<Seq<char>, Seq<char>>,
}

impl View for FileIndex {
    type V = FileIndexView;

    closed spec fn view(&self) -> FileIndexView {
        FileIndexView {
            content: self.content.deep_view(),
            fn_offsets: assoc_map(self.fn_offsets@),
            fn_imports: assoc_map(self.fn_imports@),
        }
    }
}

/// The local definitions of the first `n` lines: each line's captured
/// identifier mapped to its zero-based offset, a later definition of the
/// same name overwriting an earlier one.
pub open spec fn offsets_upto(content: Seq<Seq<char>>, n: int) -> Map<Seq<char>, usize>
    decreases n,
{
    if n <= 0 {
        Map::empty()
    } else {
        let m = offsets_upto(content, n - 1);
        match line_capture(content[n - 1]) {
            Some(name) => m.insert(name, (n - 1) as usize),
            None => m,
        }
    }
}

/// The local definitions of a whole file.
pub open spec fn offsets_of(content: Seq<Seq<char>>) -> Map<Seq<char>, usize> {
    offsets_upto(content, content.len() as int)
}

/// The import map described by the first `n` recognized pairs: each name
/// mapped to its statically resolved target, a later pair overwriting an
/// earlier one.
pub open spec fn imports_upto(
    pairs: Seq<(Seq<char>, Seq<char>)>,
    dir: Seq<char>,
    n: int,
) -> Map<Seq<char>, Seq<char>>
    decreases n,
{
    if n <= 0 {
        Map::empty()
    } else {
        imports_upto(pairs, dir, n - 1).insert(
            pairs[n - 1].0,
            resolve_import_spec(dir, pairs[n - 1].1),
        )
    }
}

/// The import map of a whole file, whose statements are recognized in the
/// file's joined text and resolved against its directory.
pub open spec fn imports_of(content: Seq<Seq<char>>, dir: Seq<char>) -> Map<Seq<char>, Seq<char>> {
    let pairs = import_pairs(join_lines(content));
    imports_upto(pairs, dir, pairs.len() as int)
}

/// A file index agrees with its own content and location: the offsets are
/// exactly the definitions its lines declare, and the imports are exactly
/// the recognized statements resolved against the file's directory.
pub open spec fn file_index_consistent(v: FileIndexView, path: Seq<char>) -> bool {
    &&& v.fn_offsets == offsets_of(v.content)
    &&& v.fn_imports == imports_of(v.content, parent_dir(path))
}

/// Every recorded offset points at a line whose capture is exactly the
/// recorded name — so the first line a query hands back is the defining
/// line itself.
pub proof fn lemma_offsets_sound(content: Seq<Seq<char>>, n: int, name: Seq<char>)
    requires
        0 <= n <= content.len(),
        n <= usize::MAX,
        offsets_upto(content, n).contains_key(name),
    ensures
        offsets_upto(content, n)[name] < n,
        line_capture(content[offsets_upto(content, n)[name] as int]) == Some(name),
    decreases n,
{
    if n > 0 {
        if line_capture(content[n - 1]) == Some(name) {
        } else {
            lemma_offsets_sound(content, n - 1, name);
        }
    }
}

/// Every line matching a definition pattern puts its captured identifier
/// into the local-function mapping, at that line's offset or a later
/// matching line's — the later duplicate overwrites the earlier.
pub proof fn lemma_offsets_complete(content: Seq<Seq<char>>, n: int, i: int)
    requires
        0 <= i < n <= content.len(),
        n <= usize::MAX,
        line_capture(content[i]) is Some,
    ensures
        offsets_upto(content, n).contains_key(line_capture(content[i])->Some_0),
        offsets_upto(content, n)[line_capture(content[i])->Some_0] >= i,
    decreases n,
{
    if i < n - 1 {
        lemma_offsets_complete(content, n - 1, i);
    }
}

/// Every recognized `(name, module path)` pair puts its name into the
/// import mapping — a later pair for the same name overwrites an earlier
/// one.
pub proof fn lemma_imports_complete(
    pairs: Seq<(Seq<char>, Seq<char>)>,
    dir: Seq<char>,
    n: int,
    t: int,
)
    requires
        0 <= t < n <= pairs.len(),
    ensures
        imports_upto(pairs, dir, n).contains_key(pairs[t].0),
    decreases n,
{
    if t < n - 1 {
        lemma_imports_complete(pairs, dir, n - 1, t);
    }
}

/// Every recorded import target is the static resolution of some
/// recognized `(name, module path)` pair against the file's directory.
pub proof fn lemma_imports_sound(
    pairs: Seq<(Seq<char>, Seq<char>)>,
    dir: Seq<char>,
    n: int,
    name: Seq<char>,
)
    requires
        0 <= n <= pairs.len(),
        imports_upto(pairs, dir, n).contains_key(name),
    ensures
        exists|t: int|
            0 <= t < n && (#[trigger] pairs[t]).0 == name && imports_upto(pairs, dir, n)[name]
                == resolve_import_spec(dir, pairs[t].1),
    decreases n,
{
    if n > 0 {
        if pairs[n - 1].0 == name {
            assert(0 <= n - 1 < n && pairs[n - 1].0 == name && imports_upto(pairs, dir, n)[name]
                == resolve_import_spec(dir, pairs[n - 1].1));
        } else {
            lemma_imports_sound(pairs, dir, n - 1, name);
            let t = choose|t: int|
                0 <= t < n - 1 && (#[trigger] pairs[t]).0 == name && imports_upto(
                    pairs,
                    dir,
                    n - 1,
                )[name] == resolve_import_spec(dir, pairs[t].1);
            assert(0 <= t < n && pairs[t].0 == name && imports_upto(pairs, dir, n)[name]
                == resolve_import_spec(dir, pairs[t].1));
        }
    }
}

/// How a [`FileIndex`]'s view is put together from its fields.
pub(crate) proof fn lemma_file_index_parts(fi: &FileIndex)
    ensures
        fi@.content == fi.content.deep_view(),
        fi@.fn_offsets == assoc_map(fi.fn_offsets@),
        fi@.fn_imports == assoc_map(fi.fn_imports@),
{
}

impl FileIndex {
    /// Index one file's text: record its trimmed lines, the definitions
    /// they declare, and the resolved targets of its imports.
    pub fn build(path: &str, raw: &str) -> (r: FileIndex)
        ensures
            r@.content == content_of(raw@),
            file_index_consistent(r@, path@),
            r@.content.len() <= usize::MAX,
    {
        let content = split_content(raw);
        let mut fn_offsets: Vec<(String, usize)> = Vec::new();
        let mut i: usize = 0;
        while i < content.len()
            invariant
                i <= content.len(),
                content.deep_view() == content_of(raw@),
                assoc_map(fn_offsets@) == offsets_upto(content.deep_view(), i as int),
            decreases content.len() - i,
        {
            match line_capture_x(content[i].as_str()) {
                Some(name) => {
                    let ghost nv = name@;
                    let ghost pre = fn_offsets@;
                    fn_offsets.push((name, i));
                    proof {
                        assert(fn_offsets@.drop_last() =~= pre);
                        assert(fn_offsets@.last().0@ == nv && fn_offsets@.last().1 == i);
                        assert(assoc_map(fn_offsets@) =~= offsets_upto(
                            content.deep_view(),
                            i + 1,
                        ));
                    }
                },
                None => {
                    assert(offsets_upto(content.deep_view(), i + 1) =~= offsets_upto(
                        content.deep_view(),
                        i as int,
                    ));
                },
            }
            i += 1;
        }
        let dir = parent_dir_x(path);
        let blob = join_lines_x(&content);
        let pairs = import_pairs_x(blob.as_str());
        let mut fn_imports: Vec<(String, String)> = Vec::new();
        let mut t: usize = 0;
        while t < pairs.len()
            invariant
                t <= pairs.len(),
                content.deep_view() == content_of(raw@),
                dir@ == parent_dir(path@),
                pairs.deep_view() == import_pairs(join_lines(content.deep_view())),
                assoc_map(fn_imports@) == imports_upto(pairs.deep_view(), dir@, t as int),
            decreases pairs.len() - t,
        {
            let resolved = resolve_import(dir.as_str(), pairs[t].1.as_str());
            let name = pairs[t].0.clone();
            let ghost nv = name@;
            let ghost rv = resolved@;
            let ghost pre = fn_imports@;
            fn_imports.push((name, resolved));
            proof {
                assert(fn_imports@.drop_last() =~= pre);
                assert(fn_imports@.last().0@ == nv && fn_imports@.last().1@ == rv);
                assert(pairs.deep_view()[t as int].0 == pairs@[t as int].0@);
                assert(pairs.deep_view()[t as int].1 == pairs@[t as int].1@);
                assert(assoc_map(fn_imports@) =~= imports_upto(pairs.deep_view(), dir@, t + 1));
            }
            t += 1;
        }
        let n: usize = content.len();
        let r = FileIndex { content, fn_offsets, fn_imports };
        proof {
            assert(n == r@.content.len());
            assert(offsets_upto(r@.content, r@.content.len() as int) == offsets_of(r@.content));
        }
        r
    }

    /// The offset recorded for a locally defined function, if any.
    pub fn find_local_fn_offset(&self, func_name: &str) -> (r: Option<usize>)
        ensures
            match r {
                Some(off) => self@.fn_offsets.contains_key(func_name@) && off
                    == self@.fn_offsets[func_name@],
                None => !self@.fn_offsets.contains_key(func_name@),
            },
    {
        match assoc_find(&self.fn_offsets, func_name) {
            Some(v) => Some(*v),
            None => None,
        }
    }

    /// The resolved target recorded for an imported name, if any.
    pub fn find_import(&self, name: &str) -> (r: Option<String>)
        ensures
            match r {
                Some(p) => self@.fn_imports.contains_key(name@) && p@
                    == self@.fn_imports[name@],
                None => !self@.fn_imports.contains_key(name@),
            },
    {
        match assoc_find(&self.fn_imports, name) {
            Some(v) => Some(v.clone()),
            None => None,
        }
    }

    /// How many lines the file has.
    pub fn line_count(&self) -> (r: usize)
        ensures
            r == self@.content.len(),
    {
        self.content.len()
    }

    /// One line of the file's trimmed content.
    pub fn line_at(&self, i: usize) -> (r: &String)
        requires
            i < self@.content.len(),
        ensures
            r@ == self@.content[i as int],
    {
        &self.content[i]
    }
}

} // verus!
