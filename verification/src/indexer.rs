//! The indexer: walks a project directory once, builds one [`FileIndex`]
//! per eligible file, and answers retrieval queries by combining local
//! lookups with cross-file import resolution.

use vstd::prelude::*;

use crate::assoc::{assoc_find, assoc_map, lemma_assoc_map_nonempty};
use crate::file_index::{
    file_index_consistent, imports_of, lemma_file_index_parts, lemma_imports_sound,
    lemma_offsets_sound, offsets_of, FileIndex, FileIndexView,
};
use crate::paths::{parent_dir, resolve_import_spec};
use crate::patterns::{import_pairs, line_capture};
use crate::text::{clone_lines, join_lines};
use crate::utils::{ContentCursor, OptionIterator};

verus! {

/// Why indexing or a query failed. Each variant names what is needed to
/// diagnose it: the missing directory, the unreadable file, the path that
/// was never indexed, or the function and file of a broken import.
#[derive(Debug)]
pub enum IndexerError {
    /// The project directory does not exist.
    DirNotFound(String),
    /// Traversal finished without indexing a single file.
    EmptyProject(String),
    /// A file that survived filtering could not be read or resolved.
    FileRead(String),
    /// A path expected to be in the catalog is not: the caller queried a
    /// file that was never indexed, or an import resolved outside the
    /// indexed tree. Unrecoverable by design, surfaced as a distinct
    /// error value.
    UnindexedFile(String),
    /// An import was registered for the name, but the file it resolves to
    /// defines no function of that name.
    MissingDefinition(String, String),
}

/// What a query comes to, stated over the catalog alone.
pub enum LookupOutcome {
    /// The function is defined in `file` at line `offset`.
    Found { file: Seq<char>, offset: usize },
    /// Neither a local definition (when no qualifier was given) nor an
    /// import entry: the soft "not found" outcome.
    Miss,
    /// A path that should have been in the catalog is not.
    Unindexed { path: Seq<char> },
    /// The import's target file does not define the function.
    MissingDefinition,
}

/// The retrieval protocol. Without a qualifier a local definition wins
/// outright; otherwise the qualifier (or, failing that, the function name)
/// is looked up among the file's imports, and the function must be defined
/// locally in the file the import resolves to.
pub open spec fn lookup_spec(
    cat: Map<Seq<char>, FileIndexView>,
    file: Seq<char>,
    name: Seq<char>,
    qual: Option<Seq<char>>,
) -> LookupOutcome {
    if !cat.contains_key(file) {
        LookupOutcome::Unindexed { path: file }
    } else {
        let fi = cat[file];
        if qual is None && fi.fn_offsets.contains_key(name) {
            LookupOutcome::Found { file, offset: fi.fn_offsets[name] }
        } else {
            let key = if qual is Some {
                qual->0
            } else {
                name
            };
            if !fi.fn_imports.contains_key(key) {
                LookupOutcome::Miss
            } else {
                let target = fi.fn_imports[key];
                if !cat.contains_key(target) {
                    LookupOutcome::Unindexed { path: target }
                } else if !cat[target].fn_offsets.contains_key(name) {
                    LookupOutcome::MissingDefinition
                } else {
                    LookupOutcome::Found {
                        file: target,
                        offset: cat[target].fn_offsets[name],
                    }
                }
            }
        }
    }
}

/// How an executable query result realizes a [`LookupOutcome`].
pub open spec fn result_matches(
    cat: Map<Seq<char>, FileIndexView>,
    r: Result<OptionIterator<ContentCursor>, IndexerError>,
    outcome: LookupOutcome,
) -> bool {
    match outcome {
        LookupOutcome::Found { file, offset } => {
            &&& r is Ok
            &&& r->Ok_0.iter is Some
            &&& r->Ok_0.iter->Some_0.lines.deep_view() == cat[file].content
            &&& r->Ok_0.iter->Some_0.pos == offset
        },
        LookupOutcome::Miss => r is Ok && r->Ok_0.iter is None,
        LookupOutcome::Unindexed { path } => {
            &&& r is Err
            &&& r->Err_0 matches IndexerError::UnindexedFile(p) && p@ == path
        },
        LookupOutcome::MissingDefinition => {
            &&& r is Err
            &&& r->Err_0 is MissingDefinition
        },
    }
}

/// The view of an optional qualifier.
pub open spec fn qual_view(o: Option<String>) -> Option<Seq<char>> {
    match o {
        Some(s) => Some(s@),
        None => None,
    }
}

/// Relies on `fs_err::metadata`: whether a path exists on disk.
#[verifier::external_body]
pub fn path_exists(path: &str) -> (r: bool) {
    fs_err::metadata(path).is_ok()
}

/// Relies on `walkdir::WalkDir`: walks `root` recursively and returns the
/// path of every file entry it yields, pruning every entry the verified
/// [`crate::filter::entry_visible`] predicate rejects (an entry whose name
/// is not valid Unicode is never pruned). What comes back depends on the
/// directory tree on disk, so nothing more is assumed of it.
#[verifier::external_body]
fn walk_project(root: &str) -> (files: Vec<String>) {
    let mut out: Vec<String> = Vec::new();
    let walker = walkdir::WalkDir::new(root).into_iter();
    for entry in walker.filter_entry(|e| match e.file_name().to_str() {
        Some(name) => crate::filter::entry_visible(name, e.file_type().is_file()),
        None => true,
    }) {
        if let Ok(e) = entry {
            if e.file_type().is_file() {
                out.push(e.path().display().to_string());
            }
        }
    }
    out
}

/// Relies on `fs_err::canonicalize`: the canonical absolute form of a
/// path, or `None` where the path cannot be resolved on disk.
#[verifier::external_body]
fn canonicalize_path(path: &str) -> (r: Option<String>) {
    match fs_err::canonicalize(path) {
        Ok(p) => Some(p.display().to_string()),
        Err(_) => None,
    }
}

/// Relies on `fs_err::read_to_string`: a file's text, or `None` where the
/// file cannot be read.
#[verifier::external_body]
fn read_file(path: &str) -> (r: Option<String>) {
    match fs_err::read_to_string(path) {
        Ok(s) => Some(s),
        Err(_) => None,
    }
}

/// The indexing session: the directory to scan and the catalog built from
/// it, one entry per indexed file, keyed by canonical absolute path.
pub struct Indexer {
    project_dir: String,
    catalog: Vec<(String, FileIndex)>,
}

impl Indexer {
    /// The directory this indexer scans.
    pub closed spec fn dir_spec(&self) -> Seq<char> {
        self.project_dir@
    }

    /// The catalog as a map from canonical path to file-index view.
    pub closed spec fn catalog_spec(&self) -> Map<Seq<char>, FileIndexView> {
        assoc_map(self.catalog@)
    }

    /// Every catalog entry agrees with its own content and key: its
    /// offsets are the definitions its lines declare, its imports the
    /// recognized statements resolved against its directory. The length
    /// bound records that every entry came from a real vector of lines.
    pub open spec fn wf(&self) -> bool {
        forall|p: Seq<char>| #[trigger]
            self.catalog_spec().contains_key(p) ==> file_index_consistent(
                self.catalog_spec()[p],
                p,
            ) && self.catalog_spec()[p].content.len() <= usize::MAX
    }

    /// A fresh indexer for `project_dir`: pure, no input/output; the
    /// catalog starts empty.
    pub fn new(project_dir: &str) -> (r: Indexer)
        ensures
            r.dir_spec() == project_dir@,
            r.catalog_spec() == Map::<Seq<char>, FileIndexView>::empty(),
            r.wf(),
    {
        let r = Indexer { project_dir: project_dir.to_owned(), catalog: Vec::new() };
        proof {
            assert(r.catalog_spec() =~= Map::<Seq<char>, FileIndexView>::empty());
        }
        r
    }

    /// Whether a canonical path was indexed.
    pub fn has_file(&self, path: &str) -> (r: bool)
        ensures
            r == self.catalog_spec().contains_key(path@),
    {
        match assoc_find(&self.catalog, path) {
            Some(_) => true,
            None => false,
        }
    }

    /// The indexed state of one file.
    pub fn get_index(&self, path: &str) -> (r: Option<&FileIndex>)
        ensures
            match r {
                Some(fi) => self.catalog_spec().contains_key(path@) && fi@ == self.catalog_spec()[
                    path@
                ],
                None => !self.catalog_spec().contains_key(path@),
            },
    {
        assoc_find(&self.catalog, path)
    }

    /// Walk the project directory, index every eligible file, and fail
    /// with a descriptive error where the directory is missing, a file
    /// cannot be read (no partial catalog is kept), or nothing at all was
    /// indexed.
    pub fn index(&mut self) -> (r: Result<(), IndexerError>)
        requires
            old(self).wf(),
        ensures
            final(self).dir_spec() == old(self).dir_spec(),
            final(self).wf(),
            r is Ok ==> exists|p: Seq<char>| final(self).catalog_spec().contains_key(p),
            r matches Err(IndexerError::DirNotFound(d)) ==> d@ == old(self).dir_spec()
                && final(self).catalog_spec() == old(self).catalog_spec(),
            r matches Err(IndexerError::EmptyProject(d)) ==> d@ == old(self).dir_spec()
                && final(self).catalog_spec() == Map::<Seq<char>, FileIndexView>::empty(),
            r matches Err(IndexerError::FileRead(_)) ==> final(self).catalog_spec() == Map::<
                Seq<char>,
                FileIndexView,
            >::empty(),
            r is Err ==> (r->Err_0 matches IndexerError::DirNotFound(_) || r->Err_0 matches
                IndexerError::EmptyProject(_) || r->Err_0 matches IndexerError::FileRead(_)),
    {
        if !path_exists(self.project_dir.as_str()) {
            return Err(IndexerError::DirNotFound(self.project_dir.clone()));
        }
        let files = walk_project(self.project_dir.as_str());
        let mut i: usize = 0;
        while i < files.len()
            invariant
                i <= files.len(),
                self.wf(),
                self.dir_spec() == old(self).dir_spec(),
            decreases files.len() - i,
        {
            let cp = match canonicalize_path(files[i].as_str()) {
                Some(cp) => cp,
                None => {
                    self.catalog = Vec::new();
                    proof {
                        assert(self.catalog_spec() =~= Map::<Seq<char>, FileIndexView>::empty());
                    }
                    return Err(IndexerError::FileRead(files[i].clone()));
                },
            };
            let raw = match read_file(cp.as_str()) {
                Some(raw) => raw,
                None => {
                    self.catalog = Vec::new();
                    proof {
                        assert(self.catalog_spec() =~= Map::<Seq<char>, FileIndexView>::empty());
                    }
                    return Err(IndexerError::FileRead(cp));
                },
            };
            let fi = FileIndex::build(cp.as_str(), raw.as_str());
            let ghost cpv = cp@;
            let ghost fiv = fi@;
            let ghost precat = self.catalog@;
            let ghost premap = self.catalog_spec();
            self.catalog.push((cp, fi));
            proof {
                assert(self.catalog@.drop_last() =~= precat);
                assert(self.catalog@.last().0@ == cpv && self.catalog@.last().1@ == fiv);
                assert(self.catalog_spec() =~= premap.insert(cpv, fiv));
                assert forall|p: Seq<char>| #[trigger]
                    self.catalog_spec().contains_key(p) implies file_index_consistent(
                    self.catalog_spec()[p],
                    p,
                ) && self.catalog_spec()[p].content.len() <= usize::MAX by {
                    if p != cpv {
                        assert(premap.contains_key(p));
                        assert(self.catalog_spec()[p] == premap[p]);
                    }
                }
            }
            i += 1;
        }
        if self.catalog.len() == 0 {
            proof {
                assert(self.catalog_spec() =~= Map::<Seq<char>, FileIndexView>::empty());
            }
            return Err(IndexerError::EmptyProject(self.project_dir.clone()));
        }
        proof {
            lemma_assoc_map_nonempty(self.catalog@);
        }
        Ok(())
    }

    /// Resolve a function's content from an already canonical path: the
    /// fully specified core of the query protocol.
    pub fn lookup_fn_content(
        &self,
        abs_path: &str,
        func_name: &str,
        object: &Option<String>,
    ) -> (r: Result<OptionIterator<ContentCursor>, IndexerError>)
        requires
            self.wf(),
        ensures
            result_matches(
                self.catalog_spec(),
                r,
                lookup_spec(self.catalog_spec(), abs_path@, func_name@, qual_view(*object)),
            ),
            lookup_spec(self.catalog_spec(), abs_path@, func_name@, qual_view(*object))
                is MissingDefinition ==> (r->Err_0 matches IndexerError::MissingDefinition(f, _)
                && f@ == func_name@),
    {
        let fi = match assoc_find(&self.catalog, abs_path) {
            Some(fi) => fi,
            None => {
                return Err(IndexerError::UnindexedFile(abs_path.to_owned()));
            },
        };
        if object.is_none() {
            match fi.find_local_fn_offset(func_name) {
                Some(offset) => {
                    proof {
                        lemma_file_index_parts(fi);
                    }
                    let lines = clone_lines(&fi.content);
                    return Ok(OptionIterator::new(Some(ContentCursor { lines, pos: offset })));
                },
                None => {},
            }
        }
        let key: &str = match object {
            Some(o) => o.as_str(),
            None => func_name,
        };
        let import_path = match fi.find_import(key) {
            Some(p) => p,
            None => {
                return Ok(OptionIterator::new(None));
            },
        };
        let target = match assoc_find(&self.catalog, import_path.as_str()) {
            Some(t) => t,
            None => {
                return Err(IndexerError::UnindexedFile(import_path));
            },
        };
        match target.find_local_fn_offset(func_name) {
            Some(offset) => {
                proof {
                    lemma_file_index_parts(target);
                }
                let lines = clone_lines(&target.content);
                Ok(OptionIterator::new(Some(ContentCursor { lines, pos: offset })))
            },
            None => Err(IndexerError::MissingDefinition(func_name.to_owned(), import_path)),
        }
    }

    /// Resolve a function's content from any path referring to an indexed
    /// file: the path is brought to canonical absolute form first; one
    /// that cannot be resolved on disk was never indexed.
    pub fn iter_fn_content(
        &self,
        file_path: &str,
        func_name: &str,
        object: Option<String>,
    ) -> (r: Result<OptionIterator<ContentCursor>, IndexerError>)
        requires
            self.wf(),
        ensures
            (exists|c: Seq<char>|
                result_matches(
                    self.catalog_spec(),
                    r,
                    #[trigger] lookup_spec(self.catalog_spec(), c, func_name@, qual_view(object)),
                )) || (r matches Err(IndexerError::UnindexedFile(p)) && p@ == file_path@),
    {
        match canonicalize_path(file_path) {
            Some(abs) => {
                let rr = self.lookup_fn_content(abs.as_str(), func_name, &object);
                proof {
                    assert(result_matches(
                        self.catalog_spec(),
                        rr,
                        lookup_spec(self.catalog_spec(), abs@, func_name@, qual_view(object)),
                    ));
                }
                rr
            },
            None => Err(IndexerError::UnindexedFile(file_path.to_owned())),
        }
    }
}

/// Local-lookup precedence: a function defined locally in the queried
/// file, queried without a qualifier, is found at its local offset —
/// whatever the import map holds for the same name.
pub proof fn lemma_local_precedence(
    cat: Map<Seq<char>, FileIndexView>,
    file: Seq<char>,
    name: Seq<char>,
)
    requires
        cat.contains_key(file),
        cat[file].fn_offsets.contains_key(name),
    ensures
        lookup_spec(cat, file, name, None) == (LookupOutcome::Found {
            file,
            offset: cat[file].fn_offsets[name],
        }),
{
}

/// An unresolvable import key is a soft miss: where the key (the
/// qualifier, or the bare function name after a failed local lookup) has
/// no import entry, the lookup comes to the empty outcome — never to an
/// error.
pub proof fn lemma_miss_is_soft(
    cat: Map<Seq<char>, FileIndexView>,
    file: Seq<char>,
    name: Seq<char>,
    qual: Option<Seq<char>>,
)
    requires
        cat.contains_key(file),
        !cat[file].fn_imports.contains_key(
            if qual is Some {
                qual->0
            } else {
                name
            },
        ),
        qual is Some || !cat[file].fn_offsets.contains_key(name),
    ensures
        lookup_spec(cat, file, name, qual) == LookupOutcome::Miss,
{
}

/// Round trip: every function captured during indexing is found by an
/// unqualified query against its own file, and the line the query starts
/// at is the very line that matched its defining pattern.
pub proof fn lemma_round_trip(indexer: &Indexer, file: Seq<char>, name: Seq<char>)
    requires
        indexer.wf(),
        indexer.catalog_spec().contains_key(file),
        indexer.catalog_spec()[file].fn_offsets.contains_key(name),
    ensures
        ({
            let fi = indexer.catalog_spec()[file];
            &&& lookup_spec(indexer.catalog_spec(), file, name, None) == (LookupOutcome::Found {
                file,
                offset: fi.fn_offsets[name],
            })
            &&& fi.fn_offsets[name] < fi.content.len()
            &&& line_capture(fi.content[fi.fn_offsets[name] as int]) == Some(name)
        }),
{
    let fi = indexer.catalog_spec()[file];
    assert(fi.fn_offsets == offsets_of(fi.content));
    lemma_offsets_sound(fi.content, fi.content.len() as int, name);
}

/// Import resolution: every recorded import target is the importing
/// file's directory, the statement's module path and a `.js` suffix,
/// normalized — whichever recognized statement bound the name, and
/// however many names that statement destructured together.
pub proof fn lemma_import_resolution(indexer: &Indexer, file: Seq<char>, name: Seq<char>)
    requires
        indexer.wf(),
        indexer.catalog_spec().contains_key(file),
        indexer.catalog_spec()[file].fn_imports.contains_key(name),
    ensures
        ({
            let fi = indexer.catalog_spec()[file];
            let pairs = import_pairs(join_lines(fi.content));
            exists|t: int|
                0 <= t < pairs.len() && (#[trigger] pairs[t]).0 == name && fi.fn_imports[name]
                    == resolve_import_spec(parent_dir(file), pairs[t].1)
        }),
{
    let fi = indexer.catalog_spec()[file];
    assert(fi.fn_imports == imports_of(fi.content, parent_dir(file)));
    let pairs = import_pairs(join_lines(fi.content));
    lemma_imports_sound(pairs, parent_dir(file), pairs.len() as int, name);
}

} // verus!
