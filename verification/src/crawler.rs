//! The sandboxed codebase crawler: read-only filesystem observation,
//! strictly confined to a root directory, failing soft to empty results.
//!
//! The boundary rule is re-checked from scratch on every call: the candidate
//! target is re-canonicalized and must lie under the canonical root. Nothing
//! about a previous call is trusted, since the filesystem may have changed.

use vstd::prelude::*;

use crate::rank::{best_score, is_ranking, rank_paths, sorted_strict, SearchResult};
use crate::strutil::{is_prefix, str_eq, str_skip, str_starts_with};

verus! {

/// The ways a crawler request can be refused. The fail-soft operations
/// collapse every one of these to an empty result; the enum names the
/// causes for callers that want to report them.
#[derive(Clone, Debug)]
pub enum CrawlerError {
    /// The root path does not exist.
    RootPathDoesNotExist(String),
    /// The root path is not a directory.
    RootPathIsNotDirectory(String),
    /// The requested path is not a file or does not exist.
    PathNotAFile(String),
    /// The requested path is not a directory or does not exist.
    PathNotADirectory(String),
    /// The requested path resolves outside the root.
    AccessOutsideRoot(String),
    /// A filesystem operation failed.
    Io(String),
    /// Canonicalization of a path failed.
    Canonicalization(String),
    /// Any other unforeseen failure.
    Other(String),
}

/// One entry seen by the directory walker: its path and what kind of entry
/// it is.
#[derive(Clone, Debug)]
pub struct WalkEntry {
    pub path: String,
    pub is_file: bool,
    pub is_dir: bool,
}

/// Relies on std::path::Path::canonicalize: resolves symlinks and dot
/// segments against the filesystem as it is now. Canonicalization failure,
/// and a result that is not valid UTF-8, are both reported as `None`.
#[verifier::external_body]
fn canonicalize_os(path: &String) -> (r: Option<String>) {
    match std::path::Path::new(path).canonicalize() {
        Ok(p) => match p.into_os_string().into_string() {
            Ok(s) => Some(s),
            Err(_) => None,
        },
        Err(_) => None,
    }
}

/// Relies on std::path::Path::is_file: whether the path names an existing
/// regular file, at this moment.
#[verifier::external_body]
fn is_file_os(path: &String) -> (r: bool) {
    std::path::Path::new(path).is_file()
}

/// Relies on std::path::Path::is_dir: whether the path names an existing
/// directory, at this moment.
#[verifier::external_body]
fn is_dir_os(path: &String) -> (r: bool) {
    std::path::Path::new(path).is_dir()
}

/// Relies on tokio::fs::read_to_string, driven to completion on a private
/// single-threaded runtime: the file's current contents as UTF-8 text.
/// Every failure collapses to the empty string, and so does a call from
/// inside an async context, where blocking on a runtime would panic.
#[verifier::external_body]
fn read_to_string_os(path: &String) -> (r: String) {
    if tokio::runtime::Handle::try_current().is_ok() {
        return String::new();
    }
    match tokio::runtime::Builder::new_current_thread().build() {
        Ok(rt) => rt.block_on(tokio::fs::read_to_string(path)).unwrap_or_default(),
        Err(_) => String::new(),
    }
}

/// Relies on ignore::WalkBuilder: walks the tree under `root`, honoring
/// version-control ignore files and skipping hidden entries, to `max_depth`
/// levels when one is given. Unreadable entries are skipped; paths that are
/// not valid UTF-8 are reported lossily.
#[verifier::external_body]
fn walk_entries_os(root: &String, max_depth: Option<usize>) -> (r: Vec<WalkEntry>) {
    let mut builder = ignore::WalkBuilder::new(root);
    builder.git_ignore(true).git_exclude(true).git_global(true).hidden(true).max_depth(max_depth);
    let mut out = Vec::new();
    for res in builder.build() {
        if let Ok(entry) = res {
            let ft = entry.file_type();
            out.push(WalkEntry {
                path: entry.path().to_string_lossy().into_owned(),
                is_file: ft.map_or(false, |t| t.is_file()),
                is_dir: ft.map_or(false, |t| t.is_dir()),
            });
        }
    }
    out
}

/// `p` lies under `root`: it is `root` itself or a path below it, compared
/// component-wise (a separator must follow the root prefix).
pub open spec fn contained_in(root: Seq<char>, p: Seq<char>) -> bool {
    if root.len() > 0 && root.last() == '/' {
        is_prefix(root, p)
    } else {
        p == root || is_prefix(root + seq!['/'], p)
    }
}

/// Resolution of a relative path against the root, before canonicalization:
/// an absolute path replaces the root entirely.
pub open spec fn spec_join_path(root: Seq<char>, rel: Seq<char>) -> Seq<char> {
    if rel.len() > 0 && rel[0] == '/' {
        rel
    } else {
        root + seq!['/'] + rel
    }
}

/// The root-relative form of `p`: empty for the root itself, the remainder
/// after the separator for paths below it, nothing for paths outside.
pub open spec fn rel_of(root: Seq<char>, p: Seq<char>) -> Option<Seq<char>> {
    if p == root {
        Some(Seq::empty())
    } else if is_prefix(root + seq!['/'], p) {
        Some(p.skip(root.len() as int + 1))
    } else {
        None
    }
}

/// Exec join of the root and a relative path.
pub fn join_path(root: &str, rel: &str) -> (r: String)
    ensures
        r@ == spec_join_path(root@, rel@),
{
    proof {
        reveal_strlit("/");
        assert(("/")@ =~= seq!['/']);
    }
    if rel.unicode_len() > 0 && rel.get_char(0) == '/' {
        String::from_str(rel)
    } else {
        let mut out = String::from_str(root);
        out.append("/");
        out.append(rel);
        proof {
            assert(out@ =~= root@ + seq!['/'] + rel@);
        }
        out
    }
}

/// Exec containment decision; this is the sandbox boundary test.
pub fn path_contained(root: &str, candidate: &str) -> (r: bool)
    ensures
        r == contained_in(root@, candidate@),
{
    proof {
        reveal_strlit("/");
        assert(("/")@ =~= seq!['/']);
    }
    let root_len: usize = root.unicode_len();
    if root_len > 0 && root.get_char(root_len - 1) == '/' {
        str_starts_with(candidate, root)
    } else if str_eq(candidate, root) {
        true
    } else {
        let mut prefix = String::from_str(root);
        prefix.append("/");
        proof {
            assert(prefix@ =~= root@ + seq!['/']);
        }
        str_starts_with(candidate, prefix.as_str())
    }
}

/// Exec root-relative form of a walked path.
pub fn rel_of_exec(root: &str, p: &str) -> (r: Option<String>)
    ensures
        r.deep_view() == rel_of(root@, p@),
{
    proof {
        reveal_strlit("/");
        assert(("/")@ =~= seq!['/']);
    }
    if str_eq(p, root) {
        let out = String::new();
        proof {
            assert(out@ =~= Seq::<char>::empty());
        }
        Some(out)
    } else {
        let mut prefix = String::from_str(root);
        prefix.append("/");
        proof {
            assert(prefix@ =~= root@ + seq!['/']);
        }
        if str_starts_with(p, prefix.as_str()) {
            let root_len: usize = root.unicode_len();
            let p_len: usize = p.unicode_len();
            assert(root_len + 1 <= p_len);
            let rest = str_skip(p, root_len + 1);
            Some(String::from_str(rest))
        } else {
            None
        }
    }
}

/// What one walked entry contributes to a listing: its root-relative path,
/// unless it is the starting entry itself or lies outside the root.
pub open spec fn listed_entry(e: WalkEntry, root: Seq<char>, start: Seq<char>) -> Seq<Seq<char>> {
    if e.path@ == start {
        Seq::empty()
    } else {
        match rel_of(root, e.path@) {
            Some(s) => seq![s],
            None => Seq::empty(),
        }
    }
}

/// The listing derived from a walk: root-relative paths in walk order, the
/// starting entry excluded.
pub open spec fn listing_of(entries: Seq<WalkEntry>, root: Seq<char>, start: Seq<char>) -> Seq<
    Seq<char>,
>
    decreases entries.len(),
{
    if entries.len() == 0 {
        Seq::empty()
    } else {
        listing_of(entries.drop_last(), root, start) + listed_entry(entries.last(), root, start)
    }
}

/// Exec transformation of walked entries into a listing.
pub fn relativize_listing(entries: &Vec<WalkEntry>, root: &str, start: &str) -> (r: Vec<String>)
    ensures
        r.deep_view() == listing_of(entries@, root@, start@),
{
    let mut out: Vec<String> = Vec::new();
    let mut i: usize = 0;
    proof {
        assert(entries@.take(0) =~= Seq::<WalkEntry>::empty());
        assert(out.deep_view() =~= listing_of(entries@.take(0), root@, start@));
    }
    while i < entries.len()
        invariant
            i <= entries@.len(),
            out.deep_view() == listing_of(entries@.take(i as int), root@, start@),
        decreases entries@.len() - i,
    {
        let ghost prev_dv = out.deep_view();
        if !str_eq(entries[i].path.as_str(), start) {
            match rel_of_exec(root, entries[i].path.as_str()) {
                Some(s) => {
                    let ghost sv = s@;
                    out.push(s);
                    proof {
                        assert(out.deep_view() =~= prev_dv + seq![sv]);
                    }
                },
                None => {},
            }
        }
        proof {
            assert(entries@.take(i + 1).drop_last() =~= entries@.take(i as int));
            assert(entries@.take(i + 1).last() == entries@[i as int]);
            assert(out.deep_view() =~= listing_of(entries@.take(i + 1), root@, start@));
        }
        i = i + 1;
    }
    proof {
        assert(entries@.take(entries@.len() as int) =~= entries@);
    }
    out
}

/// What one walked entry offers the search: its root-relative path, when
/// the entry is a file or directory lying under the root.
pub open spec fn candidate_entry(e: WalkEntry, root: Seq<char>) -> Seq<Seq<char>> {
    if e.is_file || e.is_dir {
        match rel_of(root, e.path@) {
            Some(x) => seq![x],
            None => Seq::empty(),
        }
    } else {
        Seq::empty()
    }
}

/// The candidate paths a walk offers the search, in walk order: the
/// root-relative paths of its file and directory entries under the root.
pub open spec fn candidates(entries: Seq<WalkEntry>, root: Seq<char>) -> Seq<Seq<char>>
    decreases entries.len(),
{
    if entries.len() == 0 {
        Seq::empty()
    } else {
        candidates(entries.drop_last(), root) + candidate_entry(entries.last(), root)
    }
}

/// Ranks walked entries against the queries: exactly the ranking of the
/// walk's candidate paths.
pub fn rank_walked(entries: &Vec<WalkEntry>, root: &str, queries: &Vec<String>) -> (r: Vec<
    SearchResult,
>)
    ensures
        is_ranking(r@, candidates(entries@, root@), queries.deep_view()),
{
    let mut rels: Vec<String> = Vec::new();
    let mut i: usize = 0;
    proof {
        assert(entries@.take(0) =~= Seq::<WalkEntry>::empty());
        assert(rels.deep_view() =~= candidates(entries@.take(0), root@));
    }
    while i < entries.len()
        invariant
            i <= entries@.len(),
            rels.deep_view() == candidates(entries@.take(i as int), root@),
        decreases entries@.len() - i,
    {
        let ghost prev_dv = rels.deep_view();
        if entries[i].is_file || entries[i].is_dir {
            match rel_of_exec(root, entries[i].path.as_str()) {
                Some(rel) => {
                    let ghost rv = rel@;
                    rels.push(rel);
                    proof {
                        assert(rels.deep_view() =~= prev_dv + seq![rv]);
                    }
                },
                None => {},
            }
        }
        proof {
            assert(entries@.take(i + 1).drop_last() =~= entries@.take(i as int));
            assert(entries@.take(i + 1).last() == entries@[i as int]);
            assert(rels.deep_view() =~= candidates(entries@.take(i + 1), root@));
        }
        i = i + 1;
    }
    proof {
        assert(entries@.take(entries@.len() as int) =~= entries@);
    }
    rank_paths(&rels, queries)
}

/// A crawler session: the canonical root below which every observation is
/// confined. The root is fixed at construction and never mutated.
#[derive(Clone, Debug)]
pub struct Crawler {
    root: String,
}

impl Crawler {
    /// The canonical root this session is confined to.
    pub closed spec fn spec_root(&self) -> Seq<char> {
        self.root@
    }

    /// Construction never fails: the root is canonicalized when possible,
    /// kept as given otherwise (std::path::Path::canonicalize decides).
    pub fn new(root_path: String) -> (r: Crawler) {
        match canonicalize_os(&root_path) {
            Some(c) => Crawler { root: c },
            None => Crawler { root: root_path },
        }
    }

    /// The canonical root path.
    pub fn root_path(&self) -> (r: &str)
        ensures
            r@ == self.spec_root(),
    {
        self.root.as_str()
    }

    /// The guarded read at the heart of `read_file_contents`: unless the
    /// re-canonicalized target lies under the root and is a regular file,
    /// the result is empty and the filesystem is not read.
    pub fn guarded_read(&self, full: &String, canon: &String, target_is_file: bool) -> (r: String)
        ensures
            !(contained_in(self.spec_root(), canon@) && target_is_file) ==> r@ == Seq::<
                char,
            >::empty(),
    {
        if path_contained(self.root.as_str(), canon.as_str()) && target_is_file {
            read_to_string_os(full)
        } else {
            String::new()
        }
    }

    /// Reads a file strictly inside the root; any violation or failure
    /// (escape, missing file, wrong kind, I/O or decoding error) yields the
    /// empty string.
    pub fn read_file_contents(&self, rel: &str) -> (r: String) {
        let full = join_path(self.root.as_str(), rel);
        let canon = match canonicalize_os(&full) {
            Some(c) => c,
            None => full.clone(),
        };
        let target_is_file = is_file_os(&full);
        self.guarded_read(&full, &canon, target_is_file)
    }

    /// The guarded walk at the heart of `list_directory_contents`: unless
    /// the re-canonicalized target lies under the root and is a directory,
    /// the result is empty and nothing is walked.
    pub fn guarded_list(&self, canon: &String, target_is_dir: bool, depth: usize) -> (r: Vec<
        String,
    >)
        ensures
            !(contained_in(self.spec_root(), canon@) && target_is_dir) ==> r@.len() == 0,
    {
        if path_contained(self.root.as_str(), canon.as_str()) && target_is_dir {
            let max_depth: usize = if depth < usize::MAX {
                depth + 1
            } else {
                usize::MAX
            };
            let entries = walk_entries_os(canon, Some(max_depth));
            relativize_listing(&entries, self.root.as_str(), canon.as_str())
        } else {
            Vec::new()
        }
    }

    /// Lists entries within `depth` extra levels below `rel` (depth zero
    /// means immediate children), as root-relative paths, excluding the
    /// starting entry itself; any violation yields an empty list.
    pub fn list_directory_contents(&self, rel: &str, depth: usize) -> (r: Vec<String>) {
        let full = join_path(self.root.as_str(), rel);
        let canon = match canonicalize_os(&full) {
            Some(c) => c,
            None => full.clone(),
        };
        let target_is_dir = is_dir_os(&full);
        self.guarded_list(&canon, target_is_dir, depth)
    }

    /// Fuzzy-searches the tree under the root: the result is exactly the
    /// ranking (`rank_walked`, so `is_ranking`) of the walk's candidate
    /// paths — every walked file or directory under the root whose
    /// root-relative path scores positively appears, once, with its best
    /// score, strictly ordered, best score first, ties by path text. Which
    /// entries the walk yields rides on the filesystem; walker failures
    /// degrade to fewer (or no) results, never an error.
    pub fn fuzzy_search_paths(&self, queries: &Vec<String>) -> (r: Vec<SearchResult>)
        ensures
            exists|entries: Seq<WalkEntry>|
                #![trigger candidates(entries, self.spec_root())]
                is_ranking(r@, candidates(entries, self.spec_root()), queries.deep_view()),
            sorted_strict(r@),
            forall|k: int|
                #![trigger r@[k]]
                0 <= k < r@.len() ==> r@[k].score as int == best_score(
                    r@[k].path@,
                    queries.deep_view(),
                ) && r@[k].score > 0,
    {
        let entries = walk_entries_os(&self.root, None);
        let r = rank_walked(&entries, self.root.as_str(), queries);
        proof {
            assert(is_ranking(r@, candidates(entries@, self.spec_root()), queries.deep_view()));
        }
        r
    }
}

} // verus!
