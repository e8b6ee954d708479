//! The workspace document store: a cache of file contents keyed by path,
//! an include/exclude glob pattern pair, and range extraction on top of
//! the cached content.
//!
//! The store itself performs no I/O. What a disk read of a path would
//! yield right now is handed in as a [`DiskContent`] value by the caller
//! that owns the filesystem edge; the store decides whether that value is
//! consulted (cache miss) or ignored (cache hit), and what ends up cached.

use vstd::prelude::*;

use crate::TextRange;
use crate::errors::LspProxyError;
use crate::glob_match::{glob_match, spec_glob_match};
use crate::text::{extract_range, spec_extract_range};

verus! {

/// The outcome a disk read of some path would have.
#[derive(Clone, Debug)]
pub enum DiskContent {
    /// The file exists and holds this text.
    Found(String),
    /// No such file.
    Absent,
    /// The file exists but cannot be read.
    Unreadable,
}

/// A cache slot: the key's view paired with `None` ("known to exist, not
/// yet read") or `Some` of the cached content.
pub open spec fn spec_entry_value(v: Option<String>) -> Option<Seq<char>> {
    match v {
        Some(s) => Some(s@),
        None => None,
    }
}

/// Looks `k` up among the cache entries: `None` when no entry has key
/// `k`, otherwise `Some` of that entry's (possibly unread) content.
pub open spec fn spec_find(
    entries: Seq<(String, Option<String>)>,
    k: Seq<char>,
) -> Option<Option<Seq<char>>>
    decreases entries.len(),
{
    if entries.len() == 0 {
        None
    } else if entries[0].0@ == k {
        Some(spec_entry_value(entries[0].1))
    } else {
        spec_find(entries.drop_first(), k)
    }
}

/// No two cache entries share a key.
pub open spec fn spec_unique_keys(entries: Seq<(String, Option<String>)>) -> bool {
    forall|i: int, j: int| 0 <= i < j < entries.len() ==> entries[i].0@ != entries[j].0@
}

pub proof fn lemma_find_none(entries: Seq<(String, Option<String>)>, k: Seq<char>)
    ensures
        spec_find(entries, k) is None <==> (forall|i: int|
            0 <= i < entries.len() ==> (#[trigger] entries[i]).0@ != k),
    decreases entries.len(),
{
    if entries.len() > 0 {
        lemma_find_none(entries.drop_first(), k);
        assert(forall|i: int|
            1 <= i < entries.len() ==> #[trigger] entries[i] == entries.drop_first()[i - 1]);
    }
}

pub proof fn lemma_find_push(
    entries: Seq<(String, Option<String>)>,
    e: (String, Option<String>),
    k: Seq<char>,
)
    ensures
        spec_find(entries.push(e), k) == if spec_find(entries, k) is Some {
            spec_find(entries, k)
        } else if e.0@ == k {
            Some(spec_entry_value(e.1))
        } else {
            None::<Option<Seq<char>>>
        },
    decreases entries.len(),
{
    if entries.len() == 0 {
        assert(entries.push(e)[0] == e);
        assert(entries.push(e).drop_first() =~= Seq::<(String, Option<String>)>::empty());
        assert(spec_find(entries, k) is None);
        if e.0@ == k {
            assert(spec_find(entries.push(e), k) == Some(spec_entry_value(e.1)));
        } else {
            assert(spec_find(entries.push(e), k) == spec_find(entries.push(e).drop_first(), k));
            assert(spec_find(entries.push(e), k) is None);
        }
    } else {
        assert(entries.push(e)[0] == entries[0]);
        assert(entries.push(e).drop_first() =~= entries.drop_first().push(e));
        lemma_find_push(entries.drop_first(), e, k);
        if entries[0].0@ == k {
            assert(spec_find(entries.push(e), k) == Some(spec_entry_value(entries[0].1)));
            assert(spec_find(entries, k) == Some(spec_entry_value(entries[0].1)));
        } else {
            assert(spec_find(entries.push(e), k) == spec_find(entries.drop_first().push(e), k));
            assert(spec_find(entries, k) == spec_find(entries.drop_first(), k));
        }
    }
}

pub proof fn lemma_find_remove(entries: Seq<(String, Option<String>)>, i: int, k: Seq<char>)
    requires
        0 <= i < entries.len(),
        spec_unique_keys(entries),
    ensures
        spec_find(entries.remove(i), k) == if entries[i].0@ == k {
            None::<Option<Seq<char>>>
        } else {
            spec_find(entries, k)
        },
    decreases entries.len(),
{
    if i == 0 {
        assert(entries.remove(0) =~= entries.drop_first());
        if entries[0].0@ == k {
            lemma_find_none(entries.drop_first(), k);
            assert(forall|j: int|
                0 <= j < entries.drop_first().len() ==> (#[trigger] entries.drop_first()[j]).0@
                    != k);
        }
    } else {
        assert(entries.remove(i)[0] == entries[0]);
        assert(entries.remove(i).drop_first() =~= entries.drop_first().remove(i - 1));
        assert(spec_unique_keys(entries.drop_first())) by {
            assert(forall|a: int, b: int|
                0 <= a < b < entries.drop_first().len() ==> (#[trigger] entries.drop_first()[a]).0@
                    != (#[trigger] entries.drop_first()[b]).0@);
        }
        lemma_find_remove(entries.drop_first(), i - 1, k);
    }
}

pub proof fn lemma_unique_push(entries: Seq<(String, Option<String>)>, e: (String, Option<String>))
    requires
        spec_unique_keys(entries),
        spec_find(entries, e.0@) is None,
    ensures
        spec_unique_keys(entries.push(e)),
{
    lemma_find_none(entries, e.0@);
}

pub proof fn lemma_unique_remove(entries: Seq<(String, Option<String>)>, i: int)
    requires
        spec_unique_keys(entries),
        0 <= i < entries.len(),
    ensures
        spec_unique_keys(entries.remove(i)),
{
    entries.remove_ensures(i);
}

/// Whether any pattern of `pats` is a valid glob that matches `path`.
pub open spec fn spec_any_glob(pats: Seq<Seq<char>>, path: Seq<char>) -> bool {
    exists|i: int| 0 <= i < pats.len() && spec_glob_match(pats[i], path) == Some(true)
}

/// A path is retained when some include pattern matches it and no exclude
/// pattern does; the lists compose as set operations, so their order has
/// no effect.
pub open spec fn spec_matches_patterns(
    inc: Seq<Seq<char>>,
    exc: Seq<Seq<char>>,
    path: Seq<char>,
) -> bool {
    spec_any_glob(inc, path) && !spec_any_glob(exc, path)
}

/// The views of a list of pattern strings.
pub open spec fn spec_views(pats: Seq<String>) -> Seq<Seq<char>> {
    pats.map_values(|s: String| s@)
}

fn any_glob(pats: &Vec<String>, path: &str) -> (r: bool)
    ensures
        r == spec_any_glob(spec_views(pats@), path@),
{
    let ghost pv = spec_views(pats@);
    let mut i: usize = 0;
    while i < pats.len()
        invariant
            i <= pats@.len(),
            pv == spec_views(pats@),
            forall|j: int| 0 <= j < i ==> spec_glob_match(pv[j], path@) != Some(true),
        decreases pats@.len() - i,
    {
        let m = glob_match(pats[i].as_str(), path);
        if let Some(true) = m {
            proof {
                assert(spec_glob_match(pv[i as int], path@) == Some(true));
            }
            return true;
        }
        i = i + 1;
    }
    false
}

/// The result a read would produce and the cache it would leave behind:
/// a cached content is returned as-is; otherwise the disk outcome decides
/// between caching-and-returning the content, `NotFound` and `IoError`.
pub open spec fn spec_read_post(
    pre: Seq<(String, Option<String>)>,
    post: Seq<(String, Option<String>)>,
    path: Seq<char>,
    range: Option<TextRange>,
    disk: DiskContent,
    r: Result<String, LspProxyError>,
) -> bool {
    match spec_find(pre, path) {
        Some(Some(c)) => {
            &&& post == pre
            &&& r is Ok
            &&& r->Ok_0@ == spec_extract_opt(c, range)
        },
        _ => match disk {
            DiskContent::Found(d) => {
                &&& r is Ok
                &&& r->Ok_0@ == spec_extract_opt(d@, range)
                &&& spec_find(post, path) == Some(Some(d@))
                &&& forall|k: Seq<char>|
                    k != path ==> #[trigger] spec_find(post, k) == spec_find(pre, k)
            },
            DiskContent::Absent => {
                &&& post == pre
                &&& r == Err::<String, LspProxyError>(LspProxyError::NotFound)
            },
            DiskContent::Unreadable => {
                &&& post == pre
                &&& r == Err::<String, LspProxyError>(LspProxyError::IoError)
            },
        },
    }
}

/// Full content when no range is given, the extracted range otherwise.
pub open spec fn spec_extract_opt(content: Seq<char>, range: Option<TextRange>) -> Seq<char> {
    match range {
        Some(tr) => spec_extract_range(content, tr),
        None => content,
    }
}

/// The spec-level value of an optional borrowed range argument.
pub open spec fn spec_range_of(range: Option<&TextRange>) -> Option<TextRange> {
    match range {
        Some(tr) => Some(*tr),
        None => None,
    }
}

fn apply_range(content: &String, range: Option<&TextRange>) -> (r: String)
    ensures
        r@ == spec_extract_opt(content@, spec_range_of(range)),
{
    match range {
        Some(tr) => extract_range(content.as_str(), tr),
        None => content.clone(),
    }
}

fn clone_slot(v: &Option<String>) -> (r: Option<String>)
    ensures
        r == *v,
{
    match v {
        Some(s) => Some(s.clone()),
        None => None,
    }
}

fn find_index(cache: &Vec<(String, Option<String>)>, path: &String) -> (r: Option<usize>)
    ensures
        match r {
            Some(i) => i < cache@.len() && cache@[i as int].0@ == path@ && spec_find(
                cache@,
                path@,
            ) == Some(spec_entry_value(cache@[i as int].1)),
            None => spec_find(cache@, path@) is None,
        },
{
    let mut i: usize = 0;
    proof {
        assert(cache@.skip(0) =~= cache@);
    }
    while i < cache.len()
        invariant
            i <= cache@.len(),
            spec_find(cache@.skip(i as int), path@) == spec_find(cache@, path@),
        decreases cache@.len() - i,
    {
        proof {
            assert(cache@.skip(i as int)[0] == cache@[i as int]);
            assert(cache@.skip(i as int).drop_first() =~= cache@.skip(i as int + 1));
        }
        if cache[i].0 == *path {
            return Some(i);
        }
        i = i + 1;
    }
    proof {
        assert(cache@.skip(i as int) =~= Seq::<(String, Option<String>)>::empty());
    }
    None
}

/// The workspace document store. The cache associates each tracked path
/// with `None` ("known to exist, not yet read") or `Some` of its content;
/// keys are unique.
pub struct WorkspaceDocumentsHandler {
    pub cache: Vec<(String, Option<String>)>,
    pub include_patterns: Vec<String>,
    pub exclude_patterns: Vec<String>,
    pub root_path: String,
}

impl WorkspaceDocumentsHandler {
    /// The store's invariant: cache keys are unique.
    pub open spec fn wf(self) -> bool {
        spec_unique_keys(self.cache@)
    }

    pub open spec fn includes(self) -> Seq<Seq<char>> {
        spec_views(self.include_patterns@)
    }

    pub open spec fn excludes(self) -> Seq<Seq<char>> {
        spec_views(self.exclude_patterns@)
    }

    /// The patterns survive and the cache does not.
    pub open spec fn spec_update_post(
        pre: WorkspaceDocumentsHandler,
        post: WorkspaceDocumentsHandler,
        inc: Seq<String>,
        exc: Seq<String>,
    ) -> bool {
        &&& post.cache@.len() == 0
        &&& post.include_patterns@ == inc
        &&& post.exclude_patterns@ == exc
        &&& post.root_path@ == pre.root_path@
    }

    pub fn new(root_path: &str, include_patterns: Vec<String>, exclude_patterns: Vec<String>) -> (r:
        Self)
        ensures
            r.wf(),
            r.cache@.len() == 0,
            r.include_patterns@ == include_patterns@,
            r.exclude_patterns@ == exclude_patterns@,
            r.root_path@ == root_path@,
    {
        WorkspaceDocumentsHandler {
            cache: Vec::new(),
            include_patterns,
            exclude_patterns,
            root_path: String::from_str(root_path),
        }
    }

    /// Whether `path` matches the active include patterns and none of the
    /// exclude patterns.
    pub fn matches_patterns(&self, path: &str) -> (r: bool)
        ensures
            r == spec_matches_patterns(self.includes(), self.excludes(), path@),
    {
        if !any_glob(&self.include_patterns, path) {
            return false;
        }
        !any_glob(&self.exclude_patterns, path)
    }

    /// Whether a read of `path` would consult the disk: true unless the
    /// content itself is cached. A caller that owns the filesystem edge
    /// may skip its disk read when this is false.
    pub fn needs_disk_read(&self, full_file_path: &String) -> (r: bool)
        ensures
            r == match spec_find(self.cache@, full_file_path@) {
                Some(Some(_)) => false,
                _ => true,
            },
    {
        match find_index(&self.cache, full_file_path) {
            Some(i) => self.cache[i].1.is_none(),
            None => true,
        }
    }

    /// Reads a document, serving from the cache when the content is
    /// there and from `disk` otherwise; a disk-served content is cached.
    /// With a range, the extracted slice is returned instead of the whole
    /// content.
    pub fn read_text_document(
        &mut self,
        full_file_path: &String,
        range: Option<&TextRange>,
        disk: &DiskContent,
    ) -> (r: Result<String, LspProxyError>)
        requires
            old(self).wf(),
        ensures
            final(self).wf(),
            final(self).include_patterns@ == old(self).include_patterns@,
            final(self).exclude_patterns@ == old(self).exclude_patterns@,
            final(self).root_path@ == old(self).root_path@,
            spec_read_post(
                old(self).cache@,
                final(self).cache@,
                full_file_path@,
                spec_range_of(range),
                *disk,
                r,
            ),
    {
        let ghost pre = self.cache@;
        let idx = find_index(&self.cache, full_file_path);
        if let Some(i) = idx {
            let cached = clone_slot(&self.cache[i].1);
            if let Some(content) = cached {
                let out = apply_range(&content, range);
                return Ok(out);
            }
        }
        // Here the path is either untracked or tracked without content:
        // the disk outcome decides.
        match disk {
            DiskContent::Found(d) => {
                if let Some(i) = idx {
                    self.cache.remove(i);
                    proof {
                        assert forall|k: Seq<char>| #[trigger]
                            spec_find(self.cache@, k) == if pre[i as int].0@ == k {
                                None::<Option<Seq<char>>>
                            } else {
                                spec_find(pre, k)
                            } by {
                            lemma_find_remove(pre, i as int, k);
                        }
                        lemma_unique_remove(pre, i as int);
                    }
                }
                let ghost mid = self.cache@;
                proof {
                    assert(spec_find(mid, full_file_path@) is None);
                }
                self.cache.push((full_file_path.clone(), Some(d.clone())));
                proof {
                    let e = self.cache@.last();
                    assert(self.cache@ == mid.push(e));
                    lemma_unique_push(mid, e);
                    assert forall|k: Seq<char>| #[trigger] spec_find(self.cache@, k) == if k
                        == full_file_path@ {
                        Some(Some(d@))
                    } else {
                        spec_find(mid, k)
                    } by {
                        lemma_find_push(mid, e, k);
                    }
                }
                let out = apply_range(d, range);
                Ok(out)
            },
            DiskContent::Absent => Err(LspProxyError::NotFound),
            DiskContent::Unreadable => Err(LspProxyError::IoError),
        }
    }

    /// Drops the single cache entry for `full_file_path`, if any; other
    /// entries and the patterns are untouched.
    pub fn invalidate_cache(&mut self, full_file_path: &String)
        requires
            old(self).wf(),
        ensures
            final(self).wf(),
            final(self).include_patterns@ == old(self).include_patterns@,
            final(self).exclude_patterns@ == old(self).exclude_patterns@,
            final(self).root_path@ == old(self).root_path@,
            spec_find(final(self).cache@, full_file_path@) is None,
            forall|k: Seq<char>|
                k != full_file_path@ ==> #[trigger] spec_find(final(self).cache@, k) == spec_find(
                    old(self).cache@,
                    k,
                ),
    {
        let ghost pre = self.cache@;
        let idx = find_index(&self.cache, full_file_path);
        if let Some(i) = idx {
            self.cache.remove(i);
            proof {
                assert forall|k: Seq<char>| #[trigger]
                    spec_find(self.cache@, k) == if pre[i as int].0@ == k {
                        None::<Option<Seq<char>>>
                    } else {
                        spec_find(pre, k)
                    } by {
                    lemma_find_remove(pre, i as int, k);
                }
                lemma_unique_remove(pre, i as int);
            }
        }
    }

    /// Atomically replaces both pattern lists and clears the cache.
    pub fn update_patterns(&mut self, include_patterns: Vec<String>, exclude_patterns: Vec<String>)
        ensures
            final(self).wf(),
            Self::spec_update_post(
                *old(self),
                *final(self),
                include_patterns@,
                exclude_patterns@,
            ),
    {
        self.include_patterns = include_patterns;
        self.exclude_patterns = exclude_patterns;
        self.cache.clear();
    }

    /// A watcher event: a change to a path matching the active patterns
    /// conservatively clears the whole cache; any other path changes
    /// nothing.
    pub fn handle_watch_event(&mut self, path: &String)
        requires
            old(self).wf(),
        ensures
            final(self).wf(),
            final(self).include_patterns@ == old(self).include_patterns@,
            final(self).exclude_patterns@ == old(self).exclude_patterns@,
            final(self).root_path@ == old(self).root_path@,
            spec_matches_patterns(old(self).includes(), old(self).excludes(), path@)
                ==> final(self).cache@.len() == 0,
            !spec_matches_patterns(old(self).includes(), old(self).excludes(), path@)
                ==> final(self).cache@ == old(self).cache@,
    {
        if self.matches_patterns(path.as_str()) {
            self.cache.clear();
        }
    }

    /// Lists the tracked files. An empty cache is first seeded from
    /// `found` — the paths currently under the workspace root — keeping
    /// exactly those that match the patterns, each tracked without
    /// content; a non-empty cache answers from its keys alone.
    #[verifier::loop_isolation(false)]
    pub fn list_files(&mut self, found: &Vec<String>) -> (r: Vec<String>)
        requires
            old(self).wf(),
        ensures
            final(self).wf(),
            final(self).include_patterns@ == old(self).include_patterns@,
            final(self).exclude_patterns@ == old(self).exclude_patterns@,
            final(self).root_path@ == old(self).root_path@,
            spec_list_post(*old(self), *final(self), found@, r@),
    {
        if self.cache.len() == 0 {
            let mut i: usize = 0;
            while i < found.len()
                invariant
                    i <= found@.len(),
                    self.wf(),
                    self.include_patterns@ == old(self).include_patterns@,
                    self.exclude_patterns@ == old(self).exclude_patterns@,
                    self.root_path@ == old(self).root_path@,
                    forall|k: Seq<char>| #[trigger]
                        spec_find(self.cache@, k) is Some <==> (spec_matches_patterns(
                            old(self).includes(),
                            old(self).excludes(),
                            k,
                        ) && spec_found_contains_upto(found@, i as int, k)),
                    forall|j: int| 0 <= j < self.cache@.len() ==> self.cache@[j].1 is None,
                decreases found@.len() - i,
            {
                let ghost mid = self.cache@;
                if self.matches_patterns(found[i].as_str()) {
                    let idx = find_index(&self.cache, &found[i]);
                    if idx.is_none() {
                        self.cache.push((found[i].clone(), None));
                        proof {
                            let e = self.cache@.last();
                            assert(self.cache@ == mid.push(e));
                            lemma_unique_push(mid, e);
                            assert forall|k: Seq<char>| #[trigger]
                                spec_find(self.cache@, k) == if k == found@[i as int]@ {
                                    Some(None::<Seq<char>>)
                                } else {
                                    spec_find(mid, k)
                                } by {
                                lemma_find_push(mid, e, k);
                            }
                        }
                    }
                }
                i = i + 1;
            }
        }
        let mut keys: Vec<String> = Vec::new();
        let mut j: usize = 0;
        while j < self.cache.len()
            invariant
                j <= self.cache@.len(),
                keys@.len() == j,
                forall|a: int| 0 <= a < j ==> keys@[a]@ == self.cache@[a].0@,
            decreases self.cache@.len() - j,
        {
            keys.push(self.cache[j].0.clone());
            j = j + 1;
        }
        keys
    }
}

/// Whether some element of `found` (its first `n`, for the bounded form)
/// views as `k`.
pub open spec fn spec_found_contains_upto(found: Seq<String>, n: int, k: Seq<char>) -> bool {
    exists|j: int| 0 <= j < n && found[j]@ == k
}

pub open spec fn spec_found_contains(found: Seq<String>, k: Seq<char>) -> bool {
    spec_found_contains_upto(found, found.len() as int, k)
}

/// What listing leaves behind and returns: the returned paths are the
/// cache's key list; a previously empty cache now tracks, without
/// content, exactly the found paths that match the patterns; a non-empty
/// cache is untouched.
pub open spec fn spec_list_post(
    pre: WorkspaceDocumentsHandler,
    post: WorkspaceDocumentsHandler,
    found: Seq<String>,
    r: Seq<String>,
) -> bool {
    &&& r.len() == post.cache@.len()
    &&& forall|j: int| 0 <= j < r.len() ==> r[j]@ == post.cache@[j].0@
    &&& pre.cache@.len() > 0 ==> post.cache@ == pre.cache@
    &&& pre.cache@.len() == 0 ==> {
        (forall|k: Seq<char>| #[trigger]
            spec_find(post.cache@, k) is Some <==> (spec_matches_patterns(
                pre.includes(),
                pre.excludes(),
                k,
            ) && spec_found_contains(found, k))) && (forall|j: int|
            0 <= j < post.cache@.len() ==> post.cache@[j].1 is None)
    }
}

/// Updating the patterns twice with the same lists leaves exactly the
/// state the first update left: the operation is idempotent.
pub proof fn lemma_update_patterns_idempotent(
    s0: WorkspaceDocumentsHandler,
    s1: WorkspaceDocumentsHandler,
    s2: WorkspaceDocumentsHandler,
    inc: Seq<String>,
    exc: Seq<String>,
)
    requires
        WorkspaceDocumentsHandler::spec_update_post(s0, s1, inc, exc),
        WorkspaceDocumentsHandler::spec_update_post(s1, s2, inc, exc),
    ensures
        s2.include_patterns@ == s1.include_patterns@,
        s2.exclude_patterns@ == s1.exclude_patterns@,
        s2.root_path@ == s1.root_path@,
        s2.cache@ =~= s1.cache@,
{
}

/// After invalidating a path, a read of that path serves the current
/// disk content — never a stale cached value — and caches it.
pub proof fn lemma_invalidate_then_read_is_fresh(
    s1: WorkspaceDocumentsHandler,
    s2: WorkspaceDocumentsHandler,
    path: Seq<char>,
    range: Option<TextRange>,
    d: String,
    r: Result<String, LspProxyError>,
)
    requires
        spec_find(s1.cache@, path) is None,
        spec_read_post(s1.cache@, s2.cache@, path, range, DiskContent::Found(d), r),
    ensures
        r is Ok,
        r->Ok_0@ == spec_extract_opt(d@, range),
        spec_find(s2.cache@, path) == Some(Some(d@)),
{
}

/// Immediately after a pattern update, every listed file matches the new
/// include patterns and none of the new exclude patterns.
pub proof fn lemma_list_after_update(
    s0: WorkspaceDocumentsHandler,
    s1: WorkspaceDocumentsHandler,
    s2: WorkspaceDocumentsHandler,
    inc: Seq<String>,
    exc: Seq<String>,
    found: Seq<String>,
    listed: Seq<String>,
)
    requires
        WorkspaceDocumentsHandler::spec_update_post(s0, s1, inc, exc),
        spec_list_post(s1, s2, found, listed),
    ensures
        forall|j: int|
            0 <= j < listed.len() ==> spec_matches_patterns(
                spec_views(inc),
                spec_views(exc),
                (#[trigger] listed[j])@,
            ) && spec_found_contains(found, listed[j]@),
{
    assert forall|j: int| 0 <= j < listed.len() implies spec_matches_patterns(
        spec_views(inc),
        spec_views(exc),
        (#[trigger] listed[j])@,
    ) && spec_found_contains(found, listed[j]@) by {
        lemma_find_none(s2.cache@, listed[j]@);
        assert(s2.cache@[j].0@ == listed[j]@);
        assert(spec_find(s2.cache@, listed[j]@) is Some);
    }
}

} // verus!
