//! The manager: language routing by file extension, workspace path and
//! `file://` URI construction, and the registry that holds at most one
//! live backend client per language, constructed lazily.

use vstd::prelude::*;
use vstd::string::*;

use crate::documents::WorkspaceDocumentsHandler;
use crate::errors::LspProxyError;
use crate::lsp_client::LspClientState;

verus! {

/// The languages with a configured backend.
#[derive(Clone, Copy, PartialEq, Eq, Structural, Debug)]
pub enum Language {
    Python,
    TypeScript,
    Rust,
    Cpp,
    Golang,
    Java,
}

/// Character-for-character string equality.
pub fn str_eq(a: &str, b: &str) -> (r: bool)
    ensures
        r == (a@ == b@),
{
    let la = a.unicode_len();
    let lb = b.unicode_len();
    if la != lb {
        proof {
            assert(a@ != b@) by {
                if a@ == b@ {
                    assert(a@.len() == b@.len());
                }
            }
        }
        return false;
    }
    let mut i: usize = 0;
    while i < la
        invariant
            i <= la,
            la == a@.len(),
            la == b@.len(),
            forall|j: int| 0 <= j < i ==> a@[j] == b@[j],
        decreases la - i,
    {
        if a.get_char(i) != b.get_char(i) {
            proof {
                assert(a@ != b@) by {
                    if a@ == b@ {
                        assert(a@[i as int] == b@[i as int]);
                    }
                }
            }
            return false;
        }
        i = i + 1;
    }
    proof {
        assert(a@ =~= b@);
    }
    true
}

/// The closed extension table: which language serves a file extension.
pub open spec fn spec_language_of_ext(ext: Seq<char>) -> Option<Language> {
    if ext == "py"@ {
        Some(Language::Python)
    } else if ext == "ts"@ || ext == "tsx"@ || ext == "js"@ || ext == "jsx"@ {
        Some(Language::TypeScript)
    } else if ext == "rs"@ {
        Some(Language::Rust)
    } else if ext == "c"@ || ext == "cpp"@ || ext == "cc"@ || ext == "cxx"@ {
        Some(Language::Cpp)
    } else if ext == "go"@ {
        Some(Language::Golang)
    } else if ext == "java"@ {
        Some(Language::Java)
    } else {
        None
    }
}

pub fn language_for_extension(ext: &str) -> (r: Option<Language>)
    ensures
        r == spec_language_of_ext(ext@),
{
    if str_eq(ext, "py") {
        Some(Language::Python)
    } else if str_eq(ext, "ts") || str_eq(ext, "tsx") || str_eq(ext, "js") || str_eq(ext, "jsx") {
        Some(Language::TypeScript)
    } else if str_eq(ext, "rs") {
        Some(Language::Rust)
    } else if str_eq(ext, "c") || str_eq(ext, "cpp") || str_eq(ext, "cc") || str_eq(ext, "cxx") {
        Some(Language::Cpp)
    } else if str_eq(ext, "go") {
        Some(Language::Golang)
    } else if str_eq(ext, "java") {
        Some(Language::Java)
    } else {
        None
    }
}

impl Language {
    /// The language's tag, the registry's display key.
    pub fn name(&self) -> (r: &'static str)
        ensures
            r@ == match self {
                Language::Python => "python"@,
                Language::TypeScript => "typescript"@,
                Language::Rust => "rust"@,
                Language::Cpp => "cpp"@,
                Language::Golang => "golang"@,
                Language::Java => "java"@,
            },
    {
        match self {
            Language::Python => "python",
            Language::TypeScript => "typescript",
            Language::Rust => "rust",
            Language::Cpp => "cpp",
            Language::Golang => "golang",
            Language::Java => "java",
        }
    }
}

/// The characters after the last `'.'` of `p`, if `p` has any dot.
pub open spec fn spec_extension_of(p: Seq<char>) -> Option<Seq<char>>
    decreases p.len(),
{
    if p.len() == 0 {
        None
    } else if p.last() == '.' {
        Some(Seq::<char>::empty())
    } else {
        match spec_extension_of(p.drop_last()) {
            Some(e) => Some(e.push(p.last())),
            None => None,
        }
    }
}

proof fn lemma_ext_no_dot(p: Seq<char>)
    requires
        forall|j: int| 0 <= j < p.len() ==> p[j] != '.',
    ensures
        spec_extension_of(p) is None,
    decreases p.len(),
{
    if p.len() > 0 {
        assert(forall|j: int| 0 <= j < p.len() - 1 ==> p.drop_last()[j] == p[j]);
        lemma_ext_no_dot(p.drop_last());
    }
}

proof fn lemma_ext_dot_at(p: Seq<char>, i: int)
    requires
        0 <= i < p.len(),
        p[i] == '.',
        forall|j: int| i < j < p.len() ==> p[j] != '.',
    ensures
        spec_extension_of(p) == Some(p.subrange(i + 1, p.len() as int)),
    decreases p.len(),
{
    if i == p.len() - 1 {
        assert(p.subrange(i + 1, p.len() as int) =~= Seq::<char>::empty());
    } else {
        assert(forall|j: int| 0 <= j < p.len() - 1 ==> p.drop_last()[j] == p[j]);
        lemma_ext_dot_at(p.drop_last(), i);
        assert(p.subrange(i + 1, p.len() as int) =~= p.drop_last().subrange(
            i + 1,
            p.len() - 1,
        ).push(p.last()));
    }
}

/// The file extension `path`'s language is determined by: what follows
/// the last dot, or nothing when the path has no dot.
#[verifier::loop_isolation(false)]
pub fn extension_of(path: &str) -> (r: Option<String>)
    ensures
        match r {
            Some(e) => spec_extension_of(path@) == Some(e@),
            None => spec_extension_of(path@) is None,
        },
{
    let len = path.unicode_len();
    let mut i: usize = len;
    while i > 0
        invariant
            i <= len,
            forall|j: int| i <= j < len ==> path@[j] != '.',
        decreases i,
    {
        let c = path.get_char(i - 1);
        if c == '.' {
            proof {
                lemma_ext_dot_at(path@, i as int - 1);
            }
            let e = path.substring_char(i, len);
            return Some(String::from_str(e));
        }
        i = i - 1;
    }
    proof {
        lemma_ext_no_dot(path@);
    }
    None
}

/// The language serving `path`, by its extension.
pub fn language_for_path(path: &str) -> (r: Option<Language>)
    ensures
        r == match spec_extension_of(path@) {
            Some(e) => spec_language_of_ext(e),
            None => None::<Language>,
        },
{
    match extension_of(path) {
        Some(e) => language_for_extension(e.as_str()),
        None => None,
    }
}

/// The directory part of a path: what precedes the last `'/'`, or
/// nothing for a bare file name.
pub open spec fn spec_parent_dir(p: Seq<char>) -> Option<Seq<char>>
    decreases p.len(),
{
    if p.len() == 0 {
        None
    } else if p.last() == '/' {
        Some(p.drop_last())
    } else {
        spec_parent_dir(p.drop_last())
    }
}

proof fn lemma_parent_no_slash(p: Seq<char>)
    requires
        forall|j: int| 0 <= j < p.len() ==> p[j] != '/',
    ensures
        spec_parent_dir(p) is None,
    decreases p.len(),
{
    if p.len() > 0 {
        assert(forall|j: int| 0 <= j < p.len() - 1 ==> p.drop_last()[j] == p[j]);
        lemma_parent_no_slash(p.drop_last());
    }
}

proof fn lemma_parent_slash_at(p: Seq<char>, i: int)
    requires
        0 <= i < p.len(),
        p[i] == '/',
        forall|j: int| i < j < p.len() ==> p[j] != '/',
    ensures
        spec_parent_dir(p) == Some(p.subrange(0, i)),
    decreases p.len(),
{
    if i == p.len() - 1 {
        assert(p.drop_last() =~= p.subrange(0, i));
    } else {
        assert(forall|j: int| 0 <= j < p.len() - 1 ==> p.drop_last()[j] == p[j]);
        lemma_parent_slash_at(p.drop_last(), i);
        assert(p.drop_last().subrange(0, i) =~= p.subrange(0, i));
    }
}

/// The directory that contains `path`: everything before the last
/// `'/'`, or nothing when the path is a bare name (it then lives in the
/// workspace root itself).
#[verifier::loop_isolation(false)]
pub fn parent_dir(path: &str) -> (r: Option<String>)
    ensures
        match r {
            Some(d) => spec_parent_dir(path@) == Some(d@),
            None => spec_parent_dir(path@) is None,
        },
{
    let len = path.unicode_len();
    let mut i: usize = len;
    while i > 0
        invariant
            i <= len,
            forall|j: int| i <= j < len ==> path@[j] != '/',
        decreases i,
    {
        let c = path.get_char(i - 1);
        if c == '/' {
            proof {
                lemma_parent_slash_at(path@, i as int - 1);
            }
            return Some(String::from_str(path.substring_char(0, i - 1)));
        }
        i = i - 1;
    }
    proof {
        lemma_parent_no_slash(path@);
    }
    None
}

/// Root identification walks upward from a file until a directory holds
/// a root-marker file. Given, nearest ancestor first, whether each
/// ancestor holds one, this picks the first that does; none marked
/// means the workspace root serves as the project root.
pub fn nearest_marked_ancestor(marked: &Vec<bool>) -> (r: Option<usize>)
    ensures
        match r {
            Some(i) => i < marked@.len() && marked@[i as int] && forall|j: int|
                0 <= j < i ==> !marked@[j],
            None => forall|j: int| 0 <= j < marked@.len() ==> !marked@[j],
        },
{
    let mut i: usize = 0;
    while i < marked.len()
        invariant
            i <= marked@.len(),
            forall|j: int| 0 <= j < i ==> !marked@[j],
        decreases marked@.len() - i,
    {
        if marked[i] {
            return Some(i);
        }
        i = i + 1;
    }
    None
}

/// The document-symbol policy: the semantic backend's symbols stand
/// when it returned any; an absent (or failed) backend, or an empty
/// top level, falls back to the structural matcher.
pub fn should_fall_back_to_matcher(backend_symbols: &Option<Vec<crate::Symbol>>) -> (r: bool)
    ensures
        r == match backend_symbols {
            Some(v) => v@.len() == 0,
            None => true,
        },
{
    match backend_symbols {
        Some(v) => v.len() == 0,
        None => true,
    }
}

/// Whether `p` is a prefix of `s`.
pub open spec fn spec_has_prefix(s: Seq<char>, p: Seq<char>) -> bool {
    s.len() >= p.len() && s.subrange(0, p.len() as int) == p
}

#[verifier::loop_isolation(false)]
pub fn has_prefix(s: &str, p: &str) -> (r: bool)
    ensures
        r == spec_has_prefix(s@, p@),
{
    let pl = p.unicode_len();
    let sl = s.unicode_len();
    if sl < pl {
        return false;
    }
    let mut i: usize = 0;
    while i < pl
        invariant
            i <= pl,
            forall|j: int| 0 <= j < i ==> s@[j] == p@[j],
        decreases pl - i,
    {
        if s.get_char(i) != p.get_char(i) {
            proof {
                assert(!spec_has_prefix(s@, p@)) by {
                    if spec_has_prefix(s@, p@) {
                        assert(s@.subrange(0, pl as int)[i as int] == p@[i as int]);
                    }
                }
            }
            return false;
        }
        i = i + 1;
    }
    proof {
        assert(s@.subrange(0, pl as int) =~= p@);
    }
    true
}

/// The `file://` URI for an absolute path.
pub fn file_uri(abs_path: &str) -> (r: String)
    ensures
        r@ == "file://"@ + abs_path@,
{
    let mut s = String::from_str("file://");
    s.append(abs_path);
    s
}

/// The absolute form of a workspace-relative path.
pub fn to_absolute(root: &str, rel_path: &str) -> (r: String)
    ensures
        r@ == root@ + "/"@ + rel_path@,
{
    let mut s = String::from_str(root);
    s.append("/");
    s.append(rel_path);
    s
}

/// The workspace-relative form of an absolute path: what follows the
/// root and its separator, or nothing when the path lies outside the
/// root.
#[verifier::loop_isolation(false)]
pub fn to_relative(root: &str, abs_path: &str) -> (r: Option<String>)
    ensures
        match r {
            Some(s) => abs_path@ == (root@ + "/"@) + s@,
            None => !spec_has_prefix(abs_path@, root@ + "/"@),
        },
{
    proof {
        reveal_strlit("/");
    }
    let rl = root.unicode_len();
    let al = abs_path.unicode_len();
    if al <= rl {
        proof {
            assert((root@ + "/"@).len() == rl + 1);
        }
        return None;
    }
    let mut i: usize = 0;
    while i < rl
        invariant
            i <= rl,
            forall|j: int| 0 <= j < i ==> abs_path@[j] == root@[j],
        decreases rl - i,
    {
        if abs_path.get_char(i) != root.get_char(i) {
            proof {
                assert(!spec_has_prefix(abs_path@, root@ + "/"@)) by {
                    if spec_has_prefix(abs_path@, root@ + "/"@) {
                        assert(abs_path@.subrange(0, rl + 1)[i as int] == (root@ + "/"@)[i as int]);
                    }
                }
            }
            return None;
        }
        i = i + 1;
    }
    if abs_path.get_char(rl) != '/' {
        proof {
            assert(!spec_has_prefix(abs_path@, root@ + "/"@)) by {
                if spec_has_prefix(abs_path@, root@ + "/"@) {
                    assert(abs_path@.subrange(0, rl + 1)[rl as int] == (root@ + "/"@)[rl as int]);
                }
            }
        }
        return None;
    }
    let rest = path_suffix(abs_path, rl + 1, al);
    proof {
        assert(abs_path@ =~= (root@ + "/"@) + abs_path@.subrange(rl + 1, al as int));
    }
    Some(rest)
}

fn path_suffix(path: &str, from: usize, to: usize) -> (r: String)
    requires
        from <= to <= path@.len(),
    ensures
        r@ == path@.subrange(from as int, to as int),
{
    String::from_str(path.substring_char(from, to))
}

/// The manager: the shared document store, the workspace root and the
/// registry of live backend clients, at most one per language.
pub struct Manager {
    pub documents: WorkspaceDocumentsHandler,
    pub backends: Vec<(Language, LspClientState)>,
    pub workspace_root: String,
}

impl Manager {
    /// The invariant: the store is well formed, no language has two
    /// registry entries, and every client's own invariant holds.
    pub open spec fn wf(self) -> bool {
        &&& self.documents.wf()
        &&& forall|i: int, j: int|
            0 <= i < j < self.backends@.len() ==> self.backends@[i].0 != self.backends@[j].0
        &&& forall|i: int| 0 <= i < self.backends@.len() ==> (#[trigger] self.backends@[i]).1.wf()
    }

    pub open spec fn spec_has_backend(self, lang: Language) -> bool {
        exists|i: int| 0 <= i < self.backends@.len() && self.backends@[i].0 == lang
    }

    pub fn new(workspace_root: &str, documents: WorkspaceDocumentsHandler) -> (r: Manager)
        requires
            documents.wf(),
        ensures
            r.wf(),
            r.backends@.len() == 0,
            r.workspace_root@ == workspace_root@,
            r.documents == documents,
    {
        Manager { documents, backends: Vec::new(), workspace_root: String::from_str(workspace_root) }
    }

    /// The index of the language's live client, if one exists.
    #[verifier::loop_isolation(false)]
    pub fn backend_index(&self, lang: Language) -> (r: Option<usize>)
        ensures
            match r {
                Some(i) => i < self.backends@.len() && self.backends@[i as int].0 == lang,
                None => !self.spec_has_backend(lang),
            },
    {
        let mut i: usize = 0;
        while i < self.backends.len()
            invariant
                i <= self.backends@.len(),
                forall|j: int| 0 <= j < i ==> self.backends@[j].0 != lang,
            decreases self.backends@.len() - i,
        {
            if self.backends[i].0 == lang {
                return Some(i);
            }
            i = i + 1;
        }
        None
    }

    /// Finds the language's client, creating a fresh one on the first
    /// request for that language; the registry keeps at most one client
    /// per language either way.
    #[verifier::loop_isolation(false)]
    pub fn ensure_backend(&mut self, lang: Language) -> (idx: usize)
        requires
            old(self).wf(),
        ensures
            final(self).wf(),
            final(self).documents == old(self).documents,
            final(self).workspace_root@ == old(self).workspace_root@,
            idx < final(self).backends@.len(),
            final(self).backends@[idx as int].0 == lang,
            old(self).spec_has_backend(lang) ==> final(self).backends@ == old(self).backends@,
            !old(self).spec_has_backend(lang) ==> {
                &&& final(self).backends@.len() == old(self).backends@.len() + 1
                &&& idx == old(self).backends@.len()
                &&& forall|j: int|
                    0 <= j < old(self).backends@.len() ==> final(self).backends@[j] == old(
                        self,
                    ).backends@[j]
                &&& final(self).backends@[idx as int].1.next_id == 1
                &&& final(self).backends@[idx as int].1.pending@.len() == 0
                &&& !final(self).backends@[idx as int].1.initialized
                &&& final(self).backends@[idx as int].1.healthy
                &&& !final(self).backends@[idx as int].1.respawn_attempted
            },
    {
        if let Some(i) = self.backend_index(lang) {
            return i;
        }
        let idx = self.backends.len();
        self.backends.push((lang, LspClientState::new()));
        idx
    }

    /// Routes a workspace-relative path to its backend: the language is
    /// read off the extension, the client is found or lazily created,
    /// and a path whose language has no backend is `NotSupported`.
    pub fn backend_for_path(&mut self, rel_path: &str) -> (r: Result<usize, LspProxyError>)
        requires
            old(self).wf(),
        ensures
            final(self).wf(),
            final(self).documents == old(self).documents,
            final(self).workspace_root@ == old(self).workspace_root@,
            match spec_extension_of(rel_path@) {
                Some(e) => match spec_language_of_ext(e) {
                    Some(lang) => {
                        &&& r is Ok
                        &&& r->Ok_0 < final(self).backends@.len()
                        &&& final(self).backends@[r->Ok_0 as int].0 == lang
                    },
                    None => {
                        &&& r == Err::<usize, LspProxyError>(LspProxyError::NotSupported)
                        &&& *final(self) == *old(self)
                    },
                },
                None => {
                    &&& r == Err::<usize, LspProxyError>(LspProxyError::NotSupported)
                    &&& *final(self) == *old(self)
                },
            },
    {
        match language_for_path(rel_path) {
            Some(lang) => Ok(self.ensure_backend(lang)),
            None => Err(LspProxyError::NotSupported),
        }
    }
}

} // verus!
