//! Per-language backend configuration: the Python (pyright) client and
//! the stock include/exclude pattern lists the document store starts
//! with.

use vstd::prelude::*;
use vstd::string::*;

use crate::lsp_client::LspClientState;

verus! {

/// The Python backend: pyright, spoken to over stdio by the caller that
/// owns the process; this holds its correlation and lifecycle state.
pub struct PyrightClient {
    pub state: LspClientState,
}

impl PyrightClient {
    /// A fresh client: nothing pending, not yet initialized.
    pub fn new() -> (r: PyrightClient)
        ensures
            r.state.wf(),
            r.state.next_id == 1,
            r.state.pending@.len() == 0,
            !r.state.initialized,
            r.state.healthy,
            !r.state.respawn_attempted,
            r.state.opened_documents@.len() == 0,
    {
        PyrightClient { state: LspClientState::new() }
    }

    /// The files whose presence marks a directory as a Python project
    /// root.
    pub fn get_root_files(&mut self) -> (r: Vec<String>)
        ensures
            *final(self) == *old(self),
            r@.len() == 7,
            r@[0]@ == ".git"@,
            r@[1]@ == "pyproject.toml"@,
            r@[2]@ == "setup.py"@,
            r@[3]@ == "setup.cfg"@,
            r@[4]@ == "requirements.txt"@,
            r@[5]@ == "Pipfile"@,
            r@[6]@ == "pyrightconfig.json"@,
    {
        let mut v: Vec<String> = Vec::new();
        v.push(String::from_str(".git"));
        v.push(String::from_str("pyproject.toml"));
        v.push(String::from_str("setup.py"));
        v.push(String::from_str("setup.cfg"));
        v.push(String::from_str("requirements.txt"));
        v.push(String::from_str("Pipfile"));
        v.push(String::from_str("pyrightconfig.json"));
        v
    }
}

/// The include patterns of the Python backend.
pub fn python_file_patterns() -> (r: Vec<String>)
    ensures
        r@.len() == 1,
        r@[0]@ == "**/*.py"@,
{
    let mut v: Vec<String> = Vec::new();
    v.push(String::from_str("**/*.py"));
    v
}

/// The exclude patterns every backend's document store starts with.
pub fn default_exclude_patterns() -> (r: Vec<String>)
    ensures
        r@.len() == 7,
        r@[0]@ == "**/node_modules"@,
        r@[1]@ == "**/__pycache__"@,
        r@[2]@ == "**/.*"@,
        r@[3]@ == "**/dist"@,
        r@[4]@ == "**/target"@,
        r@[5]@ == "**/build"@,
        r@[6]@ == ".git"@,
{
    let mut v: Vec<String> = Vec::new();
    v.push(String::from_str("**/node_modules"));
    v.push(String::from_str("**/__pycache__"));
    v.push(String::from_str("**/.*"));
    v.push(String::from_str("**/dist"));
    v.push(String::from_str("**/target"));
    v.push(String::from_str("**/build"));
    v.push(String::from_str(".git"));
    v
}

} // verus!
