//! Which file system changes the folder watcher reacts to.
use vstd::prelude::*;
use crate::path_utils::{
    WorkspacePath, is_file_name_of, is_normalization, lowercase_text, path_file_name,
};
use crate::text::{contains, contains_text, has_prefix, starts_with};

verus! {

/// A change at this path is ignored: its (lowercased, normalized) path mentions `.git`,
/// `node_modules` or `.ds_store`, or its name is hidden (starts with `.`).
pub open spec fn ignored_spec(lower_normalized: Seq<char>, file_name: Option<Seq<char>>) -> bool {
    ||| contains_text(lower_normalized, ".git"@)
    ||| contains_text(lower_normalized, "node_modules"@)
    ||| contains_text(lower_normalized, ".ds_store"@)
    ||| (file_name matches Some(n) && has_prefix(n, seq!['.']))
}

/// Watches the workspace folders and asks for a scan when something relevant changes.
pub struct WatcherActor;

impl WatcherActor {
    /// Whether a change at this path is ignored.
    pub fn should_ignore(path: &str) -> (r: bool)
        ensures
            exists|normalized: Seq<char>, name: Option<Seq<char>>|
                is_normalization(path@, normalized) && is_file_name_of(path@, name) && r
                    == ignored_spec(lowercase_text(normalized), name),
    {
        let normalized = WorkspacePath::normalize(path);
        let lower = normalized.as_str().to_lowercase();
        let name = path_file_name(path);
        assert(lower@ == lowercase_text(normalized@));
        Self::should_ignore_parts(lower.as_str(), &name)
    }

    /// Whether a change is ignored, given its lowercased normalized path and its file name.
    pub fn should_ignore_parts(lower_normalized: &str, file_name: &Option<String>) -> (r: bool)
        ensures
            r == ignored_spec(
                lower_normalized@,
                match file_name {
                    Some(n) => Some(n@),
                    None => None,
                },
            ),
    {
        let git = ".git";
        let node_modules = "node_modules";
        let ds_store = ".ds_store";
        let dot = ".";
        proof {
            reveal_strlit(".git");
            reveal_strlit("node_modules");
            reveal_strlit(".ds_store");
            reveal_strlit(".");
            assert(dot@ =~= seq!['.']);
        }
        if contains(lower_normalized, git) || contains(lower_normalized, node_modules) || contains(
            lower_normalized,
            ds_store,
        ) {
            return true;
        }
        match file_name {
            Some(n) => starts_with(n.as_str(), dot),
            None => false,
        }
    }

    /// Whether a batch of changes calls for a scan: some change is not ignored.
    pub fn needs_reconcile(ignored: &Vec<bool>) -> (r: bool)
        ensures
            r == exists|i: int| 0 <= i < ignored@.len() && !ignored@[i],
    {
        let mut i: usize = 0;
        while i < ignored.len()
            invariant
                i <= ignored.len(),
                forall|j: int| 0 <= j < i ==> ignored@[j],
            decreases ignored.len() - i,
        {
            if !ignored[i] {
                return true;
            }
            i = i + 1;
        }
        false
    }
}

} // verus!
