//! Stored sessions as the selectors see them.

use crate::text::str_eq;
use vstd::prelude::*;

verus! {

/// What is known of one stored session.
#[derive(Debug, PartialEq, Eq)]
pub struct SessionInfo {
    pub path: String,
    pub id: String,
    pub cwd: String,
    pub name: Option<String>,
    pub parent_session_path: Option<String>,
    pub created: String,
    pub modified_ms: i64,
    pub message_count: usize,
    pub first_message: String,
    pub all_messages_text: String,
}

/// A copy of an optional string.
pub fn clone_opt(s: &Option<String>) -> (r: Option<String>)
    ensures
        r == *s,
{
    match s {
        Some(v) => Some(v.clone()),
        None => None,
    }
}

impl Clone for SessionInfo {
    fn clone(&self) -> (r: Self)
        ensures
            r == *self,
    {
        SessionInfo {
            path: self.path.clone(),
            id: self.id.clone(),
            cwd: self.cwd.clone(),
            name: clone_opt(&self.name),
            parent_session_path: clone_opt(&self.parent_session_path),
            created: self.created.clone(),
            modified_ms: self.modified_ms,
            message_count: self.message_count,
            first_message: self.first_message.clone(),
            all_messages_text: self.all_messages_text.clone(),
        }
    }
}

/// What paths resolve to on disk: pairs of a path and its canonical form. A path without an entry
/// is its own canonical form.
#[derive(Debug)]
pub struct CanonicalPaths {
    pub entries: Vec<(String, String)>,
}

impl CanonicalPaths {
    /// The canonical form that the first entry for the path gives; the path itself without one.
    pub open spec fn lookup(entries: Seq<(String, String)>, path: Seq<char>) -> Seq<char>
        decreases entries.len(),
    {
        if entries.len() == 0 {
            path
        } else if entries[0].0@ == path {
            entries[0].1@
        } else {
            Self::lookup(entries.skip(1), path)
        }
    }

    /// The canonical form of the path.
    pub open spec fn canonical(&self, path: Seq<char>) -> Seq<char> {
        Self::lookup(self.entries@, path)
    }

    /// The canonical form of the path.
    pub fn resolve(&self, path: &str) -> (r: String)
        ensures
            r@ == self.canonical(path@),
    {
        let mut i: usize = 0;
        assert(self.entries@.skip(0) =~= self.entries@);
        while i < self.entries.len()
            invariant
                i <= self.entries.len(),
                self.canonical(path@) == Self::lookup(self.entries@.skip(i as int), path@),
            decreases self.entries.len() - i,
        {
            assert(self.entries@.skip(i as int).skip(1) =~= self.entries@.skip(i as int + 1));
            if str_eq(self.entries[i].0.as_str(), path) {
                return self.entries[i].1.clone();
            }
            i = i + 1;
        }
        path.to_owned()
    }
}

} // verus!
