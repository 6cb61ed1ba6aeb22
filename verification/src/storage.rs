//! The storage handle: a store that does the file operations, with a mailbox
//! format that decides file names.
//!
//! The file operations themselves (write, read, move, remove) are the
//! store's; what is decided here is where a message goes when its flags
//! change.

use vstd::prelude::*;
use vstd::string::*;

use crate::error::{Error, Result};
use crate::maildir::{flag_views, MailboxFormat};
use crate::paths::{path_file_name, path_join, path_parent, std_file_name, std_join, std_parent};
use crate::text::{chars_of, concat, find_text, first_occurrence, same_text, string_of};
use crate::types::MessageFlag;
use std::sync::Arc;

verus! {

/// Storage coordinator: the store `S` does the file operations, the format
/// `F` decides file names.
#[derive(Clone)]
pub struct Storage<S, F: MailboxFormat> {
    store: S,
    format: Arc<F>,
}

/// The unique id part of a file name: the text before a first `:2,`.
pub open spec fn flagless_name(f: Seq<char>) -> Seq<char> {
    match first_occurrence(f, seq![':', '2', ',']) {
        Some(i) => f.take(i),
        None => f,
    }
}

/// Where a message at `path` goes when its flags are recorded by
/// `component` (`seen` tells whether they include \Seen): its file name
/// becomes its unique id followed by the component, and it moves from `new`
/// to `cur` once seen and from `cur` to `new` once unseen. `None` when the
/// path has no file name.
pub open spec fn flag_target(path: Seq<char>, component: Seq<char>, seen: bool) -> Option<
    Seq<char>,
> {
    match std_file_name(path) {
        None => None,
        Some(f) => {
            let id = flagless_name(f);
            let new_name = if component.len() == 0 {
                id
            } else {
                id + component
            };
            let parent = match std_parent(path) {
                Some(p) => p,
                None => Seq::empty(),
            };
            let parent_name = match std_file_name(parent) {
                Some(n) => n,
                None => Seq::empty(),
            };
            let grandparent = match std_parent(parent) {
                Some(g) => g,
                None => parent,
            };
            let new_parent = if seen && parent_name == "new"@ {
                std_join(grandparent, "cur"@)
            } else if !seen && parent_name == "cur"@ {
                std_join(grandparent, "new"@)
            } else {
                parent
            };
            Some(std_join(new_parent, new_name))
        },
    }
}

/// Whether \Seen is among `flags`.
pub open spec fn has_seen(flags: Seq<MessageFlag>) -> bool {
    exists|i: int| 0 <= i < flags.len() && flags[i] is Seen
}

/// Whether \Seen is among `flags`.
fn contains_seen(flags: &[MessageFlag]) -> (r: bool)
    ensures
        r == has_seen(flags@),
{
    let mut i: usize = 0;
    while i < flags.len()
        invariant
            i <= flags@.len(),
            forall|j: int| 0 <= j < i ==> !(flags@[j] is Seen),
        decreases flags@.len() - i,
    {
        if matches!(flags[i], MessageFlag::Seen) {
            return true;
        }
        i = i + 1;
    }
    false
}

/// The path a message at `current_path` moves to when its flags, recorded
/// by `component`, change; the error names a path without a file name.
pub fn flag_target_path(current_path: &str, component: &str, seen: bool) -> (r: Result<String>)
    ensures
        match flag_target(current_path@, component@, seen) {
            Some(p) => r matches Ok(s) && s@ == p,
            None => r matches Err(Error::Internal(m)) && m@ == "Invalid path: "@ + current_path@,
        },
{
    let filename = match path_file_name(current_path) {
        Some(f) => f,
        None => {
            return Err(Error::Internal(concat("Invalid path: ", current_path)));
        },
    };
    let fv = chars_of(filename.as_str());
    let mut marker: Vec<char> = Vec::new();
    marker.push(':');
    marker.push('2');
    marker.push(',');
    assert(marker@ =~= seq![':', '2', ',']);
    let unique_id = match find_text(&fv, &marker) {
        Some(i) => {
            let id = string_of(fv.as_slice(), 0, i);
            assert(id@ =~= fv@.take(i as int));
            id
        },
        None => filename.clone(),
    };
    let new_filename = if component.is_empty() {
        unique_id
    } else {
        concat(unique_id.as_str(), component)
    };
    let parent = match path_parent(current_path) {
        Some(p) => p,
        None => String::new(),
    };
    let parent_name = match path_file_name(parent.as_str()) {
        Some(n) => n,
        None => String::new(),
    };
    let grandparent = match path_parent(parent.as_str()) {
        Some(g) => g,
        None => parent.clone(),
    };
    let new_parent = if seen && same_text(parent_name.as_str(), "new") {
        path_join(grandparent.as_str(), "cur")
    } else if !seen && same_text(parent_name.as_str(), "cur") {
        path_join(grandparent.as_str(), "new")
    } else {
        parent
    };
    Ok(path_join(new_parent.as_str(), new_filename.as_str()))
}

/// Seen messages are kept in `cur`, unseen ones in `new`: when flags change,
/// a message whose directory is `new` stays there unless the flags include
/// \Seen, when it moves to the sibling `cur`; one in `cur` stays there if
/// the flags include \Seen and otherwise moves to the sibling `new`; one in
/// any other directory stays. Its file name is its unique id followed by
/// the flags' component in every case.
pub proof fn law_seen_decides_the_directory(path: Seq<char>, component: Seq<char>)
    requires
        std_file_name(path) is Some,
    ensures
        ({
            let name = flagless_name(std_file_name(path)->0) + component;
            let parent = match std_parent(path) {
                Some(p) => p,
                None => Seq::empty(),
            };
            let dir = match std_file_name(parent) {
                Some(n) => n,
                None => Seq::empty(),
            };
            let grandparent = match std_parent(parent) {
                Some(g) => g,
                None => parent,
            };
            &&& dir == "new"@ ==> flag_target(path, component, false) == Some(
                std_join(parent, name),
            )
            &&& dir == "new"@ ==> flag_target(path, component, true) == Some(
                std_join(std_join(grandparent, "cur"@), name),
            )
            &&& dir == "cur"@ ==> flag_target(path, component, true) == Some(
                std_join(parent, name),
            )
            &&& dir == "cur"@ ==> flag_target(path, component, false) == Some(
                std_join(std_join(grandparent, "new"@), name),
            )
            &&& dir != "new"@ && dir != "cur"@ ==> {
                &&& flag_target(path, component, false) == Some(std_join(parent, name))
                &&& flag_target(path, component, true) == Some(std_join(parent, name))
            }
        }),
{
    reveal_strlit("new");
    reveal_strlit("cur");
    assert("new"@ != "cur"@) by {
        assert("new"@[0] != "cur"@[0]);
    }
    let id = flagless_name(std_file_name(path)->0);
    if component.len() == 0 {
        assert(id + component =~= id);
    }
}

impl<S, F: MailboxFormat> Storage<S, F> {
    /// The store.
    pub closed spec fn store_view(&self) -> S {
        self.store
    }

    /// The format.
    pub closed spec fn format_view(&self) -> F {
        *self.format
    }

    /// A storage handle over `store` and `format`.
    pub fn new(store: S, format: F) -> (r: Self)
        ensures
            r.store_view() == store,
            r.format_view() == format,
    {
        Storage { store, format: Arc::new(format) }
    }

    /// The underlying store.
    pub fn get_store(&self) -> (r: &S)
        ensures
            *r == self.store_view(),
    {
        &self.store
    }

    /// The format handler.
    pub fn get_format(&self) -> (r: &F)
        ensures
            *r == self.format_view(),
    {
        &*self.format
    }

    /// The path a message at `current_path` moves to when its flags become
    /// `flags`: the file name part that records the flags is the one the
    /// format gives for them.
    pub fn update_flags_target(&self, current_path: &str, flags: &[MessageFlag]) -> (r: Result<
        String,
    >)
        ensures
            match flag_target(
                current_path@,
                self.format_view().spec_flags_component(flag_views(flags@)),
                has_seen(flags@),
            ) {
                Some(p) => r matches Ok(s) && s@ == p,
                None => r matches Err(Error::Internal(m)) && m@ == "Invalid path: "@ + current_path@,
            },
    {
        let component = self.format.flags_to_filename_component(flags);
        let seen = contains_seen(flags);
        flag_target_path(current_path, component.as_str(), seen)
    }
}

} // verus!
