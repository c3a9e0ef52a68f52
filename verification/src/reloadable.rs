//! Bookkeeping of reloadable registrations.
//!
//! On every reload the application's setup function runs again and registers
//! its serializable resources, components and run-once hooks anew. The
//! registry here remembers, by name, what is already wired, so repeated
//! registration adds nothing twice; and it decides whether a reloadable
//! element is selected when the host restricts reloading to one element.

use vstd::prelude::*;
use crate::imports::names_view;

verus! {

/// Whether a name is in the list.
pub open spec fn spec_listed(names: Seq<String>, name: Seq<char>) -> bool {
    exists|i: int| 0 <= i < names.len() && names[i]@ == name
}

fn name_listed(names: &Vec<String>, name: &String) -> (r: bool)
    ensures
        r == spec_listed(names@, name@),
{
    let mut i: usize = 0;
    while i < names.len()
        invariant
            i <= names@.len(),
            forall|j: int| 0 <= j < i ==> names@[j]@ != name@,
        decreases names@.len() - i,
    {
        if names[i] == *name {
            proof {
                assert(names@[i as int]@ == name@);
            }
            return true;
        }
        i = i + 1;
    }
    false
}

/// The names one reload frame has registered so far.
pub struct ReloadableRegistry {
    pub resources: Vec<String>,
    pub components: Vec<String>,
    pub run_once: Vec<String>,
}

impl ReloadableRegistry {
    /// An empty frame: nothing registered yet.
    pub fn new() -> (r: ReloadableRegistry)
        ensures
            r.resources@ == Seq::<String>::empty(),
            r.components@ == Seq::<String>::empty(),
            r.run_once@ == Seq::<String>::empty(),
    {
        ReloadableRegistry { resources: Vec::new(), components: Vec::new(), run_once: Vec::new() }
    }

    /// Register a serializable resource by name: true, and the name is
    /// recorded, exactly on first registration — the systems that
    /// serialize and restore it are wired only then.
    pub fn register_resource(&mut self, name: &String) -> (added: bool)
        ensures
            added == !spec_listed(old(self).resources@, name@),
            names_view(final(self).resources@) == (if added {
                names_view(old(self).resources@).push(name@)
            } else {
                names_view(old(self).resources@)
            }),
            final(self).components@ == old(self).components@,
            final(self).run_once@ == old(self).run_once@,
            spec_listed(final(self).resources@, name@),
    {
        if name_listed(&self.resources, name) {
            false
        } else {
            let ghost pre = self.resources@;
            self.resources.push(name.clone());
            proof {
                assert(self.resources@[self.resources@.len() - 1]@ == name@);
                assert(names_view(self.resources@) =~= names_view(pre).push(name@));
            }
            true
        }
    }

    /// Register a serializable component by name, once.
    pub fn register_component(&mut self, name: &String) -> (added: bool)
        ensures
            added == !spec_listed(old(self).components@, name@),
            names_view(final(self).components@) == (if added {
                names_view(old(self).components@).push(name@)
            } else {
                names_view(old(self).components@)
            }),
            final(self).resources@ == old(self).resources@,
            final(self).run_once@ == old(self).run_once@,
            spec_listed(final(self).components@, name@),
    {
        if name_listed(&self.components, name) {
            false
        } else {
            let ghost pre = self.components@;
            self.components.push(name.clone());
            proof {
                assert(self.components@[self.components@.len() - 1]@ == name@);
                assert(names_view(self.components@) =~= names_view(pre).push(name@));
            }
            true
        }
    }

    /// Record a run-once hook: true exactly on the first load, so the hook
    /// runs then and never again on later reloads.
    pub fn run_only_on_first_load(&mut self, name: &String) -> (first: bool)
        ensures
            first == !spec_listed(old(self).run_once@, name@),
            names_view(final(self).run_once@) == (if first {
                names_view(old(self).run_once@).push(name@)
            } else {
                names_view(old(self).run_once@)
            }),
            final(self).resources@ == old(self).resources@,
            final(self).components@ == old(self).components@,
            spec_listed(final(self).run_once@, name@),
    {
        if name_listed(&self.run_once, name) {
            false
        } else {
            let ghost pre = self.run_once@;
            self.run_once.push(name.clone());
            proof {
                assert(self.run_once@[self.run_once@.len() - 1]@ == name@);
                assert(names_view(self.run_once@) =~= names_view(pre).push(name@));
            }
            true
        }
    }
}

/// Whether a reloadable element is selected: with no selection every
/// element is, with one only the element of that name.
pub fn element_selected(selection: &Option<String>, name: &String) -> (r: bool)
    ensures
        r == (match selection {
            Some(chosen) => chosen@ == name@,
            None => true,
        }),
{
    match selection {
        Some(chosen) => *chosen == *name,
        None => true,
    }
}

} // verus!
