//! Repository references and the identity they share with plugin records.

use vstd::prelude::*;
use vstd::std_specs::cmp::PartialEqSpecImpl;

verus! {

/// What tells one repository from another: its owner and its name, compared
/// character by character.
pub struct Identity {
    pub owner: Seq<char>,
    pub name: Seq<char>,
}

/// A reference to a repository, as scraped or as typed by a user.
#[derive(Debug, Eq, Hash)]
pub struct Repository {
    pub name: String,
    pub user: String,
}

impl View for Repository {
    type V = Identity;

    open spec fn view(&self) -> Identity {
        Identity { owner: self.user@, name: self.name@ }
    }
}

impl Clone for Repository {
    fn clone(&self) -> (copy: Self)
        ensures
            copy@ == self@,
    {
        Repository { name: self.name.clone(), user: self.user.clone() }
    }
}

impl PartialEq for Repository {
    fn eq(&self, other: &Self) -> (same: bool) {
        self.name == other.name && self.user == other.user
    }
}

impl PartialEqSpecImpl for Repository {
    open spec fn obeys_eq_spec() -> bool {
        true
    }

    open spec fn eq_spec(&self, other: &Self) -> bool {
        self@ == other@
    }
}

/// The identities of a sequence of references, in the same order.
pub open spec fn identities(references: Seq<Repository>) -> Seq<Identity> {
    references.map_values(|reference: Repository| reference@)
}

} // verus!
