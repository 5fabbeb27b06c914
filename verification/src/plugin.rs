//! Plugin records: what is known of a repository once it has been looked up.

use crate::repository::{Identity, Repository};
use vstd::prelude::*;
use vstd::std_specs::cmp::PartialEqSpecImpl;
use vstd::std_specs::convert::FromSpecImpl;
use vstd::string::StringExecFns;

verus! {

/// A snapshot of a repository's metadata. Two records are the same plugin
/// where their owner and name agree, whatever else they hold.
#[derive(Clone, Debug, Eq)]
pub struct Plugin {
    pub name: String,
    /// When the repository was created, in ISO 8601.
    pub created_at: Option<String>,
    pub description: Option<String>,
    pub stars: u32,
    pub topics: Option<Vec<String>>,
    /// When the repository was last updated, in ISO 8601.
    pub updated_at: Option<String>,
    pub user: String,
    pub watchers: u32,
}

impl Plugin {
    /// The owner and name of the record.
    pub open spec fn identity(&self) -> Identity {
        Identity { owner: self.user@, name: self.name@ }
    }
}

impl PartialEq for Plugin {
    fn eq(&self, other: &Self) -> (same: bool) {
        self.name == other.name && self.user == other.user
    }
}

impl PartialEqSpecImpl for Plugin {
    open spec fn obeys_eq_spec() -> bool {
        true
    }

    open spec fn eq_spec(&self, other: &Self) -> bool {
        self.identity() == other.identity()
    }
}

impl From<Plugin> for Repository {
    fn from(plugin: Plugin) -> (reference: Repository) {
        Repository { name: plugin.name, user: plugin.user }
    }
}

impl FromSpecImpl<Plugin> for Repository {
    open spec fn obeys_from_spec() -> bool {
        true
    }

    open spec fn from_spec(plugin: Plugin) -> Repository {
        Repository { name: plugin.name, user: plugin.user }
    }
}

/// The identities of a sequence of records, in the same order.
pub open spec fn plugin_identities(plugins: Seq<Plugin>) -> Seq<Identity> {
    plugins.map_values(|plugin: Plugin| plugin.identity())
}

/// Whether a record with the owner and name of `plugin` is among `plugins`.
pub fn contains_plugin(plugins: &Vec<Plugin>, plugin: &Plugin) -> (found: bool)
    ensures
        found == plugin_identities(plugins@).contains(plugin.identity()),
{
    let ghost all = plugin_identities(plugins@);
    let mut position: usize = 0;
    while position < plugins.len()
        invariant
            position <= plugins.len(),
            all == plugin_identities(plugins@),
            forall|i: int| 0 <= i < position ==> all[i] != plugin.identity(),
        decreases plugins.len() - position,
    {
        if plugins[position] == *plugin {
            assert(all[position as int] == plugin.identity());
            return true;
        }
        position += 1;
    }
    false
}

/// What a lookup of a repository answers, as far as a record is made of it.
/// A count that the answer leaves out is `None`.
#[derive(Clone, Debug)]
pub struct RepositoryMetadata {
    pub name: String,
    pub description: Option<String>,
    pub topics: Option<Vec<String>>,
    pub created_at: Option<String>,
    pub updated_at: Option<String>,
    pub stargazers_count: Option<u32>,
    pub subscribers_count: Option<i64>,
}

/// Why no record could be made for a reference.
#[derive(Clone, Debug)]
pub enum EnrichFailure {
    /// The lookup failed; the text says how.
    Fetch(String),
    /// The number of subscribers is negative or above `u32::MAX`.
    WatchersOutOfRange,
}

/// A failed enrichment, tagged with the reference it was made for.
#[derive(Clone, Debug)]
pub struct EnrichError {
    pub user: String,
    pub name: String,
    pub failure: EnrichFailure,
}

/// The number of watchers recorded for a subscriber count: a missing count
/// is zero, and one outside `u32` gives none.
pub open spec fn watchers_of(subscribers_count: Option<i64>) -> Option<u32> {
    match subscribers_count {
        None => Some(0u32),
        Some(count) => if 0 <= count <= u32::MAX {
            Some(count as u32)
        } else {
            None
        },
    }
}

/// The number of stars recorded for a stargazer count: a missing one is zero.
pub open spec fn stars_of(stargazers_count: Option<u32>) -> u32 {
    match stargazers_count {
        None => 0u32,
        Some(count) => count,
    }
}

impl EnrichError {
    /// What went wrong, in words.
    pub open spec fn message_text(&self) -> Seq<char> {
        match self.failure {
            EnrichFailure::Fetch(message) => message@,
            EnrichFailure::WatchersOutOfRange => "out of range integral type conversion attempted"@,
        }
    }

    /// The error of a lookup that failed for `reference`.
    pub fn fetch(reference: &Repository, message: String) -> (error: EnrichError)
        ensures
            error.user@ == reference.user@,
            error.name@ == reference.name@,
            error.failure == EnrichFailure::Fetch(message),
    {
        EnrichError {
            user: reference.user.clone(),
            name: reference.name.clone(),
            failure: EnrichFailure::Fetch(message),
        }
    }

    /// What went wrong, in words.
    pub fn message(&self) -> (text: String)
        ensures
            text@ == self.message_text(),
    {
        match &self.failure {
            EnrichFailure::Fetch(message) => message.clone(),
            EnrichFailure::WatchersOutOfRange => String::from_str(
                "out of range integral type conversion attempted",
            ),
        }
    }
}

impl Plugin {
    /// The record of a reference, made of what its lookup answered. The name
    /// is the one that the lookup gave, the owner the one that was asked for.
    /// Missing counts are zero. It fails only where the subscriber count does
    /// not fit the record.
    pub fn from_metadata(reference: Repository, metadata: RepositoryMetadata) -> (made: Result<
        Plugin,
        EnrichError,
    >)
        ensures
            made is Ok <==> watchers_of(metadata.subscribers_count) is Some,
            made is Ok ==> made->Ok_0 == (Plugin {
                name: metadata.name,
                created_at: metadata.created_at,
                description: metadata.description,
                stars: stars_of(metadata.stargazers_count),
                topics: metadata.topics,
                updated_at: metadata.updated_at,
                user: reference.user,
                watchers: watchers_of(metadata.subscribers_count)->Some_0,
            }),
            made is Err ==> made->Err_0 == (EnrichError {
                user: reference.user,
                name: reference.name,
                failure: EnrichFailure::WatchersOutOfRange,
            }),
    {
        let stars: u32 = match metadata.stargazers_count {
            Some(count) => count,
            None => 0,
        };
        let subscribers: i64 = match metadata.subscribers_count {
            Some(count) => count,
            None => 0,
        };
        if subscribers < 0 || subscribers > 0xffff_ffff {
            return Err(
                EnrichError {
                    user: reference.user,
                    name: reference.name,
                    failure: EnrichFailure::WatchersOutOfRange,
                },
            );
        }
        Ok(
            Plugin {
                name: metadata.name,
                created_at: metadata.created_at,
                description: metadata.description,
                stars,
                topics: metadata.topics,
                updated_at: metadata.updated_at,
                user: reference.user,
                watchers: subscribers as u32,
            },
        )
    }
}

} // verus!
