//! Adding one plugin by hand: checking what the user typed, and entering the
//! record into the index unless it is there.

use crate::index::lemma_push_keeps_distinct;
use crate::plugin::{contains_plugin, plugin_identities, Plugin};
use crate::repository::Repository;
use vstd::prelude::*;
use vstd::string::{StrSliceExecFns, StringExecFns};

verus! {

/// Why an input names no repository.
#[derive(Clone, Copy, Debug, PartialEq, Eq, Structural)]
pub enum AddError {
    /// The input is not an owner, one slash and a name, both non-empty.
    Format,
}

impl AddError {
    /// What to tell the user.
    pub fn message(&self) -> (text: String)
        ensures
            text@ == "Repository must be in user/repo format (e.g., foo/bar)"@,
    {
        String::from_str("Repository must be in user/repo format (e.g., foo/bar)")
    }
}

/// Whether `input` is `owner`, a slash and `name`, with owner and name
/// non-empty and free of slashes.
pub open spec fn splits_into(input: Seq<char>, owner: Seq<char>, name: Seq<char>) -> bool {
    &&& input == owner + seq!['/'] + name
    &&& owner.len() > 0
    &&& name.len() > 0
    &&& !owner.contains('/')
    &&& !name.contains('/')
}

/// Whether an input names a repository: it holds exactly one slash, with
/// something before it and something after it.
pub open spec fn names_repository(input: Seq<char>) -> bool {
    exists|owner: Seq<char>, name: Seq<char>| splits_into(input, owner, name)
}

/// The position of the first slash at or after `from`, or the length of the
/// text where there is none.
fn find_slash(text: &str, from: usize) -> (position: usize)
    requires
        from <= text@.len(),
    ensures
        from <= position <= text@.len(),
        forall|i: int| from <= i < position ==> text@[i] != '/',
        position < text@.len() ==> text@[position as int] == '/',
{
    let length: usize = text.unicode_len();
    let mut position: usize = from;
    while position < length
        invariant
            length == text@.len(),
            from <= position <= length,
            forall|i: int| from <= i < position ==> text@[i] != '/',
        decreases length - position,
    {
        if text.get_char(position) == '/' {
            return position;
        }
        position += 1;
    }
    position
}

/// Reads a reference typed as `owner/name`. Anything that does not split at
/// slashes into exactly two non-empty parts is refused.
pub fn parse_reference(input: &str) -> (parsed: Result<Repository, AddError>)
    ensures
        parsed is Ok <==> names_repository(input@),
        parsed is Ok ==> splits_into(input@, parsed->Ok_0.user@, parsed->Ok_0.name@),
        parsed is Err ==> parsed->Err_0 == AddError::Format,
{
    let length: usize = input.unicode_len();
    let slash: usize = find_slash(input, 0);
    if slash == 0 || slash >= length || slash + 1 == length {
        proof {
            assert forall|owner: Seq<char>, name: Seq<char>| !splits_into(input@, owner, name) by {
                if splits_into(input@, owner, name) {
                    lemma_split_position(input@, owner, name);
                    assert(input@[owner.len() as int] == '/');
                    if slash < owner.len() {
                        assert(owner[slash as int] == input@[slash as int]);
                    }
                }
            }
        }
        return Err(AddError::Format);
    }
    let second: usize = find_slash(input, slash + 1);
    if second < length {
        proof {
            assert forall|owner: Seq<char>, name: Seq<char>| !splits_into(input@, owner, name) by {
                if splits_into(input@, owner, name) {
                    lemma_split_position(input@, owner, name);
                    if slash < owner.len() {
                        assert(owner[slash as int] == input@[slash as int]);
                    }
                    assert(name[second - owner.len() - 1] == input@[second as int]);
                }
            }
        }
        return Err(AddError::Format);
    }
    let user = String::from_str(input.substring_char(0, slash));
    let name = String::from_str(input.substring_char(slash + 1, length));
    proof {
        assert(input@ == user@ + seq!['/'] + name@);
        assert forall|i: int| 0 <= i < user@.len() implies user@[i] != '/' by {
            assert(user@[i] == input@[i]);
        }
        assert forall|i: int| 0 <= i < name@.len() implies name@[i] != '/' by {
            assert(name@[i] == input@[i + slash + 1]);
        }
        assert(splits_into(input@, user@, name@));
    }
    Ok(Repository { name, user })
}

/// Where an input splits: the characters of the owner, the slash, the
/// characters of the name.
proof fn lemma_split_position(input: Seq<char>, owner: Seq<char>, name: Seq<char>)
    requires
        splits_into(input, owner, name),
    ensures
        input.len() == owner.len() + 1 + name.len(),
        input[owner.len() as int] == '/',
        forall|i: int| 0 <= i < owner.len() ==> input[i] == owner[i] && owner[i] != '/',
        forall|i: int| 0 <= i < name.len() ==> input[owner.len() + 1 + i] == name[i] && name[i] != '/',
{
}

/// The records after `plugin` has been added by hand: it is appended unless
/// a record with its owner and name is there.
pub open spec fn with_plugin(plugins: Seq<Plugin>, plugin: Plugin) -> Seq<Plugin> {
    if plugin_identities(plugins).contains(plugin.identity()) {
        plugins
    } else {
        plugins.push(plugin)
    }
}

/// What adding a plugin by hand came to.
#[derive(Debug)]
pub enum AddOutcome {
    /// The record was appended; these are all the records, to be written.
    Added(Vec<Plugin>),
    /// A record with this owner and name was there: nothing is to be written.
    AlreadyIndexed,
}

/// Enters a record into the index unless one with its owner and name is
/// there. The records that were there stay as they are, in their order.
pub fn add_plugin(plugins: Vec<Plugin>, plugin: Plugin) -> (outcome: AddOutcome)
    ensures
        outcome is AlreadyIndexed <==> plugin_identities(plugins@).contains(plugin.identity()),
        outcome is Added ==> outcome->Added_0@ == plugins@.push(plugin),
        outcome is Added ==> outcome->Added_0@ == with_plugin(plugins@, plugin),
{
    if contains_plugin(&plugins, &plugin) {
        AddOutcome::AlreadyIndexed
    } else {
        let mut plugins = plugins;
        plugins.push(plugin);
        AddOutcome::Added(plugins)
    }
}

/// The line that tells a user that a plugin was added.
pub fn added_line(plugin: &Plugin) -> (line: String)
    ensures
        line@ == "🎉 Added plugin `"@ + plugin.user@ + "/"@ + plugin.name@ + "`"@,
{
    let mut line = String::from_str("🎉 Added plugin `");
    line.append(plugin.user.as_str());
    line.append("/");
    line.append(plugin.name.as_str());
    line.append("`");
    line
}

/// Adding a plugin a second time changes nothing: after the first time a
/// record with its owner and name is there, and it is the only one if no
/// owner and name occurred twice before.
pub proof fn lemma_add_is_idempotent(plugins: Seq<Plugin>, plugin: Plugin, again: Plugin)
    requires
        again.identity() == plugin.identity(),
    ensures
        plugin_identities(with_plugin(plugins, plugin)).contains(plugin.identity()),
        with_plugin(with_plugin(plugins, plugin), again) == with_plugin(plugins, plugin),
        plugin_identities(plugins).no_duplicates() ==> plugin_identities(
            with_plugin(plugins, plugin),
        ).no_duplicates(),
{
    let after = with_plugin(plugins, plugin);
    if !plugin_identities(plugins).contains(plugin.identity()) {
        assert(plugin_identities(after) == plugin_identities(plugins).push(plugin.identity()));
        assert(plugin_identities(after)[plugins.len() as int] == plugin.identity());
        if plugin_identities(plugins).no_duplicates() {
            lemma_push_keeps_distinct(plugin_identities(plugins), plugin.identity());
        }
    }
}

} // verus!
