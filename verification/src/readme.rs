//! The document that the index is scraped from, and how its text is picked
//! out of what the host answers.

use crate::repository::Repository;
use vstd::prelude::*;
use vstd::string::StringExecFns;

verus! {

/// The owner of the repository that holds the curated list.
pub const SOURCE_USER: &'static str = "rockerBOO";

/// The name of the repository that holds the curated list.
pub const SOURCE_NAME: &'static str = "awesome-neovim";

/// The path of the curated list inside its repository.
pub const SOURCE_PATH: &'static str = "README.md";

/// The file that the index is written to unless another is asked for.
pub const PLUGIN_FILE_PATH: &'static str = "plugins.json";

/// The repository that holds the curated list.
pub fn source_repository() -> (source: Repository)
    ensures
        source.user@ == SOURCE_USER@,
        source.name@ == SOURCE_NAME@,
{
    Repository { name: String::from_str(SOURCE_NAME), user: String::from_str(SOURCE_USER) }
}

/// Why the curated list could not be read.
#[derive(Clone, Copy, Debug, PartialEq, Eq, Structural)]
pub enum ReadmeError {
    /// The host answered with no file at all.
    Missing,
    /// The first file of the answer has no content that decodes to text.
    Undecodable,
}

impl ReadmeError {
    /// What went wrong, in words.
    pub open spec fn message_text(&self) -> Seq<char> {
        match self {
            ReadmeError::Missing => "No readme found"@,
            ReadmeError::Undecodable => "Failed to get decoded readme content"@,
        }
    }

    /// What went wrong, in words.
    pub fn message(&self) -> (text: String)
        ensures
            text@ == self.message_text(),
    {
        match self {
            ReadmeError::Missing => String::from_str("No readme found"),
            ReadmeError::Undecodable => String::from_str("Failed to get decoded readme content"),
        }
    }
}

/// Picks the text of the curated list out of the files that the host
/// answered with, each given by its decoded content where it has one: the
/// text is that of the first file.
pub fn select_readme(files: Vec<Option<String>>) -> (text: Result<String, ReadmeError>)
    ensures
        files@.len() == 0 ==> text == Err::<String, ReadmeError>(ReadmeError::Missing),
        files@.len() > 0 && files@[0] is None ==> text == Err::<String, ReadmeError>(
            ReadmeError::Undecodable,
        ),
        files@.len() > 0 && files@[0] is Some ==> text == Ok::<String, ReadmeError>(
            files@[0]->Some_0,
        ),
{
    if files.len() == 0 {
        return Err(ReadmeError::Missing);
    }
    match &files[0] {
        Some(content) => Ok(content.clone()),
        None => Err(ReadmeError::Undecodable),
    }
}

} // verus!
