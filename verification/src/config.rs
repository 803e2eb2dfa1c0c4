//! Where the server's configuration text comes from.

use vstd::prelude::*;
use vstd::string::StringExecFns;

verus! {

/// A source of configuration text.
pub trait ConfigContentProvider {
    /// The stored text; `None` when nothing is stored yet.
    fn get_config_content(&self) -> Result<Option<String>, String>;

    /// Replaces the stored text.
    fn set_config_content(&self, content: &str) -> Result<(), String>;
}

/// Configuration kept in a file.
#[derive(Debug)]
pub struct FileContentConfigProvider {
    file_path: String,
}

impl FileContentConfigProvider {
    pub fn new(file_path: String) -> (r: Self)
        ensures
            r.path()@ == file_path@,
    {
        Self { file_path }
    }

    pub closed spec fn path(&self) -> String {
        self.file_path
    }

    /// The path of the file.
    pub fn file_path(&self) -> (r: &str)
        ensures
            r@ == self.path()@,
    {
        self.file_path.as_str()
    }
}

/// What reading the configuration file produced.
#[derive(Debug)]
pub enum ReadOutcome {
    Content(String),
    NotFound,
    Failed(String),
}

/// The answer of `get_config_content` for a read outcome: the text, or
/// nothing when the file does not exist, or an error naming the failure.
pub fn config_from_read(outcome: ReadOutcome) -> (r: Result<Option<String>, String>)
    ensures
        outcome matches ReadOutcome::Content(c) ==> (r matches Ok(Some(t)) && t@ == c@),
        outcome is NotFound ==> (r matches Ok(None)),
        outcome matches ReadOutcome::Failed(m) ==> (r matches Err(e) && e@ == "Failed to read config file: "@ + m@),
{
    match outcome {
        ReadOutcome::Content(content) => Ok(Some(content)),
        ReadOutcome::NotFound => Ok(None),
        ReadOutcome::Failed(message) => {
            let mut text = String::from_str("Failed to read config file: ");
            text.append(message.as_str());
            Err(text)
        },
    }
}

/// The answer of `set_config_content` for a write outcome: success, or an
/// error naming the failure.
pub fn config_write_result(failure: Option<String>) -> (r: Result<(), String>)
    ensures
        failure is None ==> r is Ok,
        failure matches Some(m) ==> (r matches Err(e) && e@ == "Failed to write config file: "@ + m@),
{
    match failure {
        None => Ok(()),
        Some(message) => {
            let mut text = String::from_str("Failed to write config file: ");
            text.append(message.as_str());
            Err(text)
        },
    }
}

} // verus!
