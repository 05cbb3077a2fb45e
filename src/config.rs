use vstd::prelude::*;
use crate::recover::{trim_text, trimmed};

verus! {

/// The blog's settings: its title, its author and the folder it is written to.
#[derive(Debug, Clone)]
pub struct Config {
    pub title: String,
    pub username: String,
    pub folder: String,
}

/// Why first-run setup stopped: an answer was empty.
#[derive(Debug, Clone, Copy, PartialEq, Eq)]
pub enum SetupError {
    EmptyTitle,
    EmptyUsername,
    EmptyFolder,
}

impl SetupError {
    /// The message shown to the operator.
    pub fn message(&self) -> (r: &'static str)
        ensures
            r@ == setup_message(*self),
    {
        match self {
            SetupError::EmptyTitle => "Title cannot be empty.",
            SetupError::EmptyUsername => "Username cannot be empty.",
            SetupError::EmptyFolder => "Folder cannot be empty.",
        }
    }
}

pub open spec fn setup_message(e: SetupError) -> Seq<char> {
    match e {
        SetupError::EmptyTitle => "Title cannot be empty."@,
        SetupError::EmptyUsername => "Username cannot be empty."@,
        SetupError::EmptyFolder => "Folder cannot be empty."@,
    }
}

impl Config {
    /// Settings from their three values.
    pub fn new(title: String, username: String, folder: String) -> (r: Config)
        ensures
            r.title@ == title@,
            r.username@ == username@,
            r.folder@ == folder@,
    {
        Config { title, username, folder }
    }

    /// Settings from the three answers of first-run setup, each trimmed. The
    /// first answer that is empty once trimmed, in the order title, username,
    /// folder, is reported instead.
    pub fn from_answers(title: &str, username: &str, folder: &str) -> (r: Result<
        Config,
        SetupError,
    >)
        ensures
            (r matches Err(SetupError::EmptyTitle)) <==> trimmed(title@).len() == 0,
            (r matches Err(SetupError::EmptyUsername)) <==> (trimmed(title@).len() > 0
                && trimmed(username@).len() == 0),
            (r matches Err(SetupError::EmptyFolder)) <==> (trimmed(title@).len() > 0
                && trimmed(username@).len() > 0 && trimmed(folder@).len() == 0),
            r matches Ok(c) ==> c.title@ == trimmed(title@) && c.username@ == trimmed(username@)
                && c.folder@ == trimmed(folder@),
    {
        let title = trim_text(title);
        if title.as_str().is_empty() {
            return Err(SetupError::EmptyTitle);
        }
        let username = trim_text(username);
        if username.as_str().is_empty() {
            return Err(SetupError::EmptyUsername);
        }
        let folder = trim_text(folder);
        if folder.as_str().is_empty() {
            return Err(SetupError::EmptyFolder);
        }
        Ok(Config { title, username, folder })
    }
}

} // verus!
