//! The commands: what each makes of the registry and its own arguments.

pub mod api_spec;
pub mod complete;
pub mod param;
pub mod path;
pub mod path_var;

use vstd::prelude::*;
use vstd::string::*;
use crate::text::texts;

verus! {

/// What a command has to say, or what it needs first.
#[derive(Debug)]
pub enum Outcome {
    /// The lines to print, in order.
    Lines(Vec<String>),
    /// The endpoints of the API of this name are not known yet: they have
    /// to be loaded or fetched before the command can say anything.
    NeedsEndpoints(String),
}

/// The mathematical value of an [`Outcome`].
pub enum OutcomeView {
    Lines(Seq<Seq<char>>),
    NeedsEndpoints(Seq<char>),
}

impl View for Outcome {
    type V = OutcomeView;

    open spec fn view(&self) -> OutcomeView {
        match self {
            Outcome::Lines(lines) => OutcomeView::Lines(texts(lines@)),
            Outcome::NeedsEndpoints(name) => OutcomeView::NeedsEndpoints(name@),
        }
    }
}

/// Why a command could not be carried out.
#[derive(Debug, Clone, Copy, PartialEq, Eq, Structural)]
pub enum CommandError {
    /// No API is registered under the name.
    ApiNotFound,
    /// The API has no endpoint with exactly the path.
    NoEndpointMatched,
    /// An API is already registered under the name, and overwriting was
    /// not asked for.
    AlreadyExists,
}

impl CommandError {
    /// The error in words, for the name or path that it is about.
    pub open spec fn text(self, subject: Seq<char>) -> Seq<char> {
        match self {
            CommandError::ApiNotFound => "API '"@ + subject + "' not found"@,
            CommandError::NoEndpointMatched => "No endpoint matched path '"@ + subject + "'"@,
            CommandError::AlreadyExists => "Error: API '"@ + subject
                + "' already exists. Use --force to overwrite."@,
        }
    }

    /// The error in words, for the name or path that it is about.
    pub fn message(&self, subject: &str) -> (r: String)
        ensures
            r@ == self.text(subject@),
    {
        match self {
            CommandError::ApiNotFound => {
                let mut text = String::from_str("API '");
                text.append(subject);
                text.append("' not found");
                text
            },
            CommandError::NoEndpointMatched => {
                let mut text = String::from_str("No endpoint matched path '");
                text.append(subject);
                text.append("'");
                text
            },
            CommandError::AlreadyExists => {
                let mut text = String::from_str("Error: API '");
                text.append(subject);
                text.append("' already exists. Use --force to overwrite.");
                text
            },
        }
    }
}

} // verus!
