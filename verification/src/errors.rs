use vstd::prelude::*;

use crate::text::{push_str, string_of};

verus! {

/// Error returned to the frontend by a command.
#[derive(Clone, Debug)]
pub enum CommandError {
    BadInput { description: String },
    Internal,
}

impl CommandError {
    /// A bad-input error with the given description.
    pub fn bad_input(description: String) -> (r: Self)
        ensures
            r matches CommandError::BadInput { description: d } && d@ == description@,
    {
        CommandError::BadInput { description }
    }

    /// The error's message, as shown to the user.
    pub fn message(&self) -> (r: String)
        ensures
            r@ == match self {
                CommandError::BadInput { description } => "Got bad input: "@ + description@,
                CommandError::Internal => "Internal Error"@,
            },
    {
        match self {
            CommandError::BadInput { description } => {
                let mut buf: Vec<char> = Vec::new();
                push_str(&mut buf, "Got bad input: ");
                push_str(&mut buf, description.as_str());
                string_of(&buf)
            },
            CommandError::Internal => "Internal Error".to_owned(),
        }
    }
}

} // verus!
