use vstd::prelude::*;

verus! {

/// Which side of the chat the program runs as.
#[derive(Debug, Clone, Copy, PartialEq, Eq, Structural)]
pub enum Mode {
    Client,
    Server,
}

/// Why a mode name was not understood.
#[derive(Debug)]
pub enum ArgError {
    InvalidInput(String),
    NoInput,
}

impl ArgError {
    /// The error as it is shown to people.
    pub fn message(&self) -> (s: String)
        ensures
            self matches ArgError::InvalidInput(v) ==> s@ == "Invalid input: `"@ + v@ + "`"@,
            self is NoInput ==> s@ == "No input given -- please pass 'client' or 'server'"@,
    {
        match self {
            ArgError::InvalidInput(value) => "Invalid input: `".to_owned().concat(
                value.as_str(),
            ).concat("`"),
            ArgError::NoInput => "No input given -- please pass 'client' or 'server'".to_owned(),
        }
    }
}

/// The command line: the mode, and the port to listen on or connect to
/// (0 lets the system pick one when listening).
#[derive(Debug)]
pub struct Args {
    pub mode: Mode,
    pub port: u16,
}

impl TryFrom<String> for Mode {
    type Error = ArgError;

    fn try_from(value: String) -> (r: Result<Mode, ArgError>) {
        if value == "client".to_owned() {
            Ok(Mode::Client)
        } else if value == "server".to_owned() {
            Ok(Mode::Server)
        } else if value.as_str().is_empty() {
            Err(ArgError::NoInput)
        } else {
            Err(ArgError::InvalidInput(value.clone()))
        }
    }
}

impl vstd::std_specs::convert::TryFromSpecImpl<String> for Mode {
    open spec fn obeys_try_from_spec() -> bool {
        true
    }

    open spec fn try_from_spec(v: String) -> Result<Mode, ArgError> {
        if v@ == "client"@ {
            Ok(Mode::Client)
        } else if v@ == "server"@ {
            Ok(Mode::Server)
        } else if v@.len() == 0 {
            Err(ArgError::NoInput)
        } else {
            Err(ArgError::InvalidInput(v))
        }
    }
}

} // verus!
