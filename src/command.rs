//! What one invocation does, decided from its flags and its input.
use vstd::prelude::*;
use crate::input::InputError;
use crate::level::{MAX_BRIGHTNESS, MIN_BRIGHTNESS};

verus! {

/// What an invocation is to do.
#[derive(Clone, Copy, Debug, PartialEq, Eq, Structural)]
pub enum Command {
    /// Report the current level.
    Query,
    /// Set the level to `target`; with `preview`, put the previous level back
    /// after a pause.
    Change { target: u16, preview: bool },
}

/// Why the arguments of an invocation were refused.
#[derive(Clone, Copy, Debug, PartialEq, Eq, Structural)]
pub enum ArgError {
    /// Flags that exclude each other were given together.
    Conflict,
    /// A preview was asked for without a level to preview.
    MissingInput,
    /// The given level was refused.
    Input(InputError),
}

/// The flags and input of an invocation: `-q`, `-p`, `-m`, `-M`, and the
/// positional level, already read (see `crate::input`), if one was given.
#[derive(Clone, Copy, Debug)]
pub struct Args {
    pub query: bool,
    pub preview: bool,
    pub minimum: bool,
    pub maximum: bool,
    pub input: Option<Result<u16, InputError>>,
}

/// True when some level is given: a positional input, `-m` or `-M`.
pub open spec fn has_level(a: Args) -> bool {
    a.input is Some || a.minimum || a.maximum
}

/// True when flags are given that exclude each other: `-m` with `-M`, either
/// of them with a positional input, or `-q` with any level.
pub open spec fn conflicting(a: Args) -> bool {
    (a.minimum && a.maximum) || (a.input is Some && (a.minimum || a.maximum)) || (a.query
        && has_level(a))
}

/// What the arguments ask for. Conflicts are refused first, then a preview
/// without a level, then a refused input. With `-q`, or with no level at all,
/// the invocation is a query; otherwise it sets the given level, the lowest
/// one for `-m` and the highest one for `-M`.
pub open spec fn command_of(a: Args) -> Result<Command, ArgError> {
    if conflicting(a) {
        Err(ArgError::Conflict)
    } else if a.preview && !has_level(a) {
        Err(ArgError::MissingInput)
    } else if a.query || !has_level(a) {
        Ok(Command::Query)
    } else {
        match a.input {
            Some(Ok(t)) => Ok(Command::Change { target: t, preview: a.preview }),
            Some(Err(e)) => Err(ArgError::Input(e)),
            None => if a.maximum {
                Ok(Command::Change { target: MAX_BRIGHTNESS, preview: a.preview })
            } else {
                Ok(Command::Change { target: MIN_BRIGHTNESS, preview: a.preview })
            },
        }
    }
}

/// Decides what an invocation does, as `command_of` says. Nothing is read or
/// written before this decision, so refused arguments never reach the file.
pub fn interpret(a: Args) -> (r: Result<Command, ArgError>)
    ensures
        r == command_of(a),
        conflicting(a) ==> r == Err::<Command, ArgError>(ArgError::Conflict),
{
    let given = a.input.is_some() || a.minimum || a.maximum;
    if (a.minimum && a.maximum) || (a.input.is_some() && (a.minimum || a.maximum)) || (a.query
        && given) {
        return Err(ArgError::Conflict);
    }
    if a.preview && !given {
        return Err(ArgError::MissingInput);
    }
    if a.query || !given {
        return Ok(Command::Query);
    }
    match a.input {
        Some(Ok(t)) => Ok(Command::Change { target: t, preview: a.preview }),
        Some(Err(e)) => Err(ArgError::Input(e)),
        None => if a.maximum {
            Ok(Command::Change { target: MAX_BRIGHTNESS, preview: a.preview })
        } else {
            Ok(Command::Change { target: MIN_BRIGHTNESS, preview: a.preview })
        },
    }
}

} // verus!
