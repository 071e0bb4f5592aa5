use vstd::prelude::*;

verus! {

/// What the program was asked to do.
#[derive(Debug)]
pub enum Command {
    FileRead(String),
    RunInlineCode(String),
    Noop,
}

/// The command that the `--src` and `--run` arguments call for: a source
/// file wins over inline code, and with neither there is nothing to do.
pub open spec fn spec_command(src: Option<String>, run: Option<String>) -> Command {
    match src {
        Some(s) => Command::FileRead(s),
        None => match run {
            Some(r) => Command::RunInlineCode(r),
            None => Command::Noop,
        },
    }
}

/// Chooses the command from the values given for `--src` and `--run`.
pub fn read_command(src: Option<String>, run: Option<String>) -> (c: Command)
    ensures
        c == spec_command(src, run),
{
    match (src, run) {
        (Some(s), _) => Command::FileRead(s),
        (_, Some(s)) => Command::RunInlineCode(s),
        _ => Command::Noop,
    }
}

} // verus!
