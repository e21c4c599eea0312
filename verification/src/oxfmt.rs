//! The Oxfmt language server.
use crate::lsp::{view_args, BinaryCommand, BinaryCommandModel, ZedLspSupport};
use vstd::prelude::*;

verus! {

/// The Oxfmt language server of the extension.
pub struct ZedOxfmtLsp {}

impl ZedOxfmtLsp {
    pub fn new() -> Self {
        ZedOxfmtLsp {  }
    }
}

impl ZedLspSupport for ZedOxfmtLsp {
    open spec fn package_name(&self) -> Seq<char> {
        "oxfmt"@
    }

    open spec fn subcommand(&self) -> Seq<char> {
        "fmt"@
    }

    fn get_package_name(&self) -> (r: String) {
        String::from_str("oxfmt")
    }

    fn vite_plus_subcommand(&self) -> (r: &'static str) {
        "fmt"
    }
}

/// The error for a `binary` section that gives only one of `path` and
/// `arguments`.
pub open spec fn binary_mismatch() -> Seq<char> {
    "When supplying binary.arguments, binary.path must be supplied (or vice-versa)."@
}

/// What the settings' `binary` section makes of the command: `path` and
/// `arguments` together name it; neither of them (the section only sets the
/// environment) leaves the default command; one without the other is an
/// error.
pub open spec fn binary_command_of(path: Option<String>, arguments: Option<Vec<String>>) -> Result<
    BinaryCommandModel,
    Seq<char>,
> {
    match (path, arguments) {
        (Some(p), Some(a)) => Ok(BinaryCommandModel::Given(p@, view_args(a@))),
        (None, None) => Ok(BinaryCommandModel::UseDefault),
        _ => Err(binary_mismatch()),
    }
}

pub open spec fn view_binary(r: Result<BinaryCommand, String>) -> Result<
    BinaryCommandModel,
    Seq<char>,
> {
    match r {
        Ok(c) => Ok(c@),
        Err(e) => Err(e@),
    }
}

/// The command that the settings' `binary` section names. `path` and
/// `arguments` go together: where only one of them is given, the settings
/// are refused with an error. A section with neither of them (one that only
/// sets `env`) keeps the default command.
pub fn binary_command(path: Option<String>, arguments: Option<Vec<String>>) -> (r: Result<
    BinaryCommand,
    String,
>)
    ensures
        view_binary(r) == binary_command_of(path, arguments),
        path is Some && arguments is Some ==> r == Ok::<BinaryCommand, String>(
            BinaryCommand::Given(path.unwrap(), arguments.unwrap()),
        ),
        path is None && arguments is None ==> r == Ok::<BinaryCommand, String>(
            BinaryCommand::UseDefault,
        ),
        (path is Some) != (arguments is Some) ==> r is Err,
{
    if (path.is_some() && arguments.is_none()) || (path.is_none() && arguments.is_some()) {
        return Err(
            String::from_str(
                "When supplying binary.arguments, binary.path must be supplied (or vice-versa).",
            ),
        );
    }
    match (path, arguments) {
        (Some(command), Some(args)) => Ok(BinaryCommand::Given(command, args)),
        _ => Ok(BinaryCommand::UseDefault),
    }
}

/// Given both a path and arguments, the command is that path with exactly
/// those arguments: as many, the same, in the same order.
pub proof fn lemma_binary_command_keeps_arguments(p: String, a: Vec<String>)
    ensures
        binary_command_of(Some(p), Some(a)) matches Ok(BinaryCommandModel::Given(c, xs)) && c == p@
            && xs.len() == a@.len() && forall|i: int| 0 <= i < a@.len() ==> xs[i] == a@[i]@,
{
}

} // verus!
