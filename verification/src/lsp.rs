//! What the Oxc language servers share: where their executable lives, how
//! they are launched, and when the bundled package needs an update.
use crate::manifest::{lists_package, package_exists};
use crate::path::{join_text, parse_path, push_text, FsPath, PathModel};
use crate::vite_plus::{view_text, DetectResult};
use vstd::prelude::*;

verus! {

/// The server id of oxlint.
pub const OXLINT_SERVER_ID: &'static str = "oxlint";

/// The server id of oxfmt.
pub const OXFMT_SERVER_ID: &'static str = "oxfmt";

/// `from/node_modules/<package_dir>/bin/<exe_name>`, as text.
pub open spec fn exe_path(from: Seq<char>, package_dir: Seq<char>, exe_name: Seq<char>) -> Seq<
    char,
> {
    push_text(push_text(push_text(push_text(from, "node_modules"@), package_dir), "bin"@), exe_name)
}

/// The executable of `package` installed in the workspace at `root`, where the
/// workspace's `package.json` (`{}` when it could not be read) declares it.
pub open spec fn workspace_exe_at(package_json: Option<Seq<char>>, root: Seq<char>, package: Seq<
    char,
>) -> Option<Seq<char>> {
    let text = match package_json {
        Some(t) => t,
        None => "{}"@,
    };
    if lists_package(text, package) {
        Some(exe_path(root, package, package))
    } else {
        None
    }
}

/// The text of the runnable `vp` that detection found, if any.
pub open spec fn runnable_vp_of(detected: Option<DetectResult>) -> Option<Seq<char>> {
    match detected {
        Some(d) => view_text(d.vp_path),
        None => None,
    }
}

pub open spec fn view_args(args: Seq<String>) -> Seq<Seq<char>> {
    args.map_values(|a: String| a@)
}

/// What the settings' `binary` section makes of a server's command.
#[derive(Debug, PartialEq, Eq)]
pub enum BinaryCommand {
    /// Start the given command with the given arguments.
    Given(String, Vec<String>),
    /// Start the server's default command; the section only sets the
    /// environment.
    UseDefault,
}

/// The model of a [`BinaryCommand`].
pub enum BinaryCommandModel {
    Given(Seq<char>, Seq<Seq<char>>),
    UseDefault,
}

impl View for BinaryCommand {
    type V = BinaryCommandModel;

    open spec fn view(&self) -> BinaryCommandModel {
        match self {
            BinaryCommand::Given(command, args) => BinaryCommandModel::Given(
                command@,
                view_args(args@),
            ),
            BinaryCommand::UseDefault => BinaryCommandModel::UseDefault,
        }
    }
}

/// The executable to start: the workspace's own install where there is one,
/// else the one installed in `current_dir`, the extension's directory.
pub open spec fn resolved_exe_of(
    workspace_exe: Option<Seq<char>>,
    current_dir: Seq<char>,
    package: Seq<char>,
) -> Seq<char> {
    match workspace_exe {
        Some(p) => p,
        None => exe_path(current_dir, package, package),
    }
}

/// The text of a runnable `vp` found by Vite+ detection: `None` when the
/// project is not Vite+, or when `vite-plus` is declared but no `vp` can run.
pub fn runnable_vp(detected: &Option<DetectResult>) -> (r: Option<String>)
    ensures
        view_text(r) == runnable_vp_of(*detected),
{
    match detected {
        Some(d) => match &d.vp_path {
            Some(vp) => Some(vp.clone()),
            None => None,
        },
        None => None,
    }
}

/// The arguments that start a language server from its executable:
/// `<exe> --lsp`.
pub fn server_args(exe: &str) -> (r: Vec<String>)
    ensures
        view_args(r@) == seq![exe@, "--lsp"@],
{
    let mut args: Vec<String> = Vec::new();
    args.push(String::from_str(exe));
    args.push(String::from_str("--lsp"));
    assert(view_args(args@) =~= seq![exe@, "--lsp"@]);
    args
}

/// Whether the installed version is already the latest, so that no download
/// is needed.
pub fn is_latest_installed(current_version: &Option<String>, latest_version: &String) -> (r: bool)
    ensures
        r == (view_text(*current_version) == Some(latest_version@)),
{
    match current_version {
        Some(version) => *version == *latest_version,
        None => false,
    }
}

/// The path of `path` relative to the worktree `root`, as text: `None` for a
/// path outside the worktree.
pub fn worktree_relative_path(path: &str, root: &FsPath) -> (r: Option<String>)
    ensures
        view_text(r) == match parse_path(path@).strip_prefix(root@) {
            Some(rel) => Some(rel.render()),
            None => None,
        },
{
    let full = FsPath::parse(path);
    match full.strip_prefix(root) {
        Some(rel) => Some(rel.render()),
        None => None,
    }
}

/// What an Oxc language server of this extension provides.
pub trait ZedLspSupport {
    /// The npm package of the server.
    spec fn package_name(&self) -> Seq<char>;

    /// The `vp` subcommand the server maps to.
    spec fn subcommand(&self) -> Seq<char>;

    /// The npm package of the server.
    fn get_package_name(&self) -> (r: String)
        ensures
            r@ == self.package_name(),
    ;

    /// The `vp` subcommand this language server maps to (`lint` / `fmt`).
    fn vite_plus_subcommand(&self) -> (r: &'static str)
        ensures
            r@ == self.subcommand(),
    ;

    /// `from/node_modules/<package_dir>/bin/<exe_name>`. The package's own
    /// launcher is taken, not `node_modules/.bin`, where pnpm stores shell
    /// scripts in place of Node.js scripts.
    fn get_exe_path_from(&self, from: &str, package_dir: &str, exe_name: &str) -> (r: String)
        ensures
            r@ == exe_path(from@, package_dir@, exe_name@),
    {
        let modules = join_text(from, "node_modules");
        let package = join_text(modules.as_str(), package_dir);
        let bin = join_text(package.as_str(), "bin");
        join_text(bin.as_str(), exe_name)
    }

    /// The server's executable installed in the workspace at
    /// `workspace_root`, given the text of the workspace's `package.json`
    /// (`None` when it could not be read): present only where that
    /// `package.json` declares the server's package.
    fn workspace_exe_path(&self, package_json: Option<String>, workspace_root: &str) -> (r: Option<
        String,
    >)
        ensures
            view_text(r) == workspace_exe_at(
                view_text(package_json),
                workspace_root@,
                self.package_name(),
            ),
    {
        let text = match package_json {
            Some(t) => t,
            None => String::from_str("{}"),
        };
        let package_name = self.get_package_name();
        if package_exists(text.as_str(), package_name.as_str()) {
            Some(self.get_exe_path_from(workspace_root, package_name.as_str(), package_name.as_str()))
        } else {
            None
        }
    }

    /// The executable to start: `workspace_exe`, the workspace's own
    /// install, where there is one; else the server installed by the
    /// extension in `current_dir`.
    fn resolved_exe_path(&self, workspace_exe: Option<String>, current_dir: &str) -> (r: String)
        ensures
            r@ == resolved_exe_of(view_text(workspace_exe), current_dir@, self.package_name()),
    {
        match workspace_exe {
            Some(path) => path,
            None => {
                let package_name = self.get_package_name();
                self.get_exe_path_from(current_dir, package_name.as_str(), package_name.as_str())
            },
        }
    }

    /// Whether the server can be started without downloading it: a runnable
    /// Vite+ project supplies its own `vp`; otherwise the workspace must
    /// declare and install the server's package.
    fn exe_available(
        &self,
        detected: &Option<DetectResult>,
        package_json: Option<String>,
        workspace_root: &str,
    ) -> (r: bool)
        ensures
            r == (runnable_vp_of(*detected) is Some || workspace_exe_at(
                view_text(package_json),
                workspace_root@,
                self.package_name(),
            ) is Some),
    {
        if runnable_vp(detected).is_some() {
            return true;
        }
        self.workspace_exe_path(package_json, workspace_root).is_some()
    }

    /// The arguments that start the server: `<vp> <subcommand> --lsp` for a
    /// runnable Vite+ project; otherwise the plain server,
    /// `<resolved_exe> --lsp`.
    fn lsp_invocation_args(&self, detected: &Option<DetectResult>, resolved_exe: &str) -> (r: Vec<
        String,
    >)
        ensures
            view_args(r@) == match runnable_vp_of(*detected) {
                Some(vp) => seq![vp, self.subcommand(), "--lsp"@],
                None => seq![resolved_exe@, "--lsp"@],
            },
    {
        match self.vite_plus_args(detected) {
            Some(args) => args,
            None => server_args(resolved_exe),
        }
    }

    /// The arguments that start the server through a runnable Vite+ project:
    /// `<vp> <subcommand> --lsp`; `None` when detection found no runnable
    /// `vp`, and the plain server is to be started instead.
    fn vite_plus_args(&self, detected: &Option<DetectResult>) -> (r: Option<Vec<String>>)
        ensures
            match runnable_vp_of(*detected) {
                Some(vp) => r matches Some(args) && view_args(args@) == seq![
                    vp,
                    self.subcommand(),
                    "--lsp"@,
                ],
                None => r is None,
            },
    {
        match runnable_vp(detected) {
            Some(vp) => {
                let mut args: Vec<String> = Vec::new();
                args.push(vp);
                args.push(String::from_str(self.vite_plus_subcommand()));
                args.push(String::from_str("--lsp"));
                assert(view_args(args@) =~= seq![
                    runnable_vp_of(*detected).unwrap(),
                    self.subcommand(),
                    "--lsp"@,
                ]);
                Some(args)
            },
            None => None,
        }
    }
}

} // verus!
