//! The Oxlint language server.
use crate::lsp::{view_args, BinaryCommand, BinaryCommandModel, ZedLspSupport};
use crate::path::{join_text, push_text};
use vstd::prelude::*;

verus! {

/// The Oxlint language server of the extension.
pub struct ZedOxlintLsp {}

impl ZedOxlintLsp {
    pub fn new() -> Self {
        ZedOxlintLsp {  }
    }
}

impl ZedLspSupport for ZedOxlintLsp {
    open spec fn package_name(&self) -> Seq<char> {
        "oxlint"@
    }

    open spec fn subcommand(&self) -> Seq<char> {
        "lint"@
    }

    fn get_package_name(&self) -> (r: String) {
        String::from_str("oxlint")
    }

    fn vite_plus_subcommand(&self) -> (r: &'static str) {
        "lint"
    }
}

/// What the settings' `binary` section makes of the command, where it gives
/// both `path` and `arguments` or neither: the command they name, or, for a
/// section that only sets `env`, the default command.
pub open spec fn binary_command_of(path: Option<String>, arguments: Option<Vec<String>>) -> BinaryCommandModel {
    match (path, arguments) {
        (Some(p), Some(a)) => BinaryCommandModel::Given(p@, view_args(a@)),
        _ => BinaryCommandModel::UseDefault,
    }
}

/// The command that the settings' `binary` section names. A section with
/// neither `path` nor `arguments` (one that only sets `env`) keeps the
/// default command. A section with only one of them is not taken: the
/// server's settings insist that both be supplied, and the caller stops
/// there.
pub fn binary_command(path: Option<String>, arguments: Option<Vec<String>>) -> (r: BinaryCommand)
    requires
        path is Some == arguments is Some,
    ensures
        r@ == binary_command_of(path, arguments),
        path is Some ==> r == BinaryCommand::Given(path.unwrap(), arguments.unwrap()),
        path is None ==> r == BinaryCommand::UseDefault,
{
    match (path, arguments) {
        (Some(command), Some(args)) => BinaryCommand::Given(command, args),
        _ => BinaryCommand::UseDefault,
    }
}

/// The name of the variable that tells oxlint where tsgolint is.
pub open spec fn tsgolint_key() -> Seq<char> {
    "OXLINT_TSGOLINT_PATH"@
}

pub open spec fn view_env(env: Seq<(String, String)>) -> Seq<(Seq<char>, Seq<char>)> {
    env.map_values(|e: (String, String)| (e.0@, e.1@))
}

/// A tsgolint path as the server gets it: an absolute path as it is, a
/// relative one taken from the worktree root.
pub open spec fn resolve_tsgolint(root: Seq<char>, path: Seq<char>) -> Seq<char> {
    if path.len() > 0 && path[0] == '/' {
        path
    } else {
        push_text(root, path)
    }
}

/// `env` with the value of its first `OXLINT_TSGOLINT_PATH` entry resolved
/// against `root`; every other entry as it is.
pub open spec fn normalized_env(env: Seq<(Seq<char>, Seq<char>)>, root: Seq<char>) -> Seq<
    (Seq<char>, Seq<char>),
>
    decreases env.len(),
{
    if env.len() == 0 {
        env
    } else if env[0].0 == tsgolint_key() {
        seq![(env[0].0, resolve_tsgolint(root, env[0].1))] + env.skip(1)
    } else {
        seq![env[0]] + normalized_env(env.skip(1), root)
    }
}

proof fn lemma_normalized_prefix(env: Seq<(Seq<char>, Seq<char>)>, root: Seq<char>, i: int)
    requires
        0 <= i <= env.len(),
        forall|j: int| 0 <= j < i ==> (#[trigger] env[j]).0 != tsgolint_key(),
    ensures
        normalized_env(env, root) == env.take(i) + normalized_env(env.skip(i), root),
    decreases i,
{
    if i == 0 {
        assert(env.skip(0) =~= env);
        assert(env.take(0) + normalized_env(env, root) =~= normalized_env(env, root));
    } else {
        let rest = env.skip(1);
        assert forall|j: int| 0 <= j < i - 1 implies (#[trigger] rest[j]).0 != tsgolint_key() by {
            assert(rest[j] == env[j + 1]);
        }
        lemma_normalized_prefix(rest, root, i - 1);
        assert(rest.skip(i - 1) =~= env.skip(i));
        assert(env.take(i) =~= seq![env[0]] + rest.take(i - 1));
        assert(env[0].0 != tsgolint_key());
        assert(normalized_env(env, root) == seq![env[0]] + normalized_env(rest, root));
        assert(seq![env[0]] + (rest.take(i - 1) + normalized_env(env.skip(i), root)) =~= env.take(
            i,
        ) + normalized_env(env.skip(i), root));
    }
}

proof fn lemma_resolved_is_rooted(root: Seq<char>, path: Seq<char>)
    requires
        root.len() > 0,
        root[0] == '/',
    ensures
        resolve_tsgolint(root, path).len() > 0,
        resolve_tsgolint(root, path)[0] == '/',
{
    if !(path.len() > 0 && path[0] == '/') {
        if root.last() == '/' {
            assert((root + path)[0] == root[0]);
        } else {
            assert((root + seq!['/'] + path)[0] == root[0]);
        }
    }
}

/// Resolving twice is resolving once: with an absolute worktree root, the
/// resolved `OXLINT_TSGOLINT_PATH` is absolute, and an absolute path is kept
/// as it is.
pub proof fn lemma_normalized_env_idempotent(env: Seq<(Seq<char>, Seq<char>)>, root: Seq<char>)
    requires
        root.len() > 0,
        root[0] == '/',
    ensures
        normalized_env(normalized_env(env, root), root) == normalized_env(env, root),
    decreases env.len(),
{
    if env.len() > 0 {
        let n = normalized_env(env, root);
        if env[0].0 == tsgolint_key() {
            let v = resolve_tsgolint(root, env[0].1);
            lemma_resolved_is_rooted(root, env[0].1);
            assert(resolve_tsgolint(root, v) == v);
            assert(n[0] == (env[0].0, v));
            assert(n.skip(1) =~= env.skip(1));
            assert(normalized_env(n, root) =~= n);
        } else {
            lemma_normalized_env_idempotent(env.skip(1), root);
            assert(n[0] == env[0]);
            assert(n.skip(1) =~= normalized_env(env.skip(1), root));
            assert(normalized_env(n, root) =~= n);
        }
    }
}

/// Whether no two entries of `env` have the same name, as in a map.
pub open spec fn names_unique(env: Seq<(Seq<char>, Seq<char>)>) -> bool {
    forall|i: int, j: int| 0 <= i < j < env.len() ==> (#[trigger] env[i]).0 != (#[trigger] env[j]).0
}

/// `env` with every `OXLINT_TSGOLINT_PATH` value resolved against `root`.
pub open spec fn resolve_every(env: Seq<(Seq<char>, Seq<char>)>, root: Seq<char>) -> Seq<
    (Seq<char>, Seq<char>),
> {
    env.map_values(
        |e: (Seq<char>, Seq<char>)|
            if e.0 == tsgolint_key() {
                (e.0, resolve_tsgolint(root, e.1))
            } else {
                e
            },
    )
}

/// For an environment whose names are unique, as a map's are, the one
/// `OXLINT_TSGOLINT_PATH` entry is resolved and every other entry is kept.
pub proof fn lemma_normalized_env_of_map(env: Seq<(Seq<char>, Seq<char>)>, root: Seq<char>)
    requires
        names_unique(env),
    ensures
        normalized_env(env, root) == resolve_every(env, root),
    decreases env.len(),
{
    if env.len() > 0 {
        let rest = env.skip(1);
        assert(names_unique(rest)) by {
            assert forall|i: int, j: int| 0 <= i < j < rest.len() implies (
            #[trigger] rest[i]).0 != (#[trigger] rest[j]).0 by {
                assert(rest[i] == env[i + 1] && rest[j] == env[j + 1]);
            }
        }
        if env[0].0 == tsgolint_key() {
            assert forall|i: int| 0 <= i < rest.len() implies (#[trigger] rest[i]).0
                != tsgolint_key() by {
                assert(rest[i] == env[i + 1]);
            }
            assert(resolve_every(env, root) =~= seq![
                (env[0].0, resolve_tsgolint(root, env[0].1)),
            ] + rest);
        } else {
            lemma_normalized_env_of_map(rest, root);
            assert(resolve_every(env, root) =~= seq![env[0]] + resolve_every(rest, root));
        }
    }
}


/// Resolves a relative `OXLINT_TSGOLINT_PATH` in the server's environment
/// against the worktree root, so that the server finds tsgolint wherever it
/// runs. Only the first entry of that name is touched.
pub fn normalize_tsgolint_env(vars: Vec<(String, String)>, worktree_root: &str) -> (r: Vec<
    (String, String),
>)
    ensures
        view_env(r@) == normalized_env(view_env(vars@), worktree_root@),
{
    let ghost given = view_env(vars@);
    let mut env = vars;
    let key = String::from_str("OXLINT_TSGOLINT_PATH");
    let mut i: usize = 0;
    while i < env.len()
        invariant
            i <= env.len(),
            view_env(env@) == given,
            given == view_env(vars@),
            key@ == tsgolint_key(),
            forall|j: int| 0 <= j < i ==> (#[trigger] given[j]).0 != tsgolint_key(),
        decreases env.len() - i,
    {
        if env[i].0 == key {
            let path = env[i].1.clone();
            let name = env[i].0.clone();
            let resolved = if path.unicode_len() > 0 && path.as_str().get_char(0) == '/' {
                path
            } else {
                join_text(worktree_root, path.as_str())
            };
            proof {
                lemma_normalized_prefix(given, worktree_root@, i as int);
                let rest = given.skip(i as int);
                assert(rest[0] == given[i as int]);
                assert(given[i as int] == (env@[i as int].0@, env@[i as int].1@));
                assert(rest[0].0 == tsgolint_key());
                assert(normalized_env(rest, worktree_root@) == seq![
                    (rest[0].0, resolve_tsgolint(worktree_root@, rest[0].1)),
                ] + rest.skip(1));
                assert(resolved@ == resolve_tsgolint(worktree_root@, rest[0].1));
            }
            let ghost before = env@;
            env.set(i, (name, resolved));
            proof {
                let rest = given.skip(i as int);
                assert(view_env(env@) =~= given.take(i as int) + (seq![
                    (rest[0].0, resolve_tsgolint(worktree_root@, rest[0].1)),
                ] + rest.skip(1)));
                assert(view_env(env@) == normalized_env(given, worktree_root@));
            }
            return env;
        }
        i += 1;
    }
    proof {
        lemma_normalized_prefix(given, worktree_root@, env.len() as int);
        assert(given.skip(env.len() as int) =~= seq![]);
        assert(given.take(env.len() as int) =~= given);
        assert(given.take(env.len() as int) + seq![] =~= given);
    }
    env
}

/// Given both a path and arguments, the command is that path with exactly
/// those arguments: as many, the same, in the same order.
pub proof fn lemma_binary_command_keeps_arguments(p: String, a: Vec<String>)
    ensures
        binary_command_of(Some(p), Some(a)) matches BinaryCommandModel::Given(c, xs) && c == p@
            && xs.len() == a@.len() && forall|i: int| 0 <= i < a@.len() ==> xs[i] == a@[i]@,
{
}

/// A relative tsgolint path is the worktree root, a separator unless the root
/// is empty or ends with one, and the path verbatim; an absolute one is kept.
pub proof fn lemma_resolve_tsgolint(root: Seq<char>, path: Seq<char>)
    ensures
        path.len() > 0 && path[0] == '/' ==> resolve_tsgolint(root, path) == path,
        !(path.len() > 0 && path[0] == '/') ==> resolve_tsgolint(root, path) == root + (if root.len()
            == 0 || root[root.len() - 1] == '/' {
            Seq::<char>::empty()
        } else {
            seq!['/']
        }) + path,
{
    if !(path.len() > 0 && path[0] == '/') {
        if root.len() == 0 || root[root.len() - 1] == '/' {
            assert(root + Seq::<char>::empty() =~= root);
        }
    }
}

/// What the normalised environment holds: the same entries in the same
/// order, but for the first `OXLINT_TSGOLINT_PATH` entry, whose value is
/// kept where it is absolute and else becomes the worktree root, a separator
/// unless the root is empty or ends with one, and the value verbatim.
pub proof fn lemma_normalized_env_entries(
    env: Seq<(Seq<char>, Seq<char>)>,
    root: Seq<char>,
    i: int,
)
    requires
        0 <= i < env.len(),
        env[i].0 == tsgolint_key(),
        forall|j: int| 0 <= j < i ==> (#[trigger] env[j]).0 != tsgolint_key(),
    ensures
        normalized_env(env, root).len() == env.len(),
        forall|j: int| 0 <= j < env.len() && j != i ==> #[trigger] normalized_env(env, root)[j]
            == env[j],
        normalized_env(env, root)[i].0 == tsgolint_key(),
        env[i].1.len() > 0 && env[i].1[0] == '/' ==> normalized_env(env, root)[i].1 == env[i].1,
        !(env[i].1.len() > 0 && env[i].1[0] == '/') ==> normalized_env(env, root)[i].1 == root + (
        if root.len() == 0 || root[root.len() - 1] == '/' {
            Seq::<char>::empty()
        } else {
            seq!['/']
        }) + env[i].1,
{
    lemma_normalized_prefix(env, root, i);
    lemma_resolve_tsgolint(root, env[i].1);
    let rest = env.skip(i);
    assert(rest[0] == env[i]);
    let n = normalized_env(env, root);
    assert(normalized_env(rest, root) == seq![(rest[0].0, resolve_tsgolint(root, rest[0].1))]
        + rest.skip(1));
    assert forall|j: int| 0 <= j < env.len() && j != i implies #[trigger] n[j] == env[j] by {
        if j < i {
            assert(n[j] == env.take(i)[j]);
        } else {
            assert(n[j] == rest.skip(1)[j - i - 1]);
        }
    }
}

} // verus!
