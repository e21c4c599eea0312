//! Vite+ project detection.
//!
//! A workspace is Vite+ when some `package.json` met while walking up from the
//! start directory directly declares `vite-plus` in `dependencies` or
//! `devDependencies`; the walk stops at the root workspace (a directory with a
//! `pnpm-workspace.yaml`, a `lerna.json`, or a `package.json` with a
//! `workspaces` field) and never looks above it. The runnable `vp` launcher is
//! looked for separately, walking up from the declaring directory with the same
//! bound, and is accepted only where the package beside it is the real
//! `vite-plus` (its `package.json` has `"name": "vite-plus"`). Failing that, a
//! `vp` on `$PATH` is taken, but only once Vite+ is confirmed.
use crate::manifest::{
    declares_vite_plus, has_workspaces, has_workspaces_field, is_vite_plus_manifest, json_member,
    lists_package, names_vite_plus, JsonSlotModel,
};
use crate::path::{parse_path, FsPath, PathModel};
use vstd::prelude::*;

verus! {

pub open spec fn view_text(r: Option<String>) -> Option<Seq<char>> {
    match r {
        Some(t) => Some(t@),
        None => None,
    }
}

pub open spec fn view_path(r: Option<FsPath>) -> Option<PathModel> {
    match r {
        Some(p) => Some(p@),
        None => None,
    }
}

/// The filesystem operations the detector needs.
///
/// Paths handed to these methods are canonical path text (absolute where the
/// walk starts from an absolute path). An implementation answers as a function
/// of its argument: each method is described by a spec function over the text
/// of the argument, which an implementation checked by Verus defines for
/// itself, and the detector's contract holds for every implementation that
/// answers as its spec functions say. An implementation written outside Verus
/// cannot define spec functions, and inherits the defaults: an empty
/// filesystem with nothing on `$PATH`. The methods' `ensures` then describe
/// that empty filesystem, which such an implementation does not in general
/// answer as, and which nothing checks it against; the detector's `ensures`
/// hold of it only where it does.
pub trait FileSystem {
    /// The contents of the file at `path`, when it exists and can be read.
    open spec fn text_at(&self, path: Seq<char>) -> Option<Seq<char>> {
        None
    }

    /// Whether a regular file exists at `path`.
    open spec fn exists_at(&self, path: Seq<char>) -> bool {
        false
    }

    /// Where `binary` is found on `$PATH`, when it is.
    open spec fn found_on_path(&self, binary: Seq<char>) -> Option<Seq<char>> {
        None
    }

    /// Returns the textual contents of the file at `path`, or `None` when it
    /// does not exist or cannot be read.
    fn read_text_file(&self, path: &str) -> (r: Option<String>)
        ensures
            view_text(r) == self.text_at(path@),
    ;

    /// Whether a regular file exists at `path`.
    fn file_exists(&self, path: &str) -> (r: bool)
        ensures
            r == self.exists_at(path@),
    ;

    /// Resolves a binary by name on `$PATH`; `None` when it is absent or the
    /// lookup is unavailable.
    fn which(&self, binary: &str) -> (r: Option<String>)
        ensures
            view_text(r) == self.found_on_path(binary@),
    ;
}

/// Outcome of [`detect_vite_plus_project`] for a Vite+ project.
///
/// `vp_path` is `Some` when a runnable `vp` was found, and `None` when
/// `vite-plus` is declared but no usable `vp` exists (an install hint).
#[derive(Debug, Clone, PartialEq, Eq)]
pub struct DetectResult {
    /// The ancestor whose `package.json` directly declares `vite-plus`.
    pub root: FsPath,
    /// The text of the runnable `vp` launcher, when one was found: a local
    /// launcher's path, or the path on `$PATH` as the filesystem gave it.
    pub vp_path: Option<String>,
}

/// The model of a [`DetectResult`].
pub struct DetectModel {
    pub root: PathModel,
    pub vp_path: Option<Seq<char>>,
}

impl View for DetectResult {
    type V = DetectModel;

    open spec fn view(&self) -> DetectModel {
        DetectModel { root: self.root@, vp_path: view_text(self.vp_path) }
    }
}

pub open spec fn view_detect(r: Option<DetectResult>) -> Option<DetectModel> {
    match r {
        Some(d) => Some(d@),
        None => None,
    }
}

/// `dir` joined with the path that `name` names.
pub open spec fn child(dir: PathModel, name: Seq<char>) -> PathModel {
    dir.join(parse_path(name))
}

/// The text of `dir`'s `package.json`, when it can be read.
pub open spec fn package_json_at<F: FileSystem>(fs: &F, dir: PathModel) -> Option<Seq<char>> {
    fs.text_at(child(dir, "package.json"@).render())
}

/// Whether `dir`'s `package.json` directly declares `vite-plus`.
pub open spec fn declares_at<F: FileSystem>(fs: &F, dir: PathModel) -> bool {
    match package_json_at(fs, dir) {
        Some(t) => lists_package(t, "vite-plus"@),
        None => false,
    }
}

/// Whether `dir` is a root workspace (a monorepo root): it holds a
/// `pnpm-workspace.yaml`, a `lerna.json`, or a `package.json` with a top-level
/// `workspaces` field.
pub open spec fn is_root_workspace_at<F: FileSystem>(fs: &F, dir: PathModel) -> bool {
    is_root_workspace_with(fs, dir, package_json_at(fs, dir))
}

/// Whether `dir` holds a `pnpm-workspace.yaml` or a `lerna.json`, or `pkg`
/// (the text of a `package.json`, when there is one) has a top-level
/// `workspaces` field.
pub open spec fn is_root_workspace_with<F: FileSystem>(
    fs: &F,
    dir: PathModel,
    pkg: Option<Seq<char>>,
) -> bool {
    ||| fs.exists_at(child(dir, "pnpm-workspace.yaml"@).render())
    ||| fs.exists_at(child(dir, "lerna.json"@).render())
    ||| (match pkg {
        Some(t) => has_workspaces_field(t),
        None => false,
    })
}

/// The directory of the installed `vite-plus` package under `dir`.
pub open spec fn vite_plus_package_dir(dir: PathModel) -> PathModel {
    child(child(dir, "node_modules"@), "vite-plus"@)
}

/// The `vp` launcher of the installed `vite-plus` package under `dir`.
pub open spec fn launcher_path(dir: PathModel) -> PathModel {
    child(child(vite_plus_package_dir(dir), "bin"@), "vp"@)
}

/// The launcher `dir/node_modules/vite-plus/bin/vp`, when it exists and the
/// package beside it is the real `vite-plus`.
pub open spec fn launcher_at<F: FileSystem>(fs: &F, dir: PathModel) -> Option<PathModel> {
    if !fs.exists_at(launcher_path(dir).render()) {
        None
    } else {
        match package_json_at(fs, vite_plus_package_dir(dir)) {
            Some(t) => if names_vite_plus(t) {
                Some(launcher_path(dir))
            } else {
                None
            },
            None => None,
        }
    }
}

/// What a walk looks for in each directory.
#[derive(Clone, Copy)]
pub enum Visitor {
    /// A `package.json` that directly declares `vite-plus`; the directory is
    /// the answer.
    Declaration,
    /// A validated `vp` launcher; the launcher is the answer.
    Launcher,
}

/// What `visitor` finds at `dir`.
pub open spec fn visit_at<F: FileSystem>(fs: &F, dir: PathModel, visitor: Visitor) -> Option<
    PathModel,
> {
    match visitor {
        Visitor::Declaration => if declares_at(fs, dir) {
            Some(dir)
        } else {
            None
        },
        Visitor::Launcher => launcher_at(fs, dir),
    }
}

/// Walking up from `dir`: the first thing `visitor` finds, looking at each
/// ancestor in turn, the root workspace included but nothing above it.
pub open spec fn walk_from<F: FileSystem>(fs: &F, dir: PathModel, visitor: Visitor) -> Option<
    PathModel,
>
    decreases dir.parts.len(),
{
    match visit_at(fs, dir, visitor) {
        Some(found) => Some(found),
        None => if is_root_workspace_at(fs, dir) {
            None
        } else if dir.parts.len() == 0 {
            None
        } else {
            walk_from(fs, dir.parent().unwrap(), visitor)
        },
    }
}

/// The Vite+ detection rule: `None` when no `package.json` met on the walk up
/// from `start` declares `vite-plus`; else the declaring directory, with the
/// launcher met on the walk up from it, or failing that the `vp` on `$PATH`.
pub open spec fn detect_at<F: FileSystem>(fs: &F, start: PathModel) -> Option<DetectModel> {
    match walk_from(fs, start, Visitor::Declaration) {
        None => None,
        Some(root) => Some(
            DetectModel {
                root,
                vp_path: match walk_from(fs, root, Visitor::Launcher) {
                    Some(vp) => Some(vp.render()),
                    None => fs.found_on_path("vp"@),
                },
            },
        ),
    }
}

/// The outcome of one visit.
enum Step<T> {
    Found(T),
    Continue,
}

/// Reads `dir/package.json`.
fn read_package_json<F: FileSystem>(fs: &F, dir: &FsPath) -> (r: Option<String>)
    ensures
        view_text(r) == package_json_at(fs, dir@),
{
    let file = dir.join("package.json");
    fs.read_text_file(file.render().as_str())
}

/// A directory is a root workspace (monorepo root) if it carries a
/// `pnpm-workspace.yaml`, a `lerna.json`, or a `package.json` with a top-level
/// `workspaces` field.
fn is_root_workspace<F: FileSystem>(fs: &F, dir: &FsPath, pkg: &Option<String>) -> (r: bool)
    ensures
        r == is_root_workspace_with(fs, dir@, view_text(*pkg)),
{
    if fs.file_exists(dir.join("pnpm-workspace.yaml").render().as_str()) {
        return true;
    }
    if fs.file_exists(dir.join("lerna.json").render().as_str()) {
        return true;
    }
    match pkg {
        Some(text) => has_workspaces(text.as_str()),
        None => false,
    }
}

/// Probes `dir/node_modules/vite-plus/bin/vp`, validated against that
/// package's own `package.json` (`name` is `vite-plus`).
///
/// The real package launcher is taken rather than the package manager's
/// `node_modules/.bin/vp` shim, which pnpm writes as a shell script.
pub fn resolve_vp_at<F: FileSystem>(fs: &F, dir: &FsPath) -> (r: Option<FsPath>)
    ensures
        view_path(r) == launcher_at(fs, dir@),
{
    let pkg_dir = dir.join("node_modules").join("vite-plus");
    let bin = pkg_dir.join("bin").join("vp");
    if !fs.file_exists(bin.render().as_str()) {
        return None;
    }
    match read_package_json(fs, &pkg_dir) {
        Some(manifest) => if is_vite_plus_manifest(manifest.as_str()) {
            Some(bin)
        } else {
            None
        },
        None => None,
    }
}

/// What `visitor` finds at `dir`, given the text of `dir/package.json`.
fn visit<F: FileSystem>(fs: &F, dir: &FsPath, pkg: &Option<String>, visitor: Visitor) -> (r: Step<
    FsPath,
>)
    requires
        view_text(*pkg) == package_json_at(fs, dir@),
    ensures
        match r {
            Step::Found(p) => visit_at(fs, dir@, visitor) == Some(p@),
            Step::Continue => visit_at(fs, dir@, visitor) is None,
        },
{
    match visitor {
        Visitor::Declaration => {
            let declared = match pkg {
                Some(text) => declares_vite_plus(text.as_str()),
                None => false,
            };
            if declared {
                Step::Found(dir.duplicate())
            } else {
                Step::Continue
            }
        },
        Visitor::Launcher => match resolve_vp_at(fs, dir) {
            Some(vp) => Step::Found(vp),
            None => Step::Continue,
        },
    }
}

/// Walks from `start` up towards the filesystem root, visiting each ancestor,
/// and stops at the root workspace: it is visited, its parent is not.
fn walk_up<F: FileSystem>(fs: &F, start: &FsPath, visitor: Visitor) -> (r: Option<FsPath>)
    ensures
        view_path(r) == walk_from(fs, start@, visitor),
{
    let mut dir = start.duplicate();
    loop
        invariant
            walk_from(fs, dir@, visitor) == walk_from(fs, start@, visitor),
        decreases dir@.parts.len(),
    {
        let pkg = read_package_json(fs, &dir);
        match visit(fs, &dir, &pkg, visitor) {
            Step::Found(value) => return Some(value),
            Step::Continue => {},
        }
        // Stop at the root workspace; never cross into its parent.
        if is_root_workspace(fs, &dir, &pkg) {
            return None;
        }
        match dir.parent() {
            Some(parent) => dir = parent,
            None => return None,
        }
    }
}

/// Detects whether `start` lives in a Vite+ project and, if so, locates a
/// runnable `vp`, in three phases:
///
/// 1. Walk up from `start` to the root workspace looking for the first
///    `package.json` that directly declares `vite-plus`. If none, `None`.
/// 2. Walk up from that declaring directory (again bounded by the root
///    workspace) for a validated `node_modules/vite-plus/bin/vp`.
/// 3. Fall back to a `vp` on `$PATH` now that Vite+ is confirmed.
pub fn detect_vite_plus_project<F: FileSystem>(fs: &F, start: &FsPath) -> (r: Option<
    DetectResult,
>)
    ensures
        view_detect(r) == detect_at(fs, start@),
{
    // Phase 1: find the package.json that directly declares vite-plus.
    let root = match walk_up(fs, start, Visitor::Declaration) {
        Some(root) => root,
        None => return None,
    };
    // Phase 2: a project-scoped launcher, bounded by the root workspace.
    if let Some(vp_path) = walk_up(fs, &root, Visitor::Launcher) {
        return Some(DetectResult { root, vp_path: Some(vp_path.render()) });
    }
    // Phase 3: a global vp, now that Vite+ is confirmed.
    if let Some(vp) = fs.which("vp") {
        return Some(DetectResult { root, vp_path: Some(vp) });
    }
    Some(DetectResult { root, vp_path: None })
}

/// Whether the walk up from `start` passes its first `k` directories: at each
/// of them `visitor` finds nothing and the directory is no root workspace.
pub open spec fn passes_first<F: FileSystem>(
    fs: &F,
    start: PathModel,
    visitor: Visitor,
    k: nat,
) -> bool {
    forall|j: nat|
        j < k ==> match #[trigger] start.ancestor(j) {
            Some(a) => visit_at(fs, a, visitor) is None && !is_root_workspace_at(fs, a),
            None => false,
        }
}

/// Whether `visitor` finds something at the `k`-th directory of the walk up
/// from `start`, and the walk gets there.
pub open spec fn finds_at<F: FileSystem>(
    fs: &F,
    start: PathModel,
    visitor: Visitor,
    k: nat,
) -> bool {
    &&& passes_first(fs, start, visitor, k)
    &&& start.ancestor(k) is Some
    &&& visit_at(fs, start.ancestor(k).unwrap(), visitor) is Some
}

proof fn lemma_passes_parent<F: FileSystem>(fs: &F, start: PathModel, visitor: Visitor, k: nat)
    requires
        passes_first(fs, start, visitor, k + 1),
        start.ancestor(k + 1) is Some,
    ensures
        start.parent() is Some,
        passes_first(fs, start.parent().unwrap(), visitor, k),
{
    assert(start.ancestor(0) == Some(start));
    assert(start.parent() is Some);
    let p = start.parent().unwrap();
    assert forall|j: nat| j < k implies match #[trigger] p.ancestor(j) {
        Some(a) => visit_at(fs, a, visitor) is None && !is_root_workspace_at(fs, a),
        None => false,
    } by {
        assert(start.ancestor(j + 1) == p.ancestor(j));
    }
}

/// A walk up returns what the visitor finds at the first directory where it
/// finds anything, provided the walk gets there.
pub proof fn lemma_walk_finds_first<F: FileSystem>(
    fs: &F,
    start: PathModel,
    visitor: Visitor,
    k: nat,
)
    requires
        finds_at(fs, start, visitor, k),
    ensures
        walk_from(fs, start, visitor) == visit_at(fs, start.ancestor(k).unwrap(), visitor),
    decreases k,
{
    if k > 0 {
        assert(start.ancestor(0) == Some(start));
        lemma_passes_parent(fs, start, visitor, (k - 1) as nat);
        let p = start.parent().unwrap();
        assert(start.ancestor(k) == p.ancestor((k - 1) as nat));
        lemma_walk_finds_first(fs, p, visitor, (k - 1) as nat);
    }
}

/// Whatever a walk up returns, the visitor found at some directory that the
/// walk reaches.
pub proof fn lemma_walk_found<F: FileSystem>(fs: &F, start: PathModel, visitor: Visitor) -> (k:
    nat)
    requires
        walk_from(fs, start, visitor) is Some,
    ensures
        finds_at(fs, start, visitor, k),
        walk_from(fs, start, visitor) == visit_at(fs, start.ancestor(k).unwrap(), visitor),
    decreases start.parts.len(),
{
    assert(start.ancestor(0) == Some(start));
    if visit_at(fs, start, visitor) is Some {
        assert(passes_first(fs, start, visitor, 0));
        0
    } else {
        let p = start.parent().unwrap();
        let k = lemma_walk_found(fs, p, visitor);
        assert forall|j: nat| j < k + 1 implies match #[trigger] start.ancestor(j) {
            Some(a) => visit_at(fs, a, visitor) is None && !is_root_workspace_at(fs, a),
            None => false,
        } by {
            if j > 0 {
                assert(start.ancestor(j) == p.ancestor((j - 1) as nat));
                assert(p.ancestor((j - 1) as nat) is Some);
            }
        }
        assert(start.ancestor(k + 1) == p.ancestor(k));
        k + 1
    }
}

/// A walk up finds things only at the first `len + 1` directories: `start`
/// and its ancestors, each shorter than the one before.
pub proof fn lemma_walk_within_ancestors<F: FileSystem>(
    fs: &F,
    start: PathModel,
    visitor: Visitor,
    k: nat,
)
    requires
        finds_at(fs, start, visitor, k),
    ensures
        k <= start.parts.len(),
        start.ancestor(k).unwrap().parts.len() == start.parts.len() - k,
{
    crate::path::lemma_ancestor(start, k);
}


/// A walk up returns nothing exactly when the visitor finds nothing at every
/// directory the walk reaches.
pub proof fn lemma_walk_none<F: FileSystem>(fs: &F, start: PathModel, visitor: Visitor)
    ensures
        walk_from(fs, start, visitor) is None <==> forall|k: nat|
            !#[trigger] finds_at(fs, start, visitor, k),
{
    if walk_from(fs, start, visitor) is Some {
        let k = lemma_walk_found(fs, start, visitor);
        assert(finds_at(fs, start, visitor, k));
    } else {
        assert forall|k: nat| !#[trigger] finds_at(fs, start, visitor, k) by {
            if finds_at(fs, start, visitor, k) {
                lemma_walk_finds_first(fs, start, visitor, k);
            }
        }
    }
}

/// A walk never looks above the first root workspace: where the visitor finds
/// nothing from `start` up to and including a root workspace, the walk
/// returns nothing, whatever lies above.
pub proof fn lemma_walk_stops_at_root_workspace<F: FileSystem>(
    fs: &F,
    start: PathModel,
    visitor: Visitor,
    k: nat,
)
    requires
        start.ancestor(k) matches Some(d) && is_root_workspace_at(fs, d),
        forall|j: nat|
            j <= k ==> match #[trigger] start.ancestor(j) {
                Some(a) => visit_at(fs, a, visitor) is None,
                None => true,
            },
    ensures
        walk_from(fs, start, visitor) is None,
{
    if walk_from(fs, start, visitor) is Some {
        let n = lemma_walk_found(fs, start, visitor);
        if n <= k {
            assert(start.ancestor(n) is Some);
        } else {
            assert(start.ancestor(k) is Some);
        }
    }
}

/// A project is Vite+ exactly when the walk up from `start` meets a
/// `package.json` that directly declares `vite-plus` before it has passed a
/// root workspace; the result's root is the first such directory.
pub proof fn lemma_detect_root_is_first_declaration<F: FileSystem>(
    fs: &F,
    start: PathModel,
    k: nat,
)
    requires
        finds_at(fs, start, Visitor::Declaration, k),
    ensures
        detect_at(fs, start) matches Some(m) && m.root == start.ancestor(k).unwrap(),
        declares_at(fs, start.ancestor(k).unwrap()),
{
    lemma_walk_finds_first(fs, start, Visitor::Declaration, k);
}

/// Whenever detection finds a Vite+ project, its root is an ancestor of
/// `start` (or `start` itself) whose `package.json` directly declares
/// `vite-plus`, reached before any root workspace was passed, and no nearer
/// directory declares it.
pub proof fn lemma_detect_root_declares<F: FileSystem>(fs: &F, start: PathModel) -> (k: nat)
    requires
        detect_at(fs, start) is Some,
    ensures
        finds_at(fs, start, Visitor::Declaration, k),
        start.ancestor(k) == Some(detect_at(fs, start).unwrap().root),
        declares_at(fs, detect_at(fs, start).unwrap().root),
{
    lemma_walk_found(fs, start, Visitor::Declaration)
}

/// Detection never looks above the root workspace: where no directory from
/// `start` up to and including the first root workspace declares `vite-plus`,
/// the project is not Vite+, whatever lies above.
pub proof fn lemma_detect_stops_at_root_workspace<F: FileSystem>(
    fs: &F,
    start: PathModel,
    k: nat,
)
    requires
        start.ancestor(k) matches Some(d) && is_root_workspace_at(fs, d),
        forall|j: nat|
            j <= k ==> match #[trigger] start.ancestor(j) {
                Some(a) => !declares_at(fs, a),
                None => true,
            },
    ensures
        detect_at(fs, start) is None,
{
    if detect_at(fs, start) is Some {
        let n = lemma_detect_root_declares(fs, start);
        if n <= k {
            assert(start.ancestor(n) is Some);
        } else {
            assert(start.ancestor(k) is Some);
        }
    }
}

/// Without a declaration the project is not Vite+, whatever `vp` is on
/// `$PATH` or installed; with one, the result is a Vite+ project.
pub proof fn lemma_detect_needs_declaration<F: FileSystem>(fs: &F, start: PathModel)
    ensures
        detect_at(fs, start) is Some <==> exists|k: nat|
            finds_at(fs, start, Visitor::Declaration, k),
{
    if detect_at(fs, start) is Some {
        let k = lemma_detect_root_declares(fs, start);
    }
    if exists|k: nat| finds_at(fs, start, Visitor::Declaration, k) {
        let k = choose|k: nat| finds_at(fs, start, Visitor::Declaration, k);
        lemma_detect_root_is_first_declaration(fs, start, k);
    }
}

/// A launcher installed on the walk up from the root takes precedence over a
/// `vp` on `$PATH`, and it is always a validated one: the first directory `d`
/// on that walk with `d/node_modules/vite-plus/bin/vp` present and a manifest
/// beside it named `vite-plus`. Only where there is none is `$PATH` asked.
pub proof fn lemma_detect_launcher<F: FileSystem>(fs: &F, start: PathModel)
    requires
        detect_at(fs, start) is Some,
    ensures
        ({
            let m = detect_at(fs, start).unwrap();
            match walk_from(fs, m.root, Visitor::Launcher) {
                Some(vp) => {
                    &&& m.vp_path == Some(vp.render())
                    &&& exists|k: nat|
                        {
                            &&& #[trigger] finds_at(fs, m.root, Visitor::Launcher, k)
                            &&& vp == launcher_path(m.root.ancestor(k).unwrap())
                            &&& fs.exists_at(vp.render())
                            &&& package_json_at(
                                fs,
                                vite_plus_package_dir(m.root.ancestor(k).unwrap()),
                            ) matches Some(t) && names_vite_plus(t)
                        }
                },
                None => m.vp_path == fs.found_on_path("vp"@),
            }
        }),
{
    let m = detect_at(fs, start).unwrap();
    if walk_from(fs, m.root, Visitor::Launcher) is Some {
        let k = lemma_walk_found(fs, m.root, Visitor::Launcher);
        assert(finds_at(fs, m.root, Visitor::Launcher, k));
    }
}

/// Whether the JSON text holds `vite-plus`, with a value other than `null`,
/// under `dependencies` or `devDependencies`.
pub open spec fn names_vite_plus_dependency(t: Seq<char>) -> bool {
    ||| (json_member(t, seq!["dependencies"@, "vite-plus"@]) matches Some(m) && m
        != JsonSlotModel::Null)
    ||| (json_member(t, seq!["devDependencies"@, "vite-plus"@]) matches Some(m) && m
        != JsonSlotModel::Null)
}

/// A directory declares Vite+ exactly when its `package.json` holds a
/// `vite-plus` entry under `dependencies` or `devDependencies`; no other
/// package (such as `vite`) makes it one.
pub proof fn lemma_declares_at_means_vite_plus_entry<F: FileSystem>(fs: &F, dir: PathModel)
    ensures
        declares_at(fs, dir) <==> (fs.text_at(dir.join(parse_path("package.json"@)).render())
            matches Some(t) && names_vite_plus_dependency(t)),
{
}

/// Whatever detection reports as a Vite+ project has, at its root, a
/// `package.json` that holds a `vite-plus` entry under `dependencies` or
/// `devDependencies`; and the root is `start` or one of its ancestors.
pub proof fn lemma_detected_root_has_vite_plus_entry<F: FileSystem>(fs: &F, start: PathModel)
    requires
        detect_at(fs, start) is Some,
    ensures
        fs.text_at(detect_at(fs, start).unwrap().root.join(parse_path("package.json"@)).render())
            matches Some(t) && names_vite_plus_dependency(t),
        exists|k: nat| start.ancestor(k) == Some(detect_at(fs, start).unwrap().root),
{
    let k = lemma_detect_root_declares(fs, start);
    lemma_declares_at_means_vite_plus_entry(fs, detect_at(fs, start).unwrap().root);
}

/// A project none of whose directories, from `start` up, has a
/// `package.json` with a `vite-plus` entry under `dependencies` or
/// `devDependencies` is not Vite+.
pub proof fn lemma_no_vite_plus_entry_not_detected<F: FileSystem>(fs: &F, start: PathModel)
    requires
        forall|k: nat|
            #[trigger] start.ancestor(k) matches Some(d) ==> !(fs.text_at(
                d.join(parse_path("package.json"@)).render(),
            ) matches Some(t) && names_vite_plus_dependency(t)),
    ensures
        detect_at(fs, start) is None,
{
    if detect_at(fs, start) is Some {
        lemma_detected_root_has_vite_plus_entry(fs, start);
        let k = choose|k: nat| start.ancestor(k) == Some(detect_at(fs, start).unwrap().root);
        assert(start.ancestor(k) is Some);
    }
}

} // verus!
