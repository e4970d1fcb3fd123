//! Finding a package inside a cloned repository tree.
//!
//! The tree is given as a snapshot of the directories that matter: the root,
//! the paths named by the workspace patterns and the sub-directories of the
//! directories that wildcard patterns list. Paths in the snapshot are relative
//! to the tree root, `/`-separated, with `""` for the root itself.
use vstd::prelude::*;
use vstd::string::*;
use crate::text::{
    contains, ends_with, has_infix, has_suffix, last_segment_start, pairs_view, same_text,
    segment_start,
};

verus! {

/// What stands at a path.
#[derive(PartialEq, Eq, Structural, Clone, Copy)]
pub enum PathKind {
    Missing,
    File,
    Dir,
}

/// What the `Cargo.toml` of a directory gave.
pub enum ManifestState {
    /// The directory has no `Cargo.toml`.
    Absent,
    /// It could not be read or parsed; the text says why.
    Unreadable(String),
    /// It has no `[package]` section.
    NoPackage,
    /// It declares the package of this name.
    Package(String),
}

/// One probed path of the tree.
pub struct DirProbe {
    /// Relative to the tree root.
    pub path: String,
    pub kind: PathKind,
    /// Names of the immediate sub-directories in listing order, or why the
    /// listing failed. Looked at only where `kind` is `Dir`.
    pub subdirs: Result<Vec<String>, String>,
    pub manifest: ManifestState,
}

/// The `[workspace]` section of a root manifest.
pub struct WorkspaceConfig {
    pub members: Option<Vec<String>>,
    pub exclude: Option<Vec<String>>,
}

/// The root manifest, as far as workspace detection reads it.
pub enum RootManifest {
    Absent,
    Unreadable(String),
    Parsed { workspace: Option<WorkspaceConfig> },
}

/// A cloned tree: where it lies, its root manifest and the probed paths.
pub struct RepoTree {
    pub root: String,
    pub manifest: RootManifest,
    pub probes: Vec<DirProbe>,
}

/// Locates packages inside a cloned tree.
pub struct WorkspaceDetector;

/// Why no package location came out.
pub enum LayoutError {
    /// The tree has no root `Cargo.toml`.
    NoRootManifest,
    /// A manifest or a directory listing at `path` could not be read.
    Unreadable { path: String, detail: String },
    /// No candidate declares the package.
    NotFound { crate_name: String, workspace: bool },
}

/// The model of a `LayoutError`.
pub enum LayoutErrorView {
    NoRootManifest,
    Unreadable { path: Seq<char>, detail: Seq<char> },
    NotFound { crate_name: Seq<char>, workspace: bool },
}

impl View for LayoutError {
    type V = LayoutErrorView;

    open spec fn view(&self) -> LayoutErrorView {
        match self {
            LayoutError::NoRootManifest => LayoutErrorView::NoRootManifest,
            LayoutError::Unreadable { path, detail } => LayoutErrorView::Unreadable {
                path: path@,
                detail: detail@,
            },
            LayoutError::NotFound { crate_name, workspace } => LayoutErrorView::NotFound {
                crate_name: crate_name@,
                workspace: *workspace,
            },
        }
    }
}

/// The characters of each string.
pub open spec fn strs(v: Seq<String>) -> Seq<Seq<char>> {
    v.map_values(|s: String| s@)
}

/// The patterns of an optional list.
pub open spec fn opt_strs(o: Option<Vec<String>>) -> Seq<Seq<char>> {
    match o {
        Some(v) => strs(v@),
        None => Seq::empty(),
    }
}

/// The first probe of `path`.
pub open spec fn probe_for(ps: Seq<DirProbe>, path: Seq<char>) -> Option<DirProbe>
    decreases ps.len(),
{
    if ps.len() == 0 {
        None
    } else if ps[0].path@ == path {
        Some(ps[0])
    } else {
        probe_for(ps.skip(1), path)
    }
}

/// What stands at `path`; a path that was not probed counts as missing.
pub open spec fn kind_at(ps: Seq<DirProbe>, path: Seq<char>) -> PathKind {
    match probe_for(ps, path) {
        Some(p) => p.kind,
        None => PathKind::Missing,
    }
}

/// The sub-directory names at `path`, or why the listing failed.
pub open spec fn listing_at(ps: Seq<DirProbe>, path: Seq<char>) -> Result<Seq<Seq<char>>, Seq<char>> {
    match probe_for(ps, path) {
        Some(p) => match p.subdirs {
            Ok(v) => Ok(strs(v@)),
            Err(m) => Err(m@),
        },
        None => Ok(Seq::empty()),
    }
}

/// A path that could not be read, and why.
pub type Failure = (Seq<char>, Seq<char>);

/// The error for a path that could not be read.
pub open spec fn unreadable(f: Failure) -> LayoutErrorView {
    LayoutErrorView::Unreadable { path: f.0, detail: f.1 }
}

/// The manifest state at `path`; a path that was not probed has none.
pub open spec fn manifest_at(ps: Seq<DirProbe>, path: Seq<char>) -> ManifestState {
    match probe_for(ps, path) {
        Some(p) => p.manifest,
        None => ManifestState::Absent,
    }
}

/// `name` under the relative directory `dir`.
pub open spec fn join_rel(dir: Seq<char>, name: Seq<char>) -> Seq<char> {
    if dir.len() == 0 {
        name
    } else {
        dir + "/"@ + name
    }
}

/// Each name under the relative directory `dir`.
pub open spec fn children(dir: Seq<char>, names: Seq<Seq<char>>) -> Seq<Seq<char>> {
    names.map_values(|n: Seq<char>| join_rel(dir, n))
}

/// The directory that a wildcard pattern lists: everything before its last `/`.
pub open spec fn pattern_parent(p: Seq<char>) -> Seq<char> {
    if segment_start(p, '/') == 0 {
        Seq::empty()
    } else {
        p.take(segment_start(p, '/') - 1)
    }
}

/// The directories that one pattern names, in order; `Err` carries the path
/// whose listing failed, and why. A pattern with `*` names the sub-directories of its
/// parent when it ends in `/*` and nothing otherwise; any other pattern names
/// itself where something stands there.
pub open spec fn expansion(ps: Seq<DirProbe>, p: Seq<char>) -> Result<Seq<Seq<char>>, Failure> {
    if has_infix(p, "*"@) {
        let parent = pattern_parent(p);
        if kind_at(ps, parent) == PathKind::Dir {
            match listing_at(ps, parent) {
                Ok(names) => if has_suffix(p, "/*"@) {
                    Ok(children(parent, names))
                } else {
                    Ok(Seq::empty())
                },
                Err(m) => Err((parent, m)),
            }
        } else {
            Ok(Seq::empty())
        }
    } else if kind_at(ps, p) != PathKind::Missing {
        Ok(seq![p])
    } else {
        Ok(Seq::empty())
    }
}

/// The expansions of several patterns, one after another; the first failure
/// ends it.
pub open spec fn expand_all(ps: Seq<DirProbe>, pats: Seq<Seq<char>>) -> Result<
    Seq<Seq<char>>,
    Failure,
>
    decreases pats.len(),
{
    if pats.len() == 0 {
        Ok(Seq::empty())
    } else {
        match expand_all(ps, pats.drop_last()) {
            Err(e) => Err(e),
            Ok(front) => match expansion(ps, pats.last()) {
                Err(e) => Err(e),
                Ok(more) => Ok(front + more),
            },
        }
    }
}

/// `c` without the entries that `x` holds, order kept.
pub open spec fn without(c: Seq<Seq<char>>, x: Seq<Seq<char>>) -> Seq<Seq<char>>
    decreases c.len(),
{
    if c.len() == 0 {
        Seq::empty()
    } else {
        let front = without(c.drop_last(), x);
        if x.contains(c.last()) {
            front
        } else {
            front.push(c.last())
        }
    }
}

/// The member directories of a workspace, excluded ones taken out.
pub open spec fn workspace_candidates(ps: Seq<DirProbe>, ws: WorkspaceConfig) -> Result<
    Seq<Seq<char>>,
    Failure,
> {
    match expand_all(ps, opt_strs(ws.members)) {
        Err(e) => Err(e),
        Ok(c) => match expand_all(ps, opt_strs(ws.exclude)) {
            Err(e) => Err(e),
            Ok(x) => Ok(without(c, x)),
        },
    }
}

/// The first candidate whose manifest declares `name`; `Err` carries a
/// candidate met first whose manifest could not be read, and why.
pub open spec fn first_hit(ps: Seq<DirProbe>, cands: Seq<Seq<char>>, name: Seq<char>) -> Result<
    Option<Seq<char>>,
    Failure,
>
    decreases cands.len(),
{
    if cands.len() == 0 {
        Ok(None)
    } else {
        match manifest_at(ps, cands[0]) {
            ManifestState::Unreadable(m) => Err((cands[0], m@)),
            ManifestState::Package(n) => if n@ == name {
                Ok(Some(cands[0]))
            } else {
                first_hit(ps, cands.skip(1), name)
            },
            _ => first_hit(ps, cands.skip(1), name),
        }
    }
}

/// Where a relative path lies, given the tree root.
pub open spec fn located(root: Seq<char>, rel: Seq<char>) -> Seq<char> {
    if rel.len() == 0 {
        root
    } else {
        root + "/"@ + rel
    }
}

/// Each candidate with a package name, as (name, location), in order.
pub open spec fn inventory(ps: Seq<DirProbe>, root: Seq<char>, cands: Seq<Seq<char>>) -> Seq<
    (Seq<char>, Seq<char>),
>
    decreases cands.len(),
{
    if cands.len() == 0 {
        Seq::empty()
    } else {
        let front = inventory(ps, root, cands.drop_last());
        match manifest_at(ps, cands.last()) {
            ManifestState::Package(n) => front.push((n@, located(root, cands.last()))),
            _ => front,
        }
    }
}

/// Where the package `name` lies in the tree, or why it was not found.
pub open spec fn layout_of(t: RepoTree, name: Seq<char>) -> Result<Seq<char>, LayoutErrorView> {
    let ps = t.probes@;
    match t.manifest {
        RootManifest::Absent => Err(LayoutErrorView::NoRootManifest),
        RootManifest::Unreadable(m) => Err(unreadable((Seq::empty(), m@))),
        RootManifest::Parsed { workspace: Some(ws) } => match workspace_candidates(ps, ws) {
            Err(f) => Err(unreadable(f)),
            Ok(c) => match first_hit(ps, c, name) {
                Err(f) => Err(unreadable(f)),
                Ok(Some(rel)) => Ok(located(t.root@, rel)),
                Ok(None) => Err(LayoutErrorView::NotFound { crate_name: name, workspace: true }),
            },
        },
        RootManifest::Parsed { workspace: None } => match first_hit(ps, seq![Seq::empty()], name) {
            Err(f) => Err(unreadable(f)),
            Ok(Some(rel)) => Ok(located(t.root@, rel)),
            Ok(None) => Err(LayoutErrorView::NotFound { crate_name: name, workspace: false }),
        },
    }
}

/// Every package of the tree with its location.
pub open spec fn packages_of(t: RepoTree) -> Result<Seq<(Seq<char>, Seq<char>)>, LayoutErrorView> {
    let ps = t.probes@;
    match t.manifest {
        RootManifest::Absent => Ok(Seq::empty()),
        RootManifest::Unreadable(m) => Err(unreadable((Seq::empty(), m@))),
        RootManifest::Parsed { workspace: Some(ws) } => match workspace_candidates(ps, ws) {
            Err(f) => Err(unreadable(f)),
            Ok(c) => Ok(inventory(ps, t.root@, c)),
        },
        RootManifest::Parsed { workspace: None } => Ok(
            inventory(ps, t.root@, seq![Seq::empty()]),
        ),
    }
}


/// Once a prefix of the patterns fails, the whole expansion fails the same way.
proof fn lemma_expand_all_failure(ps: Seq<DirProbe>, pats: Seq<Seq<char>>, k: int)
    requires
        0 <= k <= pats.len(),
        expand_all(ps, pats.take(k)) is Err,
    ensures
        expand_all(ps, pats) == expand_all(ps, pats.take(k)),
    decreases pats.len() - k,
{
    if k == pats.len() {
        assert(pats.take(k) =~= pats);
    } else {
        let front = pats.drop_last();
        assert(front.take(k) =~= pats.take(k));
        lemma_expand_all_failure(ps, front, k);
    }
}

/// `name` under the relative directory `dir`.
pub fn join_relative(dir: &str, name: &str) -> (r: String)
    ensures
        r@ == join_rel(dir@, name@),
{
    if dir.unicode_len() == 0 {
        String::from_str(name)
    } else {
        let mut out = String::from_str(dir);
        out.append("/");
        out.append(name);
        out
    }
}

/// Where a relative path lies, given the tree root.
pub fn located_path(root: &str, rel: &str) -> (r: String)
    ensures
        r@ == located(root@, rel@),
{
    if rel.unicode_len() == 0 {
        String::from_str(root)
    } else {
        let mut out = String::from_str(root);
        out.append("/");
        out.append(rel);
        out
    }
}

/// The directory that a wildcard pattern lists: everything before its last `/`.
pub fn parent_of_pattern(p: &str) -> (r: String)
    ensures
        r@ == pattern_parent(p@),
{
    let k = last_segment_start(p, '/');
    if k == 0 {
        String::new()
    } else {
        let r = String::from_str(p.substring_char(0, k - 1));
        assert(r@ =~= pattern_parent(p@));
        r
    }
}

/// Whether `v` holds a string equal to `s`.
fn holds_text(v: &Vec<String>, s: &str) -> (r: bool)
    ensures
        r == strs(v@).contains(s@),
{
    let mut i: usize = 0;
    while i < v.len()
        invariant
            i <= v@.len(),
            forall|j: int| 0 <= j < i ==> v@[j]@ != s@,
        decreases v.len() - i,
    {
        if same_text(v[i].as_str(), s) {
            assert(strs(v@)[i as int] == s@);
            return true;
        }
        i = i + 1;
    }
    assert(!strs(v@).contains(s@)) by {
        if strs(v@).contains(s@) {
            let j = choose|j: int| 0 <= j < strs(v@).len() && strs(v@)[j] == s@;
            assert(v@[j]@ == s@);
        }
    }
    false
}

impl RepoTree {
    /// Index of the first probe of `path`.
    fn probe_index(&self, path: &str) -> (r: Option<usize>)
        ensures
            r is Some ==> r->Some_0 < self.probes@.len() && probe_for(self.probes@, path@)
                == Some(self.probes@[r->Some_0 as int]),
            r is None ==> probe_for(self.probes@, path@) is None,
    {
        let ghost ps = self.probes@;
        let mut i: usize = 0;
        assert(ps.skip(0) =~= ps);
        while i < self.probes.len()
            invariant
                ps == self.probes@,
                i <= ps.len(),
                probe_for(ps, path@) == probe_for(ps.skip(i as int), path@),
            decreases self.probes.len() - i,
        {
            assert(ps.skip(i as int)[0] == ps[i as int]);
            if same_text(self.probes[i].path.as_str(), path) {
                return Some(i);
            }
            assert(ps.skip(i as int).skip(1) =~= ps.skip(i + 1));
            i = i + 1;
        }
        assert(ps.skip(i as int).len() == 0);
        None
    }

    /// The directories that one workspace pattern names (see `expansion`).
    pub fn expand_glob_pattern(&self, pattern: &str) -> (r: Result<Vec<String>, LayoutError>)
        ensures
            match expansion(self.probes@, pattern@) {
                Ok(s) => r is Ok && strs(r->Ok_0@) == s,
                Err(p) => r is Err && r->Err_0@ == unreadable(p),
            },
    {
        let mut paths: Vec<String> = Vec::new();
        if contains(pattern, "*") {
            let parent = parent_of_pattern(pattern);
            if let Some(i) = self.probe_index(parent.as_str()) {
                let probe = &self.probes[i];
                if probe.kind == PathKind::Dir {
                    match &probe.subdirs {
                        Ok(names) => {
                            if ends_with(pattern, "/*") {
                                let ghost ns = strs(names@);
                                let mut j: usize = 0;
                                while j < names.len()
                                    invariant
                                        ns == strs(names@),
                                        j <= names@.len(),
                                        strs(paths@) == children(parent@, ns.take(j as int)),
                                    decreases names.len() - j,
                                {
                                    let ghost before = paths@;
                                    let child = join_relative(parent.as_str(), names[j].as_str());
                                    paths.push(child);
                                    assert(strs(paths@) =~= strs(before).push(child@));
                                    assert(children(parent@, ns.take(j + 1)) =~= children(
                                        parent@,
                                        ns.take(j as int),
                                    ).push(join_rel(parent@, ns[j as int])));
                                    j = j + 1;
                                }
                                assert(ns.take(names@.len() as int) =~= ns);
                            }
                        },
                        Err(detail) => {
                            return Err(
                                LayoutError::Unreadable {
                                    path: parent,
                                    detail: String::from_str(detail.as_str()),
                                },
                            );
                        },
                    }
                }
            }
        } else if let Some(i) = self.probe_index(pattern) {
            if self.probes[i].kind != PathKind::Missing {
                paths.push(String::from_str(pattern));
                assert(strs(paths@) =~= seq![pattern@]);
            }
        }
        assert(paths@.len() == 0 ==> strs(paths@) =~= Seq::<Seq<char>>::empty());
        Ok(paths)
    }

    /// The expansions of all the patterns, one after another.
    fn expand_patterns(&self, pats: &Option<Vec<String>>) -> (r: Result<
        Vec<String>,
        LayoutError,
    >)
        ensures
            match expand_all(self.probes@, opt_strs(*pats)) {
                Ok(s) => r is Ok && strs(r->Ok_0@) == s,
                Err(p) => r is Err && r->Err_0@ == unreadable(p),
            },
    {
        let mut out: Vec<String> = Vec::new();
        assert(strs(out@) =~= Seq::<Seq<char>>::empty());
        match pats {
            None => Ok(out),
            Some(v) => {
                let ghost ps = self.probes@;
                let ghost all = strs(v@);
                let mut i: usize = 0;
                assert(all.take(0) =~= Seq::<Seq<char>>::empty());
                while i < v.len()
                    invariant
                        ps == self.probes@,
                        all == strs(v@),
                        all == opt_strs(*pats),
                        i <= v@.len(),
                        expand_all(ps, all.take(i as int)) == Ok::<Seq<Seq<char>>, Failure>(
                            strs(out@),
                        ),
                    decreases v.len() - i,
                {
                    assert(all.take(i + 1).drop_last() =~= all.take(i as int));
                    assert(all.take(i + 1).last() == v@[i as int]@);
                    match self.expand_glob_pattern(v[i].as_str()) {
                        Ok(more) => {
                            let ghost before = out@;
                            let mut more = more;
                            out.append(&mut more);
                            assert(strs(out@) =~= strs(before) + expansion(
                                ps,
                                v@[i as int]@,
                            )->Ok_0);
                        },
                        Err(e) => {
                            proof {
                                let ext = all.take(i + 1);
                                assert(expansion(ps, ext.last()) is Err);
                                assert(expand_all(ps, ext) == expansion(ps, ext.last()));
                                lemma_expand_all_failure(ps, all, i + 1);
                            }
                            return Err(e);
                        },
                    }
                    i = i + 1;
                }
                assert(all.take(v@.len() as int) =~= all);
                Ok(out)
            },
        }
    }

    /// The candidate directories of a workspace (see `workspace_candidates`).
    fn workspace_members(&self, ws: &WorkspaceConfig) -> (r: Result<Vec<String>, LayoutError>)
        ensures
            match workspace_candidates(self.probes@, *ws) {
                Ok(s) => r is Ok && strs(r->Ok_0@) == s,
                Err(p) => r is Err && r->Err_0@ == unreadable(p),
            },
    {
        let cands = self.expand_patterns(&ws.members)?;
        let excluded = self.expand_patterns(&ws.exclude)?;
        let ghost c = strs(cands@);
        let ghost x = strs(excluded@);
        let mut kept: Vec<String> = Vec::new();
        let mut i: usize = 0;
        assert(c.take(0) =~= Seq::<Seq<char>>::empty());
        assert(strs(kept@) =~= Seq::<Seq<char>>::empty());
        while i < cands.len()
            invariant
                c == strs(cands@),
                x == strs(excluded@),
                i <= cands@.len(),
                strs(kept@) == without(c.take(i as int), x),
            decreases cands.len() - i,
        {
            assert(c.take(i + 1).drop_last() =~= c.take(i as int));
            assert(c.take(i + 1).last() == cands@[i as int]@);
            if !holds_text(&excluded, cands[i].as_str()) {
                let ghost before = kept@;
                kept.push(String::from_str(cands[i].as_str()));
                assert(strs(kept@) =~= strs(before).push(cands@[i as int]@));
            }
            i = i + 1;
        }
        assert(c.take(cands@.len() as int) =~= c);
        Ok(kept)
    }

    /// The first candidate whose manifest declares `name` (see `first_hit`).
    fn first_target(&self, cands: &Vec<String>, name: &str) -> (r: Result<
        Option<String>,
        LayoutError,
    >)
        ensures
            match first_hit(self.probes@, strs(cands@), name@) {
                Ok(Some(rel)) => r is Ok && r->Ok_0 is Some && r->Ok_0->Some_0@ == rel,
                Ok(None) => r is Ok && r->Ok_0 is None,
                Err(p) => r is Err && r->Err_0@ == unreadable(p),
            },
    {
        let ghost ps = self.probes@;
        let ghost c = strs(cands@);
        let mut i: usize = 0;
        assert(c.skip(0) =~= c);
        while i < cands.len()
            invariant
                ps == self.probes@,
                c == strs(cands@),
                i <= c.len(),
                first_hit(ps, c, name@) == first_hit(ps, c.skip(i as int), name@),
            decreases cands.len() - i,
        {
            assert(c.skip(i as int)[0] == cands@[i as int]@);
            assert(c.skip(i as int).skip(1) =~= c.skip(i + 1));
            if let Some(k) = self.probe_index(cands[i].as_str()) {
                match &self.probes[k].manifest {
                    ManifestState::Unreadable(detail) => {
                        return Err(
                            LayoutError::Unreadable {
                                path: String::from_str(cands[i].as_str()),
                                detail: String::from_str(detail.as_str()),
                            },
                        );
                    },
                    ManifestState::Package(n) => {
                        if same_text(n.as_str(), name) {
                            return Ok(Some(String::from_str(cands[i].as_str())));
                        }
                    },
                    _ => {},
                }
            }
            i = i + 1;
        }
        Ok(None)
    }

    /// Each candidate with a package name, as (name, location), in order.
    fn packages_in(&self, cands: &Vec<String>) -> (r: Vec<(String, String)>)
        ensures
            pairs_view(r@) == inventory(self.probes@, self.root@, strs(cands@)),
    {
        let ghost ps = self.probes@;
        let ghost c = strs(cands@);
        let mut out: Vec<(String, String)> = Vec::new();
        let mut i: usize = 0;
        assert(c.take(0) =~= Seq::<Seq<char>>::empty());
        assert(pairs_view(out@) =~= Seq::<(Seq<char>, Seq<char>)>::empty());
        while i < cands.len()
            invariant
                ps == self.probes@,
                c == strs(cands@),
                i <= c.len(),
                pairs_view(out@) == inventory(ps, self.root@, c.take(i as int)),
            decreases cands.len() - i,
        {
            assert(c.take(i + 1).drop_last() =~= c.take(i as int));
            assert(c.take(i + 1).last() == cands@[i as int]@);
            if let Some(k) = self.probe_index(cands[i].as_str()) {
                if let ManifestState::Package(n) = &self.probes[k].manifest {
                    let ghost before = out@;
                    let entry = (
                        String::from_str(n.as_str()),
                        located_path(self.root.as_str(), cands[i].as_str()),
                    );
                    out.push(entry);
                    assert(pairs_view(out@) =~= pairs_view(before).push((entry.0@, entry.1@)));
                }
            }
            i = i + 1;
        }
        assert(c.take(cands@.len() as int) =~= c);
        out
    }
}

fn root_only() -> (r: Vec<String>)
    ensures
        strs(r@) == seq![Seq::<char>::empty()],
{
    let mut v: Vec<String> = Vec::new();
    v.push(String::new());
    assert(strs(v@) =~= seq![Seq::<char>::empty()]);
    v
}

impl WorkspaceDetector {
    /// Where the package `crate_name` lies in the tree: the first workspace
    /// member (or the root of a single-package tree) whose manifest declares it.
    pub fn find_crate_path(tree: &RepoTree, crate_name: &str) -> (r: Result<String, LayoutError>)
        ensures
            match layout_of(*tree, crate_name@) {
                Ok(p) => r is Ok && r->Ok_0@ == p,
                Err(e) => r is Err && r->Err_0@ == e,
            },
    {
        match &tree.manifest {
            RootManifest::Absent => Err(LayoutError::NoRootManifest),
            RootManifest::Unreadable(detail) => Err(
                LayoutError::Unreadable {
                    path: String::new(),
                    detail: String::from_str(detail.as_str()),
                },
            ),
            RootManifest::Parsed { workspace: Some(ws) } => Self::find_crate_in_workspace(
                tree,
                crate_name,
                ws,
            ),
            RootManifest::Parsed { workspace: None } => {
                match tree.first_target(&root_only(), crate_name)? {
                    Some(rel) => Ok(located_path(tree.root.as_str(), rel.as_str())),
                    None => Err(
                        LayoutError::NotFound {
                            crate_name: String::from_str(crate_name),
                            workspace: false,
                        },
                    ),
                }
            },
        }
    }

    /// The first member of the workspace `ws`, excluded ones left out, whose
    /// manifest declares `crate_name`.
    pub fn find_crate_in_workspace(tree: &RepoTree, crate_name: &str, ws: &WorkspaceConfig) -> (r:
        Result<String, LayoutError>)
        ensures
            match workspace_candidates(tree.probes@, *ws) {
                Err(p) => r is Err && r->Err_0@ == unreadable(p),
                Ok(c) => match first_hit(tree.probes@, c, crate_name@) {
                    Err(p) => r is Err && r->Err_0@ == unreadable(p),
                    Ok(Some(rel)) => r is Ok && r->Ok_0@ == located(tree.root@, rel),
                    Ok(None) => r is Err && r->Err_0@ == (LayoutErrorView::NotFound {
                        crate_name: crate_name@,
                        workspace: true,
                    }),
                },
            },
    {
        let cands = tree.workspace_members(ws)?;
        match tree.first_target(&cands, crate_name)? {
            Some(rel) => Ok(located_path(tree.root.as_str(), rel.as_str())),
            None => Err(
                LayoutError::NotFound { crate_name: String::from_str(crate_name), workspace: true },
            ),
        }
    }

    /// Every package of the tree, as (name, location), in candidate order;
    /// candidates without a readable package name are left out.
    pub fn list_workspace_crates(tree: &RepoTree) -> (r: Result<Vec<(String, String)>, LayoutError>)
        ensures
            match packages_of(*tree) {
                Ok(s) => r is Ok && pairs_view(r->Ok_0@) == s,
                Err(e) => r is Err && r->Err_0@ == e,
            },
    {
        match &tree.manifest {
            RootManifest::Absent => {
                let v: Vec<(String, String)> = Vec::new();
                assert(pairs_view(v@) =~= Seq::<(Seq<char>, Seq<char>)>::empty());
                Ok(v)
            },
            RootManifest::Unreadable(detail) => Err(
                LayoutError::Unreadable {
                    path: String::new(),
                    detail: String::from_str(detail.as_str()),
                },
            ),
            RootManifest::Parsed { workspace } => {
                let cands = match workspace {
                    Some(ws) => tree.workspace_members(ws)?,
                    None => root_only(),
                };
                Ok(tree.packages_in(&cands))
            },
        }
    }
}

} // verus!
