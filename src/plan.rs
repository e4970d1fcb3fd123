//! The decisions of one patch run: where a package's source comes from, which
//! package of a cloned tree to point at, and under which group the redirect
//! goes. Cloning, registry queries and console output are the caller's.
use vstd::prelude::*;
use vstd::string::*;
use crate::config::registry_key;
use crate::manifest::{DependencyInfo, DependencyType};
use crate::repository::{
    clean_repository_url, cleaned_reference, extract_crate_name_from_git_url, is_git_url,
    looks_clonable, name_in_url_path, parsable_form, url_path_of, RepoError,
};
use crate::text::{contains, has_infix, has_prefix, pairs_view, same_text, starts_with};
use crate::workspace::{layout_of, packages_of, strs, LayoutError, RepoTree, WorkspaceDetector};

verus! {

/// The package to patch and where its source is fetched from.
pub struct CrateInfo {
    pub name: String,
    pub repository_url: String,
    pub is_git_ref: bool,
    /// The git address as declared, for a git dependency: the redirect is
    /// grouped under it.
    pub original_git_url: Option<String>,
}

/// What is known of the package's source before anything is fetched.
pub enum CrateSource {
    /// The repository address is known.
    Known(CrateInfo),
    /// The registry has to be asked for the repository of this package.
    Registry { crate_name: String },
}

/// Why a package cannot be patched.
pub enum PlanError {
    /// A path dependency is local already.
    PathDependency { name: String, path: String },
    /// A git address given in place of a package name could not be read.
    Repository(RepoError),
}

/// The package directory chosen in a cloned tree.
pub enum Located {
    /// The package itself was found there.
    Exact { path: String },
    /// No package has the name; this one has a similar name. `available` is
    /// every package of the tree.
    Similar { name: String, path: String, available: Vec<(String, String)> },
}

/// Why no package directory was chosen.
pub enum LocateError {
    /// The target is not in the tree, and the tree lists no package to fall
    /// back on (or listing them failed too).
    Layout { cause: LayoutError },
    /// The tree has packages, none with a similar name.
    NoSimilar { crate_name: String, available: Vec<(String, String)> },
}

/// What `str::to_lowercase` gives for a string.
pub uninterp spec fn lower_of(s: Seq<char>) -> Seq<char>;

/// Relies on `str::to_lowercase`: the lower-case form depends on the characters
/// alone.
#[verifier::external_body]
fn lowercase(s: &str) -> (r: String)
    ensures
        r@ == lower_of(s@),
{
    s.to_lowercase()
}

/// The similarity rules, weakest last: 0, equal; 1, one contains the other;
/// 2, one starts with the other.
pub open spec fn rule_holds(rule: int, t: Seq<char>, n: Seq<char>) -> bool {
    if rule == 0 {
        n == t
    } else if rule == 1 {
        has_infix(n, t) || has_infix(t, n)
    } else {
        has_prefix(n, t) || has_prefix(t, n)
    }
}

/// Position of the first name that meets `rule` against `t`.
pub open spec fn first_by_rule(names: Seq<Seq<char>>, t: Seq<char>, rule: int) -> Option<int>
    decreases names.len(),
{
    if names.len() == 0 {
        None
    } else if rule_holds(rule, t, names[0]) {
        Some(0)
    } else {
        match first_by_rule(names.skip(1), t, rule) {
            Some(i) => Some(i + 1),
            None => None,
        }
    }
}

/// The name to fall back on: the first rule that any name meets decides, and
/// the first such name wins.
pub open spec fn similar_pick(names: Seq<Seq<char>>, t: Seq<char>) -> Option<int> {
    match first_by_rule(names, t, 0) {
        Some(i) => Some(i),
        None => match first_by_rule(names, t, 1) {
            Some(i) => Some(i),
            None => first_by_rule(names, t, 2),
        },
    }
}

/// The lower-case form of each name of a (name, location) list.
pub open spec fn lowered_names(v: Seq<(Seq<char>, Seq<char>)>) -> Seq<Seq<char>> {
    v.map_values(|c: (Seq<char>, Seq<char>)| lower_of(c.0))
}

proof fn lemma_first_by_rule(names: Seq<Seq<char>>, t: Seq<char>, rule: int, i: int)
    requires
        0 <= i <= names.len(),
        forall|j: int| 0 <= j < i ==> !rule_holds(rule, t, #[trigger] names[j]),
        i < names.len() ==> rule_holds(rule, t, names[i]),
    ensures
        first_by_rule(names, t, rule) == if i < names.len() {
            Some(i)
        } else {
            None::<int>
        },
    decreases i,
{
    if i > 0 {
        let rest = names.skip(1);
        assert forall|j: int| 0 <= j < i - 1 implies !rule_holds(rule, t, #[trigger] rest[j]) by {
            assert(rest[j] == names[j + 1]);
        }
        if i < names.len() {
            assert(rest[i - 1] == names[i]);
        }
        lemma_first_by_rule(rest, t, rule, i - 1);
    }
}

fn rule_met(rule: u8, t: &str, n: &str) -> (r: bool)
    requires
        rule <= 2,
    ensures
        r == rule_holds(rule as int, t@, n@),
{
    if rule == 0 {
        same_text(n, t)
    } else if rule == 1 {
        contains(n, t) || contains(t, n)
    } else {
        starts_with(n, t) || starts_with(t, n)
    }
}

fn first_meeting(names: &Vec<String>, t: &str, rule: u8) -> (r: Option<usize>)
    requires
        rule <= 2,
    ensures
        r is Some ==> r->Some_0 < names@.len(),
        r is Some ==> first_by_rule(strs(names@), t@, rule as int) == Some(
            r->Some_0 as int,
        ),
        r is None ==> first_by_rule(strs(names@), t@, rule as int) is None,
{
    let ghost ns = strs(names@);
    let mut i: usize = 0;
    while i < names.len()
        invariant
            ns == strs(names@),
            rule <= 2,
            i <= names@.len(),
            forall|j: int| 0 <= j < i ==> !rule_holds(rule as int, t@, #[trigger] ns[j]),
        decreases names.len() - i,
    {
        if rule_met(rule, t, names[i].as_str()) {
            proof {
                lemma_first_by_rule(ns, t@, rule as int, i as int);
            }
            return Some(i);
        }
        i = i + 1;
    }
    proof {
        lemma_first_by_rule(ns, t@, rule as int, i as int);
    }
    None
}

/// Position of the name to fall back on, names and target already in lower
/// case (see `similar_pick`).
pub fn similar_index(target: &str, names: &Vec<String>) -> (r: Option<usize>)
    ensures
        r is Some ==> r->Some_0 < names@.len(),
        r is Some <==> similar_pick(strs(names@), target@) is Some,
        r is Some ==> similar_pick(strs(names@), target@) == Some(
            r->Some_0 as int,
        ),
{
    if let Some(i) = first_meeting(names, target, 0) {
        return Some(i);
    }
    if let Some(i) = first_meeting(names, target, 1) {
        return Some(i);
    }
    first_meeting(names, target, 2)
}

/// The package of `crates` whose name is most like `target_name`, ignoring
/// case: an equal name, else the first that contains the target or that the
/// target contains, else the first that starts with the target or that the
/// target starts with.
pub fn find_similar_crate(target_name: &str, crates: &Vec<(String, String)>) -> (r: Option<
    (String, String),
>)
    ensures
        match similar_pick(lowered_names(pairs_view(crates@)), lower_of(target_name@)) {
            Some(i) => 0 <= i < crates@.len() && r is Some && r->Some_0.0@ == crates@[i].0@
                && r->Some_0.1@ == crates@[i].1@,
            None => r is None,
        },
{
    let target = lowercase(target_name);
    let mut names: Vec<String> = Vec::new();
    let mut i: usize = 0;
    while i < crates.len()
        invariant
            i <= crates@.len(),
            strs(names@) == lowered_names(pairs_view(crates@)).take(
                i as int,
            ),
        decreases crates.len() - i,
    {
        let ghost before = names@;
        let lowered = lowercase(crates[i].0.as_str());
        names.push(lowered);
        assert(strs(names@) =~= strs(before).push(lowered@));
        assert(strs(names@) =~= lowered_names(pairs_view(crates@)).take(
            i + 1,
        ));
        i = i + 1;
    }
    assert(lowered_names(pairs_view(crates@)).take(crates@.len() as int) =~= lowered_names(
        pairs_view(crates@),
    ));
    match similar_index(target.as_str(), &names) {
        Some(k) => Some(
            (String::from_str(crates[k].0.as_str()), String::from_str(crates[k].1.as_str())),
        ),
        None => None,
    }
}

/// The package name that a git address names, where it can be read.
pub open spec fn git_url_name(u: Seq<char>) -> Option<Seq<char>> {
    match parsable_form(u) {
        None => None,
        Some(f) => match url_path_of(f) {
            Some(path) => Some(name_in_url_path(path)),
            None => None,
        },
    }
}

/// The source of the package asked for as `name`, from its declaration in the
/// manifest where there is one: a git dependency is fetched from its declared
/// address once cleaned, a version dependency from the registry's, and a path
/// dependency is refused. Without a declaration, a git address names its own
/// repository and anything else is a package name for the registry. The
/// redirect of a git source is grouped under the address as declared.
pub fn plan_crate(name: &str, dependency: Option<DependencyInfo>) -> (r: Result<CrateSource, PlanError>)
    ensures
        match dependency {
            Some(d) => match d.dep_type {
                DependencyType::Git { git, .. } => if looks_clonable(cleaned_reference(git@)) {
                    r is Ok && r->Ok_0 is Known && ({
                        let info = r->Ok_0->Known_0;
                        info.name@ == d.name@ && info.repository_url@ == cleaned_reference(git@)
                            && info.is_git_ref && info.original_git_url is Some
                            && info.original_git_url->Some_0@ == git@
                    })
                } else {
                    r is Err && r->Err_0 is Repository
                },
                DependencyType::Version { .. } => r is Ok && r->Ok_0 is Registry
                    && r->Ok_0->Registry_crate_name@ == d.name@,
                DependencyType::Path { path } => r is Err && r->Err_0 is PathDependency
                    && r->Err_0->PathDependency_name@ == d.name@
                    && r->Err_0->PathDependency_path@ == path@,
            },
            None => if looks_clonable(name@) {
                match git_url_name(name@) {
                    Some(n) => if looks_clonable(cleaned_reference(name@)) {
                        r is Ok && r->Ok_0 is Known && ({
                            let info = r->Ok_0->Known_0;
                            info.name@ == n && info.repository_url@ == cleaned_reference(name@)
                                && info.is_git_ref && info.original_git_url is Some
                                && info.original_git_url->Some_0@ == name@
                        })
                    } else {
                        r is Err && r->Err_0 is Repository
                    },
                    None => r is Err && r->Err_0 is Repository,
                }
            } else {
                r is Ok && r->Ok_0 is Registry && r->Ok_0->Registry_crate_name@ == name@
            },
        },
{
    match dependency {
        Some(dep) => match dep.dep_type {
            DependencyType::Git { git, .. } => match clean_repository_url(git.as_str()) {
                Ok(repository_url) => Ok(
                    CrateSource::Known(
                        CrateInfo {
                            name: dep.name,
                            repository_url,
                            is_git_ref: true,
                            original_git_url: Some(git),
                        },
                    ),
                ),
                Err(e) => Err(PlanError::Repository(e)),
            },
            DependencyType::Version { .. } => Ok(CrateSource::Registry { crate_name: dep.name }),
            DependencyType::Path { path } => Err(PlanError::PathDependency { name: dep.name, path }),
        },
        None => {
            if is_git_url(name) {
                let crate_name = match extract_crate_name_from_git_url(name) {
                    Ok(n) => n,
                    Err(e) => {
                        return Err(PlanError::Repository(e));
                    },
                };
                match clean_repository_url(name) {
                    Ok(repository_url) => Ok(
                        CrateSource::Known(
                            CrateInfo {
                                name: crate_name,
                                repository_url,
                                is_git_ref: true,
                                original_git_url: Some(String::from_str(name)),
                            },
                        ),
                    ),
                    Err(e) => Err(PlanError::Repository(e)),
                }
            } else {
                Ok(CrateSource::Registry { crate_name: String::from_str(name) })
            }
        },
    }
}

impl CrateInfo {
    /// The group of the redirect: the declared git address for a git source,
    /// `crates-io` for a registry one.
    pub open spec fn patch_source_spec(&self) -> Seq<char> {
        match self.original_git_url {
            Some(u) => u@,
            None => registry_key(),
        }
    }

    /// The group key under which this package's redirect is written.
    pub fn patch_source(&self) -> (r: String)
        ensures
            r@ == self.patch_source_spec(),
    {
        match &self.original_git_url {
            Some(u) => String::from_str(u.as_str()),
            None => String::from_str("crates-io"),
        }
    }
}

/// The package directory to patch in a cloned tree: the package itself where
/// the tree declares it, else the package with the most similar name (see
/// `find_similar_crate`) among all the tree's packages.
pub fn locate_crate(tree: &RepoTree, crate_name: &str) -> (r: Result<Located, LocateError>)
    ensures
        match layout_of(*tree, crate_name@) {
            Ok(p) => r is Ok && r->Ok_0 is Exact && r->Ok_0->Exact_path@ == p,
            Err(e) => match packages_of(*tree) {
                Ok(inv) if inv.len() > 0 => match similar_pick(
                    lowered_names(inv),
                    lower_of(crate_name@),
                ) {
                    Some(i) => r is Ok && r->Ok_0 is Similar && r->Ok_0->Similar_name@ == inv[i].0
                        && r->Ok_0->Similar_path@ == inv[i].1 && pairs_view(
                        r->Ok_0->Similar_available@,
                    ) == inv,
                    None => r is Err && r->Err_0 is NoSimilar && r->Err_0->NoSimilar_crate_name@
                        == crate_name@ && pairs_view(r->Err_0->NoSimilar_available@) == inv,
                },
                _ => r is Err && r->Err_0 is Layout && r->Err_0->Layout_cause@ == e,
            },
        },
{
    match WorkspaceDetector::find_crate_path(tree, crate_name) {
        Ok(path) => Ok(Located::Exact { path }),
        Err(cause) => match WorkspaceDetector::list_workspace_crates(tree) {
            Err(_) => Err(LocateError::Layout { cause }),
            Ok(crates) => {
                if crates.len() == 0 {
                    return Err(LocateError::Layout { cause });
                }
                match find_similar_crate(crate_name, &crates) {
                    Some((name, path)) => Ok(Located::Similar { name, path, available: crates }),
                    None => Err(
                        LocateError::NoSimilar {
                            crate_name: String::from_str(crate_name),
                            available: crates,
                        },
                    ),
                }
            },
        },
    }
}

} // verus!
