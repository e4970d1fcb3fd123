//! The dependency tables of a Cargo manifest, and how each declaration is
//! classified by its source.
use vstd::prelude::*;
use crate::text::{keys_distinct, keys_of, same_text};

verus! {

/// Where a dependency comes from.
pub enum DependencyType {
    /// A version requirement, served by the registry.
    Version { version: String },
    /// A git repository, with an optional branch, tag or revision.
    Git { git: String, branch: Option<String>, tag: Option<String>, rev: Option<String> },
    /// A directory on disk.
    Path { path: String },
}

/// One classified dependency.
pub struct DependencyInfo {
    pub name: String,
    pub dep_type: DependencyType,
}

/// A dependency as the manifest writes it: a bare version string or a table of
/// optional fields. Fields outside these six play no part here.
pub enum DependencyDefinition {
    Simple(String),
    Detailed {
        version: Option<String>,
        git: Option<String>,
        branch: Option<String>,
        tag: Option<String>,
        rev: Option<String>,
        path: Option<String>,
    },
}

/// A declaration with none of `git`, `path` and `version`.
pub enum ClassifyError {
    InvalidDefinition { name: String },
}

/// The dependency tables of a manifest, each in the order in which it was read.
pub struct CargoToml {
    pub dependencies: Option<Vec<(String, DependencyDefinition)>>,
    pub dev_dependencies: Option<Vec<(String, DependencyDefinition)>>,
    pub build_dependencies: Option<Vec<(String, DependencyDefinition)>>,
}

/// The model of a `DependencyType`.
pub enum DependencyTypeView {
    Version { version: Seq<char> },
    Git {
        git: Seq<char>,
        branch: Option<Seq<char>>,
        tag: Option<Seq<char>>,
        rev: Option<Seq<char>>,
    },
    Path { path: Seq<char> },
}

/// The model of a `DependencyInfo`.
pub struct DependencyInfoView {
    pub name: Seq<char>,
    pub dep_type: DependencyTypeView,
}

/// The model of a `DependencyDefinition`.
pub enum DefinitionView {
    Simple(Seq<char>),
    Detailed {
        version: Option<Seq<char>>,
        git: Option<Seq<char>>,
        branch: Option<Seq<char>>,
        tag: Option<Seq<char>>,
        rev: Option<Seq<char>>,
        path: Option<Seq<char>>,
    },
}

/// The characters of an optional string.
pub open spec fn opt_view(o: Option<String>) -> Option<Seq<char>> {
    match o {
        Some(s) => Some(s@),
        None => None,
    }
}

impl View for DependencyType {
    type V = DependencyTypeView;

    open spec fn view(&self) -> DependencyTypeView {
        match self {
            DependencyType::Version { version } => DependencyTypeView::Version { version: version@ },
            DependencyType::Git { git, branch, tag, rev } => DependencyTypeView::Git {
                git: git@,
                branch: opt_view(*branch),
                tag: opt_view(*tag),
                rev: opt_view(*rev),
            },
            DependencyType::Path { path } => DependencyTypeView::Path { path: path@ },
        }
    }
}

impl View for DependencyInfo {
    type V = DependencyInfoView;

    open spec fn view(&self) -> DependencyInfoView {
        DependencyInfoView { name: self.name@, dep_type: self.dep_type@ }
    }
}

impl View for DependencyDefinition {
    type V = DefinitionView;

    open spec fn view(&self) -> DefinitionView {
        match self {
            DependencyDefinition::Simple(v) => DefinitionView::Simple(v@),
            DependencyDefinition::Detailed { version, git, branch, tag, rev, path } =>
                DefinitionView::Detailed {
                version: opt_view(*version),
                git: opt_view(*git),
                branch: opt_view(*branch),
                tag: opt_view(*tag),
                rev: opt_view(*rev),
                path: opt_view(*path),
            },
        }
    }
}

/// The models of a sequence of dependencies.
pub open spec fn infos_view(s: Seq<DependencyInfo>) -> Seq<DependencyInfoView> {
    s.map_values(|d: DependencyInfo| d@)
}

/// The models of the entries of a dependency table.
pub open spec fn table_view(s: Seq<(String, DependencyDefinition)>) -> Seq<
    (Seq<char>, DefinitionView),
> {
    s.map_values(|e: (String, DependencyDefinition)| (e.0@, e.1@))
}

fn copy_opt(s: &Option<String>) -> (r: Option<String>)
    ensures
        opt_view(r) == opt_view(*s),
{
    match s {
        Some(v) => Some(String::from_str(v.as_str())),
        None => None,
    }
}

impl Clone for DependencyType {
    fn clone(&self) -> (r: Self)
        ensures
            r@ == self@,
    {
        match self {
            DependencyType::Version { version } => DependencyType::Version {
                version: String::from_str(version.as_str()),
            },
            DependencyType::Git { git, branch, tag, rev } => DependencyType::Git {
                git: String::from_str(git.as_str()),
                branch: copy_opt(branch),
                tag: copy_opt(tag),
                rev: copy_opt(rev),
            },
            DependencyType::Path { path } => DependencyType::Path {
                path: String::from_str(path.as_str()),
            },
        }
    }
}

impl Clone for DependencyInfo {
    fn clone(&self) -> (r: Self)
        ensures
            r@ == self@,
    {
        DependencyInfo { name: String::from_str(self.name.as_str()), dep_type: self.dep_type.clone() }
    }
}

/// The source kind that a declaration gives: `git` over `path` over `version`;
/// `None` where the table has none of the three.
pub open spec fn classified(def: DefinitionView) -> Option<DependencyTypeView> {
    match def {
        DefinitionView::Simple(version) => Some(DependencyTypeView::Version { version }),
        DefinitionView::Detailed { version, git, branch, tag, rev, path } => {
            if git is Some {
                Some(DependencyTypeView::Git { git: git->Some_0, branch, tag, rev })
            } else if path is Some {
                Some(DependencyTypeView::Path { path: path->Some_0 })
            } else if version is Some {
                Some(DependencyTypeView::Version { version: version->Some_0 })
            } else {
                None
            }
        },
    }
}

/// The classified entries of one table, in order; declarations that cannot be
/// classified are left out.
pub open spec fn classified_entries(deps: Seq<(Seq<char>, DefinitionView)>) -> Seq<
    DependencyInfoView,
>
    decreases deps.len(),
{
    if deps.len() == 0 {
        Seq::empty()
    } else {
        let front = classified_entries(deps.drop_last());
        match classified(deps.last().1) {
            Some(t) => front.push(DependencyInfoView { name: deps.last().0, dep_type: t }),
            None => front,
        }
    }
}

/// The classified entries of a table that may be absent.
pub open spec fn table_entries(t: Option<Vec<(String, DependencyDefinition)>>) -> Seq<
    DependencyInfoView,
> {
    match t {
        Some(v) => classified_entries(table_view(v@)),
        None => Seq::empty(),
    }
}

/// 0 for a version dependency, 1 for a git one, 2 for a path one.
pub open spec fn kind_index(d: DependencyInfoView) -> int {
    match d.dep_type {
        DependencyTypeView::Version { .. } => 0,
        DependencyTypeView::Git { .. } => 1,
        DependencyTypeView::Path { .. } => 2,
    }
}

/// The entries of `s` whose `kind_index` is `k`, in order.
pub open spec fn of_kind(s: Seq<DependencyInfoView>, k: int) -> Seq<DependencyInfoView>
    decreases s.len(),
{
    if s.len() == 0 {
        Seq::empty()
    } else {
        let front = of_kind(s.drop_last(), k);
        if kind_index(s.last()) == k {
            front.push(s.last())
        } else {
            front
        }
    }
}

/// `i` is the position of the first entry of `s` named `name`.
pub open spec fn is_first_named(s: Seq<DependencyInfoView>, name: Seq<char>, i: int) -> bool {
    0 <= i < s.len() && s[i].name == name && forall|j: int| 0 <= j < i ==> s[j].name != name
}

/// Source precedence: a `git` field decides the kind whatever else the table
/// holds; without one a `path` field does; a `version` field decides only where
/// it stands alone; a table with none of the three is not classified.
pub proof fn lemma_source_precedence(
    version: Option<Seq<char>>,
    git: Option<Seq<char>>,
    branch: Option<Seq<char>>,
    tag: Option<Seq<char>>,
    rev: Option<Seq<char>>,
    path: Option<Seq<char>>,
)
    ensures
        ({
            let def = DefinitionView::Detailed { version, git, branch, tag, rev, path };
            &&& git is Some ==> classified(def) == Some(
                DependencyTypeView::Git { git: git->Some_0, branch, tag, rev },
            )
            &&& git is None && path is Some ==> classified(def) == Some(
                DependencyTypeView::Path { path: path->Some_0 },
            )
            &&& git is None && path is None && version is Some ==> classified(def) == Some(
                DependencyTypeView::Version { version: version->Some_0 },
            )
            &&& git is None && path is None && version is None ==> classified(def) is None
        }),
{
}

/// Classifies one declaration of the dependency `name`.
pub fn parse_dependency_definition(name: &str, def: &DependencyDefinition) -> (r: Result<
    DependencyInfo,
    ClassifyError,
>)
    ensures
        r is Ok <==> classified(def@) is Some,
        r is Ok ==> r->Ok_0@ == (DependencyInfoView {
            name: name@,
            dep_type: classified(def@)->Some_0,
        }),
        r is Err ==> r->Err_0->InvalidDefinition_name@ == name@,
{
    let dep_type = match def {
        DependencyDefinition::Simple(version) => DependencyType::Version {
            version: String::from_str(version.as_str()),
        },
        DependencyDefinition::Detailed { version, git, branch, tag, rev, path } => {
            if let Some(git_url) = git {
                DependencyType::Git {
                    git: String::from_str(git_url.as_str()),
                    branch: copy_opt(branch),
                    tag: copy_opt(tag),
                    rev: copy_opt(rev),
                }
            } else if let Some(path_str) = path {
                DependencyType::Path { path: String::from_str(path_str.as_str()) }
            } else if let Some(version_str) = version {
                DependencyType::Version { version: String::from_str(version_str.as_str()) }
            } else {
                return Err(ClassifyError::InvalidDefinition { name: String::from_str(name) });
            }
        },
    };
    Ok(DependencyInfo { name: String::from_str(name), dep_type })
}

/// Appends to `out` the classified entries of one table.
fn parse_dependencies(deps: &Vec<(String, DependencyDefinition)>, out: &mut Vec<DependencyInfo>)
    ensures
        infos_view(final(out)@) == infos_view(old(out)@) + classified_entries(table_view(deps@)),
{
    let ghost start = infos_view(out@);
    let ghost t = table_view(deps@);
    let mut i: usize = 0;
    assert(t.take(0) =~= Seq::<(Seq<char>, DefinitionView)>::empty());
    assert(start + Seq::<DependencyInfoView>::empty() =~= start);
    while i < deps.len()
        invariant
            i <= deps@.len(),
            t == table_view(deps@),
            infos_view(out@) == start + classified_entries(t.take(i as int)),
        decreases deps.len() - i,
    {
        let entry = &deps[i];
        assert(t.take(i + 1).drop_last() =~= t.take(i as int));
        assert(t.take(i + 1).last() == (entry.0@, entry.1@));
        match parse_dependency_definition(entry.0.as_str(), &entry.1) {
            Ok(info) => {
                let ghost before = out@;
                out.push(info);
                assert(infos_view(out@) =~= infos_view(before).push(info@));
                assert(infos_view(out@) =~= start + classified_entries(t.take(i + 1)));
            },
            Err(_) => {},
        }
        i = i + 1;
    }
    assert(t.take(deps@.len() as int) =~= t);
}

/// A table names each dependency at most once.
pub open spec fn table_distinct(t: Option<Vec<(String, DependencyDefinition)>>) -> bool {
    match t {
        Some(v) => keys_of(v@).no_duplicates(),
        None => true,
    }
}

fn table_well_formed(t: &Option<Vec<(String, DependencyDefinition)>>) -> (r: bool)
    ensures
        r == table_distinct(*t),
{
    match t {
        Some(v) => keys_distinct(v),
        None => true,
    }
}

impl CargoToml {
    /// Each of the three tables names each dependency at most once, as the
    /// keys of a manifest table are.
    pub open spec fn wf(&self) -> bool {
        table_distinct(self.dependencies) && table_distinct(self.dev_dependencies)
            && table_distinct(self.build_dependencies)
    }

    /// Checks `wf`.
    pub fn well_formed(&self) -> (r: bool)
        ensures
            r == self.wf(),
    {
        table_well_formed(&self.dependencies) && table_well_formed(&self.dev_dependencies)
            && table_well_formed(&self.build_dependencies)
    }

    /// Every classified dependency: the `dependencies` table, then the
    /// `dev-dependencies`, then the `build-dependencies`.
    pub open spec fn all_dependencies(&self) -> Seq<DependencyInfoView> {
        table_entries(self.dependencies) + table_entries(self.dev_dependencies) + table_entries(
            self.build_dependencies,
        )
    }

    pub fn get_all_dependencies(&self) -> (r: Vec<DependencyInfo>)
        ensures
            infos_view(r@) == self.all_dependencies(),
    {
        let mut dependencies = Vec::new();
        assert(infos_view(dependencies@) =~= Seq::<DependencyInfoView>::empty());
        if let Some(deps) = &self.dependencies {
            parse_dependencies(deps, &mut dependencies);
        }
        assert(infos_view(dependencies@) =~= table_entries(self.dependencies));
        if let Some(dev_deps) = &self.dev_dependencies {
            parse_dependencies(dev_deps, &mut dependencies);
        }
        assert(infos_view(dependencies@) =~= table_entries(self.dependencies) + table_entries(
            self.dev_dependencies,
        ));
        if let Some(build_deps) = &self.build_dependencies {
            parse_dependencies(build_deps, &mut dependencies);
        }
        assert(infos_view(dependencies@) =~= self.all_dependencies());
        dependencies
    }

    /// The first dependency named `name`, over all three tables.
    pub fn find_dependency(&self, name: &str) -> (r: Option<DependencyInfo>)
        ensures
            r is None <==> forall|j: int|
                0 <= j < self.all_dependencies().len() ==> self.all_dependencies()[j].name
                    != name@,
            r is Some ==> exists|i: int|
                is_first_named(self.all_dependencies(), name@, i) && r->Some_0@
                    == self.all_dependencies()[i],
    {
        let all = self.get_all_dependencies();
        let ghost s = infos_view(all@);
        let mut i: usize = 0;
        while i < all.len()
            invariant
                s == infos_view(all@),
                s == self.all_dependencies(),
                s.len() == all@.len(),
                i <= s.len(),
                forall|j: int| 0 <= j < i ==> s[j].name != name@,
            decreases all.len() - i,
        {
            if same_text(all[i].name.as_str(), name) {
                let found = all[i].clone();
                assert(is_first_named(s, name@, i as int));
                return Some(found);
            }
            i = i + 1;
        }
        None
    }

    fn dependencies_of_kind(&self, k: u8) -> (r: Vec<DependencyInfo>)
        requires
            k <= 2,
        ensures
            infos_view(r@) == of_kind(self.all_dependencies(), k as int),
    {
        let all = self.get_all_dependencies();
        let ghost s = infos_view(all@);
        let mut out: Vec<DependencyInfo> = Vec::new();
        let mut i: usize = 0;
        assert(s.take(0) =~= Seq::<DependencyInfoView>::empty());
        assert(infos_view(out@) =~= Seq::<DependencyInfoView>::empty());
        while i < all.len()
            invariant
                s == infos_view(all@),
                s.len() == all@.len(),
                i <= s.len(),
                infos_view(out@) == of_kind(s.take(i as int), k as int),
            decreases all.len() - i,
        {
            assert(s.take(i + 1).drop_last() =~= s.take(i as int));
            assert(s.take(i + 1).last() == all@[i as int]@);
            let kind: u8 = match &all[i].dep_type {
                DependencyType::Version { .. } => 0,
                DependencyType::Git { .. } => 1,
                DependencyType::Path { .. } => 2,
            };
            if kind == k {
                let ghost before = out@;
                out.push(all[i].clone());
                assert(infos_view(out@) =~= infos_view(before).push(all@[i as int]@));
            }
            i = i + 1;
        }
        assert(s.take(s.len() as int) =~= s);
        out
    }

    /// The git dependencies, in the order of `all_dependencies`.
    pub fn get_git_dependencies(&self) -> (r: Vec<DependencyInfo>)
        ensures
            infos_view(r@) == of_kind(self.all_dependencies(), 1),
    {
        self.dependencies_of_kind(1)
    }

    /// The registry (version) dependencies, in the order of `all_dependencies`.
    pub fn get_version_dependencies(&self) -> (r: Vec<DependencyInfo>)
        ensures
            infos_view(r@) == of_kind(self.all_dependencies(), 0),
    {
        self.dependencies_of_kind(0)
    }

    /// The path dependencies, in the order of `all_dependencies`.
    pub fn get_path_dependencies(&self) -> (r: Vec<DependencyInfo>)
        ensures
            infos_view(r@) == of_kind(self.all_dependencies(), 2),
    {
        self.dependencies_of_kind(2)
    }
}

} // verus!
