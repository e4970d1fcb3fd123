//! The `[patch]` section of `.cargo/config.toml`: adding, replacing, removing
//! and listing redirects to local directories, with every other top-level
//! section carried through untouched.
use vstd::prelude::*;
use vstd::string::*;
use crate::text::{key_position, keys_distinct, keys_of, pairs_view};

verus! {

#[verifier::external_type_specification]
#[verifier::external_body]
pub struct ExTomlValue(toml::Value);

/// One redirect: the local directory that replaces a package.
pub struct PatchConfig {
    pub path: String,
}

/// The override document: the `[patch]` groups, each keyed by a source
/// (`crates-io` or a repository address) and holding (package, redirect)
/// entries, plus the document's other top-level sections in reading order.
pub struct CargoConfig {
    pub patch: Option<Vec<(String, Vec<(String, PatchConfig)>)>>,
    pub other: Vec<(String, toml::Value)>,
}

/// The model of the entries of one group: (package name, local path).
pub type EntriesView = Seq<(Seq<char>, Seq<char>)>;

/// The model of the `[patch]` groups: (source key, entries).
pub type GroupsView = Seq<(Seq<char>, EntriesView)>;

/// The group key of redirects for registry packages.
pub open spec fn registry_key() -> Seq<char> {
    "crates-io"@
}

pub open spec fn entries_view(e: Seq<(String, PatchConfig)>) -> EntriesView {
    e.map_values(|x: (String, PatchConfig)| (x.0@, x.1.path@))
}

pub open spec fn groups_view(g: Seq<(String, Vec<(String, PatchConfig)>)>) -> GroupsView {
    g.map_values(|x: (String, Vec<(String, PatchConfig)>)| (x.0@, entries_view(x.1@)))
}

/// Position of the first pair of `s` keyed `k`.
pub open spec fn first_key<V>(s: Seq<(Seq<char>, V)>, k: Seq<char>) -> Option<int>
    decreases s.len(),
{
    if s.len() == 0 {
        None
    } else if s[0].0 == k {
        Some(0)
    } else {
        match first_key(s.skip(1), k) {
            Some(i) => Some(i + 1),
            None => None,
        }
    }
}

/// No two pairs of `s` share a key.
pub open spec fn unique_keys<V>(s: Seq<(Seq<char>, V)>) -> bool {
    forall|i: int, j: int| 0 <= i < j < s.len() ==> s[i].0 != s[j].0
}

/// Group keys are unique, and package names are unique within each group.
pub open spec fn well_formed_groups(g: GroupsView) -> bool {
    unique_keys(g) && forall|i: int| 0 <= i < g.len() ==> unique_keys(#[trigger] g[i].1)
}

/// `e` with `name` redirected to `path`: the entry replaced in place, or
/// appended.
pub open spec fn set_entry(e: EntriesView, name: Seq<char>, path: Seq<char>) -> EntriesView {
    match first_key(e, name) {
        Some(j) => e.update(j, (name, path)),
        None => e.push((name, path)),
    }
}

/// The groups once `name` in group `key` is redirected to `path`; a missing
/// group is appended.
pub open spec fn upserted(g: GroupsView, key: Seq<char>, name: Seq<char>, path: Seq<char>) -> GroupsView {
    match first_key(g, key) {
        Some(i) => g.update(i, (key, set_entry(g[i].1, name, path))),
        None => g.push((key, seq![(name, path)])),
    }
}

/// The groups of a section that may be absent.
pub open spec fn groups_of(p: Option<GroupsView>) -> GroupsView {
    match p {
        Some(g) => g,
        None => Seq::empty(),
    }
}

/// The entries of group `key`, empty where there is no such group.
pub open spec fn entries_in(g: GroupsView, key: Seq<char>) -> EntriesView {
    match first_key(g, key) {
        Some(i) => g[i].1,
        None => Seq::empty(),
    }
}

/// The section once `name` leaves the registry group: the group goes when it
/// becomes empty, and the section when no group is left. `None` where there is
/// no such entry.
pub open spec fn after_removal(p: Option<GroupsView>, name: Seq<char>) -> Option<Option<GroupsView>> {
    let g = groups_of(p);
    match first_key(g, registry_key()) {
        None => None,
        Some(i) => match first_key(g[i].1, name) {
            None => None,
            Some(j) => {
                let e = g[i].1.remove(j);
                let rest = if e.len() == 0 {
                    g.remove(i)
                } else {
                    g.update(i, (g[i].0, e))
                };
                Some(
                    if rest.len() == 0 {
                        None
                    } else {
                        Some(rest)
                    },
                )
            },
        },
    }
}

/// `first_key` is the first position whose key is `k`.
proof fn lemma_first_key<V>(s: Seq<(Seq<char>, V)>, k: Seq<char>, i: int)
    requires
        0 <= i <= s.len(),
        forall|j: int| 0 <= j < i ==> s[j].0 != k,
        i < s.len() ==> s[i].0 == k,
    ensures
        first_key(s, k) == if i < s.len() {
            Some(i)
        } else {
            None::<int>
        },
    decreases i,
{
    if i > 0 {
        let t = s.skip(1);
        assert forall|j: int| 0 <= j < i - 1 implies t[j].0 != k by {
            assert(t[j] == s[j + 1]);
        }
        if i < s.len() {
            assert(t[i - 1] == s[i]);
        }
        lemma_first_key(t, k, i - 1);
    }
}

/// With unique keys, the position of a key is the one it stands at.
proof fn lemma_unique_key_at<V>(s: Seq<(Seq<char>, V)>, m: int)
    requires
        unique_keys(s),
        0 <= m < s.len(),
    ensures
        first_key(s, s[m].0) == Some(m),
{
    lemma_first_key(s, s[m].0, m);
}

/// A key that is absent keeps keys unique when appended.
proof fn lemma_push_unique<V>(s: Seq<(Seq<char>, V)>, k: Seq<char>, v: V)
    requires
        unique_keys(s),
        first_key(s, k) is None,
    ensures
        unique_keys(s.push((k, v))),
{
    assert forall|j: int| 0 <= j < s.len() implies s[j].0 != k by {
        if s[j].0 == k {
            lemma_unique_key_at(s, j);
        }
    }
}

/// Whether `std::path::Path::is_absolute` holds of a path.
pub uninterp spec fn is_absolute_path(p: Seq<char>) -> bool;

/// What `std::path::Path::strip_prefix` leaves of `p` once the whole components
/// of `base` are taken off its front; `None` where `base` is not such a prefix.
pub uninterp spec fn stripped_path(p: Seq<char>, base: Seq<char>) -> Option<Seq<char>>;

/// The form in which a local directory is written into the document: relative
/// to the working directory `cwd` where it is an absolute path under it, as
/// given otherwise.
pub open spec fn relative_form(local: Seq<char>, cwd: Seq<char>) -> Seq<char> {
    if is_absolute_path(local) {
        match stripped_path(local, cwd) {
            Some(rel) => rel,
            None => local,
        }
    } else {
        local
    }
}

/// Relies on `std::path::Path::is_absolute`, a function of the path text.
#[verifier::external_body]
fn path_is_absolute(p: &str) -> (r: bool)
    ensures
        r == is_absolute_path(p@),
{
    std::path::Path::new(p).is_absolute()
}

/// Relies on `std::path::Path::strip_prefix`, a function of the two path texts;
/// the rest is converted to a string as `to_string_lossy` does.
#[verifier::external_body]
fn strip_path_prefix(p: &str, base: &str) -> (r: Option<String>)
    ensures
        r is Some <==> stripped_path(p@, base@) is Some,
        r is Some ==> stripped_path(p@, base@) == Some(r->Some_0@),
{
    match std::path::Path::new(p).strip_prefix(base) {
        Ok(rest) => Some(rest.to_string_lossy().to_string()),
        Err(_) => None,
    }
}

/// The form in which a local directory is written (see `relative_form`).
pub fn relative_to(local: &str, cwd: &str) -> (r: String)
    ensures
        r@ == relative_form(local@, cwd@),
{
    if path_is_absolute(local) {
        match strip_path_prefix(local, cwd) {
            Some(rel) => rel,
            None => String::from_str(local),
        }
    } else {
        String::from_str(local)
    }
}

/// Taking one pair out keeps keys unique.
proof fn lemma_remove_unique<V>(s: Seq<(Seq<char>, V)>, i: int)
    requires
        unique_keys(s),
        0 <= i < s.len(),
    ensures
        unique_keys(s.remove(i)),
{
    let t = s.remove(i);
    assert forall|a: int, b: int| 0 <= a < b < t.len() implies t[a].0 != t[b].0 by {
        let a2 = if a < i { a } else { a + 1 };
        let b2 = if b < i { b } else { b + 1 };
        assert(t[a] == s[a2]);
        assert(t[b] == s[b2]);
    }
}

/// What `first_key` finds: the first position keyed `k`, or no such position.
proof fn lemma_first_key_spec<V>(s: Seq<(Seq<char>, V)>, k: Seq<char>)
    ensures
        first_key(s, k) is Some ==> ({
            let i = first_key(s, k)->Some_0;
            0 <= i < s.len() && s[i].0 == k && forall|j: int| 0 <= j < i ==> s[j].0 != k
        }),
        first_key(s, k) is None ==> forall|j: int| 0 <= j < s.len() ==> s[j].0 != k,
    decreases s.len(),
{
    if s.len() > 0 {
        let t = s.skip(1);
        lemma_first_key_spec(t, k);
        assert forall|j: int| 0 <= j < t.len() implies t[j] == s[j + 1] by {}
        if s[0].0 != k && first_key(t, k) is Some {
            let i = first_key(t, k)->Some_0;
            assert forall|j: int| 0 <= j < i + 1 implies s[j].0 != k by {
                if j > 0 {
                    assert(s[j] == t[j - 1]);
                }
            }
        }
        if s[0].0 != k && first_key(t, k) is None {
            assert forall|j: int| 0 <= j < s.len() implies s[j].0 != k by {
                if j > 0 {
                    assert(s[j] == t[j - 1]);
                }
            }
        }
    }
}

/// Two sequences with the same keys have the same first positions.
proof fn lemma_first_key_same_keys<V>(s: Seq<(Seq<char>, V)>, t: Seq<(Seq<char>, V)>, k: Seq<char>)
    requires
        s.len() == t.len(),
        forall|j: int| 0 <= j < s.len() ==> s[j].0 == t[j].0,
    ensures
        first_key(s, k) == first_key(t, k),
{
    lemma_first_key_spec(s, k);
    match first_key(s, k) {
        Some(i) => lemma_first_key(t, k, i),
        None => lemma_first_key(t, k, t.len() as int),
    }
}

/// Redirecting a name keeps the names of a group unique.
proof fn lemma_set_entry_unique(e: EntriesView, name: Seq<char>, path: Seq<char>)
    requires
        unique_keys(e),
    ensures
        unique_keys(set_entry(e, name, path)),
        first_key(set_entry(e, name, path), name) is Some,
        set_entry(e, name, path)[first_key(set_entry(e, name, path), name)->Some_0] == (name, path),
{
    lemma_first_key_spec(e, name);
    let r = set_entry(e, name, path);
    match first_key(e, name) {
        Some(j) => {
            assert forall|a: int, b: int| 0 <= a < b < r.len() implies r[a].0 != r[b].0 by {
                assert(r[a].0 == e[a].0);
                assert(r[b].0 == e[b].0);
            }
            lemma_first_key_same_keys(e, r, name);
        },
        None => {
            lemma_push_unique(e, name, path);
            lemma_first_key(r, name, e.len() as int);
        },
    }
}

/// Upserting keeps the document well formed.
pub proof fn lemma_upsert_well_formed(g: GroupsView, key: Seq<char>, name: Seq<char>, path: Seq<char>)
    requires
        well_formed_groups(g),
    ensures
        well_formed_groups(upserted(g, key, name, path)),
{
    lemma_first_key_spec(g, key);
    let r = upserted(g, key, name, path);
    match first_key(g, key) {
        Some(i) => {
            lemma_set_entry_unique(g[i].1, name, path);
            assert forall|a: int, b: int| 0 <= a < b < r.len() implies r[a].0 != r[b].0 by {
                assert(r[a].0 == g[a].0);
                assert(r[b].0 == g[b].0);
            }
            assert forall|a: int| 0 <= a < r.len() implies unique_keys(#[trigger] r[a].1) by {
                if a != i {
                    assert(r[a] == g[a]);
                }
            }
        },
        None => {
            lemma_push_unique(g, key, seq![(name, path)]);
            assert forall|a: int| 0 <= a < r.len() implies unique_keys(#[trigger] r[a].1) by {
                if a < g.len() {
                    assert(r[a] == g[a]);
                }
            }
        },
    }
}

/// After an upsert, listing the group shows the entry, and it is the one entry
/// of that name there.
pub proof fn lemma_upsert_then_list(g: GroupsView, key: Seq<char>, name: Seq<char>, path: Seq<char>)
    requires
        well_formed_groups(g),
    ensures
        entries_in(upserted(g, key, name, path), key).contains((name, path)),
        forall|j: int|
            0 <= j < entries_in(upserted(g, key, name, path), key).len() && (#[trigger] entries_in(
                upserted(g, key, name, path),
                key,
            )[j]).0 == name ==> entries_in(upserted(g, key, name, path), key)[j] == (name, path),
{
    lemma_first_key_spec(g, key);
    lemma_upsert_well_formed(g, key, name, path);
    let r = upserted(g, key, name, path);
    match first_key(g, key) {
        Some(i) => {
            lemma_first_key_same_keys(g, r, key);
            lemma_set_entry_unique(g[i].1, name, path);
        },
        None => {
            lemma_first_key(r, key, g.len() as int);
        },
    }
    let e = entries_in(r, key);
    lemma_first_key_spec(r, key);
    assert(unique_keys(e));
    lemma_first_key_spec(e, name);
    let m = first_key(e, name)->Some_0;
    assert(e[m] == (name, path));
    assert forall|j: int| 0 <= j < e.len() && (#[trigger] e[j]).0 == name implies e[j] == (
        name,
        path,
    ) by {
        if j != m {
            assert(e[j].0 != e[m].0);
        }
    }
}

/// Upserting the same (group, name) twice is upserting the later path once.
pub proof fn lemma_upsert_twice(
    g: GroupsView,
    key: Seq<char>,
    name: Seq<char>,
    first: Seq<char>,
    second: Seq<char>,
)
    requires
        well_formed_groups(g),
    ensures
        upserted(upserted(g, key, name, first), key, name, second) == upserted(g, key, name, second),
{
    lemma_first_key_spec(g, key);
    let g1 = upserted(g, key, name, first);
    match first_key(g, key) {
        Some(i) => {
            lemma_first_key_same_keys(g, g1, key);
            let e = g[i].1;
            lemma_first_key_spec(e, name);
            let e1 = set_entry(e, name, first);
            match first_key(e, name) {
                Some(j) => {
                    lemma_first_key_same_keys(e, e1, name);
                    assert(e1.update(j, (name, second)) =~= e.update(j, (name, second)));
                },
                None => {
                    lemma_first_key(e1, name, e.len() as int);
                    assert(e1.update(e.len() as int, (name, second)) =~= e.push((name, second)));
                },
            }
            assert(g1.update(i, (key, set_entry(e1, name, second))) =~= g.update(
                i,
                (key, set_entry(e, name, second)),
            ));
        },
        None => {
            lemma_first_key(g1, key, g.len() as int);
            let one: EntriesView = seq![(name, first)];
            lemma_first_key(one, name, 0);
            assert(one.update(0, (name, second)) =~= seq![(name, second)]);
            assert(g1.update(g.len() as int, (key, set_entry(one, name, second))) =~= g.push(
                (key, seq![(name, second)]),
            ));
        },
    }
}

/// Removing a name that the registry group does not hold changes nothing.
pub proof fn lemma_remove_absent(p: Option<GroupsView>, name: Seq<char>)
    requires
        forall|j: int|
            0 <= j < entries_in(groups_of(p), registry_key()).len() ==> (#[trigger] entries_in(
                groups_of(p),
                registry_key(),
            )[j]).0 != name,
    ensures
        after_removal(p, name) is None,
{
    let g = groups_of(p);
    lemma_first_key_spec(g, registry_key());
    if let Some(i) = first_key(g, registry_key()) {
        lemma_first_key_spec(g[i].1, name);
        if let Some(m) = first_key(g[i].1, name) {
            assert(entries_in(g, registry_key())[m].0 == name);
        }
    }
}

/// A model whose keys are those of `s`, pair by pair.
pub open spec fn same_keys<V, W>(s: Seq<(String, V)>, view: Seq<(Seq<char>, W)>) -> bool {
    view.len() == s.len() && forall|i: int| 0 <= i < s.len() ==> #[trigger] view[i].0 == keys_of(s)[i]
}

/// Keys are unique in a model exactly when they are in the list it models.
proof fn lemma_unique_keys_view<V, W>(s: Seq<(String, V)>, view: Seq<(Seq<char>, W)>)
    requires
        same_keys(s, view),
    ensures
        unique_keys(view) == keys_of(s).no_duplicates(),
{
    let ks = keys_of(s);
    if unique_keys(view) {
        assert forall|a: int, b: int| 0 <= a < ks.len() && 0 <= b < ks.len() && a != b implies ks[a]
            != ks[b] by {
            assert(view[a].0 == ks[a]);
            assert(view[b].0 == ks[b]);
        }
    }
    if ks.no_duplicates() {
        assert forall|a: int, b: int| 0 <= a < b < view.len() implies view[a].0 != view[b].0 by {
            assert(view[a].0 == ks[a]);
            assert(view[b].0 == ks[b]);
        }
    }
}

/// What `key_position` finds is what `first_key` finds in the model.
proof fn lemma_position_view<V, W>(s: Seq<(String, V)>, view: Seq<(Seq<char>, W)>, k: Seq<char>, i: int)
    requires
        same_keys(s, view),
        0 <= i <= s.len(),
        forall|j: int| 0 <= j < i ==> keys_of(s)[j] != k,
        i < s.len() ==> keys_of(s)[i] == k,
    ensures
        first_key(view, k) == if i < s.len() {
            Some(i)
        } else {
            None::<int>
        },
{
    assert forall|j: int| 0 <= j < i implies view[j].0 != k by {
        assert(view[j].0 == keys_of(s)[j]);
    }
    if i < s.len() {
        assert(view[i].0 == keys_of(s)[i]);
    }
    lemma_first_key(view, k, i);
}

/// Position of group `key`.
fn group_index(groups: &Vec<(String, Vec<(String, PatchConfig)>)>, key: &str) -> (r: Option<usize>)
    ensures
        r is Some ==> r->Some_0 < groups@.len(),
        r is Some ==> groups@[r->Some_0 as int].0@ == key@,
        r is Some ==> first_key(groups_view(groups@), key@) == Some(r->Some_0 as int),
        r is None ==> first_key(groups_view(groups@), key@) is None,
{
    let r = key_position(groups, key);
    proof {
        let i = match r {
            Some(i) => i as int,
            None => groups@.len() as int,
        };
        assert(same_keys(groups@, groups_view(groups@)));
        lemma_position_view(groups@, groups_view(groups@), key@, i);
    }
    r
}

/// Position of the entry for `name`.
fn entry_index(entries: &Vec<(String, PatchConfig)>, name: &str) -> (r: Option<usize>)
    ensures
        r is Some ==> r->Some_0 < entries@.len(),
        r is Some ==> entries@[r->Some_0 as int].0@ == name@,
        r is Some ==> first_key(entries_view(entries@), name@) == Some(r->Some_0 as int),
        r is None ==> first_key(entries_view(entries@), name@) is None,
{
    let r = key_position(entries, name);
    proof {
        let i = match r {
            Some(i) => i as int,
            None => entries@.len() as int,
        };
        assert(same_keys(entries@, entries_view(entries@)));
        lemma_position_view(entries@, entries_view(entries@), name@, i);
    }
    r
}

/// Redirects `name` to `path` within one group's entries.
fn set_entry_in(entries: &mut Vec<(String, PatchConfig)>, name: &str, path: &str)
    requires
        unique_keys(entries_view(old(entries)@)),
    ensures
        entries_view(final(entries)@) == set_entry(entries_view(old(entries)@), name@, path@),
        unique_keys(entries_view(final(entries)@)),
{
    let ghost e = entries_view(entries@);
    let entry = (String::from_str(name), PatchConfig { path: String::from_str(path) });
    match entry_index(entries, name) {
        Some(j) => {
            entries.set(j, entry);
            assert(entries_view(entries@) =~= e.update(j as int, (name@, path@)));
            assert forall|a: int, b: int|
                0 <= a < b < entries_view(entries@).len() implies entries_view(entries@)[a].0
                != entries_view(entries@)[b].0 by {
                assert(e[j as int].0 == name@);
            }
        },
        None => {
            entries.push(entry);
            assert(entries_view(entries@) =~= e.push((name@, path@)));
            proof {
                lemma_push_unique(e, name@, path@);
            }
        },
    }
}

impl CargoConfig {
    /// The model of the `[patch]` section.
    pub open spec fn patch_view(&self) -> Option<GroupsView> {
        match self.patch {
            Some(g) => Some(groups_view(g@)),
            None => None,
        }
    }

    /// Group keys, package names within a group, and the keys of the other
    /// sections are unique.
    pub open spec fn wf(&self) -> bool {
        well_formed_groups(groups_of(self.patch_view())) && keys_of(self.other@).no_duplicates()
    }

    /// Checks that keys are unique where the document model asks for it.
    pub fn well_formed(&self) -> (r: bool)
        ensures
            r == self.wf(),
    {
        if !keys_distinct(&self.other) {
            return false;
        }
        match &self.patch {
            None => true,
            Some(groups) => {
                proof {
                    lemma_unique_keys_view(groups@, groups_view(groups@));
                }
                if !keys_distinct(groups) {
                    return false;
                }
                let ghost g = groups_view(groups@);
                let mut i: usize = 0;
                while i < groups.len()
                    invariant
                        g == groups_view(groups@),
                        self.patch_view() == Some(g),
                        i <= groups@.len(),
                        unique_keys(g),
                        forall|a: int| 0 <= a < i ==> unique_keys(#[trigger] g[a].1),
                    decreases groups.len() - i,
                {
                    proof {
                        lemma_unique_keys_view(groups@[i as int].1@, entries_view(groups@[i as int].1@));
                    }
                    if !keys_distinct(&groups[i].1) {
                        assert(!unique_keys(g[i as int].1));
                        return false;
                    }
                    i = i + 1;
                }
                true
            },
        }
    }

    /// Redirects `crate_name` in group `patch_source` to `path`, as given:
    /// replaces the entry in place where there is one, else appends it, adding
    /// the group (and the section) where missing. Other sections stay as they are.
    pub fn insert_patch(&mut self, patch_source: &str, crate_name: &str, path: &str)
        requires
            old(self).wf(),
        ensures
            final(self).wf(),
            final(self).patch_view() == Some(
                upserted(groups_of(old(self).patch_view()), patch_source@, crate_name@, path@),
            ),
            final(self).other == old(self).other,
    {
        let mut groups = match self.patch.take() {
            Some(g) => g,
            None => Vec::new(),
        };
        let ghost g = groups_view(groups@);
        assert(g == groups_of(old(self).patch_view()));
        match group_index(&groups, patch_source) {
            Some(i) => {
                let (key, mut entries) = groups.remove(i);
                assert(g[i as int] == (key@, entries_view(entries@)));
                assert(unique_keys(g[i as int].1));
                set_entry_in(&mut entries, crate_name, path);
                groups.insert(i, (key, entries));
                assert(groups_view(groups@) =~= g.update(
                    i as int,
                    (patch_source@, set_entry(g[i as int].1, crate_name@, path@)),
                ));
            },
            None => {
                let mut entries: Vec<(String, PatchConfig)> = Vec::new();
                entries.push((String::from_str(crate_name), PatchConfig { path: String::from_str(path) }));
                assert(entries_view(entries@) =~= seq![(crate_name@, path@)]);
                groups.push((String::from_str(patch_source), entries));
                assert(groups_view(groups@) =~= g.push((patch_source@, seq![(crate_name@, path@)])));
                proof {
                    lemma_push_unique(g, patch_source@, seq![(crate_name@, path@)]);
                }
            },
        }
        self.patch = Some(groups);
    }

    /// Redirects `crate_name` in group `patch_source` to `local_path`, written
    /// relative to the working directory `current_dir` where it lies under it.
    pub fn add_patch_with_source(
        &mut self,
        crate_name: &str,
        local_path: &str,
        patch_source: &str,
        current_dir: &str,
    )
        requires
            old(self).wf(),
        ensures
            final(self).wf(),
            final(self).patch_view() == Some(
                upserted(
                    groups_of(old(self).patch_view()),
                    patch_source@,
                    crate_name@,
                    relative_form(local_path@, current_dir@),
                ),
            ),
            final(self).other == old(self).other,
    {
        let path = relative_to(local_path, current_dir);
        self.insert_patch(patch_source, crate_name, path.as_str());
    }

    /// Redirects the registry package `crate_name` to `local_path`.
    pub fn add_patch(&mut self, crate_name: &str, local_path: &str, current_dir: &str)
        requires
            old(self).wf(),
        ensures
            final(self).wf(),
            final(self).patch_view() == Some(
                upserted(
                    groups_of(old(self).patch_view()),
                    registry_key(),
                    crate_name@,
                    relative_form(local_path@, current_dir@),
                ),
            ),
            final(self).other == old(self).other,
    {
        self.add_patch_with_source(crate_name, local_path, "crates-io", current_dir)
    }

    /// Removes the registry redirect of `crate_name`, pruning the group when it
    /// becomes empty and the section when no group is left. Returns whether an
    /// entry was removed; where none was, nothing changes.
    pub fn remove_patch(&mut self, crate_name: &str) -> (r: bool)
        requires
            old(self).wf(),
        ensures
            final(self).wf(),
            r == after_removal(old(self).patch_view(), crate_name@) is Some,
            r ==> final(self).patch_view() == after_removal(
                old(self).patch_view(),
                crate_name@,
            )->Some_0,
            !r ==> *final(self) == *old(self),
            final(self).other == old(self).other,
    {
        let (gi, ei) = match &self.patch {
            None => {
                return false;
            },
            Some(groups) => match group_index(groups, "crates-io") {
                None => {
                    return false;
                },
                Some(i) => match entry_index(&groups[i].1, crate_name) {
                    None => {
                        return false;
                    },
                    Some(j) => (i, j),
                },
            },
        };
        let mut groups = match self.patch.take() {
            Some(g) => g,
            None => Vec::new(),
        };
        let ghost g = groups_view(groups@);
        let (key, mut entries) = groups.remove(gi);
        let ghost e = entries_view(entries@);
        assert(g[gi as int] == (key@, e));
        entries.remove(ei);
        assert(entries_view(entries@) =~= e.remove(ei as int));
        proof {
            lemma_remove_unique(e, ei as int);
            lemma_remove_unique(g, gi as int);
        }
        if entries.len() > 0 {
            groups.insert(gi, (key, entries));
            assert(groups_view(groups@) =~= g.update(gi as int, (g[gi as int].0, e.remove(ei as int))));
            assert forall|a: int, b: int|
                0 <= a < b < groups_view(groups@).len() implies groups_view(groups@)[a].0
                != groups_view(groups@)[b].0 by {
                assert(groups_view(groups@)[a].0 == g[a].0);
                assert(groups_view(groups@)[b].0 == g[b].0);
            }
        } else {
            assert(groups_view(groups@) =~= g.remove(gi as int));
        }
        if groups.len() == 0 {
            self.patch = None;
        } else {
            self.patch = Some(groups);
        }
        true
    }

    /// The (package, path) entries of group `patch_source`, in insertion order.
    pub fn patches_for(&self, patch_source: &str) -> (r: Vec<(String, String)>)
        ensures
            pairs_view(r@) == entries_in(
                groups_of(self.patch_view()),
                patch_source@,
            ),
    {
        let mut out: Vec<(String, String)> = Vec::new();
        assert(pairs_view(out@) =~= Seq::<(Seq<char>, Seq<char>)>::empty());
        if let Some(groups) = &self.patch {
            if let Some(i) = group_index(groups, patch_source) {
                let entries = &groups[i].1;
                let ghost e = entries_view(entries@);
                let mut j: usize = 0;
                while j < entries.len()
                    invariant
                        e == entries_view(entries@),
                        j <= entries@.len(),
                        pairs_view(out@) == e.take(j as int),
                    decreases entries.len() - j,
                {
                    let ghost before = out@;
                    let item = (
                        String::from_str(entries[j].0.as_str()),
                        String::from_str(entries[j].1.path.as_str()),
                    );
                    out.push(item);
                    assert(pairs_view(out@) =~= pairs_view(before).push((item.0@, item.1@)));
                    assert(pairs_view(out@) =~= e.take(j + 1));
                    j = j + 1;
                }
                assert(e.take(entries@.len() as int) =~= e);
            }
        }
        out
    }

    /// The entries of the registry group, in insertion order.
    pub fn list_patches(&self) -> (r: Vec<(String, String)>)
        ensures
            pairs_view(r@) == entries_in(
                groups_of(self.patch_view()),
                registry_key(),
            ),
    {
        self.patches_for("crates-io")
    }
}

impl Default for CargoConfig {
    /// A document with no `[patch]` section and nothing else.
    fn default() -> (r: Self)
        ensures
            r.patch is None,
            r.other@.len() == 0,
    {
        CargoConfig { patch: None, other: Vec::new() }
    }
}

} // verus!
