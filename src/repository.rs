//! Repository references: recognising clonable addresses, cleaning the
//! addresses that a registry publishes, and reading a package name out of a
//! repository address.
use vstd::prelude::*;
use vstd::string::*;
use crate::text::{
    contains, ends_with, has_infix, has_prefix, has_suffix, same_text, segment_start,
    starts_with,
};

verus! {

#[verifier::external_type_specification]
#[verifier::external_body]
pub struct ExUrlParseError(url::ParseError);

/// Why a repository reference could not be produced.
pub enum RepoError {
    /// The registry entry of the package names no repository.
    MissingRepository { crate_name: String },
    /// The cleaned address does not look like something git can fetch.
    InvalidRepositoryUrl { url: String },
    /// A `git@host:path` address that does not split into host and path.
    InvalidSshUrl { url: String },
    /// The address is not an absolute URL.
    UrlParse { url: String, cause: url::ParseError },
}

/// Accepted transport prefixes, or an SCP-style `git@` address.
pub open spec fn looks_clonable(u: Seq<char>) -> bool {
    has_prefix(u, "http://"@) || has_prefix(u, "https://"@) || has_prefix(u, "git://"@)
        || has_prefix(u, "ssh://"@) || has_infix(u, "git@"@)
}

/// `s` without the suffix `p`, where it ends with `p`.
pub open spec fn drop_suffix(s: Seq<char>, p: Seq<char>) -> Seq<char> {
    if has_suffix(s, p) {
        s.subrange(0, s.len() - p.len())
    } else {
        s
    }
}

/// A browser address of a branch, `.../tree/master` then `.../tree/main`, cut back
/// to the repository address.
pub open spec fn without_tree_suffix(u: Seq<char>) -> Seq<char> {
    drop_suffix(drop_suffix(u, "/tree/master"@), "/tree/main"@)
}

/// GitHub addresses get the `.git` ending that makes them clonable as they stand.
pub open spec fn with_archive_suffix(u: Seq<char>) -> Seq<char> {
    if has_infix(u, "github.com"@) && !has_suffix(u, ".git"@) {
        u + ".git"@
    } else {
        u
    }
}

/// The cleaned form of a published repository address.
pub open spec fn cleaned_reference(u: Seq<char>) -> Seq<char> {
    with_archive_suffix(without_tree_suffix(u))
}


/// No character of `s` is `c`.
pub open spec fn free_of(s: Seq<char>, c: char) -> bool {
    forall|j: int| 0 <= j < s.len() ==> s[j] != c
}

/// `k` is the position of the one and only `:` of `s`.
pub open spec fn sole_colon_at(s: Seq<char>, k: int) -> bool {
    0 <= k < s.len() && s[k] == ':' && free_of(s.take(k), ':') && free_of(s.skip(k + 1), ':')
}

/// `s` with every occurrence of `p` taken out, scanning from the left.
pub open spec fn removed_all(s: Seq<char>, p: Seq<char>) -> Seq<char>
    decreases s.len(),
{
    if p.len() == 0 || s.len() < p.len() {
        s
    } else if s.take(p.len() as int) == p {
        removed_all(s.skip(p.len() as int), p)
    } else {
        seq![s[0]] + removed_all(s.skip(1), p)
    }
}

/// The address to hand to a URL parser: an SCP-style `git@host:path` becomes
/// `https://host/path`; one that does not have exactly one `:` has no such form.
pub open spec fn parsable_form(u: Seq<char>) -> Option<Seq<char>> {
    if has_prefix(u, "git@"@) {
        if exists|k: int| sole_colon_at(u, k) {
            let k = choose|k: int| sole_colon_at(u, k);
            Some("https://"@ + removed_all(u.take(k), "git@"@) + "/"@ + u.skip(k + 1))
        } else {
            None
        }
    } else {
        Some(u)
    }
}

/// `s` without any leading `c`.
pub open spec fn trim_leading(s: Seq<char>, c: char) -> Seq<char>
    decreases s.len(),
{
    if s.len() > 0 && s[0] == c {
        trim_leading(s.skip(1), c)
    } else {
        s
    }
}

/// `s` without any number of trailing copies of `p`.
pub open spec fn trim_trailing(s: Seq<char>, p: Seq<char>) -> Seq<char>
    decreases s.len(),
{
    if p.len() > 0 && has_suffix(s, p) {
        trim_trailing(s.take(s.len() - p.len()), p)
    } else {
        s
    }
}

/// The package name that a URL path names: its last `/`-separated segment,
/// once leading slashes and trailing `.git` endings are gone.
pub open spec fn name_in_url_path(path: Seq<char>) -> Seq<char> {
    let t = trim_trailing(trim_leading(path, '/'), ".git"@);
    t.skip(segment_start(t, '/'))
}

/// What `url::Url::parse` followed by `Url::path` gives for an address, `None`
/// where the address does not parse.
pub uninterp spec fn url_path_of(u: Seq<char>) -> Option<Seq<char>>;

/// Relies on `url::Url::parse` and `Url::path`: the path of an absolute URL is a
/// function of the address alone.
#[verifier::external_body]
fn parse_url_path(u: &str) -> (r: Result<String, url::ParseError>)
    ensures
        r is Ok <==> url_path_of(u@) is Some,
        r is Ok ==> url_path_of(u@) == Some(r->Ok_0@),
{
    match url::Url::parse(u) {
        Ok(parsed) => Ok(parsed.path().to_string()),
        Err(e) => Err(e),
    }
}

fn find_char(s: &str, c: char, from: usize) -> (r: Option<usize>)
    requires
        from <= s@.len(),
    ensures
        r is Some ==> from <= r->Some_0 < s@.len() && s@[r->Some_0 as int] == c,
        r is Some ==> forall|j: int| from <= j < r->Some_0 ==> s@[j] != c,
        r is None ==> forall|j: int| from <= j < s@.len() ==> s@[j] != c,
{
    let n = s.unicode_len();
    let mut i = from;
    while i < n
        invariant
            n == s@.len(),
            from <= i <= n,
            forall|j: int| from <= j < i ==> s@[j] != c,
        decreases n - i,
    {
        if s.get_char(i) == c {
            return Some(i);
        }
        i = i + 1;
    }
    None
}

/// `s` with every occurrence of `p` removed, as `str::replace(s, p, "")` does.
fn remove_all(s: &str, p: &str) -> (r: String)
    ensures
        r@ == removed_all(s@, p@),
{
    let n = s.unicode_len();
    let m = p.unicode_len();
    if m == 0 {
        return String::from_str(s);
    }
    let mut out = String::new();
    let mut i: usize = 0;
    assert(s@.skip(0) =~= s@);
    assert(out@ + removed_all(s@, p@) =~= removed_all(s@, p@));
    while i < n
        invariant
            n == s@.len(),
            m == p@.len(),
            m > 0,
            i <= n,
            removed_all(s@, p@) == out@ + removed_all(s@.skip(i as int), p@),
        decreases n - i,
    {
        let ghost rest = s@.skip(i as int);
        if m <= n - i && same_text(s.substring_char(i, i + m), p) {
            assert(rest.take(m as int) =~= s@.subrange(i as int, i + m));
            assert(rest.skip(m as int) =~= s@.skip(i + m));
            i = i + m;
        } else {
            assert(i + m <= n ==> rest.take(m as int) =~= s@.subrange(i as int, i + m));
            assert(rest.skip(1) =~= s@.skip(i + 1));
            assert(seq![rest[0]] =~= s@.subrange(i as int, i + 1));
            assert(removed_all(rest, p@) == seq![rest[0]] + removed_all(rest.skip(1), p@));
            let ghost prev = out@;
            out.append(s.substring_char(i, i + 1));
            assert(prev + (seq![rest[0]] + removed_all(rest.skip(1), p@)) =~= out@
                + removed_all(rest.skip(1), p@));
            i = i + 1;
        }
    }
    assert(s@.skip(n as int) =~= Seq::<char>::empty());
    assert(out@ + Seq::<char>::empty() =~= out@);
    out
}


/// Turns an SCP-style `git@host:path` address into `https://host/path`; other
/// addresses come back as they are.
pub fn parsable_git_url(git_url: &str) -> (r: Result<String, RepoError>)
    ensures
        r is Ok <==> parsable_form(git_url@) is Some,
        r is Ok ==> parsable_form(git_url@) == Some(r->Ok_0@),
        r is Err ==> r->Err_0 is InvalidSshUrl && r->Err_0->InvalidSshUrl_url@ == git_url@,
{
    if !starts_with(git_url, "git@") {
        return Ok(String::from_str(git_url));
    }
    let n = git_url.unicode_len();
    let ghost u = git_url@;
    match find_char(git_url, ':', 0) {
        None => {
            assert(!exists|k: int| sole_colon_at(u, k));
            Err(RepoError::InvalidSshUrl { url: String::from_str(git_url) })
        },
        Some(k) => {
            assert(free_of(u.take(k as int), ':'));
            match find_char(git_url, ':', k + 1) {
                Some(k2) => {
                    assert forall|k3: int| !sole_colon_at(u, k3) by {
                        if sole_colon_at(u, k3) {
                            if k3 < k {
                                assert(u.skip(k3 + 1)[k - k3 - 1] == ':');
                            } else if k3 > k {
                                assert(u.take(k3)[k as int] == ':');
                            } else {
                                assert(u.skip(k3 + 1)[k2 - k3 - 1] == ':');
                            }
                        }
                    }
                    Err(RepoError::InvalidSshUrl { url: String::from_str(git_url) })
                },
                None => {
                    assert(sole_colon_at(u, k as int));
                    assert forall|k3: int| sole_colon_at(u, k3) implies k3 == k by {
                        if k3 < k {
                            assert(u.skip(k3 + 1)[k - k3 - 1] == ':');
                        } else if k3 > k {
                            assert(u.take(k3)[k as int] == ':');
                        }
                    }
                    let host = remove_all(git_url.substring_char(0, k), "git@");
                    let mut out = String::from_str("https://");
                    out.append(host.as_str());
                    out.append("/");
                    out.append(git_url.substring_char(k + 1, n));
                    assert(u.subrange(0, k as int) =~= u.take(k as int));
                    assert(u.subrange(k + 1, n as int) =~= u.skip(k + 1));
                    Ok(out)
                },
            }
        },
    }
}

/// The package name that a URL path names (see `name_in_url_path`).
pub fn name_from_url_path(path: &str) -> (r: String)
    ensures
        r@ == name_in_url_path(path@),
{
    let ghost s = path@;
    let n = path.unicode_len();
    let mut i: usize = 0;
    assert(s.skip(0) =~= s);
    while i < n && path.get_char(i) == '/'
        invariant
            s == path@,
            n == s.len(),
            i <= n,
            trim_leading(s, '/') == trim_leading(s.skip(i as int), '/'),
        decreases n - i,
    {
        assert(s.skip(i as int)[0] == '/');
        assert(s.skip(i as int).skip(1) =~= s.skip(i + 1));
        i = i + 1;
    }
    let lead = path.substring_char(i, n);
    assert(lead@ =~= s.skip(i as int));
    let ghost t0 = lead@;
    let mut j = lead.unicode_len();
    assert(t0.take(j as int) =~= t0);
    while ends_with(lead.substring_char(0, j), ".git")
        invariant
            j <= t0.len(),
            lead@ == t0,
            trim_trailing(t0, ".git"@) == trim_trailing(t0.take(j as int), ".git"@),
        decreases j,
    {
        proof {
            reveal_strlit(".git");
            assert(t0.take(j as int).subrange(0, j as int) =~= t0.take(j as int));
        }
        assert(t0.take(j as int).take(j - 4) =~= t0.take(j - 4));
        j = j - 4;
    }
    let ghost t = t0.take(j as int);
    let mut k = j;
    assert(t.take(k as int) =~= t);
    while k > 0 && lead.get_char(k - 1) != '/'
        invariant
            k <= j,
            j <= t0.len(),
            lead@ == t0,
            t == t0.take(j as int),
            segment_start(t, '/') == segment_start(t.take(k as int), '/'),
        decreases k,
    {
        assert(t.take(k as int).drop_last() =~= t.take(k - 1));
        k = k - 1;
    }
    String::from_str(lead.substring_char(k, j))
}

/// The package name that a git address names: the last segment of its path,
/// without a `.git` ending.
pub fn extract_crate_name_from_git_url(git_url: &str) -> (r: Result<String, RepoError>)
    ensures
        parsable_form(git_url@) is None ==> r is Err && r->Err_0 is InvalidSshUrl,
        parsable_form(git_url@) is Some ==> match url_path_of(parsable_form(git_url@)->Some_0) {
            Some(path) => r is Ok && r->Ok_0@ == name_in_url_path(path),
            None => r is Err && r->Err_0 is UrlParse,
        },
{
    let url = parsable_git_url(git_url)?;
    match parse_url_path(url.as_str()) {
        Ok(path) => Ok(name_from_url_path(path.as_str())),
        Err(cause) => Err(RepoError::UrlParse { url, cause }),
    }
}

/// Whether `s` looks like a git address rather than a package name.
pub fn is_git_url(s: &str) -> (r: bool)
    ensures
        r == looks_clonable(s@),
{
    starts_with(s, "http://") || starts_with(s, "https://") || starts_with(s, "git://")
        || starts_with(s, "ssh://") || contains(s, "git@")
}

fn cut_suffix(s: String, p: &str) -> (r: String)
    ensures
        r@ == drop_suffix(s@, p@),
{
    if ends_with(s.as_str(), p) {
        let n = s.as_str().unicode_len();
        let m = p.unicode_len();
        String::from_str(s.as_str().substring_char(0, n - m))
    } else {
        s
    }
}

/// Cleans an address published by the registry: strips a branch-browsing suffix,
/// adds `.git` to GitHub addresses, and rejects what does not look clonable.
pub fn clean_repository_url(url: &str) -> (r: Result<String, RepoError>)
    ensures
        r is Ok <==> looks_clonable(cleaned_reference(url@)),
        r is Ok ==> r->Ok_0@ == cleaned_reference(url@),
        r is Err ==> r->Err_0 is InvalidRepositoryUrl
            && r->Err_0->InvalidRepositoryUrl_url@ == cleaned_reference(url@),
{
    let cleaned = cut_suffix(String::from_str(url), "/tree/master");
    let mut cleaned = cut_suffix(cleaned, "/tree/main");
    if contains(cleaned.as_str(), "github.com") && !ends_with(cleaned.as_str(), ".git") {
        cleaned.append(".git");
    }
    if !is_git_url(cleaned.as_str()) {
        return Err(RepoError::InvalidRepositoryUrl { url: cleaned });
    }
    Ok(cleaned)
}

/// The repository address of a package, from the `repository` field of its
/// registry entry.
pub fn repository_from_registry(crate_name: &str, repository: Option<String>) -> (r: Result<
    String,
    RepoError,
>)
    ensures
        repository is None ==> r is Err && r->Err_0 is MissingRepository
            && r->Err_0->MissingRepository_crate_name@ == crate_name@,
        repository is Some ==> (r is Ok <==> looks_clonable(
            cleaned_reference(repository->Some_0@),
        )),
        repository is Some && r is Ok ==> r->Ok_0@ == cleaned_reference(repository->Some_0@),
        repository is Some && r is Err ==> r->Err_0 is InvalidRepositoryUrl
            && r->Err_0->InvalidRepositoryUrl_url@ == cleaned_reference(repository->Some_0@),
{
    match repository {
        Some(repo_url) => clean_repository_url(repo_url.as_str()),
        None => Err(RepoError::MissingRepository { crate_name: String::from_str(crate_name) }),
    }
}

} // verus!
