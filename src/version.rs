//! The release version of a package, reconciled from the two candidates that
//! the package index reports.
use vstd::prelude::*;

verus! {

/// Why no version could be had for a package.
#[derive(Debug, Clone, Copy, PartialEq, Eq, Structural)]
pub enum VersionError {
    /// The request to the package index failed.
    Request,
    /// The response of the package index is not a JSON document.
    Unparseable,
    /// The candidates leave no version to return.
    Missing,
}

/// The pattern that marks a release name as a version: three dot-separated
/// runs of digits, anywhere in the name.
pub open spec fn version_pattern() -> Seq<char> {
    "\\d+\\.\\d+\\.\\d+"@
}

/// A name for whether the regular expression `pattern`, compiled by the
/// regex crate, matches somewhere in `haystack`.
pub uninterp spec fn regex_finds(pattern: Seq<char>, haystack: Seq<char>) -> bool;

/// Relies on regex::Regex::new and regex::Regex::is_match: whether the
/// compiled pattern matches anywhere in the haystack. Only the version
/// pattern, which compiles, is admitted.
#[verifier::external_body]
fn pattern_found(pattern: &str, haystack: &str) -> (r: bool)
    requires
        pattern@ == version_pattern(),
    ensures
        r == regex_finds(pattern@, haystack@),
{
    regex::Regex::new(pattern).unwrap().is_match(haystack)
}

/// A name for whether serde_json reads the text as a JSON document.
pub uninterp spec fn json_valid(text: Seq<char>) -> bool;

/// A name for the string that the JSON pointer `pointer` addresses in the
/// document that serde_json reads from `text`, if it addresses a string.
pub uninterp spec fn json_text_at(text: Seq<char>, pointer: Seq<char>) -> Option<Seq<char>>;

/// Relies on serde_json::from_str into a serde_json::Value: whether the text
/// is a JSON document.
#[verifier::external_body]
fn is_json(text: &str) -> (r: bool)
    ensures
        r == json_valid(text@),
{
    serde_json::from_str::<serde_json::Value>(text).is_ok()
}

/// Relies on serde_json::from_str into a serde_json::Value, then
/// serde_json::Value::pointer and serde_json::Value::as_str: the string that
/// the pointer addresses in the document, if any.
#[verifier::external_body]
fn json_string_at(text: &str, pointer: &str) -> (r: Option<String>)
    ensures
        opt_string_view(r) == json_text_at(text@, pointer@),
{
    match serde_json::from_str::<serde_json::Value>(text) {
        Ok(v) => v.pointer(pointer).and_then(serde_json::Value::as_str).map(String::from),
        Err(_) => None,
    }
}

/// The version chosen from the release name `name` and the latest release
/// `latest`, where `name_is_version` tells whether `name` matches the version
/// pattern: `latest` where there is no name; the name where it equals
/// `latest` or is a version; `latest` otherwise.
pub open spec fn reconciled(name: Option<Seq<char>>, latest: Option<Seq<char>>, name_is_version: bool) -> Option<Seq<char>> {
    match name {
        None => latest,
        Some(a) => if latest == Some(a) || name_is_version {
            Some(a)
        } else {
            latest
        },
    }
}

/// The views of an optional text.
pub open spec fn opt_view(s: Option<&str>) -> Option<Seq<char>> {
    match s {
        Some(t) => Some(t@),
        None => None,
    }
}

/// The result that a reconciled version gives: the version, or `Missing`
/// where there is none.
pub open spec fn version_result(v: Option<Seq<char>>, r: Result<String, VersionError>) -> bool {
    match v {
        Some(s) => r matches Ok(t) && t@ == s,
        None => r == Err::<String, VersionError>(VersionError::Missing),
    }
}

/// Reconciliation is deterministic: two results that the same candidates
/// allow hold the same version, or fail in the same way.
pub proof fn lemma_reconcile_deterministic(
    name: Option<Seq<char>>,
    latest: Option<Seq<char>>,
    name_is_version: bool,
    r1: Result<String, VersionError>,
    r2: Result<String, VersionError>,
)
    requires
        version_result(reconciled(name, latest, name_is_version), r1),
        version_result(reconciled(name, latest, name_is_version), r2),
    ensures
        match (r1, r2) {
            (Ok(a), Ok(b)) => a@ == b@,
            (Err(x), Err(y)) => x == y,
            _ => false,
        },
{
}

/// The views of an optional string.
pub open spec fn opt_string_view(s: Option<String>) -> Option<Seq<char>> {
    match s {
        Some(t) => Some(t@),
        None => None,
    }
}

/// Whether the release name `name` is a version: the version pattern
/// matches somewhere in it.
pub open spec fn name_is_version(name: Option<Seq<char>>) -> bool {
    match name {
        Some(a) => regex_finds(version_pattern(), a),
        None => false,
    }
}

/// The JSON pointer to the name of the first release of the first result.
pub open spec fn release_name_pointer() -> Seq<char> {
    "/0/releases/0/name"@
}

/// The JSON pointer to the latest release of the first result.
pub open spec fn latest_release_pointer() -> Seq<char> {
    "/0/latestRelease"@
}

/// The result that a response of the package index gives: `Unparseable`
/// where it is not JSON; otherwise the version reconciled from the name of
/// the first release of the first result and the latest release of that
/// result.
pub open spec fn response_result(body: Seq<char>, r: Result<String, VersionError>) -> bool {
    if !json_valid(body) {
        r == Err::<String, VersionError>(VersionError::Unparseable)
    } else {
        let name = json_text_at(body, release_name_pointer());
        version_result(
            reconciled(name, json_text_at(body, latest_release_pointer()), name_is_version(name)),
            r,
        )
    }
}

/// The version resolved from a response is fixed by the response: two
/// results that the same body allows hold the same version, or fail in the
/// same way.
pub proof fn lemma_response_deterministic(
    body: Seq<char>,
    r1: Result<String, VersionError>,
    r2: Result<String, VersionError>,
)
    requires
        response_result(body, r1),
        response_result(body, r2),
    ensures
        match (r1, r2) {
            (Ok(a), Ok(b)) => a@ == b@,
            (Err(x), Err(y)) => x == y,
            _ => false,
        },
{
    if json_valid(body) {
        let name = json_text_at(body, release_name_pointer());
        lemma_reconcile_deterministic(
            name,
            json_text_at(body, latest_release_pointer()),
            name_is_version(name),
            r1,
            r2,
        );
    }
}

/// Whether two optional texts are equal.
fn same_text(a: &str, b: Option<&str>) -> (r: bool)
    ensures
        r == (opt_view(b) == Some(a@)),
{
    match b {
        Some(t) => {
            let x = String::from_str(a);
            let y = String::from_str(t);
            x == y
        },
        None => false,
    }
}

/// Picks the version from the release name and the latest release, given
/// whether the release name matches the version pattern.
pub fn reconcile_version(name: Option<&str>, latest: Option<&str>, name_is_version: bool) -> (r: Result<String, VersionError>)
    ensures
        version_result(reconciled(opt_view(name), opt_view(latest), name_is_version), r),
{
    let chosen = match name {
        None => latest,
        Some(a) => if same_text(a, latest) || name_is_version {
            Some(a)
        } else {
            latest
        },
    };
    match chosen {
        Some(v) => Ok(String::from_str(v)),
        None => Err(VersionError::Missing),
    }
}

/// Resolves the version from the release name and the latest release: the
/// name is taken as a version where the version pattern matches in it.
pub fn resolve_version(name: Option<&str>, latest: Option<&str>) -> (r: Result<String, VersionError>)
    ensures
        version_result(
            reconciled(opt_view(name), opt_view(latest), name_is_version(opt_view(name))),
            r,
        ),
{
    match name {
        None => reconcile_version(name, latest, false),
        Some(a) => {
            let is_version = pattern_found("\\d+\\.\\d+\\.\\d+", a);
            reconcile_version(name, latest, is_version)
        },
    }
}

/// The borrowed text of an optional string.
fn borrow_text(s: &Option<String>) -> (r: Option<&str>)
    ensures
        opt_view(r) == opt_string_view(*s),
{
    match s {
        Some(t) => Some(t.as_str()),
        None => None,
    }
}

/// Resolves the version from a response of the package index: the name of
/// the first release of the first result and the latest release of that
/// result are reconciled; a response that is not JSON gives `Unparseable`.
pub fn version_from_response(body: &str) -> (r: Result<String, VersionError>)
    ensures
        response_result(body@, r),
        !json_valid(body@) <==> r == Err::<String, VersionError>(VersionError::Unparseable),
{
    if !is_json(body) {
        return Err(VersionError::Unparseable);
    }
    let name = json_string_at(body, "/0/releases/0/name");
    let latest = json_string_at(body, "/0/latestRelease");
    resolve_version(borrow_text(&name), borrow_text(&latest))
}

} // verus!
