//! The audit report: one line per pinned package, in manifest order.
use vstd::prelude::*;
use crate::license::{AllowList, first_line, license_accepted, get_license_name, check_license};
use crate::version::VersionError;

verus! {

/// One dependency pinned by the resolved manifest. Its kind and state are
/// carried along, not interpreted.
pub struct PinnedPackage {
    pub identity: String,
    pub kind: String,
    pub location: String,
    pub state: Vec<(Option<String>, Option<String>)>,
}

/// The resolved manifest of a workspace: its pinned packages, in order.
pub struct Manifest {
    pub pins: Vec<PinnedPackage>,
    pub version: i32,
}

/// The word that reports a verdict.
pub open spec fn verdict_label(ok: bool) -> Seq<char> {
    if ok {
        "OK"@
    } else {
        "FAIL"@
    }
}

/// One output line: identity, version, license name and verdict, separated
/// by single spaces and ended by a newline.
pub open spec fn output_line(identity: Seq<char>, version: Seq<char>, license: Seq<char>, ok: bool) -> Seq<char> {
    identity + " "@ + version + " "@ + license + " "@ + verdict_label(ok) + "\n"@
}

/// The version that a package reports: the resolved one, or `0.0.0` where
/// resolution failed.
pub open spec fn version_or_default(v: Result<String, VersionError>) -> Seq<char> {
    match v {
        Ok(s) => s@,
        Err(_) => "0.0.0"@,
    }
}

/// The line of a package whose LICENSE text is `text`, judged against the
/// names `allowed`.
pub open spec fn package_line(
    identity: Seq<char>,
    text: Seq<char>,
    version: Seq<char>,
    allowed: Seq<Seq<char>>,
    fold: bool,
) -> Seq<char> {
    output_line(identity, version, first_line(text), license_accepted(allowed, first_line(text), fold))
}

/// Formats one output line.
pub fn format_line(identity: &str, version: &str, license_name: &str, ok: bool) -> (line: String)
    ensures
        line@ == output_line(identity@, version@, license_name@, ok),
{
    let mut line = String::from_str(identity);
    line.append(" ");
    line.append(version);
    line.append(" ");
    line.append(license_name);
    line.append(" ");
    if ok {
        line.append("OK");
    } else {
        line.append("FAIL");
    }
    line.append("\n");
    line
}

/// Audits one package: its license name is the first line of its LICENSE
/// text, its version the resolved one or `0.0.0`, and its verdict that of
/// the `authorized` category.
pub fn audit_package(
    pin: &PinnedPackage,
    license_text: &str,
    version: &Result<String, VersionError>,
    licenses: &AllowList,
    lowercase: bool,
) -> (line: String)
    requires
        licenses.authorized_names() is Some,
    ensures
        line@ == package_line(
            pin.identity@,
            license_text@,
            version_or_default(*version),
            licenses.authorized_names()->Some_0,
            lowercase,
        ),
{
    let name = get_license_name(license_text);
    let ok = check_license(licenses, name, lowercase);
    match version {
        Ok(v) => format_line(pin.identity.as_str(), v.as_str(), name, ok),
        Err(_) => format_line(pin.identity.as_str(), "0.0.0", name, ok),
    }
}

/// The audit report of a manifest: `license_texts[i]` is the LICENSE text
/// fetched for the `i`-th pin, or nothing where the fetch failed, and
/// `versions[i]` its resolved version. One line stands for each pin, in
/// manifest order, up to the first whose fetch failed, where the report ends.
/// The `authorized` category is needed only once a first verdict is due.
pub fn audit_report(
    manifest: &Manifest,
    license_texts: &Vec<Option<String>>,
    versions: &Vec<Result<String, VersionError>>,
    licenses: &AllowList,
    lowercase: bool,
) -> (lines: Vec<String>)
    requires
        license_texts.len() <= manifest.pins.len(),
        versions.len() == license_texts.len(),
        license_texts.len() > 0 && license_texts[0] is Some ==> licenses.authorized_names() is Some,
    ensures
        lines.len() <= license_texts.len(),
        lines.len() < license_texts.len() ==> license_texts[lines.len() as int] is None,
        forall|i: int|
            0 <= i < lines.len() ==> license_texts[i] is Some && #[trigger] lines@[i]@ == package_line(
                manifest.pins[i].identity@,
                license_texts[i]->Some_0@,
                version_or_default(versions[i]),
                licenses.authorized_names()->Some_0,
                lowercase,
            ),
{
    let mut lines: Vec<String> = Vec::new();
    let mut i: usize = 0;
    while i < license_texts.len()
        invariant
            i <= license_texts.len(),
            license_texts.len() <= manifest.pins.len(),
            versions.len() == license_texts.len(),
            license_texts.len() > 0 && license_texts[0] is Some ==> licenses.authorized_names() is Some,
            i > 0 ==> licenses.authorized_names() is Some,
            lines.len() == i,
            forall|j: int| 0 <= j < i ==> (#[trigger] license_texts@[j]) is Some,
            forall|j: int|
                0 <= j < i ==> #[trigger] lines@[j]@ == package_line(
                    manifest.pins[j].identity@,
                    license_texts@[j]->Some_0@,
                    version_or_default(versions[j]),
                    licenses.authorized_names()->Some_0,
                    lowercase,
                ),
        decreases license_texts.len() - i,
    {
        match &license_texts[i] {
            Some(text) => {
                let line = audit_package(&manifest.pins[i], text.as_str(), &versions[i], licenses, lowercase);
                let ghost before = lines@;
                lines.push(line);
                proof {
                    assert forall|j: int| 0 <= j < i implies lines@[j] == before[j] by {}
                }
            },
            None => {
                return lines;
            },
        }
        i += 1;
    }
    lines
}

} // verus!
