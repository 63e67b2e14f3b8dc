//! Version selection: the version of a package from the project's own files,
//! or else from the registry.

use crate::json::{json_document, parse_json, Json};
use crate::text::{
    copy_range, find, find_first, find_from, lemma_find_from, lines, same_chars, split,
    split_lines, split_on, to_chars, to_text, trim, trim_chars, views_of,
};
use vstd::prelude::*;
use vstd::string::*;

verus! {

/// Why no version could be had for a package.
#[derive(Debug)]
pub enum VersionError {
    /// The registry gave no version. The text says why.
    PyPiError(String),
}

impl VersionError {
    /// The text of the error.
    pub open spec fn text(self) -> Seq<char> {
        match self {
            VersionError::PyPiError(text) => text@,
        }
    }

    /// The error as it is shown: its kind, a colon and its text.
    pub fn message(&self) -> (shown: String)
        ensures
            shown@ == "PyPiError: "@ + self.text(),
    {
        match self {
            VersionError::PyPiError(text) => String::from_str("PyPiError: ").concat(text.as_str()),
        }
    }
}

/// The package and the version that one line of the pinned manifest names: what
/// stands before and after its `==`. A line without `==`, or with more than
/// one, names none.
pub open spec fn requirement(line: Seq<char>) -> Option<(Seq<char>, Seq<char>)> {
    let parts = split(line, "=="@);
    if parts.len() == 2 {
        Some((parts[0], parts[1]))
    } else {
        None
    }
}

/// The version of the first line, from index `from` on, that names `package`.
pub open spec fn pinned_from(lines: Seq<Seq<char>>, package: Seq<char>, from: int) -> Option<
    Seq<char>,
>
    decreases lines.len() - from,
{
    if from < 0 || from >= lines.len() {
        None
    } else {
        match requirement(lines[from]) {
            Some((name, version)) => if name == package {
                Some(version)
            } else {
                pinned_from(lines, package, from + 1)
            },
            None => pinned_from(lines, package, from + 1),
        }
    }
}

/// The version that the pinned manifest gives for `package`: that of its
/// first line that names exactly this package.
pub open spec fn pinned_version(manifest: Seq<char>, package: Seq<char>) -> Option<Seq<char>> {
    pinned_from(lines(manifest), package, 0)
}

/// The end of the line that holds the index `from`: the index of the first
/// line feed at or after `from`, or the length of the text where none
/// follows.
pub open spec fn line_end(text: Seq<char>, from: int) -> int {
    match find_from(text, seq!['\n'], from) {
        Some(end) => end,
        None => text.len() as int,
    }
}

/// The version that the project metadata gives for `package`, by a search of
/// the text. The first place where the name of the package stands is taken,
/// whatever stands around it. From there to the end of the line there must
/// be one `=`; what follows it, trimmed, is the version. The last line need
/// not end in a line feed.
pub open spec fn metadata_version(metadata: Seq<char>, package: Seq<char>) -> Option<Seq<char>> {
    match find(metadata, package) {
        Some(start) => {
            let parts = split(metadata.subrange(start, line_end(metadata, start)), "="@);
            if parts.len() == 2 {
                Some(trim(parts[1]))
            } else {
                None
            }
        },
        None => None,
    }
}

/// The version that the project's own files give for `package`: that of the
/// pinned manifest where it has one, else that of the metadata. A file that
/// is absent or unreadable is `None`.
pub open spec fn local_version(
    package: Seq<char>,
    manifest: Option<Seq<char>>,
    metadata: Option<Seq<char>>,
) -> Option<Seq<char>> {
    let pinned = match manifest {
        Some(text) => pinned_version(text, package),
        None => None,
    };
    match pinned {
        Some(version) => Some(version),
        None => match metadata {
            Some(text) => metadata_version(text, package),
            None => None,
        },
    }
}

/// The text of an optional string.
pub open spec fn opt_text(text: Option<&str>) -> Option<Seq<char>> {
    match text {
        Some(t) => Some(t@),
        None => None,
    }
}

fn requirement_of(line: &Vec<char>) -> (found: Option<(Vec<char>, Vec<char>)>)
    ensures
        match found {
            Some((package, version)) => requirement(line@) == Some((package@, version@)),
            None => requirement(line@) is None,
        },
{
    let equals = to_chars("==");
    let mut parts = split_on(line, &equals);
    if parts.len() != 2 {
        return None;
    }
    let version = parts.pop().unwrap();
    let package = parts.pop().unwrap();
    Some((package, version))
}

/// The package and the version that one line of the pinned manifest names.
pub fn parse_requirements_line(line: &str) -> (found: Option<(String, String)>)
    ensures
        match found {
            Some((package, version)) => requirement(line@) == Some((package@, version@)),
            None => requirement(line@) is None,
        },
{
    let chars = to_chars(line);
    match requirement_of(&chars) {
        Some((package, version)) => {
            Some((to_text(&package, 0, package.len()), to_text(&version, 0, version.len())))
        },
        None => None,
    }
}

/// The version that the project metadata gives for `package`.
pub fn parse_toml_for_version(toml_content: &str, package: &str) -> (found: Option<String>)
    ensures
        match found {
            Some(version) => metadata_version(toml_content@, package@) == Some(version@),
            None => metadata_version(toml_content@, package@) is None,
        },
{
    let text = to_chars(toml_content);
    let name = to_chars(package);
    let start = match find_first(&text, &name, 0) {
        Some(start) => start,
        None => {
            return None;
        },
    };
    let mut feed: Vec<char> = Vec::new();
    feed.push('\n');
    let end = match find_first(&text, &feed, start) {
        Some(end) => end,
        None => text.len(),
    };
    proof {
        lemma_find_from(text@, name@, 0);
        lemma_find_from(text@, feed@, start as int);
    }
    let line = copy_range(&text, start, end);
    let equals = to_chars("=");
    let parts = split_on(&line, &equals);
    if parts.len() != 2 {
        return None;
    }
    let version = trim_chars(&parts[1]);
    Some(to_text(&version, 0, version.len()))
}

/// The version that the pinned manifest gives for `package`.
pub fn pinned_in(manifest: &str, package: &str) -> (found: Option<String>)
    ensures
        match found {
            Some(version) => pinned_version(manifest@, package@) == Some(version@),
            None => pinned_version(manifest@, package@) is None,
        },
{
    let text = to_chars(manifest);
    let name = to_chars(package);
    let all = split_lines(&text);
    let mut i: usize = 0;
    while i < all.len()
        invariant
            i <= all.len(),
            name@ == package@,
            views_of(all@) == lines(manifest@),
            pinned_version(manifest@, package@) == pinned_from(
                lines(manifest@),
                package@,
                i as int,
            ),
        decreases all.len() - i,
    {
        if let Some((named, version)) = requirement_of(&all[i]) {
            if same_chars(&named, &name) {
                return Some(to_text(&version, 0, version.len()));
            }
        }
        i += 1;
    }
    None
}

/// The version that the project's own files give for `package`.
/// `requirements` is the text of the pinned manifest and `pyproject` that of
/// the project metadata, each `None` where the file is absent or unreadable.
pub fn get_version_from_file(
    package: &str,
    requirements: Option<&str>,
    pyproject: Option<&str>,
) -> (found: Option<String>)
    ensures
        match found {
            Some(version) => local_version(package@, opt_text(requirements), opt_text(pyproject))
                == Some(version@),
            None => local_version(package@, opt_text(requirements), opt_text(pyproject)) is None,
        },
{
    if let Some(manifest) = requirements {
        if let Some(version) = pinned_in(manifest, package) {
            return Some(version);
        }
    }
    if let Some(metadata) = pyproject {
        if let Some(version) = parse_toml_for_version(metadata, package) {
            return Some(version);
        }
    }
    None
}

/// Where the registry describes `package`.
pub open spec fn registry_url(package: Seq<char>) -> Seq<char> {
    "https://pypi.org/pypi/"@ + package + "/json"@
}

/// Where the registry describes `package`.
pub fn pypi_url(package: &str) -> (url: String)
    ensures
        url@ == registry_url(package@),
{
    String::from_str("https://pypi.org/pypi/").concat(package).concat("/json")
}

/// What came of asking the registry about a package.
#[derive(Debug)]
pub enum RegistryReply {
    /// The request could not be made or was not answered. The text says why.
    Failed(String),
    /// The registry answered with a status other than success.
    Refused,
    /// The registry answered with success. The text is the body of the answer.
    Answered(String),
}

/// The latest version that the registry's description of a package names:
/// the string `version` of its object `info`.
pub open spec fn published_version(doc: Option<Json>) -> Option<Seq<char>> {
    match doc {
        Some(description) => match description.field("info"@) {
            Some(info) => match info.field("version"@) {
                Some(Json::Text(version)) => Some(version@),
                _ => None,
            },
            None => None,
        },
        None => None,
    }
}

/// The version that the description `doc` gives for `package`, or the text of
/// the error.
pub open spec fn version_of_document(package: Seq<char>, doc: Option<Json>) -> Result<
    Seq<char>,
    Seq<char>,
> {
    match published_version(doc) {
        Some(version) => Ok(version),
        None => Err("No version info found for "@ + package),
    }
}

/// The version that the registry's reply gives for `package`, or the text of
/// the error.
pub open spec fn version_of_reply(package: Seq<char>, reply: RegistryReply) -> Result<
    Seq<char>,
    Seq<char>,
> {
    match reply {
        RegistryReply::Failed(why) => Err("Request failed: "@ + why@),
        RegistryReply::Refused => Err("Failed to fetch from PyPI for "@ + package),
        RegistryReply::Answered(body) => version_of_document(package, json_document(body@)),
    }
}

/// A version or an error, as texts.
pub open spec fn outcome_text(outcome: Result<String, VersionError>) -> Result<
    Seq<char>,
    Seq<char>,
> {
    match outcome {
        Ok(version) => Ok(version@),
        Err(error) => Err(error.text()),
    }
}

/// The version that the registry's description of `package` names. `doc` is
/// the parsed body of the registry's answer, `None` where the body is no JSON.
pub fn version_from_document(package: &str, doc: &Option<Json>) -> (outcome: Result<
    String,
    VersionError,
>)
    ensures
        outcome_text(outcome) == version_of_document(package@, *doc),
{
    if let Some(description) = doc {
        if let Some(info) = description.get("info") {
            if let Some(Json::Text(version)) = info.get("version") {
                return Ok(version.clone());
            }
        }
    }
    Err(VersionError::PyPiError(String::from_str("No version info found for ").concat(package)))
}

/// The latest version of `package`, from the registry's reply to the request
/// for `pypi_url(package)`.
pub fn get_latest_version_from_pypi(package: &str, reply: &RegistryReply) -> (outcome: Result<
    String,
    VersionError,
>)
    ensures
        outcome_text(outcome) == version_of_reply(package@, *reply),
{
    match reply {
        RegistryReply::Failed(why) => Err(
            VersionError::PyPiError(String::from_str("Request failed: ").concat(why.as_str())),
        ),
        RegistryReply::Refused => Err(
            VersionError::PyPiError(
                String::from_str("Failed to fetch from PyPI for ").concat(package),
            ),
        ),
        RegistryReply::Answered(body) => {
            let doc = parse_json(body.as_str());
            version_from_document(package, &doc)
        },
    }
}

/// What is to be done for the version of a package.
#[derive(Debug)]
pub enum VersionStep {
    /// The project's own files give this version. The registry is not asked.
    Found(String),
    /// The project's own files give none. The registry is to be asked at this
    /// address, and its reply handed to `get_latest_version_from_pypi`.
    AskRegistry(String),
}

/// What a `VersionStep` stands for.
pub enum StepView {
    Found(Seq<char>),
    AskRegistry(Seq<char>),
}

impl View for VersionStep {
    type V = StepView;

    open spec fn view(&self) -> StepView {
        match self {
            VersionStep::Found(version) => StepView::Found(version@),
            VersionStep::AskRegistry(url) => StepView::AskRegistry(url@),
        }
    }
}

/// The step to take for the version of `package`: the first source that has
/// one wins, the pinned manifest before the metadata, and the registry is
/// asked only where neither has one.
pub open spec fn version_step(
    package: Seq<char>,
    manifest: Option<Seq<char>>,
    metadata: Option<Seq<char>>,
) -> StepView {
    match local_version(package, manifest, metadata) {
        Some(version) => StepView::Found(version),
        None => StepView::AskRegistry(registry_url(package)),
    }
}

/// The step to take for the version of `package`. `requirements` is the text
/// of the pinned manifest and `pyproject` that of the project metadata, each
/// `None` where the file is absent or unreadable.
pub fn get_package_version(
    package: &str,
    requirements: Option<&str>,
    pyproject: Option<&str>,
) -> (step: VersionStep)
    ensures
        step@ == version_step(package@, opt_text(requirements), opt_text(pyproject)),
{
    match get_version_from_file(package, requirements, pyproject) {
        Some(version) => VersionStep::Found(version),
        None => VersionStep::AskRegistry(pypi_url(package)),
    }
}

/// The outcomes of a run, package by package: the versions that were found,
/// and the failures.
#[derive(Debug)]
pub struct Report {
    pub resolved: Vec<(String, String)>,
    pub failed: Vec<(String, VersionError)>,
}

impl Report {
    /// The report of a run that has not looked at any package yet.
    pub fn new() -> (report: Self)
        ensures
            report.resolved@.len() == 0,
            report.failed@.len() == 0,
    {
        Report { resolved: Vec::new(), failed: Vec::new() }
    }

    /// Takes down the outcome for one package. A failure is kept beside the
    /// versions that were found and takes none of them away.
    pub fn record(&mut self, package: String, outcome: Result<String, VersionError>)
        ensures
            match outcome {
                Ok(version) => final(self).resolved@ == old(self).resolved@.push((package, version))
                    && final(self).failed@ == old(self).failed@,
                Err(error) => final(self).failed@ == old(self).failed@.push((package, error))
                    && final(self).resolved@ == old(self).resolved@,
            },
    {
        match outcome {
            Ok(version) => {
                self.resolved.push((package, version));
            },
            Err(error) => {
                self.failed.push((package, error));
            },
        }
    }
}

/// The pinned manifest takes precedence: where it names a version for the
/// package, that version is the outcome, whatever the metadata holds, and the
/// registry is not asked.
pub proof fn lemma_pinned_version_wins(
    package: Seq<char>,
    manifest: Seq<char>,
    metadata: Option<Seq<char>>,
)
    requires
        pinned_version(manifest, package) is Some,
    ensures
        version_step(package, Some(manifest), metadata) == StepView::Found(
            pinned_version(manifest, package)->0,
        ),
        !(version_step(package, Some(manifest), metadata) is AskRegistry),
{
}

} // verus!
