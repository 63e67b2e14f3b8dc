use pyreqs::json::Json;
use pyreqs::version::{
    get_latest_version_from_pypi, get_package_version, get_version_from_file,
    parse_requirements_line, parse_toml_for_version, pinned_in, pypi_url, version_from_document,
    RegistryReply, Report, VersionError, VersionStep,
};
use pyreqs::writer::render_requirements;

fn pair(a: &str, b: &str) -> Option<(String, String)> {
    Some((a.to_string(), b.to_string()))
}

fn error_text(outcome: Result<String, VersionError>) -> String {
    match outcome {
        Ok(version) => panic!("a version: {}", version),
        Err(VersionError::PyPiError(text)) => text,
    }
}

#[test]
fn requirement_line_wants_exactly_one_separator() {
    assert_eq!(parse_requirements_line("requests==2.31.0"), pair("requests", "2.31.0"));
    assert_eq!(parse_requirements_line("a==1"), pair("a", "1"));
    assert_eq!(parse_requirements_line("=="), pair("", ""));
    assert_eq!(parse_requirements_line("a=="), pair("a", ""));
    assert_eq!(parse_requirements_line("a===1"), pair("a", "=1"));
    assert_eq!(parse_requirements_line("requests == 2.0"), pair("requests ", " 2.0"));
    assert_eq!(parse_requirements_line(""), None);
    assert_eq!(parse_requirements_line("requests"), None);
    assert_eq!(parse_requirements_line("requests>=2.0"), None);
    assert_eq!(parse_requirements_line("a=1"), None);
    assert_eq!(parse_requirements_line("a==1==2"), None);
    assert_eq!(parse_requirements_line("a====1"), None);
}

#[test]
fn scenario_pinned_requests() {
    let step = get_package_version("requests", Some("requests==2.31.0\n"), None);
    assert!(matches!(step, VersionStep::Found(ref v) if v == "2.31.0"));
}

#[test]
fn pinned_name_must_match_exactly() {
    let manifest = "Requests==1.0\nrequests-toolbelt==0.9\n requests==3.0\nrequests==2.31.0\nrequests==9.9\n";
    assert_eq!(pinned_in(manifest, "requests"), Some("2.31.0".to_string()));
    assert_eq!(pinned_in(manifest, "Requests"), Some("1.0".to_string()));
    assert_eq!(pinned_in(manifest, "toolbelt"), None);
    assert_eq!(pinned_in(manifest, "flask"), None);
    assert_eq!(pinned_in("", "flask"), None);
    assert_eq!(pinned_in("flask==1.0\r\n", "flask"), Some("1.0".to_string()));
    assert_eq!(pinned_in("flask==1.0", "flask"), Some("1.0".to_string()));
}

#[test]
fn manifest_wins_over_metadata_and_registry() {
    let manifest = "flask==2.0.1\n";
    let metadata = "[tool.poetry.dependencies]\nflask = \"^3.0\"\n";
    let step = get_package_version("flask", Some(manifest), Some(metadata));
    assert!(matches!(step, VersionStep::Found(ref v) if v == "2.0.1"));
    assert_eq!(
        get_version_from_file("flask", Some(manifest), Some(metadata)),
        Some("2.0.1".to_string())
    );
}

#[test]
fn metadata_is_second() {
    let manifest = "requests==2.31.0\n";
    let metadata = "[tool.poetry.dependencies]\nflask = \"^3.0\"\n";
    assert_eq!(
        get_version_from_file("flask", Some(manifest), Some(metadata)),
        Some("\"^3.0\"".to_string())
    );
    assert_eq!(get_version_from_file("flask", None, Some(metadata)), Some("\"^3.0\"".to_string()));
    assert_eq!(get_version_from_file("flask", Some(manifest), None), None);
    assert_eq!(get_version_from_file("flask", None, None), None);
}

#[test]
fn registry_is_asked_last() {
    let step = get_package_version("requests", Some("flask==1.0\n"), Some("name = 1\n"));
    match step {
        VersionStep::AskRegistry(url) => assert_eq!(url, "https://pypi.org/pypi/requests/json"),
        VersionStep::Found(v) => panic!("found {}", v),
    }
    let step = get_package_version("requests", None, None);
    assert!(matches!(step, VersionStep::AskRegistry(_)));
}

#[test]
fn registry_address() {
    assert_eq!(pypi_url("requests"), "https://pypi.org/pypi/requests/json");
    assert_eq!(pypi_url(""), "https://pypi.org/pypi//json");
}

#[test]
fn metadata_search_is_by_substring() {
    assert_eq!(parse_toml_for_version("flask = \"^3.0\"\n", "flask"), Some("\"^3.0\"".to_string()));
    assert_eq!(parse_toml_for_version("x\nflask=1.2  \r\ny\n", "flask"), Some("1.2".to_string()));
    assert_eq!(parse_toml_for_version("requests", "requests"), None);
    assert_eq!(parse_toml_for_version("x = requests", "requests"), None);
    assert_eq!(parse_toml_for_version("flask\n = 3\n", "flask"), None);
    assert_eq!(parse_toml_for_version("flask = {version = \"1\"}\n", "flask"), None);
    assert_eq!(parse_toml_for_version("django = 4\n", "flask"), None);
    assert_eq!(parse_toml_for_version("", "flask"), None);
}

#[test]
fn metadata_last_line_needs_no_line_feed() {
    assert_eq!(parse_toml_for_version("requests = 2.0", "requests"), Some("2.0".to_string()));
    assert_eq!(
        parse_toml_for_version("flask = \"^3.0\"", "flask"),
        Some("\"^3.0\"".to_string())
    );
    assert_eq!(
        parse_toml_for_version("a = 1\nrequests = 2.0\r", "requests"),
        Some("2.0".to_string())
    );
    assert_eq!(parse_toml_for_version("requests =", "requests"), Some("".to_string()));
    assert_eq!(
        get_version_from_file("requests", Some("flask==1.0"), Some("requests = 2.0")),
        Some("2.0".to_string())
    );
}

#[test]
fn metadata_search_misfires_on_a_longer_name() {
    let metadata = "flask-login = \"0.6\"\nflask = \"3.0\"\n";
    assert_eq!(parse_toml_for_version(metadata, "flask"), Some("\"0.6\"".to_string()));
    assert_eq!(parse_toml_for_version("# uses flask\nflask = 1\n", "flask"), None);
    assert_eq!(parse_toml_for_version("a = 1\n", ""), Some("1".to_string()));
}

#[test]
fn registry_answer_with_version() {
    let reply = RegistryReply::Answered("{\"info\": {\"name\": \"requests\", \"version\": \"2.32.3\"}, \"urls\": []}".to_string());
    assert_eq!(get_latest_version_from_pypi("requests", &reply).unwrap(), "2.32.3");
}

#[test]
fn registry_answer_without_version() {
    for body in [
        "{\"info\": {}}",
        "{\"info\": {\"version\": 3}}",
        "{\"info\": {\"version\": null}}",
        "{\"info\": \"version\"}",
        "{\"version\": \"1.0\"}",
        "[]",
        "\"1.0\"",
        "not json",
        "",
    ] {
        let reply = RegistryReply::Answered(body.to_string());
        assert_eq!(
            error_text(get_latest_version_from_pypi("pkg", &reply)),
            "No version info found for pkg",
            "{:?}",
            body
        );
    }
}

#[test]
fn registry_refusal_and_failure() {
    assert_eq!(
        error_text(get_latest_version_from_pypi("nonexistent-pkg-xyz", &RegistryReply::Refused)),
        "Failed to fetch from PyPI for nonexistent-pkg-xyz"
    );
    let failed = RegistryReply::Failed("connection timed out".to_string());
    assert_eq!(
        error_text(get_latest_version_from_pypi("requests", &failed)),
        "Request failed: connection timed out"
    );
}

#[test]
fn version_from_document_reads_info_version() {
    let doc = Some(Json::Record(vec![
        ("other".to_string(), Json::Other),
        (
            "info".to_string(),
            Json::Record(vec![
                ("name".to_string(), Json::Text("x".to_string())),
                ("version".to_string(), Json::Text("0.1".to_string())),
            ]),
        ),
    ]));
    assert_eq!(version_from_document("x", &doc).unwrap(), "0.1");
    assert_eq!(error_text(version_from_document("x", &None)), "No version info found for x");
    let list = Some(Json::List(vec![]));
    assert_eq!(error_text(version_from_document("x", &list)), "No version info found for x");
}

#[test]
fn error_is_shown_with_its_kind() {
    let error = VersionError::PyPiError("Failed to fetch from PyPI for x".to_string());
    assert_eq!(error.message(), "PyPiError: Failed to fetch from PyPI for x");
}

#[test]
fn scenario_one_package_fails() {
    let packages = ["requests", "nonexistent-pkg-xyz", "flask"];
    let manifest = "flask==3.0.0\n";
    let mut report = Report::new();
    let mut asked = 0;
    for package in packages {
        let outcome = match get_package_version(package, Some(manifest), None) {
            VersionStep::Found(version) => Ok(version),
            VersionStep::AskRegistry(url) => {
                asked += 1;
                assert_eq!(url, format!("https://pypi.org/pypi/{}/json", package));
                let reply = if package == "requests" {
                    RegistryReply::Answered("{\"info\": {\"version\": \"2.31.0\"}}".to_string())
                } else {
                    RegistryReply::Refused
                };
                get_latest_version_from_pypi(package, &reply)
            },
        };
        report.record(package.to_string(), outcome);
    }
    assert_eq!(asked, 2);
    assert_eq!(
        report.resolved,
        vec![
            ("requests".to_string(), "2.31.0".to_string()),
            ("flask".to_string(), "3.0.0".to_string())
        ]
    );
    assert_eq!(report.failed.len(), 1);
    assert_eq!(report.failed[0].0, "nonexistent-pkg-xyz");
    assert_eq!(
        report.failed[0].1.message(),
        "PyPiError: Failed to fetch from PyPI for nonexistent-pkg-xyz"
    );
    assert_eq!(render_requirements(&report.resolved), "requests==2.31.0\nflask==3.0.0\n");
}

#[test]
fn new_report_is_empty() {
    let report = Report::new();
    assert!(report.resolved.is_empty());
    assert!(report.failed.is_empty());
}

#[test]
fn manifest_text() {
    assert_eq!(render_requirements(&vec![]), "");
    let packages = vec![
        ("requests".to_string(), "2.31.0".to_string()),
        ("beautifulsoup4".to_string(), "4.12.3".to_string()),
    ];
    let text = render_requirements(&packages);
    assert_eq!(text, "requests==2.31.0\nbeautifulsoup4==4.12.3\n");
    for (line, (package, version)) in text.lines().zip(packages.iter()) {
        assert_eq!(parse_requirements_line(line), Some((package.clone(), version.clone())));
    }
}
