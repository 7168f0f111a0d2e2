use leptos_lints::docsync::{
    check_readme, expected_readme_content, extract_lint_lib_doc_comment,
    extract_version_from_cargo_toml_content, extract_versions_from_readme_content,
    check_version_consistency, failure_message, lint_has_help_link, synchronize, LintFiles,
    MissingDocComment, SyncAction, Synchronizer, VersionError, WARNING_COMMENT,
};
use leptos_lints::rules::{help_link, Registry, Rule};

const HEADER: &str = "<!-- This file has been autogenerated. Don't edit it!\nInstead, edit the documentation comment in the lint's src/lib.rs file. -->";

/// The source of a lint as its author writes it: the documentation as a
/// comment inside the declaration, then the pass with its help text.
fn declaration(rule: &Rule, lead_in: &str) -> String {
    let mut source = String::from("#![feature(rustc_private)]\n\ndeclare_late_lint! {\n");
    for line in rule.documentation.lines() {
        if line.is_empty() {
            source.push_str("    ///\n");
        } else {
            source.push_str(&format!("    /// {line}\n"));
        }
    }
    source.push_str(&format!("    pub {},\n    Warn,\n    \"{}\"\n}}\n\n", rule.name.to_uppercase(), rule.summary));
    source.push_str(&format!("/// Not part of the documentation.\nconst HELP: &str = \"{} {} {}\";\n", rule.explanation, lead_in, help_link(&rule.name)));
    source
}

fn files(name: &str, lib_rs: &str, readme: &str) -> LintFiles {
    LintFiles { name: name.to_string(), lib_rs: lib_rs.to_string(), readme: readme.to_string() }
}

#[test]
fn header_is_fixed() {
    assert_eq!(WARNING_COMMENT, HEADER);
}

#[test]
fn three_documentation_lines_one_blank() {
    let source = "/// First line.\n///\n/// Third line.\npub LINT,\n";
    assert_eq!(
        extract_lint_lib_doc_comment(source),
        Some("First line.\n\nThird line.".to_string())
    );
}

#[test]
fn extraction_strips_marker_and_one_character() {
    assert_eq!(extract_lint_lib_doc_comment("///  two spaces"), Some("two spaces".to_string()));
    assert_eq!(extract_lint_lib_doc_comment("/// a\n///   indented"), Some("a\n  indented".to_string()));
    assert_eq!(extract_lint_lib_doc_comment("///xy"), Some("y".to_string()));
    assert_eq!(extract_lint_lib_doc_comment("//// a"), Some("a".to_string()));
    assert_eq!(extract_lint_lib_doc_comment("////// a"), Some("a".to_string()));
    assert_eq!(extract_lint_lib_doc_comment("///\u{00e9}t\u{00e9}"), Some("t\u{00e9}".to_string()));
}

#[test]
fn extraction_takes_the_first_run_only() {
    let source = "use x;\n\n    /// a\n\t/// b\nfn f() {}\n/// c\n";
    assert_eq!(extract_lint_lib_doc_comment(source), Some("a\nb".to_string()));
    let source = "/// a\n\n/// b\n";
    assert_eq!(extract_lint_lib_doc_comment(source), Some("a".to_string()));
    let source = "/// a\r\n///\r\n/// b\r\n";
    assert_eq!(extract_lint_lib_doc_comment(source), Some("a\n\nb".to_string()));
}

#[test]
fn extraction_without_documentation_gives_none() {
    assert_eq!(extract_lint_lib_doc_comment(""), None);
    assert_eq!(extract_lint_lib_doc_comment("fn main() {}\n// plain\n//! inner\n"), None);
    assert_eq!(extract_lint_lib_doc_comment("let s = \"/// not at the start\";"), None);
}

#[test]
fn extraction_of_blank_documentation_is_empty() {
    assert_eq!(extract_lint_lib_doc_comment("///"), Some(String::new()));
    assert_eq!(extract_lint_lib_doc_comment("///\n///\n"), Some(String::new()));
    assert_eq!(extract_lint_lib_doc_comment("///\n/// x\n///\n"), Some("x".to_string()));
}

#[test]
fn extraction_recovers_registered_documentation() {
    let registry = Registry::standard();
    for i in 0..registry.len() {
        let rule = registry.rule(i);
        let source = declaration(rule, "for further information visit");
        assert_eq!(extract_lint_lib_doc_comment(&source).as_ref(), Some(&rule.documentation));
    }
}

#[test]
fn readme_is_header_heading_and_documentation() {
    let readme = expected_readme_content("leptos_demo", "### What it does\n\nNothing.");
    assert_eq!(
        readme,
        "<!-- This file has been autogenerated. Don't edit it!\n\
         Instead, edit the documentation comment in the lint's src/lib.rs file. -->\n\n\
         # leptos_demo\n\n### What it does\n\nNothing.\n"
    );
    assert_eq!(expected_readme_content("", ""), format!("{HEADER}\n\n# \n\n\n"));
}

#[test]
fn check_readme_keeps_rewrites_or_fails() {
    let source = "/// Doc.\npub LINT,\n";
    let expected = format!("{HEADER}\n\n# leptos_demo\n\nDoc.\n");
    assert!(matches!(check_readme("leptos_demo", source, &expected), Ok(SyncAction::Keep)));
    match check_readme("leptos_demo", source, "stale") {
        Ok(SyncAction::Rewrite(content)) => assert_eq!(content, expected),
        _ => panic!("a stale document is rewritten"),
    }
    match check_readme("leptos_demo", source, "") {
        Ok(SyncAction::Rewrite(content)) => assert_eq!(content, expected),
        _ => panic!("an empty document is rewritten"),
    }
    match check_readme("leptos_demo", "pub LINT,\n", &expected) {
        Err(MissingDocComment { lint_name }) => assert_eq!(lint_name, "leptos_demo"),
        _ => panic!("a source without documentation is an error"),
    }
}

#[test]
fn missing_documentation_names_the_lint() {
    let error = MissingDocComment { lint_name: "leptos_demo".to_string() };
    assert_eq!(
        error.message(),
        "Failed to extract documentation comment from lib/leptos_demo/src/lib.rs"
    );
}

#[test]
fn synchronizer_counts_rewritten_documents() {
    let mut run = Synchronizer::new();
    assert!(run.updated().is_empty());
    let fresh = format!("{HEADER}\n\n# a\n\nDoc.\n");
    assert!(matches!(run.visit("a", "/// Doc.\n", &fresh), Ok(SyncAction::Keep)));
    assert!(run.updated().is_empty());
    assert!(matches!(run.visit("b", "/// Doc.\n", "old"), Ok(SyncAction::Rewrite(_))));
    assert!(matches!(run.visit("c", "no doc\n", "old"), Err(_)));
    assert!(matches!(run.visit("d", "/// Doc.\n", &fresh), Ok(SyncAction::Rewrite(_))));
    assert_eq!(run.updated(), &["b".to_string(), "d".to_string()]);
}

#[test]
fn verdict_passes_without_updates() {
    let run = Synchronizer::new();
    assert_eq!(run.finish(false), Ok(()));
    assert_eq!(run.finish(true), Ok(()));
}

#[test]
fn verdict_lists_updated_lints() {
    let mut run = Synchronizer::new();
    run.visit("leptos_event_target", "/// Doc.\n", "old").unwrap();
    run.visit("leptos_unscoped_spawn", "/// Doc.\n", "old").unwrap();
    assert_eq!(
        run.finish(false),
        Err("The next lints READMEs have been updated: [\"leptos_event_target\", \"leptos_unscoped_spawn\"]. If you run again this test, it should pass.".to_string())
    );
    assert_eq!(
        run.finish(true),
        Err("The next lints READMEs are not updated: [\"leptos_event_target\", \"leptos_unscoped_spawn\"]. Run `cargo test -p tests` locally to update them and commit the changes.".to_string())
    );
}

#[test]
fn failure_message_wraps_the_list() {
    assert_eq!(
        failure_message("[\"a\"]", false),
        "The next lints READMEs have been updated: [\"a\"]. If you run again this test, it should pass."
    );
    assert_eq!(
        failure_message("[]", true),
        "The next lints READMEs are not updated: []. Run `cargo test -p tests` locally to update them and commit the changes."
    );
}

#[test]
fn second_run_updates_nothing() {
    let registry = Registry::standard();
    let mut lints = Vec::new();
    for i in 0..registry.len() {
        let rule = registry.rule(i);
        let stale = if i == 1 { rule.reference_document() } else { format!("# {}\n", rule.name) };
        lints.push(files(&rule.name, &declaration(rule, "for further information visit"), &stale));
    }
    let (readmes, first) = synchronize(&lints).ok().unwrap();
    assert_eq!(first.updated(), &["leptos_event_target".to_string(), "leptos_unscoped_spawn".to_string()]);
    assert!(first.finish(false).is_err());
    for i in 0..registry.len() {
        assert_eq!(readmes[i], registry.rule(i).reference_document());
        lints[i].readme = readmes[i].clone();
    }
    let (again, second) = synchronize(&lints).ok().unwrap();
    assert!(second.updated().is_empty());
    assert_eq!(second.finish(false), Ok(()));
    assert_eq!(again, readmes);
}

#[test]
fn run_stops_at_first_undocumented_lint() {
    let lints = vec![
        files("a", "/// Doc.\n", "old"),
        files("b", "fn f() {}\n", "old"),
        files("c", "", "old"),
    ];
    match synchronize(&lints) {
        Err(error) => assert_eq!(error.lint_name, "b"),
        Ok(_) => panic!("a lint without documentation fails the run"),
    }
    assert!(synchronize(&Vec::new()).is_ok());
}

#[test]
fn lints_readmes_are_updated() {
    let registry = Registry::standard();
    let mut run = Synchronizer::new();
    for i in 0..registry.len() {
        let rule = registry.rule(i);
        let source = declaration(rule, "for further information visit");
        let action = run.visit(&rule.name, &source, &rule.reference_document());
        assert!(matches!(action, Ok(SyncAction::Keep)));
    }
    assert!(run.updated().is_empty());
    assert_eq!(run.finish(true), Ok(()));
}

#[test]
fn lints_have_help_link() {
    let registry = Registry::standard();
    for i in 0..registry.len() {
        let rule = registry.rule(i);
        let source = declaration(rule, "for further information visit");
        assert!(lint_has_help_link(&rule.name, &source).is_ok());
    }
}

#[test]
fn help_link_check_names_rule_and_expected_link() {
    let error = lint_has_help_link("leptos_demo", "/// Doc.\npub LINT,\n").unwrap_err();
    assert_eq!(error.lint_name, "leptos_demo");
    assert_eq!(
        error.expected_link,
        "https://github.com/leptos-rs/leptos-lints/tree/main/lints/leptos_demo#readme"
    );
    assert!(!error.has_phrase);
    assert!(!error.has_link);
    assert_eq!(
        error.message(),
        "Lint help does not contains the sentence \"for further information visit\" at file lib/leptos_demo/src/lib.rs. Expected link: https://github.com/leptos-rs/leptos-lints/tree/main/lints/leptos_demo#readme"
    );
}

#[test]
fn help_link_check_tells_phrase_from_link() {
    let link = "https://github.com/leptos-rs/leptos-lints/tree/main/lints/leptos_demo#readme";
    let only_phrase = "help: for further information visit the book";
    let error = lint_has_help_link("leptos_demo", only_phrase).unwrap_err();
    assert!(error.has_phrase && !error.has_link);
    assert_eq!(
        error.message(),
        format!("Lint help does not contains the link to README.md at file lib/leptos_demo/src/lib.rs. Expected link: {link}")
    );
    let only_link = format!("see {link}");
    let error = lint_has_help_link("leptos_demo", &only_link).unwrap_err();
    assert!(!error.has_phrase && error.has_link);
    let other_lint = "for further information visit https://github.com/leptos-rs/leptos-lints/tree/main/lints/leptos_other#readme";
    let error = lint_has_help_link("leptos_demo", other_lint).unwrap_err();
    assert!(error.has_phrase && !error.has_link);
    let capital = format!("For further information visit {link}");
    let error = lint_has_help_link("leptos_demo", &capital).unwrap_err();
    assert!(!error.has_phrase && error.has_link);
    let both = format!("for further information visit {link}");
    assert!(lint_has_help_link("leptos_demo", &both).is_ok());
}

const MANIFEST: &str = "[workspace.package]\nname = \"leptos-lints\"\nversion = \"1.2.3\"\nedition = \"2021\"\n";

fn readme_with(tags: &[&str]) -> String {
    let mut readme = String::from("# Lints\n\nAdd to your manifest:\n\n```toml\n");
    for tag in tags {
        readme.push_str(&format!(
            "leptos-lints = {{ git = \"https://github.com/leptos-rs/leptos-lints\", tag = \"{tag}\" }}\n"
        ));
    }
    readme.push_str("```\n");
    readme
}

#[test]
fn manifest_version_is_between_first_quotes() {
    assert_eq!(
        extract_version_from_cargo_toml_content(MANIFEST, "version ="),
        Some("1.2.3".to_string())
    );
    assert_eq!(
        extract_version_from_cargo_toml_content("version = \"0.1.0\" # \"x\"", "version ="),
        Some("0.1.0".to_string())
    );
    assert_eq!(
        extract_version_from_cargo_toml_content("version = \"unterminated", "version ="),
        Some("unterminated".to_string())
    );
    assert_eq!(extract_version_from_cargo_toml_content(MANIFEST, "name ="), Some("leptos-lints".to_string()));
}

#[test]
fn manifest_version_takes_first_matching_line_only() {
    assert_eq!(extract_version_from_cargo_toml_content("", "version ="), None);
    assert_eq!(extract_version_from_cargo_toml_content("name = \"x\"\n", "version ="), None);
    assert_eq!(
        extract_version_from_cargo_toml_content(" version = \"1.0.0\"\n", "version ="),
        None
    );
    assert_eq!(
        extract_version_from_cargo_toml_content("version = 1\nversion = \"2\"\n", "version ="),
        None
    );
    assert_eq!(
        extract_version_from_cargo_toml_content("version = \"1\"\nversion = \"2\"\n", "version ="),
        Some("1".to_string())
    );
}

#[test]
fn readme_versions_are_fourth_quoted_token_without_prefix() {
    let versions = extract_versions_from_readme_content(&readme_with(&["v1.2.3", "v0.9.0"])).ok().unwrap();
    assert_eq!(versions, ["1.2.3", "0.9.0"]);
    let versions = extract_versions_from_readme_content("tag = \"v1.2.3\"\n").ok().unwrap();
    assert!(versions.is_empty());
    let versions = extract_versions_from_readme_content("a = \"1\", b = \"v7\"\n").ok().unwrap();
    assert!(versions.is_empty());
    let versions = extract_versions_from_readme_content("x \"a\" tag = \"v\"").ok().unwrap();
    assert_eq!(versions, [""]);
}

#[test]
fn readme_tag_without_prefix_is_an_error() {
    let error = extract_versions_from_readme_content(&readme_with(&["v1.2.3", "1.2.3", "x"])).err().unwrap();
    assert_eq!(error.tag, "1.2.3");
    let error = extract_versions_from_readme_content("x \"a\" tag = \"\"").err().unwrap();
    assert_eq!(error.tag, "");
}

#[test]
fn version_is_updated_in_readme() {
    assert!(check_version_consistency(MANIFEST, &readme_with(&["v1.2.3", "v1.2.3"])).is_ok());
}

#[test]
fn version_mismatch_names_the_value() {
    for tags in [["v1.2.4", "v1.2.3"], ["v1.2.3", "v1.2.4"]] {
        match check_version_consistency(MANIFEST, &readme_with(&tags)) {
            Err(error) => {
                assert!(matches!(
                    &error,
                    VersionError::Mismatch { found, expected } if found == "1.2.4" && expected == "1.2.3"
                ));
                assert_eq!(
                    error.message(),
                    "Version in README.md (1.2.4) does not match Cargo.toml version (1.2.3)"
                );
            }
            Ok(()) => panic!("a differing version fails the check"),
        }
    }
    match check_version_consistency(MANIFEST, &readme_with(&["v2.0.0", "v3.0.0"])) {
        Err(VersionError::Mismatch { found, .. }) => assert_eq!(found, "2.0.0"),
        _ => panic!("the first differing version is reported"),
    }
}

#[test]
fn wrong_number_of_versions_names_the_count() {
    let cases: [(&[&str], usize, &str); 3] = [
        (&[], 0, "Expected exactly two versions in README.md, found 0"),
        (&["v1.2.3"], 1, "Expected exactly two versions in README.md, found 1"),
        (&["v1.2.3", "v1.2.3", "v1.2.3"], 3, "Expected exactly two versions in README.md, found 3"),
    ];
    for (tags, expected_count, message) in cases {
        match check_version_consistency(MANIFEST, &readme_with(tags)) {
            Err(error) => {
                assert!(matches!(&error, VersionError::WrongCount { count } if *count == expected_count));
                assert_eq!(error.message(), message);
            }
            Ok(()) => panic!("a wrong count fails the check"),
        }
    }
}

#[test]
fn version_check_reports_manifest_and_tags_first() {
    let error = check_version_consistency("name = \"x\"\n", &readme_with(&["1.2.3"])).unwrap_err();
    assert!(matches!(error, VersionError::MissingManifestVersion));
    assert_eq!(error.message(), "Failed to extract version from Cargo.toml");
    let error = check_version_consistency(MANIFEST, &readme_with(&["1.2.3"])).unwrap_err();
    assert!(matches!(&error, VersionError::UnprefixedTag { tag } if tag == "1.2.3"));
    assert_eq!(error.message(), "Tag version should start with 'v'");
}
