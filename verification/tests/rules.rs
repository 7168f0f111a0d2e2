use leptos_lints::documentation::{
    EVENT_TARGET_DOCUMENTATION, EVENT_TARGET_VALUE_DOCUMENTATION, UNSCOPED_SPAWN_DOCUMENTATION,
};
use leptos_lints::rules::{help_link, Registry, Severity};

#[test]
fn help_link_embeds_the_name() {
    assert_eq!(
        help_link("leptos_unscoped_spawn"),
        "https://github.com/leptos-rs/leptos-lints/tree/main/lints/leptos_unscoped_spawn#readme"
    );
    assert_eq!(help_link(""), "https://github.com/leptos-rs/leptos-lints/tree/main/lints/#readme");
}

#[test]
fn standard_registry_holds_three_rules() {
    let registry = Registry::standard();
    assert_eq!(registry.len(), 3);
    let names: Vec<&str> = (0..3).map(|i| registry.rule(i).name.as_str()).collect();
    assert_eq!(names, ["leptos_event_target", "leptos_event_target_value", "leptos_unscoped_spawn"]);
    let targets: Vec<&str> = (0..3).map(|i| registry.rule(i).target.as_str()).collect();
    assert_eq!(targets, ["event_target", "event_target_value", "spawn_local"]);
}

#[test]
fn two_rules_warn_and_one_denies() {
    let registry = Registry::standard();
    let severities: Vec<Severity> = (0..3).map(|i| registry.rule(i).severity).collect();
    assert_eq!(severities, [Severity::Warn, Severity::Warn, Severity::Deny]);
}

#[test]
fn rule_names_are_unique_snake_case() {
    let registry = Registry::standard();
    for i in 0..registry.len() {
        let name = &registry.rule(i).name;
        assert!(name.chars().next().unwrap().is_ascii_lowercase());
        assert!(name.chars().all(|c| c.is_ascii_lowercase() || c.is_ascii_digit() || c == '_'));
        for j in 0..i {
            assert_ne!(&registry.rule(j).name, name);
        }
    }
}

#[test]
fn messages_name_the_canonical_path() {
    let registry = Registry::standard();
    assert_eq!(registry.rule(0).message(), "use of `leptos::prelude::event_target`");
    assert_eq!(registry.rule(1).message(), "use of `leptos::prelude::event_target_value`");
    assert_eq!(registry.rule(2).message(), "use of `leptos::task::spawn_local`");
}

#[test]
fn help_is_explanation_and_link() {
    let registry = Registry::standard();
    assert_eq!(
        registry.rule(0).help(),
        "this function can panic at run-time if the target doesn't have an event. \
         For further information visit \
         https://github.com/leptos-rs/leptos-lints/tree/main/lints/leptos_event_target#readme"
    );
    assert_eq!(
        registry.rule(1).help(),
        "this function can panic at run-time if the target doesn't have an event. \
         For further information visit \
         https://github.com/leptos-rs/leptos-lints/tree/main/lints/leptos_event_target_value#readme"
    );
    assert_eq!(
        registry.rule(2).help(),
        "prefer `leptos::task::spawn_local_scoped`. For further information visit https://github.com/leptos-rs/leptos-lints/tree/main/lints/leptos_unscoped_spawn#readme"
    );
}

#[test]
fn help_holds_the_link_of_the_rule() {
    let registry = Registry::standard();
    for i in 0..registry.len() {
        let rule = registry.rule(i);
        assert!(rule.help().contains(&help_link(&rule.name)));
        assert!(rule.help().ends_with(&format!("/{}#readme", rule.name)));
    }
}

#[test]
fn summaries_and_documentation_are_registered() {
    let registry = Registry::standard();
    assert_eq!(registry.rule(0).summary, "Warn about usages of `leptos::prelude::event_target`");
    assert_eq!(
        registry.rule(1).summary,
        "Warn about usages of `leptos::prelude::event_target_value`"
    );
    assert_eq!(registry.rule(2).summary, "Forbids the use of `leptos::task::spawn_local`");
    assert_eq!(registry.rule(0).documentation, EVENT_TARGET_DOCUMENTATION);
    assert_eq!(registry.rule(1).documentation, EVENT_TARGET_VALUE_DOCUMENTATION);
    assert_eq!(registry.rule(2).documentation, UNSCOPED_SPAWN_DOCUMENTATION);
    assert!(EVENT_TARGET_DOCUMENTATION.starts_with("### What it does\n\nWarn about usages of `event_target`."));
    assert!(UNSCOPED_SPAWN_DOCUMENTATION.ends_with("leptos::task::spawn_local(async {\n    // ...\n});\n```"));
}

#[test]
fn reference_document_is_header_heading_and_documentation() {
    let registry = Registry::standard();
    let rule = registry.rule(2);
    let expected = format!(
        "<!-- This file has been autogenerated. Don't edit it!\n\
         Instead, edit the documentation comment in the lint's src/lib.rs file. -->\n\n\
         # leptos_unscoped_spawn\n\n{}\n",
        UNSCOPED_SPAWN_DOCUMENTATION
    );
    assert_eq!(rule.reference_document(), expected);
}

#[test]
fn rules_are_found_by_name() {
    let registry = Registry::standard();
    for i in 0..registry.len() {
        let rule = registry.rule(i);
        let found = registry.find(&rule.name).unwrap();
        assert!(std::ptr::eq(found, rule));
    }
    assert_eq!(registry.find("leptos_unscoped_spawn").unwrap().target, "spawn_local");
    assert!(registry.find("leptos_print_stdout").is_none());
    assert!(registry.find("").is_none());
    assert!(registry.find("LEPTOS_EVENT_TARGET").is_none());
    assert!(registry.find("leptos_event_target ").is_none());
}
