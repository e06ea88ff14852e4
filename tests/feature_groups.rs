use cfg_feature_groups::directives::{cfg_directive, rerun_directive};
use cfg_feature_groups::error::FeatureGroupError;
use cfg_feature_groups::groups::{cfg_directives, render, resolve_group};
use cfg_feature_groups::manifest::{read_manifest, TomlValue};
use cfg_feature_groups::name_set::NameSet;
use cfg_feature_groups::pipeline::build_directives;
use cfg_feature_groups::signals::{enabled_options, has_prefix, observed_signals, to_feature_name};

const LOG_MANIFEST: &str = "[package]\nname = \"example\"\nversion = \"0.1.0\"\n\n[package.metadata.feature_groups]\nlog = [\"dummy\", \"semihosting\", \"itm\"]\n";

fn env(names: &[&str]) -> Vec<(String, String)> {
    names.iter().map(|n| (n.to_string(), "1".to_string())).collect()
}

fn names(items: &[&str]) -> TomlValue {
    TomlValue::Array(items.iter().map(|s| TomlValue::Str(s.to_string())).collect())
}

fn enabled(items: &[&str]) -> NameSet {
    let mut set = NameSet::new();
    for item in items {
        set.insert(item.to_string());
    }
    set
}

#[test]
fn semihosting_only_selects_semihosting() {
    let lines = build_directives(LOG_MANIFEST, &env(&["CARGO_FEATURE_SEMIHOSTING", "PATH"])).unwrap();
    assert_eq!(
        lines,
        vec![
            "cargo:rustc-cfg=log=\"semihosting\"".to_string(),
            "cargo:rerun-if-env-changed=CARGO_FEATURE_SEMIHOSTING".to_string(),
        ]
    );
    let cfg_for_log: Vec<&String> = lines.iter().filter(|l| l.starts_with("cargo:rustc-cfg=log=")).collect();
    assert_eq!(cfg_for_log.len(), 1);
}

#[test]
fn dummy_and_itm_conflict() {
    let r = build_directives(LOG_MANIFEST, &env(&["CARGO_FEATURE_DUMMY", "CARGO_FEATURE_ITM"]));
    match r {
        Err(FeatureGroupError::MultipleOptionsSelected { group }) => assert_eq!(group, "log"),
        other => panic!("unexpected {:?}", other),
    }
}

#[test]
fn no_log_option_enabled() {
    let r = build_directives(LOG_MANIFEST, &env(&["CARGO_FEATURE_OTHER", "HOME"]));
    match r {
        Err(FeatureGroupError::NoOptionSelected { group }) => assert_eq!(group, "log"),
        other => panic!("unexpected {:?}", other),
    }
}

#[test]
fn group_as_single_string_is_rejected() {
    let text = "[package.metadata.feature_groups]\nlog = \"dummy\"\n";
    match build_directives(text, &env(&["CARGO_FEATURE_DUMMY"])) {
        Err(FeatureGroupError::InvalidGroupShape { group, found }) => {
            assert_eq!(group, "log");
            assert_eq!(found, "\"dummy\"");
        },
        other => panic!("unexpected {:?}", other),
    }
}

#[test]
fn group_with_integer_option_is_rejected() {
    let text = "[package.metadata.feature_groups]\nlog = [\"dummy\", 3]\n";
    match build_directives(text, &env(&["CARGO_FEATURE_DUMMY"])) {
        Err(FeatureGroupError::InvalidOptionType { group, found }) => {
            assert_eq!(group, "log");
            assert_eq!(found, "3");
        },
        other => panic!("unexpected {:?}", other),
    }
}

#[test]
fn non_string_rejected_before_conflict() {
    let value = TomlValue::Array(vec![
        TomlValue::Str("a".to_string()),
        TomlValue::Str("b".to_string()),
        TomlValue::Other("3".to_string()),
    ]);
    let r = resolve_group(&"g".to_string(), &value, &enabled(&["a", "b"]));
    match r {
        Err(FeatureGroupError::InvalidOptionType { group, found }) => {
            assert_eq!(group, "g");
            assert_eq!(found, "3");
        },
        other => panic!("unexpected {:?}", other),
    }
}

#[test]
fn first_non_string_is_named() {
    let value = TomlValue::Array(vec![
        TomlValue::Str("a".to_string()),
        TomlValue::Other("true".to_string()),
        TomlValue::Other("7".to_string()),
    ]);
    let r = resolve_group(&"g".to_string(), &value, &enabled(&["a"]));
    assert!(matches!(r, Err(FeatureGroupError::InvalidOptionType { found, .. }) if found == "true"));
}

#[test]
fn second_match_after_first_is_a_conflict() {
    let r = resolve_group(&"g".to_string(), &names(&["x", "a", "y", "b"]), &enabled(&["b", "a"]));
    assert!(matches!(r, Err(FeatureGroupError::MultipleOptionsSelected { group }) if group == "g"));
}

#[test]
fn single_enabled_option_is_selected() {
    let r = resolve_group(&"g".to_string(), &names(&["x", "a", "y"]), &enabled(&["a", "q"]));
    assert_eq!(r.unwrap(), "a");
}

#[test]
fn empty_group_selects_nothing() {
    let r = resolve_group(&"g".to_string(), &names(&[]), &enabled(&["a"]));
    assert!(matches!(r, Err(FeatureGroupError::NoOptionSelected { group }) if group == "g"));
}

#[test]
fn every_group_gets_one_directive() {
    let text = "[package.metadata.feature_groups]\nlog = [\"dummy\", \"itm\"]\nalloc = [\"heap\", \"pool\"]\n";
    let lines = build_directives(text, &env(&["CARGO_FEATURE_POOL", "CARGO_FEATURE_ITM"])).unwrap();
    assert_eq!(
        lines,
        vec![
            "cargo:rustc-cfg=log=\"itm\"".to_string(),
            "cargo:rustc-cfg=alloc=\"pool\"".to_string(),
            "cargo:rerun-if-env-changed=CARGO_FEATURE_ITM".to_string(),
            "cargo:rerun-if-env-changed=CARGO_FEATURE_POOL".to_string(),
        ]
    );
}

#[test]
fn failing_group_leaves_no_directive() {
    let text = "[package.metadata.feature_groups]\nlog = [\"dummy\", \"itm\"]\nalloc = [\"heap\", \"pool\"]\n";
    match build_directives(text, &env(&["CARGO_FEATURE_ITM"])) {
        Err(FeatureGroupError::NoOptionSelected { group }) => assert_eq!(group, "alloc"),
        other => panic!("unexpected {:?}", other),
    }
}

#[test]
fn first_failing_group_is_reported() {
    let groups = vec![
        ("a".to_string(), names(&["x"])),
        ("b".to_string(), names(&["y", "z"])),
        ("c".to_string(), names(&["w"])),
    ];
    match cfg_directives(&groups, &enabled(&["y", "z"])) {
        Err(FeatureGroupError::NoOptionSelected { group }) => assert_eq!(group, "a"),
        other => panic!("unexpected {:?}", other),
    }
}

#[test]
fn runs_are_identical_and_ignore_environment_order() {
    let text = "[package.metadata.feature_groups]\nlog = [\"dummy\", \"itm\"]\nalloc = [\"heap\", \"pool\"]\n";
    let e1 = env(&["CARGO_FEATURE_POOL", "CARGO_FEATURE_ITM", "CARGO_FEATURE_EXTRA"]);
    let e2 = env(&["CARGO_FEATURE_EXTRA", "CARGO_FEATURE_ITM", "CARGO_FEATURE_POOL"]);
    let first = build_directives(text, &e1).unwrap();
    let second = build_directives(text, &e1).unwrap();
    let permuted = build_directives(text, &e2).unwrap();
    assert_eq!(first, second);
    assert_eq!(first, permuted);
    assert_eq!(first[2], "cargo:rerun-if-env-changed=CARGO_FEATURE_EXTRA");
}

#[test]
fn declaration_order_is_kept() {
    let text = "[package.metadata.feature_groups]\nzeta = [\"z\"]\nalpha = [\"a\"]\n";
    let lines = build_directives(text, &env(&["CARGO_FEATURE_Z", "CARGO_FEATURE_A"])).unwrap();
    assert_eq!(lines[0], "cargo:rustc-cfg=zeta=\"z\"");
    assert_eq!(lines[1], "cargo:rustc-cfg=alpha=\"a\"");
}

#[test]
fn manifest_without_groups_only_tracks_signals() {
    let text = "[package]\nname = \"plain\"\n";
    let lines = build_directives(text, &env(&["CARGO_FEATURE_STD", "CARGO_PKG_NAME"])).unwrap();
    assert_eq!(lines, vec!["cargo:rerun-if-env-changed=CARGO_FEATURE_STD".to_string()]);
}

#[test]
fn malformed_manifest_is_rejected() {
    let r = build_directives("[package\nname = ", &env(&[]));
    assert!(matches!(r, Err(FeatureGroupError::ManifestMalformed { .. })));
}

#[test]
fn group_table_of_wrong_kind_is_rejected() {
    let r = read_manifest("[package.metadata]\nfeature_groups = 5\n");
    assert!(matches!(r, Err(FeatureGroupError::ManifestMalformed { .. })));
}

#[test]
fn manifest_groups_are_read_in_order() {
    let groups = read_manifest(LOG_MANIFEST).unwrap();
    assert_eq!(groups.len(), 1);
    assert_eq!(groups[0].0, "log");
    match &groups[0].1 {
        TomlValue::Array(items) => {
            assert_eq!(items.len(), 3);
            assert!(matches!(&items[1], TomlValue::Str(s) if s == "semihosting"));
        },
        other => panic!("unexpected {:?}", other),
    }
}

#[test]
fn feature_names_drop_prefix_and_lower_case() {
    assert_eq!(to_feature_name("CARGO_FEATURE_SEMIHOSTING".to_string()), "semihosting");
    assert_eq!(to_feature_name("CARGO_FEATURE_FOO_BAR".to_string()), "foo_bar");
    assert_eq!(to_feature_name("OTHER".to_string()), "other");
}

#[test]
fn prefix_test() {
    assert!(has_prefix("CARGO_FEATURE_X", "CARGO_FEATURE_"));
    assert!(!has_prefix("CARGO_FEATUR", "CARGO_FEATURE_"));
    assert!(!has_prefix("XCARGO_FEATURE_", "CARGO_FEATURE_"));
}

#[test]
fn extractor_keeps_only_signals() {
    let e = env(&["PATH", "CARGO_FEATURE_ITM", "CARGO_FEATURE_DUMMY", "CARGO_FEATURE_ITM"]);
    assert_eq!(enabled_options(&e).names(), vec!["dummy".to_string(), "itm".to_string()]);
    assert_eq!(
        observed_signals(&e).names(),
        vec!["CARGO_FEATURE_DUMMY".to_string(), "CARGO_FEATURE_ITM".to_string()]
    );
    assert_eq!(enabled_options(&env(&["HOME"])).len(), 0);
}

#[test]
fn name_set_orders_and_dedups() {
    let set = enabled(&["pear", "apple", "pear", "fig", "applesauce"]);
    assert_eq!(set.len(), 4);
    assert_eq!(set.names(), vec!["apple", "applesauce", "fig", "pear"]);
    assert!(set.contains(&"fig".to_string()));
    assert!(!set.contains(&"grape".to_string()));
}

#[test]
fn directive_text() {
    assert_eq!(cfg_directive("log", "itm"), "cargo:rustc-cfg=log=\"itm\"");
    assert_eq!(rerun_directive("CARGO_FEATURE_ITM"), "cargo:rerun-if-env-changed=CARGO_FEATURE_ITM");
}

#[test]
fn renderings() {
    assert_eq!(render(&TomlValue::Str("a".to_string())), "\"a\"");
    assert_eq!(render(&TomlValue::Array(vec![])), "an array");
    assert_eq!(render(&TomlValue::Table(vec![])), "a table");
    assert_eq!(render(&TomlValue::Other("true".to_string())), "true");
}

#[test]
fn nested_array_option_is_rejected() {
    let text = "[package.metadata.feature_groups]\nlog = [[\"dummy\"]]\n";
    match build_directives(text, &env(&[])) {
        Err(FeatureGroupError::InvalidOptionType { group, found }) => {
            assert_eq!(group, "log");
            assert_eq!(found, "an array");
        },
        other => panic!("unexpected {:?}", other),
    }
}

#[test]
fn messages_name_the_group() {
    let e = FeatureGroupError::MultipleOptionsSelected { group: "log".to_string() };
    assert_eq!(e.message(), "multiple options defined for feature group log");
    let e = FeatureGroupError::NoOptionSelected { group: "log".to_string() };
    assert_eq!(e.message(), "no option defined for feature group log");
    let e = FeatureGroupError::InvalidOptionType { group: "log".to_string(), found: "3".to_string() };
    assert_eq!(e.message(), "invalid definition of feature group log; features should be strings, found 3");
}
