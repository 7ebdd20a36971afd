use cargo_mutants::cargo::{
    cargo_home_from, config_candidates_for_dir, direct_package_sources, home_config_candidates,
    push_if_absent, select_source_paths, should_mutate_target, CargoSourceTree, PackageMetadata,
    TargetMetadata,
};
use cargo_mutants::config::Config;
use cargo_mutants::options::GlobFilter;
use cargo_mutants::path::TreeRelativePath;
use cargo_mutants::MutantsError;

fn target(kinds: &[&str], src: &str) -> TargetMetadata {
    TargetMetadata {
        name: "t".to_string(),
        kind: kinds.iter().map(|k| k.to_string()).collect(),
        src_path: src.to_string(),
    }
}

#[test]
fn eligible_target_kinds() {
    assert!(should_mutate_target(&target(&["lib"], "/r/src/lib.rs")));
    assert!(should_mutate_target(&target(&["cdylib"], "/r/src/lib.rs")));
    assert!(should_mutate_target(&target(&["rlib"], "/r/src/lib.rs")));
    assert!(should_mutate_target(&target(&["bin"], "/r/src/main.rs")));
    assert!(should_mutate_target(&target(&["test", "bin"], "/r/src/main.rs")));
    assert!(!should_mutate_target(&target(&["test"], "/r/tests/x.rs")));
    assert!(!should_mutate_target(&target(&["bench"], "/r/benches/x.rs")));
    assert!(!should_mutate_target(&target(&[], "/r/src/lib.rs")));
}

#[test]
fn direct_sources_are_relative_sorted_and_unique() {
    let package = PackageMetadata {
        name: "demo".to_string(),
        manifest_path: "/r/Cargo.toml".to_string(),
        targets: vec![
            target(&["bin"], "/r/src/bin/zeta.rs"),
            target(&["lib"], "/r/src/lib.rs"),
            target(&["test"], "/r/tests/it.rs"),
            target(&["bin"], "/r/src/bin/zeta.rs"),
            target(&["bin"], "/elsewhere/src/main.rs"),
        ],
    };
    let sources = direct_package_sources("/r", &package);
    let paths: Vec<String> = sources.iter().map(|p| p.as_string()).collect();
    assert_eq!(paths, vec!["src/bin/zeta.rs", "src/lib.rs"]);
}

#[test]
fn select_source_paths_filters_and_orders_candidates() {
    let candidates: Vec<String> = [
        "/r/src/b.rs",
        "/r/src/a.rs",
        "/r/src/notes.txt",
        "/other/c.rs",
        "/r/src/UPPER.RS",
        "/r/src/a.rs",
    ]
    .iter()
    .map(|s| s.to_string())
    .collect();
    let selected = select_source_paths("/r", &candidates, &None, &None);
    let paths: Vec<String> = selected.iter().map(|p| p.as_string()).collect();
    assert_eq!(paths, vec!["src/UPPER.RS", "src/a.rs", "src/b.rs"]);
}

#[test]
fn select_source_paths_applies_glob_filters() {
    let candidates: Vec<String> = ["/r/src/a.rs", "/r/src/skip_me.rs"]
        .iter()
        .map(|s| s.to_string())
        .collect();
    let exclude = Some(GlobFilter::new(&vec!["**/skip_*.rs".to_string()]).unwrap());
    let selected = select_source_paths("/r", &candidates, &None, &exclude);
    let paths: Vec<String> = selected.iter().map(|p| p.as_string()).collect();
    assert_eq!(paths, vec!["src/a.rs"]);
}

#[test]
fn open_resolves_the_manifest_parent() {
    let tree = CargoSourceTree::from_locate_project_output(
        "{\"root\": \"/home/user/proj/Cargo.toml\"}",
    )
    .unwrap();
    assert_eq!(tree.cargo_toml_path, "/home/user/proj/Cargo.toml");
    assert_eq!(*tree.path(), "/home/user/proj");
}

#[test]
fn open_fails_without_a_manifest() {
    assert!(matches!(
        CargoSourceTree::from_locate_project_output("not json"),
        Err(MutantsError::NoManifest)
    ));
    assert!(matches!(
        CargoSourceTree::from_locate_project_output("{\"other\": 1}"),
        Err(MutantsError::NoManifest)
    ));
}

#[test]
fn rustflags_always_end_with_cap_lints_allow() {
    let tree =
        CargoSourceTree::from_locate_project_output("{\"root\": \"/p/Cargo.toml\"}").unwrap();
    assert_eq!(tree.rustflags(None, None), "--cap-lints=allow");
    let encoded = "-Dwarnings\u{1f}-Zother".to_string();
    assert_eq!(
        tree.rustflags(Some(&encoded), None),
        "-Dwarnings\u{1f}-Zother\u{1f}--cap-lints=allow"
    );
    let plain = "-Dwarnings -Zother".to_string();
    assert_eq!(
        tree.rustflags(None, Some(&plain)),
        "-Dwarnings\u{1f}-Zother\u{1f}--cap-lints=allow"
    );
    // The encoded form wins over the plain form.
    let other = "-A".to_string();
    assert_eq!(
        tree.rustflags(Some(&encoded), Some(&other)),
        "-Dwarnings\u{1f}-Zother\u{1f}--cap-lints=allow"
    );
}

#[test]
fn cargo_home_prefers_the_environment() {
    let env = "/custom/cargo".to_string();
    let home = "/home/user".to_string();
    assert_eq!(
        cargo_home_from(Some(&env), Some(&home)),
        Some("/custom/cargo".to_string())
    );
    assert_eq!(
        cargo_home_from(None, Some(&home)),
        Some("/home/user/.cargo".to_string())
    );
    assert_eq!(cargo_home_from(None, None), None);
}

#[test]
fn config_candidates_prefer_config_toml() {
    let (a, b) = config_candidates_for_dir("/w");
    assert_eq!(a, "/w/.cargo/config.toml");
    assert_eq!(b, "/w/.cargo/config");
    let (c, d) = home_config_candidates("/home/user/.cargo");
    assert_eq!(c, "/home/user/.cargo/config.toml");
    assert_eq!(d, "/home/user/.cargo/config");
}

#[test]
fn push_if_absent_keeps_paths_unique() {
    let mut paths: Vec<String> = Vec::new();
    push_if_absent(&mut paths, "/a/.cargo/config.toml".to_string());
    push_if_absent(&mut paths, "/b/.cargo/config".to_string());
    push_if_absent(&mut paths, "/a/.cargo/config.toml".to_string());
    assert_eq!(paths, vec!["/a/.cargo/config.toml", "/b/.cargo/config"]);
    for i in 0..paths.len() {
        for j in (i + 1)..paths.len() {
            assert_ne!(paths[i], paths[j], "duplicate config file");
        }
    }
}

#[test]
fn tree_config_lives_under_dot_cargo() {
    assert_eq!(
        Config::tree_config_path("/w"),
        "/w/.cargo/mutants.toml"
    );
    let c = Config::default();
    assert!(c.examine_globs.is_empty());
    assert!(c.exclude_globs.is_empty());
    assert!(c.examine_re.is_empty());
    assert!(c.exclude_re.is_empty());
    assert!(c.additional_cargo_args.is_empty());
    assert!(c.additional_cargo_test_args.is_empty());
}

#[test]
fn tree_relative_path_operations() {
    let p = TreeRelativePath::new("src/bin/factorial.rs");
    assert_eq!(p.parent().as_string(), "src/bin");
    assert_eq!(p.parent().parent().as_string(), "src");
    assert_eq!(p.without_extension().as_string(), "src/bin/factorial");
    assert_eq!(p.join("x.rs").as_string(), "src/bin/factorial.rs/x.rs");
    assert!(p.ends_with_component("factorial.rs"));
    assert!(!p.ends_with_component("torial.rs"));
    let bare = TreeRelativePath::new("lib.rs");
    assert_eq!(bare.parent().as_string(), "");
    assert_eq!(bare.within("/root"), "/root/lib.rs");
}
