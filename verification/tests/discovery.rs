use cargo_mutants::mutate::SourceFile;
use cargo_mutants::options::{GlobFilter, NameFilter, Options};
use cargo_mutants::path::TreeRelativePath;
use cargo_mutants::source::TreeFiles;
use cargo_mutants::visit::{discover_files, discover_mutants};
use cargo_mutants::MutantsError;

fn tree_of(entries: &[(&str, &str)]) -> TreeFiles {
    TreeFiles::new(
        entries
            .iter()
            .map(|(p, c)| (p.to_string(), c.to_string()))
            .collect(),
    )
}

fn root_file(entries: &[(&str, &str)], path: &str) -> Vec<SourceFile> {
    let code = entries
        .iter()
        .find(|(p, _)| *p == path)
        .map(|(_, c)| c.to_string())
        .unwrap();
    vec![SourceFile::new(
        TreeRelativePath::new(path),
        "demo".to_string(),
        code,
    )]
}

fn describe_all(mutants: &[cargo_mutants::mutate::Mutant]) -> Vec<String> {
    mutants.iter().map(|m| m.describe()).collect()
}

#[test]
fn discovers_mutants_for_a_bool_function() {
    let entries = [("src/lib.rs", "fn always() -> bool { true }\n")];
    let tree = tree_of(&entries);
    let roots = root_file(&entries, "src/lib.rs");
    let mutants = discover_mutants(&tree, &roots, &Options::default()).unwrap();
    assert_eq!(
        describe_all(&mutants),
        vec![
            "src/lib.rs:1: replace always -> bool with true",
            "src/lib.rs:1: replace always -> bool with false",
        ]
    );
}

#[test]
fn discovered_span_points_at_the_body_brace() {
    let entries = [("src/lib.rs", "fn two() -> u8 {\n    2\n}\n")];
    let tree = tree_of(&entries);
    let roots = root_file(&entries, "src/lib.rs");
    let mutants = discover_mutants(&tree, &roots, &Options::default()).unwrap();
    assert_eq!(mutants.len(), 1);
    let offset = mutants[0].span.offset;
    let code = &mutants[0].source_file.code;
    assert!(offset < code.chars().count());
    assert_eq!(code.chars().nth(offset), Some('{'));
}

#[test]
fn discovery_is_deterministic() {
    let entries = [
        ("src/lib.rs", "mod a;\nfn top() -> String { \"x\".into() }\n"),
        ("src/a.rs", "pub fn helper() -> bool { false }\n"),
    ];
    let tree = tree_of(&entries);
    let roots = root_file(&entries, "src/lib.rs");
    let first = discover_mutants(&tree, &roots, &Options::default()).unwrap();
    let roots2 = root_file(&entries, "src/lib.rs");
    let second = discover_mutants(&tree, &roots2, &Options::default()).unwrap();
    assert_eq!(describe_all(&first), describe_all(&second));
}

#[test]
fn namespaces_cover_modules_impls_and_traits() {
    let entries = [(
        "src/lib.rs",
        "mod outer {\n    struct Lex;\n    impl Lex {\n        fn take(&self) -> bool { true }\n    }\n    impl Iterator for Lex {\n        type Item = u8;\n        fn next(&mut self) -> Option<u8> { None }\n    }\n}\n",
    )];
    let tree = tree_of(&entries);
    let roots = root_file(&entries, "src/lib.rs");
    let mutants = discover_mutants(&tree, &roots, &Options::default()).unwrap();
    let names: Vec<&String> = mutants.iter().map(|m| m.function_name()).collect();
    assert_eq!(
        names,
        vec![
            "outer::Lex::take",
            "outer::Lex::take",
            "outer::<impl Iterator for Lex>::next",
        ]
    );
    assert_eq!(*mutants[2].return_type(), "-> Option<u8>");
}

#[test]
fn excluded_nodes_produce_no_mutants() {
    let code = "#[test]\nfn a_test() -> bool { true }\n\
        #[cfg(test)]\nmod tests_mod {\n    fn helper() -> bool { true }\n}\n\
        #[mutants::skip]\nfn skipped() -> bool { true }\n\
        #[cfg_attr(test, mutants::skip)]\nfn skipped_conditionally() -> bool { true }\n\
        fn empty_body() {}\n\
        struct T;\nimpl Default for T {\n    fn default() -> T { T }\n}\n\
        impl T {\n    fn new() -> T { T }\n    fn live(&self) -> bool { true }\n}\n";
    let entries = [("src/lib.rs", code)];
    let tree = tree_of(&entries);
    let roots = root_file(&entries, "src/lib.rs");
    let mutants = discover_mutants(&tree, &roots, &Options::default()).unwrap();
    let names: Vec<&String> = mutants.iter().map(|m| m.function_name()).collect();
    assert_eq!(names, vec!["T::live", "T::live"]);
}

#[test]
fn mod_statements_resolve_to_files_and_directories() {
    let entries = [
        ("src/lib.rs", "mod a;\nmod b;\nmod c;\n"),
        ("src/a.rs", "mod inner;\nfn in_a() {}\n"),
        ("src/a/inner.rs", "fn deep() {}\n"),
        ("src/b/mod.rs", "fn in_b() {}\n"),
    ];
    let tree = tree_of(&entries);
    let roots = root_file(&entries, "src/lib.rs");
    let files = discover_files(&tree, &roots, &Options::default()).unwrap();
    let paths: Vec<String> = files
        .iter()
        .map(|f| f.tree_relative_path.as_string())
        .collect();
    // Breadth-first from the root; `mod c;` resolves to no file and is
    // dropped; `mod inner;` in `a.rs` lives under `src/a/`.
    assert_eq!(paths, vec!["src/lib.rs", "src/a.rs", "src/b/mod.rs", "src/a/inner.rs"]);
}

#[test]
fn glob_filtered_file_still_contributes_modules() {
    let entries = [
        ("src/lib.rs", "mod sub;\nfn top_level() -> bool { true }\n"),
        ("src/sub.rs", "fn below() -> bool { true }\n"),
    ];
    let tree = tree_of(&entries);
    let mut options = Options::default();
    options.examine_globset =
        Some(GlobFilter::new(&vec!["**/sub.rs".to_string()]).unwrap());
    let roots = root_file(&entries, "src/lib.rs");
    let mutants = discover_mutants(&tree, &roots, &options).unwrap();
    // The root file fails the examine globset, so none of its mutants
    // survive, but the module below it is still walked and mutated.
    assert_eq!(
        describe_all(&mutants),
        vec![
            "src/sub.rs:1: replace below -> bool with true",
            "src/sub.rs:1: replace below -> bool with false",
        ]
    );
    let roots2 = root_file(&entries, "src/lib.rs");
    let files = discover_files(&tree, &roots2, &options).unwrap();
    let paths: Vec<String> = files
        .iter()
        .map(|f| f.tree_relative_path.as_string())
        .collect();
    assert_eq!(paths, vec!["src/sub.rs"]);
}

#[test]
fn exclude_globset_drops_a_file_without_stopping_the_walk() {
    let entries = [
        ("src/lib.rs", "mod sub;\nfn top_level() -> bool { true }\n"),
        ("src/sub.rs", "fn below() {}\n"),
    ];
    let tree = tree_of(&entries);
    let mut options = Options::default();
    options.exclude_globset =
        Some(GlobFilter::new(&vec!["**/sub.rs".to_string()]).unwrap());
    let roots = root_file(&entries, "src/lib.rs");
    let mutants = discover_mutants(&tree, &roots, &options).unwrap();
    assert_eq!(
        describe_all(&mutants),
        vec![
            "src/lib.rs:2: replace top_level -> bool with true",
            "src/lib.rs:2: replace top_level -> bool with false",
        ]
    );
}

#[test]
fn name_filters_select_and_reject_mutants() {
    let entries = [(
        "src/lib.rs",
        "fn alpha() -> bool { true }\nfn beta() -> bool { true }\n",
    )];
    let tree = tree_of(&entries);
    let mut options = Options::default();
    options.examine_names = Some(NameFilter::new(&vec!["alpha".to_string()]).unwrap());
    let roots = root_file(&entries, "src/lib.rs");
    let mutants = discover_mutants(&tree, &roots, &options).unwrap();
    assert_eq!(mutants.len(), 2);
    assert!(mutants.iter().all(|m| m.function_name() == "alpha"));

    let mut options2 = Options::default();
    options2.exclude_names = Some(NameFilter::new(&vec!["alpha".to_string()]).unwrap());
    let roots2 = root_file(&entries, "src/lib.rs");
    let kept = discover_mutants(&tree, &roots2, &options2).unwrap();
    assert_eq!(kept.len(), 2);
    assert!(kept.iter().all(|m| m.function_name() == "beta"));
}

#[test]
fn unparseable_file_fails_discovery() {
    let entries = [("src/lib.rs", "fn broken( {\n")];
    let tree = tree_of(&entries);
    let roots = root_file(&entries, "src/lib.rs");
    let err = match discover_mutants(&tree, &roots, &Options::default()) {
        Err(e) => e,
        Ok(_) => panic!("expected a parse failure"),
    };
    assert!(matches!(err, MutantsError::ParseFailed(p) if p == "src/lib.rs"));
}

#[test]
fn mutual_mod_references_do_not_loop() {
    // Two files declare each other; the walker refuses to enqueue a path
    // twice, so the walk terminates and lists each file once.
    let entries = [
        ("src/lib.rs", "mod lib2;\nfn one() {}\n"),
        ("src/lib2.rs", "mod lib;\nfn two() {}\n"),
        ("src/lib2/lib.rs", "fn three() {}\n"),
    ];
    let tree = tree_of(&entries);
    let roots = root_file(&entries, "src/lib.rs");
    let files = discover_files(&tree, &roots, &Options::default()).unwrap();
    assert_eq!(files.len(), 3);
}

#[test]
fn list_mutations_renders_one_line_per_mutant() {
    let entries = [("src/lib.rs", "fn always() -> bool { true }\n")];
    let tree = tree_of(&entries);
    let roots = root_file(&entries, "src/lib.rs");
    let mutants = discover_mutants(&tree, &roots, &Options::default()).unwrap();
    assert_eq!(
        cargo_mutants::console::list_mutations(&mutants),
        "src/lib.rs:1: replace always -> bool with true\nsrc/lib.rs:1: replace always -> bool with false\n"
    );
}

#[test]
fn invalid_glob_and_regex_patterns_are_rejected() {
    assert!(matches!(
        GlobFilter::new(&vec!["a{".to_string()]),
        Err(MutantsError::InvalidGlob)
    ));
    assert!(matches!(
        NameFilter::new(&vec!["(".to_string()]),
        Err(MutantsError::InvalidRegex)
    ));
}

#[test]
fn an_empty_name_filter_is_ignored() {
    let entries = [("src/lib.rs", "fn gamma() -> bool { true }\n")];
    let tree = tree_of(&entries);
    let mut options = Options::default();
    let empty = NameFilter::new(&Vec::new()).unwrap();
    assert!(empty.is_empty());
    options.examine_names = Some(empty);
    let roots = root_file(&entries, "src/lib.rs");
    let mutants = discover_mutants(&tree, &roots, &options).unwrap();
    assert_eq!(mutants.len(), 2);
}

#[test]
fn mutants_are_equal_iff_all_fields_match() {
    let entries = [("src/lib.rs", "fn always() -> bool { true }\n")];
    let tree = tree_of(&entries);
    let roots = root_file(&entries, "src/lib.rs");
    let mutants = discover_mutants(&tree, &roots, &Options::default()).unwrap();
    assert!(mutants[0].eq_mutant(&mutants[0].clone()));
    // Same site, different operator.
    assert!(!mutants[0].eq_mutant(&mutants[1]));
}

#[test]
fn tree_relative_paths_reject_absolute_and_dotdot() {
    assert!(TreeRelativePath::new("src/lib.rs").is_wf());
    assert!(TreeRelativePath::new("").is_wf());
    assert!(!TreeRelativePath::new("/abs/path.rs").is_wf());
    assert!(!TreeRelativePath::new("src/../etc/passwd").is_wf());
}

#[test]
fn items_nested_in_expression_blocks_are_discovered() {
    let code = "fn outer() -> u8 {\n    if true {\n        fn inner() -> bool { true }\n    }\n    7\n}\n";
    let entries = [("src/lib.rs", code)];
    let tree = tree_of(&entries);
    let roots = root_file(&entries, "src/lib.rs");
    let mutants = discover_mutants(&tree, &roots, &Options::default()).unwrap();
    let names: Vec<&String> = mutants.iter().map(|m| m.function_name()).collect();
    assert_eq!(names, vec!["outer", "outer::inner", "outer::inner"]);
}

#[test]
fn items_tucked_into_closure_arguments_are_discovered() {
    let code = "fn outer() {\n    run(|| {\n        fn tucked() -> bool { true }\n    });\n}\n";
    let entries = [("src/lib.rs", code)];
    let tree = tree_of(&entries);
    let roots = root_file(&entries, "src/lib.rs");
    let mutants = discover_mutants(&tree, &roots, &Options::default()).unwrap();
    let names: Vec<&String> = mutants.iter().map(|m| m.function_name()).collect();
    assert_eq!(names, vec!["outer", "outer::tucked", "outer::tucked"]);
}

#[test]
fn items_in_trait_default_bodies_are_discovered() {
    // The trait and its provided method contribute no mutants and no
    // namespace of their own; the nested function is still found.
    let code = "trait Runs {\n    fn provided(&self) -> u8 {\n        fn helper() -> bool { true }\n        0\n    }\n}\n";
    let entries = [("src/lib.rs", code)];
    let tree = tree_of(&entries);
    let roots = root_file(&entries, "src/lib.rs");
    let mutants = discover_mutants(&tree, &roots, &Options::default()).unwrap();
    let names: Vec<&String> = mutants.iter().map(|m| m.function_name()).collect();
    assert_eq!(names, vec!["helper", "helper"]);
}

#[test]
fn unresolved_mod_names_are_reported() {
    let entries = [("src/lib.rs", "mod missing;\nmod sub;\nfn top() {}\n"), ("src/sub.rs", "fn below() {}\n")];
    let tree = tree_of(&entries);
    let roots = root_file(&entries, "src/lib.rs");
    let (_, files, unresolved) =
        cargo_mutants::visit::walk_tree(&tree, &roots, &Options::default()).unwrap();
    assert_eq!(files.len(), 2);
    assert_eq!(
        unresolved,
        vec![("src/lib.rs".to_string(), "missing".to_string())]
    );
}
