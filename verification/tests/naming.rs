use cargo_mutants::ast::{AstPath, AstReturn, AstSegment};
use cargo_mutants::mutate::MutationOp;

#[test]
fn remove_excess_spaces() {
    assert_eq!(
        cargo_mutants::normalize::remove_excess_spaces(
            "<impl Iterator for MergeTrees < AE , BE , AIT , BIT > > :: next -> Option < Self ::  Item >"
        ),
        "<impl Iterator for MergeTrees<AE, BE, AIT, BIT>>::next -> Option<Self::Item>"
    );
    assert_eq!(
        cargo_mutants::normalize::remove_excess_spaces("Lex < 'buf >::take"),
        "Lex<'buf>::take"
    );
}

#[test]
fn normalizing_twice_equals_normalizing_once() {
    let inputs = [
        "<impl Iterator for MergeTrees < AE , BE , AIT , BIT > > :: next -> Option < Self ::  Item >",
        "Lex < 'buf >::take",
        "& 'static str",
        "fn x ( a : u8 ) -> Vec < u8 >",
    ];
    for input in inputs {
        let once = cargo_mutants::normalize::remove_excess_spaces(input);
        let twice = cargo_mutants::normalize::remove_excess_spaces(&once);
        assert_eq!(once, twice);
    }
}

fn result_path() -> AstPath {
    AstPath {
        leading_colon: false,
        segments: vec![AstSegment {
            ident: "Result".to_string(),
            has_args: true,
        }],
    }
}

#[test]
fn path_is_result() {
    // The path parsed from `Result<(), ()>`: one segment named `Result`,
    // carrying type arguments.
    assert!(cargo_mutants::ast::path_is_result(&result_path()));
}

#[test]
fn result_return_type_gets_exactly_ok_default() {
    let ret = AstReturn::PathType(result_path(), "Result < (), () >".to_string());
    let ops = cargo_mutants::ast::ops_for_return_type(&ret);
    assert_eq!(ops, vec![MutationOp::OkDefault]);
}

#[test]
fn return_type_operator_table() {
    let bool_ret = AstReturn::PathType(
        AstPath {
            leading_colon: false,
            segments: vec![AstSegment {
                ident: "bool".to_string(),
                has_args: false,
            }],
        },
        "bool".to_string(),
    );
    assert_eq!(
        cargo_mutants::ast::ops_for_return_type(&bool_ret),
        vec![MutationOp::True, MutationOp::False]
    );
    let string_ret = AstReturn::PathType(
        AstPath {
            leading_colon: false,
            segments: vec![AstSegment {
                ident: "String".to_string(),
                has_args: false,
            }],
        },
        "String".to_string(),
    );
    assert_eq!(
        cargo_mutants::ast::ops_for_return_type(&string_ret),
        vec![MutationOp::EmptyString, MutationOp::Xyzzy]
    );
    assert_eq!(
        cargo_mutants::ast::ops_for_return_type(&AstReturn::Absent),
        vec![MutationOp::Unit]
    );
    let other = AstReturn::Other("& 'static str".to_string());
    assert_eq!(
        cargo_mutants::ast::ops_for_return_type(&other),
        vec![MutationOp::Default]
    );
}

#[test]
fn qualified_result_path_counts_by_last_segment() {
    let p = AstPath {
        leading_colon: false,
        segments: vec![
            AstSegment {
                ident: "anyhow".to_string(),
                has_args: false,
            },
            AstSegment {
                ident: "Result".to_string(),
                has_args: true,
            },
        ],
    };
    assert!(cargo_mutants::ast::path_is_result(&p));
}

#[test]
fn full_function_name_joins_the_stack() {
    let stack = vec!["m".to_string(), "Foo".to_string(), "bar".to_string()];
    assert_eq!(cargo_mutants::visit::full_function_name(&stack), "m::Foo::bar");
    let one = vec!["solo".to_string()];
    assert_eq!(cargo_mutants::visit::full_function_name(&one), "solo");
    let none: Vec<String> = Vec::new();
    assert_eq!(cargo_mutants::visit::full_function_name(&none), "");
}

#[test]
fn replacement_texts() {
    assert_eq!(cargo_mutants::mutate::replacement_text(MutationOp::Unit), "()");
    assert_eq!(
        cargo_mutants::mutate::replacement_text(MutationOp::Default),
        "Default::default()"
    );
    assert_eq!(cargo_mutants::mutate::replacement_text(MutationOp::True), "true");
    assert_eq!(cargo_mutants::mutate::replacement_text(MutationOp::False), "false");
    assert_eq!(
        cargo_mutants::mutate::replacement_text(MutationOp::EmptyString),
        "\"\".into()"
    );
    assert_eq!(
        cargo_mutants::mutate::replacement_text(MutationOp::Xyzzy),
        "\"xyzzy\".into()"
    );
    assert_eq!(
        cargo_mutants::mutate::replacement_text(MutationOp::OkDefault),
        "Ok(Default::default())"
    );
}

#[test]
fn a_path_with_any_arguments_production_is_not_a_bare_ident() {
    // `bool<>` parses as the ident `bool` carrying an (empty) arguments
    // production; it must not be classified as the plain `bool` type.
    let p = AstPath {
        leading_colon: false,
        segments: vec![AstSegment {
            ident: "bool".to_string(),
            has_args: true,
        }],
    };
    assert!(!cargo_mutants::ast::path_is_ident(&p, "bool"));
    let ret = AstReturn::PathType(p, "bool<>".to_string());
    assert_eq!(
        cargo_mutants::ast::ops_for_return_type(&ret),
        vec![MutationOp::Default]
    );
}
