//! End-to-end tests of the compiler: the pipeline from source text to the
//! resolved machine image, and the error taxonomy.

use cythan_compiler::compile;
use cythan_compiler::errors::Errors;

#[test]
fn run() {
    assert_eq!(
        compile(r#"test { 't 't2 't:30 't2:80 } 1 test()"#).unwrap(),
        vec![1usize, 3, 4, 30, 80]
    );
}

#[test]
fn absolute_values() {
    assert_eq!(compile("42").unwrap(), vec![42usize]);
    assert_eq!(compile("1 2 3").unwrap(), vec![1usize, 2, 3]);
}

#[test]
fn relative_addressing() {
    // each cell resolves to its own index plus the offset
    assert_eq!(compile("~+1 5").unwrap(), vec![1usize, 5]);
    assert_eq!(compile("5 ~+3").unwrap(), vec![5usize, 4]);
}

#[test]
fn relative_wraps_below_zero() {
    // address arithmetic is performed in the signed domain and reinterpreted
    assert_eq!(compile("~-1").unwrap(), vec![usize::MAX]);
}

#[test]
fn backward_label_reference() {
    // a reference after the declaration resolves to the declaration's index,
    // and the offset is not applied on this path
    assert_eq!(compile("'a:5 'a+1").unwrap(), vec![5usize, 0]);
    assert_eq!(compile("'a:3 'a").unwrap(), vec![3usize, 0]);
}

#[test]
fn forward_label_reference() {
    // a reference before the declaration resolves to the declaration's index
    // plus the offset
    assert_eq!(compile("'lbl 'lbl:7").unwrap(), vec![1usize, 7]);
    assert_eq!(compile("'lbl+1 'lbl:7").unwrap(), vec![2usize, 7]);
}

#[test]
fn comments_cut_the_line() {
    assert_eq!(compile("2 # everything after is ignored 9 9").unwrap(), vec![2usize]);
}

#[test]
fn several_lines() {
    assert_eq!(compile("1\n2").unwrap(), vec![1usize, 2]);
    assert_eq!(compile("1\r\n2").unwrap(), vec![1usize, 2]);
}

#[test]
fn variables_substitute_their_whole_list() {
    assert_eq!(compile("v = (1 2) v").unwrap(), vec![1usize, 2]);
}

#[test]
fn variable_single_index() {
    assert_eq!(compile("v = (7 8) v.1").unwrap(), vec![8usize]);
}

#[test]
fn variable_open_range() {
    assert_eq!(compile("v = (7 8 9) v.1..").unwrap(), vec![8usize, 9]);
}

#[test]
fn range_padding_short_arguments() {
    // one argument, padded with the default up to the requested three
    assert_eq!(compile("f { self.0..3?9 } f(5)").unwrap(), vec![5usize, 9, 9]);
}

#[test]
fn range_padding_full_arguments() {
    assert_eq!(compile("f { self.0..3?9 } f(5 6 7)").unwrap(), vec![5usize, 6, 7]);
}

#[test]
fn range_without_default_stops_short() {
    assert_eq!(compile("f { self.0..3 } f(5)").unwrap(), vec![5usize]);
}

#[test]
fn hygiene_two_calls_get_distinct_labels() {
    // the body declares 'x and references it: each call must resolve its own
    assert_eq!(compile("f { 'x 'x:5 } f() f()").unwrap(), vec![1usize, 5, 3, 5]);
}

#[test]
fn hygiene_shared_labels_cross_calls() {
    // a #-marked label is shared: both calls resolve the same declaration
    assert_eq!(compile("f { '#x } '#x:9 f() f()").unwrap(), vec![9usize, 0, 0]);
}

#[test]
fn call_label_prefix_marks_first_cell() {
    // 'entry:f() declares `entry` at the expansion's first cell
    assert_eq!(compile("f { 8 9 } 'entry 'entry:f()").unwrap(), vec![1usize, 8, 9]);
}

#[test]
fn function_not_found() {
    match compile("g()") {
        Err(Errors::FunctionNotFound { function_name, .. }) => {
            assert_eq!(function_name, "g");
        },
        other => panic!("unexpected result: {:?}", other),
    }
}

#[test]
fn variable_not_found() {
    match compile("nope") {
        Err(Errors::VariableNotFound { variable_name, .. }) => {
            assert_eq!(variable_name, "nope");
        },
        other => panic!("unexpected result: {:?}", other),
    }
}

#[test]
fn label_not_found() {
    match compile("'nope") {
        Err(Errors::LabelNotFound { label_name, .. }) => {
            assert_eq!(label_name, "nope");
        },
        other => panic!("unexpected result: {:?}", other),
    }
}

#[test]
fn empty_variable_rejected() {
    match compile("v = () v") {
        Err(Errors::EmptyVariable { varname, .. }) => {
            assert_eq!(varname, "v");
        },
        other => panic!("unexpected result: {:?}", other),
    }
}

#[test]
fn equal_needs_a_literal_before() {
    match compile("= (1)") {
        Err(Errors::EqualNotPrecededByLitteral { .. }) => {},
        other => panic!("unexpected result: {:?}", other),
    }
}

#[test]
fn literal_after_assignement_rejected() {
    match compile("x = 1") {
        Err(Errors::LiteralAfterAssignement { literal, assignement, .. }) => {
            assert_eq!(literal, "1");
            assert_eq!(assignement, "x");
        },
        other => panic!("unexpected result: {:?}", other),
    }
}

#[test]
fn block_after_assignement_rejected() {
    match compile("x = { }") {
        Err(Errors::BlockAfterAssignement { assignement, .. }) => {
            assert_eq!(assignement, "x");
        },
        other => panic!("unexpected result: {:?}", other),
    }
}

#[test]
fn block_needs_a_name() {
    match compile("{ }") {
        Err(Errors::BlockMustBePrecededByLiteral { .. }) => {},
        other => panic!("unexpected result: {:?}", other),
    }
}

#[test]
fn stray_parenthesis_rejected() {
    match compile("(1)") {
        Err(Errors::ParenthesisNotInAssignementOrFunctionCall { .. }) => {},
        other => panic!("unexpected result: {:?}", other),
    }
}

#[test]
fn assignement_after_assignement_rejected() {
    match compile("a = b =") {
        Err(Errors::AssignementFollowedByAnotherAssignement { assignement1, assignement2, .. }) => {
            assert_eq!(assignement1, "a");
            assert_eq!(assignement2, "b");
        },
        other => panic!("unexpected result: {:?}", other),
    }
}

#[test]
fn stray_colon_rejected() {
    match compile(":") {
        Err(Errors::ExpressionCompilingError { expression, .. }) => {
            assert_eq!(expression, ":");
        },
        other => panic!("unexpected result: {:?}", other),
    }
}

#[test]
fn range_missing_start_number() {
    match compile("..5") {
        Err(Errors::SelfExpressionMissingNumber { expression, .. }) => {
            assert_eq!(expression, "..5");
        },
        other => panic!("unexpected result: {:?}", other),
    }
}

#[test]
fn malformed_range_rejected() {
    match compile("f { self.3..2 } f(1)") {
        Err(Errors::MalformedRange { .. }) => {},
        other => panic!("unexpected result: {:?}", other),
    }
}

#[test]
fn nested_calls_expand() {
    assert_eq!(compile("a { 1 } b { a() 2 } c { b() 3 } c()").unwrap(), vec![1usize, 2, 3]);
}

#[test]
fn deep_nesting_within_budget() {
    // several hundred nested macro calls expand fine
    let mut src = String::from("f0 { 1 }\n");
    for i in 1..300 {
        src.push_str(&format!("f{} {{ f{}() }}\n", i, i - 1));
    }
    src.push_str("f299()");
    assert_eq!(compile(&src).unwrap(), vec![1usize]);
}

#[test]
fn runaway_recursion_reported() {
    match compile("f { f() } f()") {
        Err(Errors::RecursionLimit { .. }) => {},
        other => panic!("unexpected result: {:?}", other),
    }
}

#[test]
fn pretty_print_names_the_function() {
    match compile("g()") {
        Err(e) => {
            let text = e.to_pretty_print();
            assert!(text.contains("Function `g` was not found"));
        },
        other => panic!("unexpected result: {:?}", other),
    }
}

#[test]
fn redefining_a_function_takes_the_last_body() {
    assert_eq!(compile("f { 1 } f { 2 } f()").unwrap(), vec![2usize]);
}

#[test]
fn redefining_a_variable_takes_the_last_value() {
    assert_eq!(compile("v = (1) v = (2) v").unwrap(), vec![2usize]);
}

#[test]
fn variable_default_applies_when_missing() {
    // an un-indexed variable with a `?` default takes a one-element slice
    assert_eq!(compile("v = (4 5) v?9").unwrap(), vec![4usize]);
    assert_eq!(compile("v = () v?9").unwrap(), vec![9usize]);
}

#[test]
fn label_defines_and_carries_a_value() {
    // 'foo:42 declares foo at its own slot and emits 42
    assert_eq!(compile("'foo:42 'foo").unwrap(), vec![42usize, 0]);
}

#[test]
fn two_labels_on_one_slot() {
    assert_eq!(compile("'a:'b:5 'a 'b").unwrap(), vec![5usize, 0, 0]);
}

#[test]
fn bounded_slice_of_a_variable() {
    assert_eq!(compile("v = (9 8 7 6 5) v.2..5").unwrap(), vec![7usize, 6, 5]);
}

#[test]
fn whole_arguments_through_self() {
    assert_eq!(compile("f { self } f(1 2)").unwrap(), vec![1usize, 2]);
}

#[test]
fn the_implicit_self_wins_over_a_variable_of_that_name() {
    // `self` resolves to the call arguments directly, even when a variable
    // of that name has been defined
    assert_eq!(compile("self = (7) f { self } f(1)").unwrap(), vec![1usize]);
}

#[test]
fn hygiene_applies_to_interior_hash_names() {
    // only a leading `#` marks a name as shared: a `#` elsewhere gets the
    // ordinary per-call renaming, declarations and references agreeing
    assert_eq!(compile("f { 'x#y 'x#y:5 } f() f()").unwrap(), vec![1usize, 5, 3, 5]);
}
