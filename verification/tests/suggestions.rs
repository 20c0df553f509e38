//! Tests of the name-suggestion machinery: the edit distance, the similarity
//! filter, and the fixes attached to name-resolution errors.

use cythan_compiler::compile;
use cythan_compiler::distance::generic_damerau_levenshtein;
use cythan_compiler::errors::get_similars;
use cythan_compiler::quick_fix::QuickFixPosition;

#[test]
fn test_simmilar() {
    assert_eq!(
        get_similars(
            "test",
            &[
                "tast".to_owned(),
                "re1".to_owned(),
                "testAc".to_owned(),
                "voirie".to_owned(),
                "chucktesta".to_owned()
            ]
        ),
        ["tast", "testAc"]
    )
}

#[test]
fn distance_exact_values() {
    assert_eq!(generic_damerau_levenshtein("", ""), 0);
    assert_eq!(generic_damerau_levenshtein("abc", ""), 3);
    assert_eq!(generic_damerau_levenshtein("", "abc"), 3);
    assert_eq!(generic_damerau_levenshtein("abc", "abc"), 0);
    assert_eq!(generic_damerau_levenshtein("abc", "abd"), 1);
    assert_eq!(generic_damerau_levenshtein("abcd", "acbd"), 1);
    assert_eq!(generic_damerau_levenshtein("kitten", "sitting"), 3);
}

#[test]
fn misspelling_suggests_the_function() {
    let similars = get_similars("functoin", &["function".to_owned()]);
    assert!(similars.contains(&"function".to_owned()));
}

#[test]
fn fixes_offer_the_close_name() {
    match compile("function { 1 } functoin()") {
        Err(e) => {
            let fixes = e.get_fixes();
            assert_eq!(fixes.len(), 1);
            assert_eq!(fixes[0].text, "function");
            assert!(matches!(fixes[0].placement, QuickFixPosition::ReplaceFirst(8)));
        },
        other => panic!("unexpected result: {:?}", other),
    }
}

#[test]
fn fixes_empty_for_structural_errors() {
    match compile("(1)") {
        Err(e) => {
            assert_eq!(e.get_fixes().len(), 0);
        },
        other => panic!("unexpected result: {:?}", other),
    }
}
