use clarity_repl::reference::{build_api_reference, Catalogue, FunctionApi, KeywordApi};

fn function(name: &str, signature: &str, description: &str, example: &str) -> FunctionApi {
    FunctionApi {
        name: name.to_string(),
        signature: signature.to_string(),
        description: description.to_string(),
        example: example.to_string(),
    }
}

fn keyword(name: &str, description: &str, example: &str) -> KeywordApi {
    KeywordApi {
        name: name.to_string(),
        description: description.to_string(),
        example: example.to_string(),
    }
}

fn catalogue() -> Catalogue {
    Catalogue {
        functions: vec![
            function("+", "(+ i1 i2...)", "Adds\nnumbers.", "(+ 1 2)"),
            function("if", "(if c a b)", "Branches.", "(if true 1 2)"),
        ],
        defines: vec![function("define-map", "(define-map n k v)", "Defines\n\na map.", "e")],
        keywords: vec![keyword("block-height", "The height\nof the chain.", "block-height")],
    }
}

#[test]
fn function_pages_have_usage_description_and_examples() {
    let reference = build_api_reference(&catalogue());
    assert_eq!(
        reference.lookup("+").unwrap(),
        "Usage\n(+ i1 i2...)\n\nDescription\nAdds numbers.\n\nExamples\n(+ 1 2)"
    );
    assert_eq!(
        reference.lookup("define-map").unwrap(),
        "Usage\n(define-map n k v)\n\nDescription\nDefines  a map.\n\nExamples\ne"
    );
}

#[test]
fn keyword_pages_have_description_and_examples() {
    let reference = build_api_reference(&catalogue());
    assert_eq!(
        reference.lookup("block-height").unwrap(),
        "Description\nThe height of the chain.\n\nExamples\nblock-height"
    );
}

#[test]
fn unknown_keywords_have_no_page() {
    let reference = build_api_reference(&catalogue());
    assert!(reference.lookup("").is_none());
    assert!(reference.lookup("block").is_none());
    assert!(reference.lookup("block-height ").is_none());
}

#[test]
fn the_index_is_alphabetical_and_complete() {
    let reference = build_api_reference(&catalogue());
    assert_eq!(reference.index(), vec!["+", "block-height", "define-map", "if"]);
    for name in reference.index() {
        assert!(reference.lookup(&name).is_some());
    }
}

#[test]
fn the_last_page_of_a_keyword_wins() {
    let mut doubled = catalogue();
    doubled.keywords.push(keyword("+", "Later.", "x"));
    let reference = build_api_reference(&doubled);
    assert_eq!(reference.lookup("+").unwrap(), "Description\nLater.\n\nExamples\nx");
    assert_eq!(reference.index(), vec!["+", "block-height", "define-map", "if"]);
}

#[test]
fn an_empty_catalogue_has_no_pages() {
    let empty = Catalogue { functions: vec![], defines: vec![], keywords: vec![] };
    let reference = build_api_reference(&empty);
    assert!(reference.index().is_empty());
    assert!(reference.lookup("+").is_none());
}

#[test]
fn a_copy_has_the_same_pages() {
    let reference = build_api_reference(&catalogue());
    let copy = reference.clone();
    assert_eq!(copy.index(), reference.index());
    assert_eq!(copy.lookup("if"), reference.lookup("if"));
}
