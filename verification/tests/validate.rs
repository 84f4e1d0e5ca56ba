use grammar::diagnostics::Diagnostics;
use grammar::parser::parse_grammar;
use grammar::store::Grammar;
use grammar::validate::{check_undefined_nt, check_unexpected_roots};

fn load(blocks: &[(&str, &str)]) -> (Grammar, Diagnostics) {
    let mut grammar = Grammar::default();
    let mut diag = Diagnostics::new(false);
    for (path, text) in blocks {
        parse_grammar(text, &mut grammar, "test", path, &mut diag)
            .map_err(|e| e.to_string())
            .unwrap();
    }
    (grammar, diag)
}

fn root_report(text: &str) -> Vec<String> {
    let (grammar, mut diag) = load(&[("test.md", text)]);
    assert_eq!(diag.count(), 0);
    check_unexpected_roots(&grammar, &mut diag);
    diag.messages
}

#[test]
fn every_use_of_an_undefined_name_is_reported() {
    let (grammar, mut diag) = load(&[("test.md", "A -> B C [B `x`]\n\nC -> A")]);
    check_undefined_nt(&grammar, &mut diag);
    assert_eq!(
        diag.messages,
        vec![
            "warning: non-terminal `B` is used but not defined".to_string(),
            "warning: non-terminal `B` is used but not defined".to_string(),
        ]
    );
    assert_eq!(diag.count(), 2);
}

#[test]
fn defined_names_are_not_reported() {
    let (grammar, mut diag) = load(&[("test.md", "A -> B ~C !D ^ (A | B)*\n\nB -> `b`\n\nC -> `c`\n\nD -> `d`")]);
    check_undefined_nt(&grammar, &mut diag);
    assert_eq!(diag.count(), 0);
}

#[test]
fn denied_warnings_are_errors() {
    let mut grammar = Grammar::default();
    let mut diag = Diagnostics::new(true);
    parse_grammar("A -> B", &mut grammar, "test", "test.md", &mut diag)
        .map_err(|e| e.to_string())
        .unwrap();
    check_undefined_nt(&grammar, &mut diag);
    assert_eq!(diag.messages, vec!["error: non-terminal `B` is used but not defined".to_string()]);
}

#[test]
fn single_root_that_reaches_everything_is_fine() {
    assert_eq!(root_report("@root R -> A B\n\nA -> B `a`\n\nB -> `b` R"), Vec::<String>::new());
}

#[test]
fn root_may_refer_to_itself() {
    assert_eq!(root_report("@root R -> `(` R `)` | A\n\nA -> `a`"), Vec::<String>::new());
}

#[test]
fn missing_root_marker_is_reported_once() {
    assert_eq!(
        root_report("R -> A\n\nA -> `a`"),
        vec![
            "warning: New grammar production detected that is not used in any root-accessible\n\
             production. If this is expected, mark the production with\n\
             `@root`. If not, make sure it is spelled correctly and used in\n\
             another root-accessible production.\n\
             \n\
             The new names are: [\"R\", \"A\"]\n"
                .to_string()
        ]
    );
}

#[test]
fn orphan_is_reported_once() {
    assert_eq!(
        root_report("@root R -> A\n\nA -> `a`\n\nOrphan -> A"),
        vec![
            "warning: New grammar production detected that is not used in any root-accessible\n\
             production. If this is expected, mark the production with\n\
             `@root`. If not, make sure it is spelled correctly and used in\n\
             another root-accessible production.\n\
             \n\
             The new names are: [\"Orphan\"]\n"
                .to_string()
        ]
    );
}

#[test]
fn root_that_another_root_reaches_is_reported_once() {
    assert_eq!(
        root_report("@root R -> A\n\n@root A -> `a`"),
        vec![
            "warning: Old grammar production root seems to have been removed\n\
             (it is used in some other production that is root-accessible).\n\
             If this is expected, remove `@root` from the production.\n\
             \n\
             The removed names are: [\"A\"]\n"
                .to_string()
        ]
    );
}

#[test]
fn new_names_come_before_removed_roots() {
    // Both kinds are there; only the new names are reported.
    let report = root_report("@root R -> A\n\n@root A -> `a`\n\nOrphan -> `o`");
    assert_eq!(report.len(), 1);
    assert!(report[0].contains("The new names are: [\"Orphan\"]"));
}

#[test]
fn empty_grammar_has_nothing_to_report() {
    let grammar = Grammar::default();
    let mut diag = Diagnostics::new(false);
    check_undefined_nt(&grammar, &mut diag);
    check_unexpected_roots(&grammar, &mut diag);
    assert_eq!(diag.count(), 0);
}

#[test]
fn name_defined_in_two_blocks_is_reported_once_with_both_places() {
    let (grammar, diag) = load(&[
        ("first.md", "A -> `first`"),
        ("second.md", "B -> `b`\n\nA -> `second`"),
    ]);
    assert_eq!(
        diag.messages,
        vec![
            "warning: production `A` defined multiple times\n\
             First location: first.md\n\
             Second location: second.md"
                .to_string()
        ]
    );
    // The first definition stands.
    assert_eq!(grammar.productions.get("A").unwrap().path, "first.md");
    assert_eq!(grammar.name_order, vec!["A".to_string(), "B".to_string()]);
}

#[test]
fn name_defined_twice_in_one_block_fails_the_block() {
    let mut grammar = Grammar::default();
    let mut diag = Diagnostics::new(false);
    let err = parse_grammar("A -> `a`\n\nA -> `b`", &mut grammar, "test", "test.md", &mut diag)
        .err()
        .unwrap();
    assert_eq!(err.message, "duplicate production A in grammar");
    // Nothing of the block has come into the grammar.
    assert_eq!(grammar.name_order.len(), 0);
    assert_eq!(diag.count(), 0);
}

#[test]
fn failed_block_leaves_the_grammar_as_it_was() {
    let mut grammar = Grammar::default();
    let mut diag = Diagnostics::new(false);
    parse_grammar("A -> `a`", &mut grammar, "test", "one.md", &mut diag)
        .map_err(|e| e.to_string())
        .unwrap();
    assert!(parse_grammar("B -> `b`\n\nC -> (", &mut grammar, "test", "two.md", &mut diag).is_err());
    assert_eq!(grammar.name_order, vec!["A".to_string()]);
    assert!(grammar.productions.get("B").is_none());
}

#[test]
fn references_come_in_the_order_of_the_text() {
    let (grammar, _) = load(&[("test.md", "A -> B (C | [D `x` E])+ ~F !G ^ H{2..3}")]);
    let mut names = Vec::new();
    grammar.productions.get("A").unwrap().expression.visit_nt(&mut names);
    assert_eq!(names, vec!["B", "C", "D", "E", "F", "G", "H"]);
}
