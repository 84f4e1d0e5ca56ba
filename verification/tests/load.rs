use grammar::diagnostics::Diagnostics;
use grammar::load::{load_grammar, Block};

fn block(category: &str, path: &str, text: &str) -> Block {
    Block { category: category.to_string(), text: text.to_string(), path: path.to_string() }
}

#[test]
fn blocks_are_read_in_order_and_the_grammar_is_checked() {
    let blocks = vec![
        block("lexer", "tokens.md", "@root Token -> Ident | Missing"),
        block("lexer", "idents.md", "Ident -> `a`\n\nOrphan -> `o`"),
    ];
    let mut diag = Diagnostics::new(false);
    let grammar = load_grammar(&blocks, &mut diag);
    assert_eq!(grammar.name_order, vec!["Token", "Ident", "Orphan"]);
    assert_eq!(diag.messages.len(), 2);
    assert_eq!(diag.messages[0], "warning: non-terminal `Missing` is used but not defined");
    assert!(diag.messages[1].contains("The new names are: [\"Orphan\"]"));
}

#[test]
fn block_that_is_not_in_the_notation_is_reported_and_left_out() {
    let blocks = vec![
        block("syntax", "a.md", "@root A -> B"),
        block("syntax", "broken.md", "C -> ("),
        block("syntax", "b.md", "B -> `b`"),
    ];
    let mut diag = Diagnostics::new(true);
    let grammar = load_grammar(&blocks, &mut diag);
    assert_eq!(grammar.name_order, vec!["A", "B"]);
    assert_eq!(
        diag.messages,
        vec![
            "error: failed to parse grammar in \"broken.md\": \n  |\n1 | C -> (\n  |       \
             ^ expected expression in parenthesized group"
        ]
    );
}

#[test]
fn corpus_without_blocks_is_an_empty_grammar() {
    let mut diag = Diagnostics::new(false);
    let grammar = load_grammar(&vec![], &mut diag);
    assert_eq!(grammar.name_order.len(), 0);
    assert_eq!(diag.count(), 0);
}
