use grammar::diagnostics::Diagnostics;
use grammar::page::{
    capitalize, categories_of, insert_summary, is_summary, link_definitions, make_relative_link_map,
    make_render_ctx, names_in_category, relative_link, relative_links, render_names,
    render_summary, Link,
};
use grammar::parser::parse_grammar;
use grammar::store::Grammar;

fn load(blocks: &[(&str, &str, &str)]) -> Grammar {
    let mut grammar = Grammar::default();
    let mut diag = Diagnostics::new(false);
    for (category, path, text) in blocks {
        parse_grammar(text, &mut grammar, category, path, &mut diag)
            .map_err(|e| e.to_string())
            .unwrap();
    }
    grammar
}

fn link(name: &str, path: &str) -> Link {
    Link { name: name.to_string(), path: path.to_string() }
}

#[test]
fn page_links_lead_to_the_page_of_the_production() {
    let cx = make_render_ctx(&vec![link("A", "items/a.md")], false);
    assert_eq!(cx.markdown_dest("A"), "items/a.md#grammar-A");
    assert_eq!(cx.railroad_dest("A"), "items/a.md#railroad-A");
    assert_eq!(cx.markdown_dest("B"), "missing");
    assert!(!cx.for_summary);
}

#[test]
fn summary_links_stay_on_the_page() {
    let cx = make_render_ctx(&vec![link("A", "items/a.md")], true);
    assert_eq!(cx.markdown_dest("A"), "#grammar-summary-A");
    assert_eq!(cx.railroad_dest("A"), "#railroad-summary-A");
    assert!(cx.for_summary);
}

#[test]
fn later_link_of_a_name_counts() {
    let cx = make_render_ctx(&vec![link("A", "one.md"), link("A", "two.md")], false);
    assert_eq!(cx.markdown_dest("A"), "two.md#grammar-A");
}

#[test]
fn link_definitions_make_names_linkable() {
    let links = vec![link("A", "items/a.md"), link("B", "b.md")];
    assert_eq!(
        link_definitions(&links, false),
        "[A]: items/a.md#grammar-A\n[grammar-A]: items/a.md#grammar-A\n\
         [B]: b.md#grammar-B\n[grammar-B]: b.md#grammar-B\n"
    );
    assert_eq!(
        link_definitions(&links, true),
        "[A]: #grammar-summary-A\n[B]: #grammar-summary-B\n"
    );
    assert_eq!(link_definitions(&vec![], false), "");
}

#[test]
fn summary_page_is_known_by_its_name() {
    assert!(is_summary("Grammar summary"));
    assert!(!is_summary("Grammar"));
    assert!(!is_summary(""));
}

#[test]
fn first_character_is_put_in_upper_case() {
    assert_eq!(capitalize("lexer"), "Lexer");
    assert_eq!(capitalize("Syntax"), "Syntax");
    assert_eq!(capitalize("ßtrange"), "SStrange");
    assert_eq!(capitalize(""), "");
}

#[test]
fn relative_link_has_forward_slashes() {
    let l = relative_link("A", Some("..\\items\\a.md".to_string())).unwrap();
    assert_eq!(l.name, "A");
    assert_eq!(l.path, "../items/a.md");
    assert!(relative_link("A", None).is_none());
}

#[test]
fn links_follow_from_the_paths_that_were_found() {
    let mut grammar = load(&[
        ("syntax", "items/a.md", "A -> `a`"),
        ("syntax", "b.md", "B -> A"),
        ("syntax", "c.md", "C -> B"),
    ]);
    grammar.name_order.push("Gone".to_string());
    let found = vec![
        Some("..\\items\\a.md".to_string()),
        None,
        Some("c.md".to_string()),
        Some("gone.md".to_string()),
        Some("past the last name".to_string()),
    ];
    let links = relative_links(&grammar, &found);
    // No link without a path, and none for a name that is not defined.
    assert_eq!(links.len(), 2);
    assert_eq!((links[0].name.as_str(), links[0].path.as_str()), ("A", "../items/a.md"));
    assert_eq!((links[1].name.as_str(), links[1].path.as_str()), ("C", "c.md"));
    assert_eq!(relative_links(&grammar, &vec![]).len(), 0);
}

#[test]
fn page_at_the_root_links_to_every_production() {
    let grammar = load(&[
        ("syntax", "items/a.md", "A -> `a`"),
        ("syntax", "b.md", "B -> A"),
    ]);
    let links = make_relative_link_map(&grammar, "");
    assert_eq!(links.len(), 2);
    assert_eq!((links[0].name.as_str(), links[0].path.as_str()), ("A", "items/a.md"));
    assert_eq!((links[1].name.as_str(), links[1].path.as_str()), ("B", "b.md"));
}

#[test]
fn links_lead_from_the_directory_of_the_page() {
    let grammar = load(&[
        ("syntax", "items/a.md", "A -> `a`"),
        ("syntax", "expressions/b.md", "B -> A"),
    ]);
    let links = make_relative_link_map(&grammar, "expressions");
    assert_eq!(links.len(), 2);
    assert_eq!((links[0].name.as_str(), links[0].path.as_str()), ("A", "../items/a.md"));
    assert_eq!((links[1].name.as_str(), links[1].path.as_str()), ("B", "b.md"));
}

#[test]
fn categories_come_in_the_order_in_which_they_are_seen() {
    let grammar = load(&[
        ("lexer", "a.md", "A -> `a`"),
        ("syntax", "b.md", "B -> A\n\nC -> B"),
        ("lexer", "d.md", "D -> `d`"),
    ]);
    assert_eq!(categories_of(&grammar), vec!["lexer", "syntax"]);
    assert_eq!(names_in_category(&grammar, &"lexer".to_string()), vec!["A", "D"]);
    assert_eq!(names_in_category(&grammar, &"syntax".to_string()), vec!["B", "C"]);
    assert_eq!(names_in_category(&grammar, &"other".to_string()), Vec::<String>::new());
}

#[test]
fn names_are_rendered_as_markdown_and_as_diagrams() {
    let grammar = load(&[("lexer", "a.md", "A -> `a`")]);
    let mut diag = Diagnostics::new(false);
    let names = ["A"];
    assert!(grammar.productions.get("A").unwrap().expression.is_drawable());
    let html = render_names(&grammar, &names, &vec![link("A", "a.md")], true, false, "ch.md", &mut diag);
    assert_eq!(diag.count(), 0);
    assert!(html.starts_with(
        "<div class=\"grammar-container\">\n\n**<sup>Lexer</sup>**\n<br>\n\
         <span class=\"grammar-text grammar-production\" id=\"grammar-A\" \
         onclick=\"show_railroad()\">[A](a.md#railroad-A)</span> → \
         <span class=\"grammar-literal\">a</span>\n\n\
         <button class=\"grammar-toggle-railroad\" type=\"button\" \
         title=\"Toggle railroad display\" onclick=\"toggle_railroad()\">Show Railroad</button>\n\
         </div>\n<div class=\"grammar-railroad grammar-hidden\">\n\n<div style=\"width: "
    ));
    assert!(html.ends_with("</svg>\n</div>\n</div>\n"));
    assert!(html.contains("class=\"railroad-production\" id=\"railroad-A\""));
    let syntax = render_names(&grammar, &names, &vec![], false, false, "ch.md", &mut diag);
    assert!(syntax.starts_with("<div class=\"grammar-container\">\n\n**<sup>Syntax</sup>**\n<br>\n"));
}

#[test]
fn unknown_name_is_reported_for_both_renderings() {
    let grammar = load(&[("lexer", "a.md", "A -> `a`")]);
    let mut diag = Diagnostics::new(false);
    let html = render_names(&grammar, &["Nope"], &vec![], true, false, "ch.md", &mut diag);
    assert_eq!(
        diag.messages,
        vec![
            "warning: grammar failed in chapter \"ch.md\": could not find grammar production named `Nope`",
            "warning: grammar failed in chapter \"ch.md\": could not find grammar production named `Nope`",
        ]
    );
    assert_eq!(
        html,
        "<div class=\"grammar-container\">\n\n**<sup>Lexer</sup>**\n<br>\n\n\
         <button class=\"grammar-toggle-railroad\" type=\"button\" \
         title=\"Toggle railroad display\" onclick=\"toggle_railroad()\">Show Railroad</button>\n\
         </div>\n<div class=\"grammar-railroad grammar-hidden\">\n\n</div>\n"
    );
}

#[test]
fn summary_has_a_section_for_each_category() {
    let grammar = load(&[("lexer", "a.md", "A -> `a`"), ("syntax", "b.md", "B -> A")]);
    let mut diag = Diagnostics::new(false);
    let links = vec![link("A", "a.md"), link("B", "b.md")];
    let summary = render_summary(&grammar, &links, true, "summary.md", &mut diag);
    assert_eq!(diag.count(), 0);
    let lexer = summary.find("\n## Lexer summary\n\n<div class=\"grammar-container\">\n\n**<sup>Lexer</sup>**").unwrap();
    let syntax = summary.find("\n## Syntax summary\n\n<div class=\"grammar-container\">\n\n**<sup>Syntax</sup>**").unwrap();
    assert_eq!(lexer, 0);
    assert!(lexer < syntax);
    assert!(summary.contains("id=\"grammar-summary-B\""));
    assert!(summary.contains("[A](#grammar-summary-A)"));
}

#[test]
fn summary_takes_the_place_of_the_placeholder() {
    let grammar = load(&[("lexer", "a.md", "A -> `a`")]);
    let mut diag = Diagnostics::new(false);
    let summary = render_summary(&grammar, &vec![], true, "summary.md", &mut diag);
    let page = insert_summary(
        &grammar,
        &vec![],
        "# Summary\n{{ grammar-summary }}\nend",
        true,
        "summary.md",
        &mut diag,
    );
    assert_eq!(page, format!("# Summary\n{summary}\nend"));
    let untouched = insert_summary(&grammar, &vec![], "no placeholder", true, "s.md", &mut diag);
    assert_eq!(untouched, "no placeholder");
}
