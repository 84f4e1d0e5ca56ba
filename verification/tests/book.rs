use grammar::book::{
    interior_prefixes, invert_rule_map, line_from_range, render_admonition, render_rule_definition,
    render_table_end, render_table_row, render_table_start, render_uncovered, to_initial_case,
    RuleDef, RuleToTests, Rules, Test,
};
use grammar::diagnostics::Diagnostics;

fn def(id: &str, path: &str) -> RuleDef {
    RuleDef { id: id.to_string(), source_path: format!("src/{path}"), path: path.to_string() }
}

#[test]
fn initial_case_has_one_capital() {
    assert_eq!(to_initial_case("WARNING"), "Warning");
    assert_eq!(to_initial_case("note"), "Note");
    assert_eq!(to_initial_case("x"), "X");
}

#[test]
fn note_gets_its_icon_and_title() {
    let mut diag = Diagnostics::new(false);
    let html = render_admonition("NOTE", "  > text\n", "ch.md", &mut diag);
    assert_eq!(diag.count(), 0);
    assert!(html.starts_with(
        "  <div class=\"alert alert-note\">\n\n  > <p class=\"alert-title\">\
         <svg viewBox=\"0 0 16 16\" width=\"18\" height=\"18\"><path d=\"M0 8a8 8 0"
    ));
    assert!(html.ends_with("</path></svg>Note</p>\n   >\n  > text\n\n\n  </div>\n"));
}

#[test]
fn warning_and_example_have_icons_of_their_own() {
    let mut diag = Diagnostics::new(false);
    let warning = render_admonition("Warning", "> w\n", "ch.md", &mut diag);
    let example = render_admonition("example", "> e\n", "ch.md", &mut diag);
    assert!(warning.contains("<path d=\"M6.457 1.047"));
    assert!(warning.contains("</svg>Warning</p>"));
    assert!(example.contains("<path d=\"M8 0a8 8 0 1 1 0 16"));
    assert!(example.contains("<div class=\"alert alert-example\">"));
    assert_eq!(diag.count(), 0);
}

#[test]
fn edition_difference_names_the_edition() {
    let mut diag = Diagnostics::new(false);
    let html = render_admonition("EDITION-2024", "> text\n", "ch.md", &mut diag);
    assert_eq!(
        html,
        "<div class=\"alert alert-edition\">\n\n> <p class=\"alert-title\">\
         <span class=\"alert-title-edition\">2024</span> Edition differences</p>\n >\n\
         > text\n\n\n</div>\n"
    );
    assert_eq!(diag.count(), 0);
}

#[test]
fn unknown_admonition_is_reported_and_has_no_icon() {
    let mut diag = Diagnostics::new(false);
    let html = render_admonition("Tip", "> text\n", "ch.md", &mut diag);
    assert_eq!(
        diag.messages,
        vec!["warning: admonition `tip` in \"ch.md\" is incorrect or not yet supported"]
    );
    assert_eq!(
        html,
        "<div class=\"alert alert-tip\">\n\n> <p class=\"alert-title\">\
         <svg viewBox=\"0 0 16 16\" width=\"18\" height=\"18\"></svg>Tip</p>\n >\n\
         > text\n\n\n</div>\n"
    );
}

#[test]
fn line_is_found_by_a_byte_in_it() {
    let contents = "first\nsecond\nthird";
    assert!(contents.len() < usize::MAX);
    assert_eq!(line_from_range(contents, 0), "first");
    assert_eq!(line_from_range(contents, 5), "first");
    assert_eq!(line_from_range(contents, 6), "second");
    assert_eq!(line_from_range(contents, 16), "third");
}

#[test]
fn interior_prefixes_end_before_the_dots() {
    assert_eq!(interior_prefixes("asm.ts-args.syntax"), vec!["", "asm", "asm.ts-args"]);
    assert_eq!(interior_prefixes("plain"), vec![""]);
    assert_eq!(interior_prefixes(""), vec![""]);
    assert_eq!(interior_prefixes(".a."), vec!["", "", ".a"]);
}

#[test]
fn rule_defined_twice_is_reported_with_both_places() {
    let mut rules = Rules::new();
    let mut diag = Diagnostics::new(false);
    rules.define(def("a.b", "one.md"), &mut diag);
    rules.define(def("a.c", "two.md"), &mut diag);
    assert_eq!(diag.count(), 0);
    rules.define(def("a.b", "three.md"), &mut diag);
    assert_eq!(
        diag.messages,
        vec![
            "warning: rule `a.b` defined multiple times\n\
             First location: \"src/one.md\"\n\
             Second location: \"src/three.md\""
        ]
    );
    // The new place stands in for the old one.
    assert_eq!(rules.def_paths.len(), 2);
    assert_eq!(rules.def_paths[0].id, "a.b");
    assert_eq!(rules.def_paths[0].path, "three.md");
    assert_eq!(rules.interior_prefixes, vec!["", "a"]);
}

#[test]
fn rules_are_grouped_by_chapter() {
    let mut rules = Rules::new();
    let mut diag = Diagnostics::new(false);
    for (id, path) in [("a", "one.md"), ("b", "two.md"), ("c", "one.md")] {
        rules.define(def(id, path), &mut diag);
    }
    let chapters = invert_rule_map(&rules);
    assert_eq!(chapters.len(), 2);
    assert_eq!(chapters[0].path, "one.md");
    assert_eq!(chapters[0].rules, vec!["a", "c"]);
    assert_eq!(chapters[1].path, "two.md");
    assert_eq!(chapters[1].rules, vec!["b"]);
}

#[test]
fn rule_without_tests_is_an_anchor() {
    assert_eq!(
        render_rule_definition("a.b", None, "master"),
        "<div class=\"rule\" id=\"r-a.b\"><a class=\"rule-link\" href=\"#r-a.b\" title=\"a.b\">\
         <span>[a<wbr>.b]</span/></a>\n</div>\n\n"
    );
}

#[test]
fn rule_with_tests_links_to_them() {
    let tests = vec![Test { path: "tests/ui/x.rs".to_string() }];
    assert_eq!(
        render_rule_definition("a", Some(&tests), "1.80.0"),
        "<div class=\"rule\" id=\"r-a\"><a class=\"rule-link\" href=\"#r-a\" title=\"a\">\
         <span>[a]</span/></a>\n\
         <br><div class=\"test-link\">\n\
         <a href=\"javascript:void(0)\" onclick=\"spec_toggle_tests('a');\">\
         <span>Tests</span></a></div>\n</div>\n\
         <div id=\"tests-a\" class=\"tests-popup popup-hidden\">\nTests with this rule:\n<ul>\
         <li><a href=\"https://github.com/rust-lang/rust/blob/1.80.0/tests/ui/x.rs\">\
         tests/ui/x.rs</a></li>\n</ul></div>\n"
    );
}

#[test]
fn coverage_counts_tests_and_lists_uncovered_rules() {
    let mut tests = RuleToTests::new();
    tests.tests.insert(
        "a".to_string(),
        vec![Test { path: "x.rs".to_string() }, Test { path: "y.rs".to_string() }],
    );
    tests.tests.insert("c".to_string(), vec![Test { path: "z.rs".to_string() }]);
    let rules: Vec<String> = ["a", "b", "c", "d"].iter().map(|s| s.to_string()).collect();
    let (count, uncovered) = tests.coverage(&rules);
    assert_eq!(count, 3);
    assert_eq!(uncovered, vec!["b", "d"]);
    assert!(tests.get("a").is_some());
    assert!(tests.get("b").is_none());
}

#[test]
fn uncovered_rules_are_listed_on_demand() {
    assert_eq!(render_uncovered(3, "ch.html", &vec![]), "0");
    assert_eq!(
        render_uncovered(3, "ch.html", &vec!["a.b".to_string()]),
        "<div class=\"popup-container\">\n\
         <a href=\"javascript:void(0)\" onclick=\"spec_toggle_uncovered(3);\">1</a>\n\
         <div id=\"uncovered-3\" class=\"uncovered-rules-popup popup-hidden\">\n\
         Uncovered rules\n                        <ul>\
         <li><a href=\"ch.html#r-a.b\">a.b</a></li>\n</ul></div></div>"
    );
}

#[test]
fn table_has_a_head() {
    assert_eq!(
        render_table_start(),
        "\n<table>\n<tr>\n  <th></th>\n  <th>Rules</th>\n  <th>Tests</th>\n  \
         <th>Uncovered Rules</th>\n  <th>Coverage</th>\n</tr>\n"
    );
}

#[test]
fn table_rows_are_indented_by_level() {
    assert_eq!(
        render_table_row("ch.html", 1, "1.2.", "Name", 4, "7", "0", "100.0%"),
        "<tr>\n<td><a href=\"ch.html\">&nbsp;&nbsp;&nbsp;&nbsp;&nbsp;&nbsp;1.2. Name</a></td>\n\
         <td>4</td>\n<td>7</td>\n<td>0</td>\n<td>100.0%</td>\n</tr>\n"
    );
    assert_eq!(
        render_table_end(10, 20, 3, "70.0%"),
        "<tr>\n<td><b>Total:</b></td>\n<td>10</td>\n<td>20</td>\n<td>3</td>\n<td>70.0%</td>\n\
         </tr>\n</table>\n"
    );
}
