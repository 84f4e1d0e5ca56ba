//! What a page of the documentation gets: the rendering of the productions
//! it names, the summary of all productions by category, and the link
//! definitions that make the production names linkable.

use vstd::prelude::*;
use vstd::string::StringExecFns;
use crate::context::{RenderCtx, RenderCtxView, RenderError, unknown_production_message};
use crate::diagnostics::{Diagnostics, DiagnosticsView};
use crate::render_markdown::{markdown_id, markdown_id_text, markdown_of, render_markdown};
use crate::render_railroad::{railroad_id, railroad_id_text, railroad_of, render_railroad};
use crate::store::{Grammar, GrammarView, names_view};
use crate::text::{
    holds, replace_text, replaced, same_text, strings_view, uppercase, uppercase_of,
};

verus! {

/// Where a production is defined, as seen from a page: the production's
/// name and the path from the page to the page of the production.
#[derive(Debug)]
pub struct Link {
    pub name: String,
    pub path: String,
}

/// Model of a [`Link`].
pub struct LinkView {
    pub name: Seq<char>,
    pub path: Seq<char>,
}

impl View for Link {
    type V = LinkView;

    open spec fn view(&self) -> LinkView {
        LinkView { name: self.name@, path: self.path@ }
    }
}

/// The models of a list of links, in order.
pub open spec fn links_view(links: Seq<Link>) -> Seq<LinkView> {
    Seq::new(links.len(), |i: int| links[i]@)
}

/// The destination of a link to the element `id`: on the summary page the
/// element of the page itself, else the element on the page at `path`.
pub open spec fn link_dest(path: Seq<char>, id: Seq<char>, for_summary: bool) -> Seq<char> {
    if for_summary {
        "#"@ + id
    } else {
        path + "#"@ + id
    }
}

/// The id of a production's rendering: of its railroad diagram, or of its
/// markdown.
pub open spec fn rendering_id(name: Seq<char>, for_summary: bool, railroad: bool) -> Seq<char> {
    if railroad {
        railroad_id_text(name, for_summary)
    } else {
        markdown_id_text(name, for_summary)
    }
}

/// The link map of a page: each name with the destination of its
/// rendering. Of two links with one name the later one counts.
pub open spec fn page_links(
    links: Seq<LinkView>,
    for_summary: bool,
    railroad: bool,
) -> Map<Seq<char>, Seq<char>>
    decreases links.len(),
{
    if links.len() == 0 {
        Map::empty()
    } else {
        page_links(links.drop_last(), for_summary, railroad).insert(
            links.last().name,
            link_dest(
                links.last().path,
                rendering_id(links.last().name, for_summary, railroad),
                for_summary,
            ),
        )
    }
}

/// What the renderers know of a page with these links.
pub open spec fn page_ctx(links: Seq<LinkView>, for_summary: bool) -> RenderCtxView {
    RenderCtxView {
        md_link_map: page_links(links, for_summary, false),
        rr_link_map: page_links(links, for_summary, true),
        for_summary,
    }
}

/// Appends the destination of a link.
fn push_link_dest(out: &mut String, path: &str, id: &str, for_summary: bool)
    ensures
        final(out)@ == old(out)@ + link_dest(path@, id@, for_summary),
{
    if !for_summary {
        out.append(path);
    }
    out.append("#");
    out.append(id);
    assert(out@ =~= old(out)@ + link_dest(path@, id@, for_summary));
}

/// Builds what the renderers know of a page with these links.
pub fn make_render_ctx(links: &Vec<Link>, for_summary: bool) -> (cx: RenderCtx)
    ensures
        cx@ == page_ctx(links_view(links@), for_summary),
{
    let ghost all = links_view(links@);
    let mut cx = RenderCtx::new(for_summary);
    let mut i: usize = 0;
    assert(all.take(0) =~= Seq::empty());
    while i < links.len()
        invariant
            i <= links.len(),
            all == links_view(links@),
            cx@ == page_ctx(all.take(i as int), for_summary),
        decreases links.len() - i,
    {
        let link = &links[i];
        let md_id = markdown_id(link.name.as_str(), for_summary);
        let rr_id = railroad_id(link.name.as_str(), for_summary);
        let mut md = String::new();
        push_link_dest(&mut md, link.path.as_str(), md_id.as_str(), for_summary);
        let mut rr = String::new();
        push_link_dest(&mut rr, link.path.as_str(), rr_id.as_str(), for_summary);
        cx.link_markdown(link.name.clone(), md);
        cx.link_railroad(link.name.clone(), rr);
        proof {
            assert(all.take(i + 1).drop_last() =~= all.take(i as int));
            assert(all.take(i + 1).last() == link@);
            assert(md@ =~= link_dest(link@.path, markdown_id_text(link@.name, for_summary), for_summary));
            assert(rr@ =~= link_dest(link@.path, railroad_id_text(link@.name, for_summary), for_summary));
        }
        i = i + 1;
    }
    assert(all.take(links.len() as int) =~= all);
    cx
}

/// The number of names at the front of the list that the grammar defines.
pub open spec fn defined_prefix(g: GrammarView, names: Seq<Seq<char>>) -> int
    decreases names.len(),
{
    if names.len() == 0 || !g.defines(names[0]) {
        0
    } else {
        1 + defined_prefix(g, names.drop_first())
    }
}

/// The defined prefix ends at the first name that is not defined.
pub proof fn lemma_defined_prefix(g: GrammarView, names: Seq<Seq<char>>, k: int)
    requires
        0 <= k <= names.len(),
        g.defines_all(names.take(k)),
        k < names.len() ==> !g.defines(names[k]),
    ensures
        defined_prefix(g, names) == k,
    decreases names.len(),
{
    if names.len() == 0 {
    } else if k == 0 {
    } else {
        assert(names.take(k)[0] == names[0]);
        assert forall|i: int| 0 <= i < k - 1 implies g.defines(
            #[trigger] names.drop_first().take(k - 1)[i],
        ) by {
            assert(names.take(k)[i + 1] == names.drop_first().take(k - 1)[i]);
        }
        lemma_defined_prefix(g, names.drop_first(), k - 1);
    }
}

/// The diagnostic for a page on which a list of productions could not be
/// rendered.
pub open spec fn failed_text(chapter: Seq<char>, name: Seq<char>) -> Seq<char> {
    "grammar failed in chapter \""@ + chapter + "\": "@ + unknown_production_message(name)
}

/// The heading of a rendering.
pub open spec fn kind_heading(for_lexer: bool) -> Seq<char> {
    if for_lexer {
        "**<sup>Lexer</sup>**\n"@
    } else {
        "**<sup>Syntax</sup>**\n"@
    }
}

/// What stands between the markdown and the railroad diagrams: the button
/// that shows the diagrams, and the start of their container.
pub open spec fn railroad_toggle() -> Seq<char> {
    "\n<button class=\"grammar-toggle-railroad\" type=\"button\" title=\"Toggle railroad display\" onclick=\"toggle_railroad()\">Show Railroad</button>\n</div>\n<div class=\"grammar-railroad grammar-hidden\">\n\n"@
}

/// The rendering of the named productions for a page: the markdown and the
/// railroad diagrams, each up to the first name that is not defined.
pub open spec fn names_html(
    g: GrammarView,
    names: Seq<Seq<char>>,
    cx: RenderCtxView,
    for_lexer: bool,
) -> Seq<char> {
    let k = defined_prefix(g, names);
    "<div class=\"grammar-container\">\n\n"@ + kind_heading(for_lexer) + "<br>\n"@ + markdown_of(
        g,
        cx,
        names,
        k,
    ) + railroad_toggle() + railroad_of(g, cx, names.take(k)) + "</div>\n"@
}

/// The diagnostics after the named productions have been rendered: where a
/// name is not defined, one for the markdown and one for the diagrams.
pub open spec fn names_report(
    d: DiagnosticsView,
    g: GrammarView,
    names: Seq<Seq<char>>,
    chapter: Seq<char>,
) -> DiagnosticsView {
    let k = defined_prefix(g, names);
    if k < names.len() {
        d.emit(failed_text(chapter, names[k])).emit(failed_text(chapter, names[k]))
    } else {
        d
    }
}

/// Records that a list of productions could not be rendered.
fn report_failure(diag: &mut Diagnostics, chapter: &str, e: &RenderError)
    ensures
        final(diag)@ == old(diag)@.emit(failed_text(chapter@, e.name())),
{
    let mut message = String::from_str("grammar failed in chapter \"");
    message.append(chapter);
    message.append("\": ");
    let text = e.to_string();
    message.append(text.as_str());
    assert(message@ =~= failed_text(chapter@, e.name()));
    diag.warn_or_err(message.as_str());
}

/// Helper to take a list of production names and to render all of those to a
/// mixture of markdown and HTML.
pub fn render_names(
    grammar: &Grammar,
    names: &[&str],
    links: &Vec<Link>,
    for_lexer: bool,
    for_summary: bool,
    chapter: &str,
    diag: &mut Diagnostics,
) -> (output: String)
    requires
        grammar@.draws(names_view(names@)),
    ensures
        output@ == names_html(
            grammar@,
            names_view(names@),
            page_ctx(links_view(links@), for_summary),
            for_lexer,
        ),
        final(diag)@ == names_report(old(diag)@, grammar@, names_view(names@), chapter@),
{
    let ghost all = names_view(names@);
    let mut output = String::new();
    output.append("<div class=\"grammar-container\">\n\n");
    if for_lexer {
        output.append("**<sup>Lexer</sup>**\n");
    } else {
        output.append("**<sup>Syntax</sup>**\n");
    }
    output.append("<br>\n");
    let cx = make_render_ctx(links, for_summary);
    let ghost head = output@;
    match render_markdown(grammar, &cx, names, &mut output) {
        Err(e) => {
            proof {
                let k = choose|k: int|
                    0 <= k < names.len() && !grammar@.defines(#[trigger] names[k]@)
                        && grammar@.defines_all(all.take(k)) && e.name() == names[k]@ && output@
                        == head + markdown_of(grammar@, cx@, all, k);
                assert(all[k] == names[k]@);
                lemma_defined_prefix(grammar@, all, k);
            }
            report_failure(diag, chapter, &e);
        },
        Ok(()) => {
            proof {
                assert(all.take(all.len() as int) =~= all);
                lemma_defined_prefix(grammar@, all, all.len() as int);
            }
        },
    }
    output.append(
        "\n<button class=\"grammar-toggle-railroad\" type=\"button\" title=\"Toggle railroad display\" onclick=\"toggle_railroad()\">Show Railroad</button>\n</div>\n<div class=\"grammar-railroad grammar-hidden\">\n\n",
    );
    let ghost middle = output@;
    match render_railroad(grammar, &cx, names, &mut output) {
        Err(e) => {
            proof {
                let k = choose|k: int|
                    0 <= k < names.len() && !grammar@.defines(#[trigger] names[k]@)
                        && grammar@.defines_all(all.take(k)) && e.name() == names[k]@ && output@
                        == middle + railroad_of(grammar@, cx@, all.take(k));
                assert(all[k] == names[k]@);
                lemma_defined_prefix(grammar@, all, k);
            }
            report_failure(diag, chapter, &e);
        },
        Ok(()) => {
            proof {
                assert(all.take(all.len() as int) =~= all);
                lemma_defined_prefix(grammar@, all, all.len() as int);
            }
        },
    }
    output.append("</div>\n");
    assert(output@ =~= names_html(grammar@, all, cx@, for_lexer));
    output
}

/// The link definitions of one production: on the summary page one that
/// leads to the production on the page itself; else two that lead to its
/// page, one under its name and one with the prefix `grammar-`, for names
/// that something else on the page has taken.
pub open spec fn link_definition(link: LinkView, is_summary: bool) -> Seq<char> {
    let id = markdown_id_text(link.name, is_summary);
    if is_summary {
        "["@ + link.name + "]: #"@ + id + "\n"@
    } else {
        "["@ + link.name + "]: "@ + link.path + "#"@ + id + "\n[grammar-"@ + link.name + "]: "@
            + link.path + "#"@ + id + "\n"@
    }
}

/// The link definitions of the first `k` links.
pub open spec fn link_definitions_text(links: Seq<LinkView>, is_summary: bool, k: int) -> Seq<char>
    decreases k,
{
    if k <= 0 || k > links.len() {
        Seq::empty()
    } else {
        link_definitions_text(links, is_summary, k - 1) + link_definition(links[k - 1], is_summary)
    }
}

/// The markdown link definitions that make all production names easily
/// linkable on a page.
pub fn link_definitions(links: &Vec<Link>, is_summary: bool) -> (text: String)
    ensures
        text@ == link_definitions_text(links_view(links@), is_summary, links.len() as int),
{
    let ghost all = links_view(links@);
    let mut text = String::new();
    let mut i: usize = 0;
    assert(text@ =~= link_definitions_text(all, is_summary, 0));
    while i < links.len()
        invariant
            i <= links.len(),
            all == links_view(links@),
            text@ == link_definitions_text(all, is_summary, i as int),
        decreases links.len() - i,
    {
        let link = &links[i];
        let id = markdown_id(link.name.as_str(), is_summary);
        let ghost before = text@;
        if is_summary {
            text.append("[");
            text.append(link.name.as_str());
            text.append("]: #");
            text.append(id.as_str());
            text.append("\n");
        } else {
            text.append("[");
            text.append(link.name.as_str());
            text.append("]: ");
            text.append(link.path.as_str());
            text.append("#");
            text.append(id.as_str());
            text.append("\n[grammar-");
            text.append(link.name.as_str());
            text.append("]: ");
            text.append(link.path.as_str());
            text.append("#");
            text.append(id.as_str());
            text.append("\n");
        }
        assert(text@ =~= before + link_definition(link@, is_summary));
        i = i + 1;
    }
    text
}

/// Whether the chapter of this name is the summary of the grammar.
pub fn is_summary(chapter_name: &str) -> (b: bool)
    ensures
        b == (chapter_name@ == "Grammar summary"@),
{
    same_text(chapter_name, "Grammar summary")
}


/// `pathdiff::diff_paths`, with the result as text: the path that leads from
/// `base` to `path`, if the crate finds one. How a path is read depends on
/// the platform, so nothing is said of the result.
#[verifier::external_body]
fn diff_paths(path: &str, base: &str) -> Option<String> {
    pathdiff::diff_paths(path, base).map(|p| p.display().to_string())
}

/// The text with its first character in upper case.
pub open spec fn capitalized(s: Seq<char>) -> Seq<char> {
    if s.len() == 0 {
        s
    } else {
        uppercase(s[0]) + s.skip(1)
    }
}

/// The text with its first character in upper case.
pub fn capitalize(s: &str) -> (r: String)
    ensures
        r@ == capitalized(s@),
{
    let chars = crate::text::chars_of(s);
    if chars.len() == 0 {
        return String::from_str(s);
    }
    let mut r = uppercase_of(chars[0]);
    let mut i: usize = 1;
    while i < chars.len()
        invariant
            1 <= i <= chars.len(),
            r@ == uppercase(chars[0]) + chars@.subrange(1, i as int),
        decreases chars.len() - i,
    {
        r.push(chars[i]);
        i = i + 1;
        assert(r@ =~= uppercase(chars[0]) + chars@.subrange(1, i as int));
    }
    assert(chars@.subrange(1, chars.len() as int) =~= chars@.skip(1));
    r
}

/// The text with a slash for each backslash.
pub open spec fn forward_slashes(s: Seq<char>) -> Seq<char> {
    Seq::new(
        s.len(),
        |i: int|
            if s[i] == '\\' {
                '/'
            } else {
                s[i]
            },
    )
}

/// The link to a production, given the path that leads to its page, if one
/// was found: the path with slashes for backslashes.
pub fn relative_link(name: &str, relative: Option<String>) -> (link: Option<Link>)
    ensures
        match relative {
            Some(path) => link matches Some(l) && l@ == (LinkView {
                name: name@,
                path: forward_slashes(path@),
            }),
            None => link is None,
        },
{
    match relative {
        None => None,
        Some(path) => {
            let chars = crate::text::chars_of(path.as_str());
            let mut adjusted = String::new();
            let mut i: usize = 0;
            while i < chars.len()
                invariant
                    i <= chars.len(),
                    chars@ == path@,
                    adjusted@ =~= forward_slashes(path@).take(i as int),
                decreases chars.len() - i,
            {
                let c = chars[i];
                // Adjust paths for Windows.
                if c == '\\' {
                    adjusted.push('/');
                } else {
                    adjusted.push(c);
                }
                i = i + 1;
            }
            assert(forward_slashes(path@).take(chars.len() as int) =~= forward_slashes(path@));
            Some(Link { name: String::from_str(name), path: adjusted })
        },
    }
}

/// Creates the links of a page: for each production, in the order of
/// `name_order`, the path from the directory of the page to the page of the
/// production. A production to whose page no path is found gets no link.
pub fn make_relative_link_map(grammar: &Grammar, current_path: &str) -> (links: Vec<Link>)
    ensures
        exists|found: Seq<Option<Seq<char>>>|
            found.len() == grammar.name_order.len() && links_view(links@) == #[trigger] links_from(
                grammar@,
                found,
                grammar.name_order.len() as int,
            ),
        links.len() <= grammar.name_order.len(),
        forall|i: int|
            0 <= i < links.len() ==> grammar@.defines((#[trigger] links[i])@.name) && !links[i]@.path.contains(
                '\\',
            ),
{
    // Which path leads to the page of a production, if any, is for
    // `pathdiff` to say: there is one outcome for each name, and none for a
    // name that the grammar does not define.
    let mut found: Vec<Option<String>> = Vec::new();
    let mut k: usize = 0;
    while k < grammar.name_order.len()
        invariant
            k <= grammar.name_order.len(),
            found.len() == k,
        decreases grammar.name_order.len() - k,
    {
        match grammar.productions.get(grammar.name_order[k].as_str()) {
            Some(p) => {
                found.push(diff_paths(p.path.as_str(), current_path));
            },
            None => {
                found.push(None);
            },
        }
        k = k + 1;
    }
    // The links are those that follow from the outcomes.
    let links = relative_links(grammar, &found);
    proof {
        let outcomes = texts_view(found@);
        assert(outcomes.len() == grammar.name_order.len());
        assert(links_view(links@) == links_from(
            grammar@,
            outcomes,
            grammar.name_order.len() as int,
        ));
    }
    links
}

/// The texts of a list of optional strings, in order.
pub open spec fn texts_view(found: Seq<Option<String>>) -> Seq<Option<Seq<char>>> {
    Seq::new(found.len(), |i: int| crate::text::text_view(found[i]))
}

/// The outcome for the name at `i`: the path that was found, if any.
pub open spec fn outcome_at(found: Seq<Option<Seq<char>>>, i: int) -> Option<Seq<char>> {
    if 0 <= i < found.len() {
        found[i]
    } else {
        None
    }
}

/// The links that follow from the outcomes for the first `k` names of
/// `name_order`: one for each name that the grammar defines and for which
/// a path was found, in order, with the path in forward slashes.
pub open spec fn links_from(
    g: GrammarView,
    found: Seq<Option<Seq<char>>>,
    k: int,
) -> Seq<LinkView>
    decreases k,
{
    if k <= 0 || k > g.name_order.len() {
        Seq::empty()
    } else {
        match outcome_at(found, k - 1) {
            Some(path) if g.defines(g.name_order[k - 1]) => links_from(g, found, k - 1).push(
                LinkView { name: g.name_order[k - 1], path: forward_slashes(path) },
            ),
            _ => links_from(g, found, k - 1),
        }
    }
}

/// The links of a page, given the outcome for each name of `name_order`:
/// the path that leads to the page of its production, if one was found.
/// Outcomes past the last name do not count, and a name without an outcome
/// gets no link.
pub fn relative_links(grammar: &Grammar, found: &Vec<Option<String>>) -> (links: Vec<Link>)
    ensures
        links_view(links@) == links_from(
            grammar@,
            texts_view(found@),
            grammar.name_order.len() as int,
        ),
        links.len() <= grammar.name_order.len(),
        forall|i: int|
            0 <= i < links.len() ==> grammar@.defines((#[trigger] links[i])@.name) && !links[i]@.path.contains(
                '\\',
            ),
{
    let ghost outcomes = texts_view(found@);
    let mut links: Vec<Link> = Vec::new();
    let mut k: usize = 0;
    assert(links_view(links@) =~= links_from(grammar@, outcomes, 0));
    while k < grammar.name_order.len()
        invariant
            k <= grammar.name_order.len(),
            outcomes == texts_view(found@),
            links.len() <= k,
            links_view(links@) == links_from(grammar@, outcomes, k as int),
            forall|i: int|
                0 <= i < links.len() ==> grammar@.defines((#[trigger] links[i])@.name)
                    && !links[i]@.path.contains('\\'),
        decreases grammar.name_order.len() - k,
    {
        let ghost before = links_view(links@);
        let name = &grammar.name_order[k];
        if k < found.len() && grammar.productions.contains_key(name.as_str()) {
            let relative = match &found[k] {
                Some(path) => Some(path.clone()),
                None => None,
            };
            match relative_link(name.as_str(), relative) {
                Some(link) => {
                    assert(!link@.path.contains('\\')) by {
                        if link@.path.contains('\\') {
                            let j = choose|j: int|
                                0 <= j < link@.path.len() && link@.path[j] == '\\';
                            assert(link@.path[j] != '\\');
                        }
                    }
                    links.push(link);
                    assert(links_view(links@) =~= before.push(link@));
                },
                None => {},
            }
        }
        k = k + 1;
    }
    links
}

/// The categories of the productions under the first `k` names of
/// `name_order`, each once, in the order in which they are first seen.
pub open spec fn categories(g: GrammarView, k: int) -> Seq<Seq<char>>
    decreases k,
{
    if k <= 0 || k > g.name_order.len() {
        Seq::empty()
    } else if g.defines(g.name_order[k - 1]) && !categories(g, k - 1).contains(
        g.productions[g.name_order[k - 1]].category,
    ) {
        categories(g, k - 1).push(g.productions[g.name_order[k - 1]].category)
    } else {
        categories(g, k - 1)
    }
}

/// Those of the first `k` names of `name_order` whose production is of the
/// category, in order.
pub open spec fn names_in(g: GrammarView, category: Seq<char>, k: int) -> Seq<Seq<char>>
    decreases k,
{
    if k <= 0 || k > g.name_order.len() {
        Seq::empty()
    } else if g.defines(g.name_order[k - 1]) && g.productions[g.name_order[k - 1]].category
        == category {
        names_in(g, category, k - 1).push(g.name_order[k - 1])
    } else {
        names_in(g, category, k - 1)
    }
}

/// The categories of the grammar, each once, in the order in which they are
/// first seen.
pub fn categories_of(grammar: &Grammar) -> (found: Vec<String>)
    ensures
        strings_view(found@) == categories(grammar@, grammar.name_order.len() as int),
{
    let mut found: Vec<String> = Vec::new();
    let mut k: usize = 0;
    assert(strings_view(found@) =~= categories(grammar@, 0));
    while k < grammar.name_order.len()
        invariant
            k <= grammar.name_order.len(),
            strings_view(found@) == categories(grammar@, k as int),
        decreases grammar.name_order.len() - k,
    {
        let ghost before = strings_view(found@);
        match grammar.productions.get(grammar.name_order[k].as_str()) {
            Some(p) => {
                if !holds(&found, &p.category) {
                    found.push(p.category.clone());
                    assert(strings_view(found@) =~= before.push(p.category@));
                }
            },
            None => {},
        }
        k = k + 1;
    }
    found
}

/// The names of the productions of the category, in the order of
/// `name_order`.
pub fn names_in_category(grammar: &Grammar, category: &String) -> (names: Vec<String>)
    ensures
        strings_view(names@) == names_in(grammar@, category@, grammar.name_order.len() as int),
        grammar@.defines_all(strings_view(names@)),
{
    let mut names: Vec<String> = Vec::new();
    let mut k: usize = 0;
    assert(strings_view(names@) =~= names_in(grammar@, category@, 0));
    while k < grammar.name_order.len()
        invariant
            k <= grammar.name_order.len(),
            strings_view(names@) == names_in(grammar@, category@, k as int),
            grammar@.defines_all(strings_view(names@)),
        decreases grammar.name_order.len() - k,
    {
        let ghost before = strings_view(names@);
        let name = &grammar.name_order[k];
        match grammar.productions.get(name.as_str()) {
            Some(p) => {
                if p.category == *category {
                    names.push(name.clone());
                    assert(strings_view(names@) =~= before.push(name@));
                    assert forall|i: int|
                        0 <= i < strings_view(names@).len() implies grammar@.defines(
                        #[trigger] strings_view(names@)[i],
                    ) by {
                        if i < before.len() {
                            assert(strings_view(names@)[i] == before[i]);
                        }
                    }
                }
            },
            None => {},
        }
        k = k + 1;
    }
    names
}

/// The section of a category in the summary: its heading and the rendering
/// of its productions.
pub open spec fn category_section(
    g: GrammarView,
    category: Seq<char>,
    cx: RenderCtxView,
) -> Seq<char> {
    "\n## "@ + capitalized(category) + " summary\n\n"@ + names_html(
        g,
        names_in(g, category, g.name_order.len() as int),
        cx,
        category == "lexer"@,
    )
}

/// The sections of the first `k` of the categories.
pub open spec fn summary_sections(
    g: GrammarView,
    found: Seq<Seq<char>>,
    cx: RenderCtxView,
    k: int,
) -> Seq<char>
    decreases k,
{
    if k <= 0 || k > found.len() {
        Seq::empty()
    } else {
        summary_sections(g, found, cx, k - 1) + category_section(g, found[k - 1], cx)
    }
}

/// The summary of a grammar: the sections of its categories, in the order
/// in which the categories are first seen.
pub open spec fn summary_text(g: GrammarView, cx: RenderCtxView) -> Seq<char> {
    let found = categories(g, g.name_order.len() as int);
    summary_sections(g, found, cx, found.len() as int)
}

/// The names as a list of string slices.
fn as_strs(names: &Vec<String>) -> (r: Vec<&str>)
    ensures
        names_view(r@) == strings_view(names@),
{
    let mut r: Vec<&str> = Vec::new();
    let mut i: usize = 0;
    while i < names.len()
        invariant
            i <= names.len(),
            r.len() == i,
            forall|j: int| 0 <= j < i ==> (#[trigger] r[j])@ == names[j]@,
        decreases names.len() - i,
    {
        r.push(names[i].as_str());
        i = i + 1;
    }
    assert(names_view(r@) =~= strings_view(names@));
    r
}

/// Renders the summary of all productions, category by category.
pub fn render_summary(
    grammar: &Grammar,
    links: &Vec<Link>,
    for_summary: bool,
    chapter: &str,
    diag: &mut Diagnostics,
) -> (summary: String)
    requires
        grammar@.drawable(),
    ensures
        summary@ == summary_text(grammar@, page_ctx(links_view(links@), for_summary)),
        final(diag)@ == old(diag)@,
{
    let found = categories_of(grammar);
    let ghost cats = strings_view(found@);
    let ghost cx = page_ctx(links_view(links@), for_summary);
    let mut summary = String::new();
    let mut k: usize = 0;
    assert(summary@ =~= summary_sections(grammar@, cats, cx, 0));
    while k < found.len()
        invariant
            k <= found.len(),
            grammar@.drawable(),
            cats == strings_view(found@),
            cx == page_ctx(links_view(links@), for_summary),
            diag@ == old(diag)@,
            summary@ == summary_sections(grammar@, cats, cx, k as int),
        decreases found.len() - k,
    {
        let category = &found[k];
        let cap = capitalize(category.as_str());
        let ghost before = summary@;
        summary.append("\n## ");
        summary.append(cap.as_str());
        summary.append(" summary\n\n");
        let names = names_in_category(grammar, category);
        let strs = as_strs(&names);
        let for_lexer = same_text(category.as_str(), "lexer");
        proof {
            let all = strings_view(names@);
            assert(all.take(all.len() as int) =~= all);
            lemma_defined_prefix(grammar@, all, all.len() as int);
        }
        let s = render_names(
            grammar,
            strs.as_slice(),
            links,
            for_lexer,
            for_summary,
            chapter,
            diag,
        );
        summary.append(s.as_str());
        assert(summary@ =~= before + category_section(grammar@, category@, cx));
        k = k + 1;
    }
    summary
}

/// The placeholder in a page for the summary of the grammar.
pub open spec fn summary_placeholder() -> Seq<char> {
    "{{ grammar-summary }}"@
}

/// Inserts the summary of all grammar rules into the text of the grammar
/// summary page, in place of the placeholder.
pub fn insert_summary(
    grammar: &Grammar,
    links: &Vec<Link>,
    content: &str,
    for_summary: bool,
    chapter: &str,
    diag: &mut Diagnostics,
) -> (page: String)
    requires
        grammar@.drawable(),
    ensures
        page@ == replaced(
            content@,
            summary_placeholder(),
            summary_text(grammar@, page_ctx(links_view(links@), for_summary)),
        ),
        final(diag)@ == old(diag)@,
{
    let summary = render_summary(grammar, links, for_summary, chapter, diag);
    proof {
        reveal_strlit("{{ grammar-summary }}");
    }
    replace_text(content, "{{ grammar-summary }}", summary.as_str())
}

} // verus!
