//! What else a book of documentation gets besides its grammar: admonitions
//! from quoted blocks, and the anchors and test links of its rules.

use vstd::prelude::*;
use vstd::string::StringExecFns;
use crate::diagnostics::{Diagnostics, DiagnosticsView};
use crate::text::{
    chars_of, holds, lowercase, lowercase_of, same_text, strings_view, uppercase, uppercase_of,
};

verus! {

/// The text with its first character in upper case and the rest in lower
/// case.
pub open spec fn initial_case(s: Seq<char>) -> Seq<char>
    recommends
        s.len() > 0,
{
    uppercase(s[0]) + lowercase(s.skip(1))
}

/// Puts the first character in upper case and the rest in lower case.
pub fn to_initial_case(s: &str) -> (r: String)
    requires
        s@.len() > 0,
    ensures
        r@ == initial_case(s@),
{
    let chars = chars_of(s);
    let mut r = uppercase_of(chars[0]);
    let rest = crate::position::slice_string(&chars, 1, chars.len());
    assert(chars@.subrange(1, chars.len() as int) =~= s@.skip(1));
    let lower = lowercase_of(rest.as_str());
    r.append(lower.as_str());
    r
}

/// The icon of a note.
// This icon is from GitHub, MIT License, see https://github.com/primer/octicons
pub open spec fn icon_note() -> Seq<char> {
    "<path d=\"M0 8a8 8 0 1 1 16 0A8 8 0 0 1 0 8Zm8-6.5a6.5 6.5 0 1 0 0 13 6.5 6.5 0 0 0 0-13ZM6.5 7.75A.75.75 0 0 1 7.25 7h1a.75.75 0 0 1 .75.75v2.75h.25a.75.75 0 0 1 0 1.5h-2a.75.75 0 0 1 0-1.5h.25v-2h-.25a.75.75 0 0 1-.75-.75ZM8 6a1 1 0 1 1 0-2 1 1 0 0 1 0 2Z\"></path>"@
}

/// The icon of a warning.
// This icon is from GitHub, MIT License, see https://github.com/primer/octicons
pub open spec fn icon_warning() -> Seq<char> {
    "<path d=\"M6.457 1.047c.659-1.234 2.427-1.234 3.086 0l6.082 11.378A1.75 1.75 0 0 1 14.082 15H1.918a1.75 1.75 0 0 1-1.543-2.575Zm1.763.707a.25.25 0 0 0-.44 0L1.698 13.132a.25.25 0 0 0 .22.368h12.164a.25.25 0 0 0 .22-.368Zm.53 3.996v2.5a.75.75 0 0 1-1.5 0v-2.5a.75.75 0 0 1 1.5 0ZM9 11a1 1 0 1 1-2 0 1 1 0 0 1 2 0Z\"></path>"@
}

/// The icon of an example.
// This icon is from GitHub, MIT License, see https://github.com/primer/octicons
pub open spec fn icon_example() -> Seq<char> {
    "<path d=\"M8 0a8 8 0 1 1 0 16A8 8 0 0 1 8 0ZM1.5 8a6.5 6.5 0 1 0 13 0 6.5 6.5 0 0 0-13 0Zm4.879-2.773 4.264 2.559a.25.25 0 0 1 0 .428l-4.264 2.559A.25.25 0 0 1 6 10.559V5.442a.25.25 0 0 1 .379-.215Z\"></path>"@
}

/// The number of spaces at the front of the text.
pub open spec fn leading_spaces(s: Seq<char>) -> nat
    decreases s.len(),
{
    if s.len() > 0 && s[0] == ' ' {
        1 + leading_spaces(s.skip(1))
    } else {
        0
    }
}

/// An admonition: the quoted block in a `div` of the class, under a title.
/// It is indented as the quoted block is.
pub open spec fn admonition_div(
    blockquote: Seq<char>,
    class: Seq<char>,
    title: Seq<char>,
) -> Seq<char> {
    let space = blockquote.take(leading_spaces(blockquote) as int);
    space + "<div class=\"alert alert-"@ + class + "\">\n\n"@ + space
        + "> <p class=\"alert-title\">"@ + title + "</p>\n"@ + space + " >\n"@ + blockquote
        + "\n\n"@ + space + "</div>\n"@
}

/// The kinds of admonitions.
pub enum AdmonitionKind {
    /// `edition-` and an edition: a difference between editions.
    Edition(Seq<char>),
    /// A note.
    Note,
    /// A warning.
    Warning,
    /// An example.
    Example,
    /// Anything else.
    Unknown,
}

/// The kind that the lowercase form of the header stands for.
pub open spec fn admonition_kind(lower: Seq<char>) -> AdmonitionKind {
    if lower.len() >= 8 && lower.take(8) == "edition-"@ {
        AdmonitionKind::Edition(lower.skip(8))
    } else if lower == "note"@ {
        AdmonitionKind::Note
    } else if lower == "warning"@ {
        AdmonitionKind::Warning
    } else if lower == "example"@ {
        AdmonitionKind::Example
    } else {
        AdmonitionKind::Unknown
    }
}

/// The title with an icon before it.
pub open spec fn icon_title(icon: Seq<char>, term: Seq<char>) -> Seq<char> {
    "<svg viewBox=\"0 0 16 16\" width=\"18\" height=\"18\">"@ + icon + "</svg>"@ + term
}

/// The admonition for a quoted block under the header `admon`.
pub open spec fn admonition_html(admon: Seq<char>, blockquote: Seq<char>) -> Seq<char> {
    let lower = lowercase(admon);
    match admonition_kind(lower) {
        AdmonitionKind::Edition(edition) => admonition_div(
            blockquote,
            "edition"@,
            "<span class=\"alert-title-edition\">"@ + edition + "</span> Edition differences"@,
        ),
        AdmonitionKind::Note => admonition_div(
            blockquote,
            lower,
            icon_title(icon_note(), initial_case(admon)),
        ),
        AdmonitionKind::Warning => admonition_div(
            blockquote,
            lower,
            icon_title(icon_warning(), initial_case(admon)),
        ),
        AdmonitionKind::Example => admonition_div(
            blockquote,
            lower,
            icon_title(icon_example(), initial_case(admon)),
        ),
        AdmonitionKind::Unknown => admonition_div(
            blockquote,
            lower,
            icon_title(Seq::empty(), initial_case(admon)),
        ),
    }
}

/// The diagnostic for a header that stands for no kind of admonition.
pub open spec fn unknown_admonition_text(lower: Seq<char>, chapter: Seq<char>) -> Seq<char> {
    "admonition `"@ + lower + "` in \""@ + chapter + "\" is incorrect or not yet supported"@
}

/// The diagnostics after an admonition has been rendered: one more where
/// its header stands for no kind.
pub open spec fn admonition_report(
    d: DiagnosticsView,
    admon: Seq<char>,
    chapter: Seq<char>,
) -> DiagnosticsView {
    if admonition_kind(lowercase(admon)) is Unknown {
        d.emit(unknown_admonition_text(lowercase(admon), chapter))
    } else {
        d
    }
}

/// Appends an admonition `div`.
fn push_admonition_div(out: &mut String, blockquote: &str, class: &str, title: &str)
    ensures
        final(out)@ == old(out)@ + admonition_div(blockquote@, class@, title@),
{
    let chars = chars_of(blockquote);
    let mut n: usize = 0;
    assert(chars@.skip(0) =~= chars@);
    while n < chars.len() && chars[n] == ' '
        invariant
            n <= chars.len(),
            leading_spaces(chars@) == n + leading_spaces(chars@.skip(n as int)),
        decreases chars.len() - n,
    {
        assert(chars@.skip(n as int).skip(1) =~= chars@.skip(n + 1));
        n = n + 1;
    }
    let space = crate::position::slice_string(&chars, 0, n);
    assert(chars@.subrange(0, n as int) =~= blockquote@.take(n as int));
    out.append(space.as_str());
    out.append("<div class=\"alert alert-");
    out.append(class);
    out.append("\">\n\n");
    out.append(space.as_str());
    out.append("> <p class=\"alert-title\">");
    out.append(title);
    out.append("</p>\n");
    out.append(space.as_str());
    out.append(" >\n");
    out.append(blockquote);
    out.append("\n\n");
    out.append(space.as_str());
    out.append("</div>\n");
    assert(out@ =~= old(out)@ + admonition_div(blockquote@, class@, title@));
}

/// The title with an icon before it.
fn make_icon_title(icon: &str, term: &str) -> (title: String)
    ensures
        title@ == icon_title(icon@, term@),
{
    let mut title = String::from_str("<svg viewBox=\"0 0 16 16\" width=\"18\" height=\"18\">");
    title.append(icon);
    title.append("</svg>");
    title.append(term);
    title
}

/// Converts a quoted block with the header `admon` into an admonition: a
/// `div` of the header's class around the block, with a title and an icon.
/// A header that stands for no kind is reported, and gets no icon.
pub fn render_admonition(admon: &str, blockquote: &str, chapter: &str, diag: &mut Diagnostics) -> (html:
    String)
    requires
        admon@.len() > 0,
    ensures
        html@ == admonition_html(admon@, blockquote@),
        final(diag)@ == admonition_report(old(diag)@, admon@, chapter@),
{
    let lower = lowercase_of(admon);
    let chars = chars_of(lower.as_str());
    let mut html = String::new();
    proof {
        reveal_strlit("edition-");
    }
    if chars.len() >= 8 && same_text(
        crate::position::slice_string(&chars, 0, 8).as_str(),
        "edition-",
    ) {
        assert(chars@.subrange(0, 8) =~= lower@.take(8));
        let edition = crate::position::slice_string(&chars, 8, chars.len());
        assert(chars@.subrange(8, chars.len() as int) =~= lower@.skip(8));
        let mut title = String::from_str("<span class=\"alert-title-edition\">");
        title.append(edition.as_str());
        title.append("</span> Edition differences");
        push_admonition_div(&mut html, blockquote, "edition", title.as_str());
        return html;
    }
    proof {
        if chars.len() >= 8 {
            assert(chars@.subrange(0, 8) =~= lower@.take(8));
        }
    }
    let term = to_initial_case(admon);
    let title = if same_text(lower.as_str(), "note") {
        make_icon_title(
            "<path d=\"M0 8a8 8 0 1 1 16 0A8 8 0 0 1 0 8Zm8-6.5a6.5 6.5 0 1 0 0 13 6.5 6.5 0 0 0 0-13ZM6.5 7.75A.75.75 0 0 1 7.25 7h1a.75.75 0 0 1 .75.75v2.75h.25a.75.75 0 0 1 0 1.5h-2a.75.75 0 0 1 0-1.5h.25v-2h-.25a.75.75 0 0 1-.75-.75ZM8 6a1 1 0 1 1 0-2 1 1 0 0 1 0 2Z\"></path>",
            term.as_str(),
        )
    } else if same_text(lower.as_str(), "warning") {
        make_icon_title(
            "<path d=\"M6.457 1.047c.659-1.234 2.427-1.234 3.086 0l6.082 11.378A1.75 1.75 0 0 1 14.082 15H1.918a1.75 1.75 0 0 1-1.543-2.575Zm1.763.707a.25.25 0 0 0-.44 0L1.698 13.132a.25.25 0 0 0 .22.368h12.164a.25.25 0 0 0 .22-.368Zm.53 3.996v2.5a.75.75 0 0 1-1.5 0v-2.5a.75.75 0 0 1 1.5 0ZM9 11a1 1 0 1 1-2 0 1 1 0 0 1 2 0Z\"></path>",
            term.as_str(),
        )
    } else if same_text(lower.as_str(), "example") {
        make_icon_title(
            "<path d=\"M8 0a8 8 0 1 1 0 16A8 8 0 0 1 8 0ZM1.5 8a6.5 6.5 0 1 0 13 0 6.5 6.5 0 0 0-13 0Zm4.879-2.773 4.264 2.559a.25.25 0 0 1 0 .428l-4.264 2.559A.25.25 0 0 1 6 10.559V5.442a.25.25 0 0 1 .379-.215Z\"></path>",
            term.as_str(),
        )
    } else {
        let mut message = String::from_str("admonition `");
        message.append(lower.as_str());
        message.append("` in \"");
        message.append(chapter);
        message.append("\" is incorrect or not yet supported");
        assert(message@ =~= unknown_admonition_text(lower@, chapter@));
        diag.warn_or_err(message.as_str());
        let empty = String::new();
        let title = make_icon_title(empty.as_str(), term.as_str());
        assert(empty@ =~= Seq::<char>::empty());
        title
    };
    push_admonition_div(&mut html, blockquote, lower.as_str(), title.as_str());
    html
}

/// The line of the text that holds the byte at `start`.
pub fn line_from_range(contents: &str, start: usize) -> (line: String)
    requires
        crate::syntax::byte_len(contents@) < usize::MAX,
        start < crate::syntax::byte_len(contents@),
        crate::syntax::position_of(contents@, start as int).2 != 0,
    ensures
        line@ == crate::syntax::position_of(contents@, start as int).0,
{
    let (line, _, _) = crate::position::translate_position(contents, start);
    line
}

/// A test in the test suite of the language.
#[derive(Debug)]
pub struct Test {
    pub path: String,
}

/// Where a rule is defined.
#[derive(Debug)]
pub struct RuleDef {
    /// The rule identifier.
    pub id: String,
    /// The path to the markdown source file.
    pub source_path: String,
    /// The same as `source_path`, except that a file such as `README.md`
    /// goes by the name `index.md`: the path for links in the output.
    pub path: String,
}

/// Model of a [`RuleDef`].
pub struct RuleDefView {
    pub id: Seq<char>,
    pub source_path: Seq<char>,
    pub path: Seq<char>,
}

impl View for RuleDef {
    type V = RuleDefView;

    open spec fn view(&self) -> RuleDefView {
        RuleDefView { id: self.id@, source_path: self.source_path@, path: self.path@ }
    }
}

/// The set of rules defined in a book.
#[derive(Debug)]
pub struct Rules {
    /// The rule identifiers with the places of their definitions, in the
    /// order in which the identifiers were first defined.
    pub def_paths: Vec<RuleDef>,
    /// Rule name prefixes that have more specific rules within, each once.
    ///
    /// For example, `asm.ts-args` is an interior prefix of `asm.ts-args.syntax`.
    pub interior_prefixes: Vec<String>,
}

/// Model of a [`Rules`].
pub struct RulesView {
    pub def_paths: Seq<RuleDefView>,
    pub interior_prefixes: Seq<Seq<char>>,
}

/// The models of a list of definitions, in order.
pub open spec fn defs_view(defs: Seq<RuleDef>) -> Seq<RuleDefView> {
    Seq::new(defs.len(), |i: int| defs[i]@)
}

impl View for Rules {
    type V = RulesView;

    open spec fn view(&self) -> RulesView {
        RulesView {
            def_paths: defs_view(self.def_paths@),
            interior_prefixes: strings_view(self.interior_prefixes@),
        }
    }
}

/// The place of the first definition of the identifier, or the number of
/// definitions where there is none.
pub open spec fn def_index(defs: Seq<RuleDefView>, id: Seq<char>) -> int
    decreases defs.len(),
{
    if defs.len() == 0 {
        0
    } else if defs[0].id == id {
        0
    } else {
        1 + def_index(defs.drop_first(), id)
    }
}

/// The prefixes of the text that end before one of the dots among its first
/// `k` characters, shortest first.
pub open spec fn dot_prefixes(id: Seq<char>, k: int) -> Seq<Seq<char>>
    decreases k,
{
    if k <= 0 || k > id.len() {
        Seq::empty()
    } else if id[k - 1] == '.' {
        dot_prefixes(id, k - 1).push(id.take(k - 1))
    } else {
        dot_prefixes(id, k - 1)
    }
}

/// The interior prefixes of a rule identifier: the empty prefix, and the
/// prefixes that end before one of its dots.
pub open spec fn interior_prefixes_of(id: Seq<char>) -> Seq<Seq<char>> {
    seq![Seq::<char>::empty()] + dot_prefixes(id, id.len() as int)
}

/// The interior prefixes of a rule identifier.
pub fn interior_prefixes(rule_id: &str) -> (prefixes: Vec<String>)
    ensures
        strings_view(prefixes@) == interior_prefixes_of(rule_id@),
{
    let chars = chars_of(rule_id);
    let mut prefixes: Vec<String> = Vec::new();
    prefixes.push(String::new());
    let mut k: usize = 0;
    assert(strings_view(prefixes@) =~= seq![Seq::<char>::empty()] + dot_prefixes(rule_id@, 0));
    while k < chars.len()
        invariant
            k <= chars.len(),
            chars@ == rule_id@,
            strings_view(prefixes@) == seq![Seq::<char>::empty()] + dot_prefixes(rule_id@, k as int),
        decreases chars.len() - k,
    {
        let ghost before = strings_view(prefixes@);
        if chars[k] == '.' {
            let prefix = crate::position::slice_string(&chars, 0, k);
            assert(chars@.subrange(0, k as int) =~= rule_id@.take(k as int));
            prefixes.push(prefix);
            assert(strings_view(prefixes@) =~= before.push(rule_id@.take(k as int)));
        }
        k = k + 1;
        assert(strings_view(prefixes@) =~= seq![Seq::<char>::empty()] + dot_prefixes(
            rule_id@,
            k as int,
        ));
    }
    prefixes
}

/// The diagnostic for a rule that is defined a second time.
pub open spec fn duplicate_rule_text(id: Seq<char>, first: Seq<char>, second: Seq<char>) -> Seq<
    char,
> {
    "rule `"@ + id + "` defined multiple times\nFirst location: \""@ + first
        + "\"\nSecond location: \""@ + second + "\""@
}

/// The texts of `list`, and after them those of `more` that are new, each
/// once.
pub open spec fn joined_once(list: Seq<Seq<char>>, more: Seq<Seq<char>>) -> Seq<Seq<char>>
    decreases more.len(),
{
    if more.len() == 0 {
        list
    } else if joined_once(list, more.drop_last()).contains(more.last()) {
        joined_once(list, more.drop_last())
    } else {
        joined_once(list, more.drop_last()).push(more.last())
    }
}

impl RulesView {
    /// The definitions after the rule has been defined at the place: the
    /// new place stands in for an earlier one of the same rule; a new rule
    /// comes last.
    pub open spec fn defined(self, def: RuleDefView) -> Seq<RuleDefView> {
        let at = def_index(self.def_paths, def.id);
        if at < self.def_paths.len() {
            self.def_paths.update(at, def)
        } else {
            self.def_paths.push(def)
        }
    }

    /// The diagnostics after the rule has been defined at the place: one
    /// more where the rule was defined before, which names both places.
    pub open spec fn define_report(self, d: DiagnosticsView, def: RuleDefView) -> DiagnosticsView {
        let at = def_index(self.def_paths, def.id);
        if at < self.def_paths.len() {
            d.emit(duplicate_rule_text(def.id, self.def_paths[at].source_path, def.source_path))
        } else {
            d
        }
    }
}

impl Rules {
    /// No rule.
    pub fn new() -> (rules: Rules)
        ensures
            rules@.def_paths =~= Seq::empty(),
            rules@.interior_prefixes =~= Seq::empty(),
    {
        Rules { def_paths: Vec::new(), interior_prefixes: Vec::new() }
    }

    /// Takes the definition of a rule at a place. Where the rule was
    /// defined before, the new place stands in for the old one, and a
    /// diagnostic names both places. The interior prefixes of the rule are
    /// taken too.
    pub fn define(&mut self, def: RuleDef, diag: &mut Diagnostics)
        ensures
            final(self)@.def_paths == old(self)@.defined(def@),
            final(diag)@ == old(self)@.define_report(old(diag)@, def@),
            final(self)@.interior_prefixes == joined_once(
                old(self)@.interior_prefixes,
                interior_prefixes_of(def@.id),
            ),
    {
        let ghost defs = defs_view(self.def_paths@);
        let ghost given = def@;
        let prefixes = interior_prefixes(def.id.as_str());
        let mut at: usize = 0;
        assert(defs.skip(0) =~= defs);
        while at < self.def_paths.len() && !(self.def_paths[at].id == def.id)
            invariant
                at <= self.def_paths.len(),
                defs == defs_view(self.def_paths@),
                def_index(defs, def@.id) == at + def_index(defs.skip(at as int), def@.id),
            decreases self.def_paths.len() - at,
        {
            assert(defs.skip(at as int).drop_first() =~= defs.skip(at + 1));
            at = at + 1;
        }
        if at < self.def_paths.len() {
            let mut message = String::from_str("rule `");
            message.append(def.id.as_str());
            message.append("` defined multiple times\nFirst location: \"");
            message.append(self.def_paths[at].source_path.as_str());
            message.append("\"\nSecond location: \"");
            message.append(def.source_path.as_str());
            message.append("\"");
            assert(message@ =~= duplicate_rule_text(
                def@.id,
                defs[at as int].source_path,
                def@.source_path,
            ));
            diag.warn_or_err(message.as_str());
            self.def_paths.set(at, def);
            assert(defs_view(self.def_paths@) =~= defs.update(at as int, given));
        } else {
            self.def_paths.push(def);
            assert(defs_view(self.def_paths@) =~= defs.push(given));
        }
        let ghost more = strings_view(prefixes@);
        let ghost start = strings_view(self.interior_prefixes@);
        let mut k: usize = 0;
        assert(more.take(0) =~= Seq::empty());
        while k < prefixes.len()
            invariant
                k <= prefixes.len(),
                more == strings_view(prefixes@),
                defs_view(self.def_paths@) == old(self)@.defined(given),
                strings_view(self.interior_prefixes@) == joined_once(start, more.take(k as int)),
            decreases prefixes.len() - k,
        {
            let ghost before = strings_view(self.interior_prefixes@);
            proof {
                assert(more.take(k + 1).drop_last() =~= more.take(k as int));
                assert(more.take(k + 1).last() == prefixes[k as int]@);
            }
            if !holds(&self.interior_prefixes, &prefixes[k]) {
                self.interior_prefixes.push(prefixes[k].clone());
                assert(strings_view(self.interior_prefixes@) =~= before.push(prefixes[k as int]@));
            }
            k = k + 1;
        }
        assert(more.take(prefixes.len() as int) =~= more);
    }
}

/// The rules of a chapter.
#[derive(Debug)]
pub struct ChapterRules {
    /// The path of the chapter.
    pub path: String,
    /// The identifiers of the rules that are defined in the chapter.
    pub rules: Vec<String>,
}

/// The identifiers of those among the first `k` definitions that are at
/// the path, in order.
pub open spec fn rules_at(defs: Seq<RuleDefView>, path: Seq<char>, k: int) -> Seq<Seq<char>>
    decreases k,
{
    if k <= 0 || k > defs.len() {
        Seq::empty()
    } else if defs[k - 1].path == path {
        rules_at(defs, path, k - 1).push(defs[k - 1].id)
    } else {
        rules_at(defs, path, k - 1)
    }
}

/// The paths of the first `k` definitions, in order.
pub open spec fn def_paths_of(defs: Seq<RuleDefView>, k: int) -> Seq<Seq<char>>
    decreases k,
{
    if k <= 0 || k > defs.len() {
        Seq::empty()
    } else {
        def_paths_of(defs, k - 1).push(defs[k - 1].path)
    }
}

/// Inverts the rules: for each chapter path the rules that are defined in
/// that chapter. The chapters come in the order in which their paths are
/// first seen, the rules of a chapter in the order of `def_paths`.
pub fn invert_rule_map(rules: &Rules) -> (chapters: Vec<ChapterRules>)
    ensures
        chapters.len() == crate::validate::deduped(
            def_paths_of(rules@.def_paths, rules.def_paths.len() as int),
        ).len(),
        forall|i: int|
            0 <= i < chapters.len() ==> (#[trigger] chapters[i]).path@ == crate::validate::deduped(
                def_paths_of(rules@.def_paths, rules.def_paths.len() as int),
            )[i] && strings_view(chapters[i].rules@) == rules_at(
                rules@.def_paths,
                chapters[i].path@,
                rules.def_paths.len() as int,
            ),
{
    let ghost defs = rules@.def_paths;
    let mut all: Vec<String> = Vec::new();
    let mut k: usize = 0;
    assert(strings_view(all@) =~= def_paths_of(defs, 0));
    while k < rules.def_paths.len()
        invariant
            k <= rules.def_paths.len(),
            defs == rules@.def_paths,
            strings_view(all@) == def_paths_of(defs, k as int),
        decreases rules.def_paths.len() - k,
    {
        let ghost before = strings_view(all@);
        all.push(rules.def_paths[k].path.clone());
        assert(strings_view(all@) =~= before.push(defs[k as int].path));
        k = k + 1;
    }
    let paths = crate::validate::dedup(&all);
    let mut chapters: Vec<ChapterRules> = Vec::new();
    let mut i: usize = 0;
    while i < paths.len()
        invariant
            i <= paths.len(),
            defs == rules@.def_paths,
            chapters.len() == i,
            forall|j: int|
                0 <= j < i ==> (#[trigger] chapters[j]).path@ == paths[j]@ && strings_view(
                    chapters[j].rules@,
                ) == rules_at(defs, paths[j]@, rules.def_paths.len() as int),
        decreases paths.len() - i,
    {
        let path = &paths[i];
        let mut ids: Vec<String> = Vec::new();
        let mut k: usize = 0;
        assert(strings_view(ids@) =~= rules_at(defs, path@, 0));
        while k < rules.def_paths.len()
            invariant
                k <= rules.def_paths.len(),
                defs == rules@.def_paths,
                strings_view(ids@) == rules_at(defs, path@, k as int),
            decreases rules.def_paths.len() - k,
        {
            let ghost before = strings_view(ids@);
            if rules.def_paths[k].path == *path {
                ids.push(rules.def_paths[k].id.clone());
                assert(strings_view(ids@) =~= before.push(defs[k as int].id));
            }
            k = k + 1;
        }
        chapters.push(ChapterRules { path: path.clone(), rules: ids });
        i = i + 1;
    }
    chapters
}

/// The link to the tests of a rule.
pub open spec fn test_link_html(rule_id: Seq<char>) -> Seq<char> {
    "<br><div class=\"test-link\">\n<a href=\"javascript:void(0)\" onclick=\"spec_toggle_tests('"@
        + rule_id + "');\"><span>Tests</span></a></div>\n"@
}

/// The list items of the first `k` tests of a rule.
pub open spec fn test_items_html(tests: Seq<Seq<char>>, git_ref: Seq<char>, k: int) -> Seq<char>
    decreases k,
{
    if k <= 0 || k > tests.len() {
        Seq::empty()
    } else {
        test_items_html(tests, git_ref, k - 1)
            + "<li><a href=\"https://github.com/rust-lang/rust/blob/"@ + git_ref + "/"@ + tests[k
            - 1] + "\">"@ + tests[k - 1] + "</a></li>\n"@
    }
}

/// The list of the tests of a rule, which is shown on demand.
pub open spec fn test_popup_html(
    rule_id: Seq<char>,
    tests: Seq<Seq<char>>,
    git_ref: Seq<char>,
) -> Seq<char> {
    "<div id=\"tests-"@ + rule_id + "\" class=\"tests-popup popup-hidden\">\nTests with this rule:\n<ul>"@
        + test_items_html(tests, git_ref, tests.len() as int) + "</ul></div>"@
}

/// The anchor of a rule, with the link to its tests and their list where it
/// has tests. The identifier is shown with a break opportunity before each
/// dot.
pub open spec fn rule_definition_html(
    rule_id: Seq<char>,
    tests: Option<Seq<Seq<char>>>,
    git_ref: Seq<char>,
) -> Seq<char> {
    "<div class=\"rule\" id=\"r-"@ + rule_id + "\"><a class=\"rule-link\" href=\"#r-"@ + rule_id
        + "\" title=\""@ + rule_id + "\"><span>["@ + crate::text::replaced(
        rule_id,
        "."@,
        "<wbr>."@,
    ) + "]</span/></a>\n"@ + (match tests {
        Some(_) => test_link_html(rule_id),
        None => Seq::empty(),
    }) + "</div>\n"@ + (match tests {
        Some(ts) => test_popup_html(rule_id, ts, git_ref),
        None => Seq::empty(),
    }) + "\n"@
}

/// The paths of a list of tests, in order.
pub open spec fn test_paths(tests: Seq<Test>) -> Seq<Seq<char>> {
    Seq::new(tests.len(), |i: int| tests[i].path@)
}

/// The paths of the tests, if there are any.
pub open spec fn optional_test_paths(tests: Option<&Vec<Test>>) -> Option<Seq<Seq<char>>> {
    match tests {
        Some(ts) => Some(test_paths(ts@)),
        None => None,
    }
}

/// Renders the anchor of a rule, which has special styling and can be
/// linked to, with the tests of the rule where it has any.
pub fn render_rule_definition(rule_id: &str, tests: Option<&Vec<Test>>, git_ref: &str) -> (html:
    String)
    ensures
        html@ == rule_definition_html(rule_id@, optional_test_paths(tests), git_ref@),
{
    proof {
        reveal_strlit(".");
    }
    let broken = crate::text::replace_text(rule_id, ".", "<wbr>.");
    let mut html = String::from_str("<div class=\"rule\" id=\"r-");
    html.append(rule_id);
    html.append("\"><a class=\"rule-link\" href=\"#r-");
    html.append(rule_id);
    html.append("\" title=\"");
    html.append(rule_id);
    html.append("\"><span>[");
    html.append(broken.as_str());
    html.append("]</span/></a>\n");
    match tests {
        Some(ts) => {
            html.append(
                "<br><div class=\"test-link\">\n<a href=\"javascript:void(0)\" onclick=\"spec_toggle_tests('",
            );
            html.append(rule_id);
            html.append("');\"><span>Tests</span></a></div>\n");
            html.append("</div>\n");
            html.append("<div id=\"tests-");
            html.append(rule_id);
            html.append("\" class=\"tests-popup popup-hidden\">\nTests with this rule:\n<ul>");
            let ghost head = html@;
            let ghost paths = test_paths(ts@);
            let mut k: usize = 0;
            assert(html@ =~= head + test_items_html(paths, git_ref@, 0));
            while k < ts.len()
                invariant
                    k <= ts.len(),
                    paths == test_paths(ts@),
                    html@ == head + test_items_html(paths, git_ref@, k as int),
                decreases ts.len() - k,
            {
                html.append("<li><a href=\"https://github.com/rust-lang/rust/blob/");
                html.append(git_ref);
                html.append("/");
                html.append(ts[k].path.as_str());
                html.append("\">");
                html.append(ts[k].path.as_str());
                html.append("</a></li>\n");
                k = k + 1;
                assert(html@ =~= head + test_items_html(paths, git_ref@, k as int));
            }
            html.append("</ul></div>");
            html.append("\n");
            assert(html@ =~= rule_definition_html(rule_id@, Some(paths), git_ref@));
        },
        None => {
            html.append("</div>\n");
            html.append("\n");
            assert(html@ =~= rule_definition_html(rule_id@, None, git_ref@));
        },
    }
    html
}

/// The tests of each rule that has tests, by the rule's identifier.
pub struct RuleToTests {
    pub tests: vstd::hash_map::StringHashMap<Vec<Test>>,
}

impl RuleToTests {
    /// The number of tests of the rule.
    pub open spec fn count(&self, rule: Seq<char>) -> nat {
        if self.tests@.contains_key(rule) {
            self.tests@[rule]@.len()
        } else {
            0
        }
    }

    /// The number of tests of the first `k` rules together.
    pub open spec fn total(&self, rules: Seq<Seq<char>>, k: int) -> nat
        decreases k,
    {
        if k <= 0 || k > rules.len() {
            0
        } else {
            self.total(rules, k - 1) + self.count(rules[k - 1])
        }
    }

    /// Those of the first `k` rules that have no entry, in order.
    pub open spec fn uncovered(&self, rules: Seq<Seq<char>>, k: int) -> Seq<Seq<char>>
        decreases k,
    {
        if k <= 0 || k > rules.len() {
            Seq::empty()
        } else if self.tests@.contains_key(rules[k - 1]) {
            self.uncovered(rules, k - 1)
        } else {
            self.uncovered(rules, k - 1).push(rules[k - 1])
        }
    }

    /// No test.
    pub fn new() -> (map: RuleToTests)
        ensures
            map.tests@ == Map::<Seq<char>, Vec<Test>>::empty(),
    {
        RuleToTests { tests: vstd::hash_map::StringHashMap::new() }
    }

    /// The tests of the rule, if it has an entry.
    pub fn get(&self, rule: &str) -> (tests: Option<&Vec<Test>>)
        ensures
            match tests {
                Some(ts) => self.tests@.contains_key(rule@) && *ts == self.tests@[rule@],
                None => !self.tests@.contains_key(rule@),
            },
    {
        self.tests.get(rule)
    }

    /// The number of tests of the rules together, and the rules among them
    /// that have no entry.
    pub fn coverage(&self, rules: &Vec<String>) -> (r: (usize, Vec<String>))
        requires
            self.total(strings_view(rules@), rules.len() as int) <= usize::MAX,
        ensures
            r.0 == self.total(strings_view(rules@), rules.len() as int),
            strings_view(r.1@) == self.uncovered(strings_view(rules@), rules.len() as int),
    {
        let ghost all = strings_view(rules@);
        let mut num_tests: usize = 0;
        let mut uncovered: Vec<String> = Vec::new();
        let mut k: usize = 0;
        assert(strings_view(uncovered@) =~= self.uncovered(all, 0));
        while k < rules.len()
            invariant
                k <= rules.len(),
                all == strings_view(rules@),
                self.total(all, rules.len() as int) <= usize::MAX,
                num_tests == self.total(all, k as int),
                strings_view(uncovered@) == self.uncovered(all, k as int),
            decreases rules.len() - k,
        {
            let ghost before = strings_view(uncovered@);
            proof {
                self.lemma_total_grows(all, k + 1, rules.len() as int);
            }
            match self.tests.get(rules[k].as_str()) {
                Some(ts) => {
                    num_tests = num_tests + ts.len();
                },
                None => {
                    uncovered.push(rules[k].clone());
                    assert(strings_view(uncovered@) =~= before.push(rules[k as int]@));
                },
            }
            k = k + 1;
        }
        (num_tests, uncovered)
    }

    /// More rules have no fewer tests together.
    proof fn lemma_total_grows(&self, rules: Seq<Seq<char>>, k: int, n: int)
        requires
            0 <= k <= n <= rules.len(),
        ensures
            self.total(rules, k) <= self.total(rules, n),
        decreases n - k,
    {
        if k < n {
            self.lemma_total_grows(rules, k, n - 1);
        }
    }
}

/// The head of the table that sums up how the tests cover the rules.
pub open spec fn table_start() -> Seq<char> {
    "\n<table>\n<tr>\n  <th></th>\n  <th>Rules</th>\n  <th>Tests</th>\n  <th>Uncovered Rules</th>\n  <th>Coverage</th>\n</tr>\n"@
}

/// The head of the table that sums up how the tests cover the rules.
pub fn render_table_start() -> (head: String)
    ensures
        head@ == table_start(),
{
    String::from_str(
        "\n<table>\n<tr>\n  <th></th>\n  <th>Rules</th>\n  <th>Tests</th>\n  <th>Uncovered Rules</th>\n  <th>Coverage</th>\n</tr>\n",
    )
}

/// The list items of the first `k` uncovered rules of a chapter.
pub open spec fn uncovered_items_html(html_path: Seq<char>, rules: Seq<Seq<char>>, k: int) -> Seq<
    char,
>
    decreases k,
{
    if k <= 0 || k > rules.len() {
        Seq::empty()
    } else {
        uncovered_items_html(html_path, rules, k - 1) + "<li><a href=\""@ + html_path + "#r-"@
            + rules[k - 1] + "\">"@ + rules[k - 1] + "</a></li>\n"@
    }
}

/// The cell for the uncovered rules of a chapter: `0` where there is none,
/// else their number, with the list of them to be shown on demand.
pub open spec fn uncovered_html(item_index: nat, html_path: Seq<char>, rules: Seq<Seq<char>>) -> Seq<
    char,
> {
    if rules.len() == 0 {
        "0"@
    } else {
        "<div class=\"popup-container\">\n<a href=\"javascript:void(0)\" onclick=\"spec_toggle_uncovered("@
            + crate::text::decimal(item_index) + ");\">"@ + crate::text::decimal(rules.len())
            + "</a>\n<div id=\"uncovered-"@ + crate::text::decimal(item_index)
            + "\" class=\"uncovered-rules-popup popup-hidden\">\nUncovered rules\n                        <ul>"@
            + uncovered_items_html(html_path, rules, rules.len() as int) + "</ul></div></div>"@
    }
}

/// Renders the cell for the uncovered rules of a chapter.
pub fn render_uncovered(item_index: usize, html_path: &str, rules: &Vec<String>) -> (html: String)
    ensures
        html@ == uncovered_html(item_index as nat, html_path@, strings_view(rules@)),
{
    if rules.len() == 0 {
        return String::from_str("0");
    }
    let ghost all = strings_view(rules@);
    let mut html = String::from_str(
        "<div class=\"popup-container\">\n<a href=\"javascript:void(0)\" onclick=\"spec_toggle_uncovered(",
    );
    crate::text::push_decimal(&mut html, item_index as u64);
    html.append(");\">");
    crate::text::push_decimal(&mut html, rules.len() as u64);
    html.append("</a>\n<div id=\"uncovered-");
    crate::text::push_decimal(&mut html, item_index as u64);
    html.append(
        "\" class=\"uncovered-rules-popup popup-hidden\">\nUncovered rules\n                        <ul>",
    );
    let ghost head = html@;
    let mut k: usize = 0;
    assert(html@ =~= head + uncovered_items_html(html_path@, all, 0));
    while k < rules.len()
        invariant
            k <= rules.len(),
            all == strings_view(rules@),
            html@ == head + uncovered_items_html(html_path@, all, k as int),
        decreases rules.len() - k,
    {
        html.append("<li><a href=\"");
        html.append(html_path);
        html.append("#r-");
        html.append(rules[k].as_str());
        html.append("\">");
        html.append(rules[k].as_str());
        html.append("</a></li>\n");
        k = k + 1;
        assert(html@ =~= head + uncovered_items_html(html_path@, all, k as int));
    }
    html.append("</ul></div></div>");
    assert(html@ =~= uncovered_html(item_index as nat, html_path@, all));
    html
}

/// A row of the table: the chapter as a link, indented by its level, and
/// its numbers.
pub open spec fn table_row(
    html_path: Seq<char>,
    level: nat,
    number: Seq<char>,
    name: Seq<char>,
    num_rules: nat,
    num_tests: Seq<char>,
    uncovered: Seq<char>,
    coverage: Seq<char>,
) -> Seq<char> {
    "<tr>\n<td><a href=\""@ + html_path + "\">"@ + crate::text::repeated("&nbsp;"@, level * 6)
        + number + " "@ + name + "</a></td>\n<td>"@ + crate::text::decimal(num_rules)
        + "</td>\n<td>"@ + num_tests + "</td>\n<td>"@ + uncovered + "</td>\n<td>"@ + coverage
        + "</td>\n</tr>\n"@
}

/// Renders a row of the table.
pub fn render_table_row(
    html_path: &str,
    level: usize,
    number: &str,
    name: &str,
    num_rules: usize,
    num_tests: &str,
    uncovered: &str,
    coverage: &str,
) -> (row: String)
    requires
        level * 6 <= usize::MAX,
    ensures
        row@ == table_row(
            html_path@,
            level as nat,
            number@,
            name@,
            num_rules as nat,
            num_tests@,
            uncovered@,
            coverage@,
        ),
{
    let mut row = String::from_str("<tr>\n<td><a href=\"");
    row.append(html_path);
    row.append("\">");
    crate::text::push_repeated(&mut row, "&nbsp;", level * 6);
    row.append(number);
    row.append(" ");
    row.append(name);
    row.append("</a></td>\n<td>");
    crate::text::push_decimal(&mut row, num_rules as u64);
    row.append("</td>\n<td>");
    row.append(num_tests);
    row.append("</td>\n<td>");
    row.append(uncovered);
    row.append("</td>\n<td>");
    row.append(coverage);
    row.append("</td>\n</tr>\n");
    assert(row@ =~= table_row(
        html_path@,
        level as nat,
        number@,
        name@,
        num_rules as nat,
        num_tests@,
        uncovered@,
        coverage@,
    ));
    row
}

/// The last row of the table, with the totals, and the end of the table.
pub open spec fn table_end(rules: nat, tests: nat, uncovered: nat, coverage: Seq<char>) -> Seq<
    char,
> {
    "<tr>\n<td><b>Total:</b></td>\n<td>"@ + crate::text::decimal(rules) + "</td>\n<td>"@
        + crate::text::decimal(tests) + "</td>\n<td>"@ + crate::text::decimal(uncovered)
        + "</td>\n<td>"@ + coverage + "</td>\n</tr>\n</table>\n"@
}

/// Renders the last row of the table and the end of the table.
pub fn render_table_end(rules: usize, tests: usize, uncovered: usize, coverage: &str) -> (end:
    String)
    ensures
        end@ == table_end(rules as nat, tests as nat, uncovered as nat, coverage@),
{
    let mut end = String::from_str("<tr>\n<td><b>Total:</b></td>\n<td>");
    crate::text::push_decimal(&mut end, rules as u64);
    end.append("</td>\n<td>");
    crate::text::push_decimal(&mut end, tests as u64);
    end.append("</td>\n<td>");
    crate::text::push_decimal(&mut end, uncovered as u64);
    end.append("</td>\n<td>");
    end.append(coverage);
    end.append("</td>\n</tr>\n</table>\n");
    assert(end@ =~= table_end(rules as nat, tests as nat, uncovered as nat, coverage@));
    end
}

} // verus!
