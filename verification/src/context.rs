//! What a renderer knows of the page it renders for.

use vstd::prelude::*;
use vstd::hash_map::StringHashMap;
use vstd::string::StringExecFns;

verus! {

/// The links of a page: where each production's markdown and railroad
/// renderings are found, and whether the page is the summary page.
pub struct RenderCtx {
    pub md_link_map: StringHashMap<String>,
    pub rr_link_map: StringHashMap<String>,
    pub for_summary: bool,
}

/// Model of a [`RenderCtx`].
pub struct RenderCtxView {
    pub md_link_map: Map<Seq<char>, Seq<char>>,
    pub rr_link_map: Map<Seq<char>, Seq<char>>,
    pub for_summary: bool,
}

/// The model of a link map: each name with the text of its destination.
pub open spec fn links_view(links: Map<Seq<char>, String>) -> Map<Seq<char>, Seq<char>> {
    Map::new(|name: Seq<char>| links.contains_key(name), |name: Seq<char>| links[name]@)
}

/// The destination of a name, or the literal `missing` where the map has none.
pub open spec fn link_or_missing(links: Map<Seq<char>, Seq<char>>, name: Seq<char>) -> Seq<char> {
    if links.contains_key(name) {
        links[name]
    } else {
        "missing"@
    }
}

impl View for RenderCtx {
    type V = RenderCtxView;

    open spec fn view(&self) -> RenderCtxView {
        RenderCtxView {
            md_link_map: links_view(self.md_link_map@),
            rr_link_map: links_view(self.rr_link_map@),
            for_summary: self.for_summary,
        }
    }
}

impl RenderCtx {
    /// A context without links.
    pub fn new(for_summary: bool) -> (cx: RenderCtx)
        ensures
            cx@ == (RenderCtxView {
                md_link_map: Map::empty(),
                rr_link_map: Map::empty(),
                for_summary,
            }),
    {
        let cx = RenderCtx {
            md_link_map: StringHashMap::new(),
            rr_link_map: StringHashMap::new(),
            for_summary,
        };
        assert(cx@.md_link_map =~= Map::empty());
        assert(cx@.rr_link_map =~= Map::empty());
        cx
    }

    /// Sets where the markdown rendering of `name` is found.
    pub fn link_markdown(&mut self, name: String, dest: String)
        ensures
            final(self)@ == (RenderCtxView {
                md_link_map: old(self)@.md_link_map.insert(name@, dest@),
                ..old(self)@
            }),
    {
        self.md_link_map.insert(name, dest);
        assert(self@.md_link_map =~= old(self)@.md_link_map.insert(name@, dest@));
    }

    /// Sets where the railroad rendering of `name` is found.
    pub fn link_railroad(&mut self, name: String, dest: String)
        ensures
            final(self)@ == (RenderCtxView {
                rr_link_map: old(self)@.rr_link_map.insert(name@, dest@),
                ..old(self)@
            }),
    {
        self.rr_link_map.insert(name, dest);
        assert(self@.rr_link_map =~= old(self)@.rr_link_map.insert(name@, dest@));
    }

    /// The destination of `name` among the markdown links, or `missing`.
    pub fn markdown_dest(&self, name: &str) -> (dest: String)
        ensures
            dest@ == link_or_missing(self@.md_link_map, name@),
    {
        match self.md_link_map.get(name) {
            Some(d) => d.clone(),
            None => String::from_str("missing"),
        }
    }

    /// The destination of `name` among the railroad links, or `missing`.
    pub fn railroad_dest(&self, name: &str) -> (dest: String)
        ensures
            dest@ == link_or_missing(self@.rr_link_map, name@),
    {
        match self.rr_link_map.get(name) {
            Some(d) => d.clone(),
            None => String::from_str("missing"),
        }
    }
}

/// Why a list of productions could not be rendered.
#[derive(Debug)]
pub enum RenderError {
    /// The grammar has no production of this name.
    UnknownProduction(String),
}

/// The text of the error for a name that the grammar does not define.
pub open spec fn unknown_production_message(name: Seq<char>) -> Seq<char> {
    "could not find grammar production named `"@ + name + "`"@
}

impl RenderError {
    /// The name that was asked for and not found.
    pub open spec fn name(self) -> Seq<char> {
        match self {
            RenderError::UnknownProduction(name) => name@,
        }
    }

    /// The error as text.
    pub fn to_string(&self) -> (text: String)
        ensures
            text@ == unknown_production_message(self.name()),
    {
        match self {
            RenderError::UnknownProduction(name) => {
                let mut text = String::from_str("could not find grammar production named `");
                text.append(name.as_str());
                text.append("`");
                text
            },
        }
    }
}

} // verus!
