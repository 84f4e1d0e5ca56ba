//! Loads a grammar from the blocks of a corpus, and checks it.

use vstd::prelude::*;
use vstd::string::StringExecFns;
use crate::diagnostics::{Diagnostics, DiagnosticsView};
use crate::parser::parse_grammar;
use crate::store::{Corpus, Grammar, GrammarView};
use crate::syntax::{byte_len, error_at, error_text, parse_block};
use crate::validate::{check_undefined_nt, check_unexpected_roots, report_roots, report_undefined};

verus! {

/// A block of text in the notation, as it was found on a page.
#[derive(Debug)]
pub struct Block {
    /// The category from the language tag of the block.
    pub category: String,
    /// The text of the block.
    pub text: String,
    /// The path of the page, relative to the root of the documentation.
    pub path: String,
}

/// Model of a [`Block`].
pub struct BlockView {
    pub category: Seq<char>,
    pub text: Seq<char>,
    pub path: Seq<char>,
}

impl View for Block {
    type V = BlockView;

    open spec fn view(&self) -> BlockView {
        BlockView { category: self.category@, text: self.text@, path: self.path@ }
    }
}

/// The models of a list of blocks, in order.
pub open spec fn blocks_view(blocks: Seq<Block>) -> Seq<BlockView> {
    Seq::new(blocks.len(), |i: int| blocks[i]@)
}

/// The diagnostic for a block that is not in the notation.
pub open spec fn failed_block_text(path: Seq<char>, error: Seq<char>) -> Seq<char> {
    "failed to parse grammar in \""@ + path + "\": "@ + error
}

impl Corpus {
    /// The corpus after a block has been read: its productions have come
    /// in; or, where the block is not in the notation, a diagnostic shows
    /// the place, and the grammar stays as it is.
    pub open spec fn read_block(self, block: BlockView) -> Corpus {
        let p = parse_block(block.text, block.category, block.path);
        match p.result {
            Ok(productions) => self.merge(productions),
            Err(message) => Corpus {
                grammar: self.grammar,
                diagnostics: self.diagnostics.emit(
                    failed_block_text(
                        block.path,
                        error_text(error_at(block.text, p.advance as int, message)),
                    ),
                ),
            },
        }
    }

    /// The corpus after each of the blocks has been read, in order.
    pub open spec fn read_blocks(self, blocks: Seq<BlockView>) -> Corpus
        decreases blocks.len(),
    {
        if blocks.len() == 0 {
            self
        } else {
            self.read_blocks(blocks.drop_last()).read_block(blocks.last())
        }
    }

    /// The diagnostics after the grammar has been checked: for the names
    /// that are used but not defined, and then for the roots.
    pub open spec fn checked(self) -> DiagnosticsView {
        report_roots(
            report_undefined(self.diagnostics, self.grammar, self.grammar.all_references()),
            self.grammar,
        )
    }
}

/// Whether the text of each block is short enough for its length in bytes
/// to fit a `usize`.
pub open spec fn blocks_fit(blocks: Seq<Block>) -> bool {
    forall|i: int| 0 <= i < blocks.len() ==> byte_len((#[trigger] blocks[i]).text@) < usize::MAX
}

/// Loads the grammar from the blocks of a corpus: reads the blocks in
/// order, then checks the whole grammar. A block that is not in the
/// notation is reported and left out; the others still come in.
pub fn load_grammar(blocks: &Vec<Block>, diag: &mut Diagnostics) -> (grammar: Grammar)
    requires
        blocks_fit(blocks@),
    ensures
        grammar@ == (Corpus { grammar: GrammarView::empty(), diagnostics: old(diag)@ }).read_blocks(
            blocks_view(blocks@),
        ).grammar,
        final(diag)@ == (Corpus {
            grammar: GrammarView::empty(),
            diagnostics: old(diag)@,
        }).read_blocks(blocks_view(blocks@)).checked(),
        grammar@.well_formed(),
{
    let ghost all = blocks_view(blocks@);
    let ghost start = Corpus { grammar: GrammarView::empty(), diagnostics: diag@ };
    let mut grammar = Grammar::default();
    let mut i: usize = 0;
    assert(all.take(0) =~= Seq::empty());
    while i < blocks.len()
        invariant
            i <= blocks.len(),
            blocks_fit(blocks@),
            all == blocks_view(blocks@),
            grammar@.well_formed(),
            (Corpus { grammar: grammar@, diagnostics: diag@ }) == start.read_blocks(
                all.take(i as int),
            ),
        decreases blocks.len() - i,
    {
        let block = &blocks[i];
        proof {
            assert(all.take(i + 1).drop_last() =~= all.take(i as int));
            assert(all.take(i + 1).last() == block@);
        }
        match parse_grammar(
            block.text.as_str(),
            &mut grammar,
            block.category.as_str(),
            block.path.as_str(),
            diag,
        ) {
            Ok(()) => {},
            Err(e) => {
                let mut message = String::from_str("failed to parse grammar in \"");
                message.append(block.path.as_str());
                message.append("\": ");
                let text = e.to_string();
                message.append(text.as_str());
                diag.warn_or_err(message.as_str());
            },
        }
        i = i + 1;
    }
    assert(all.take(blocks.len() as int) =~= all);
    check_undefined_nt(&grammar, diag);
    check_unexpected_roots(&grammar, diag);
    grammar
}

} // verus!
