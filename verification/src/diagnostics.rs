//! The sink that collects warnings and errors while a corpus is processed.

use vstd::prelude::*;
use vstd::string::StringExecFns;
use crate::text::strings_view;

verus! {

/// Collects the diagnostics of a run. Nothing is printed here: the caller
/// reads `messages` when the whole corpus has been processed.
pub struct Diagnostics {
    /// Whether or not warnings should be errors.
    pub deny_warnings: bool,
    /// The lines emitted so far, oldest first.
    pub messages: Vec<String>,
}

/// Model of a [`Diagnostics`].
pub struct DiagnosticsView {
    pub deny_warnings: bool,
    pub messages: Seq<Seq<char>>,
}

/// The line under which a message is recorded: an error where warnings are
/// denied, a warning otherwise.
pub open spec fn diagnostic_line(deny_warnings: bool, message: Seq<char>) -> Seq<char> {
    if deny_warnings {
        "error: "@ + message
    } else {
        "warning: "@ + message
    }
}

impl View for Diagnostics {
    type V = DiagnosticsView;

    open spec fn view(&self) -> DiagnosticsView {
        DiagnosticsView {
            deny_warnings: self.deny_warnings,
            messages: strings_view(self.messages@),
        }
    }
}

impl DiagnosticsView {
    /// The sink after one more message.
    pub open spec fn emit(self, message: Seq<char>) -> DiagnosticsView {
        DiagnosticsView {
            deny_warnings: self.deny_warnings,
            messages: self.messages.push(diagnostic_line(self.deny_warnings, message)),
        }
    }

    /// The sink after each of the messages, in order.
    pub open spec fn emit_all(self, messages: Seq<Seq<char>>) -> DiagnosticsView
        decreases messages.len(),
    {
        if messages.len() == 0 {
            self
        } else {
            self.emit_all(messages.drop_last()).emit(messages.last())
        }
    }
}

impl Diagnostics {
    /// An empty sink with the given policy.
    pub fn new(deny_warnings: bool) -> (diag: Diagnostics)
        ensures
            diag@ == (DiagnosticsView { deny_warnings, messages: Seq::empty() }),
    {
        let diag = Diagnostics { deny_warnings, messages: Vec::new() };
        assert(diag@.messages =~= Seq::empty());
        diag
    }

    /// Records a warning or error (depending on whether warnings are denied).
    pub fn warn_or_err(&mut self, message: &str)
        ensures
            final(self)@ == old(self)@.emit(message@),
    {
        let mut line = if self.deny_warnings {
            String::from_str("error: ")
        } else {
            String::from_str("warning: ")
        };
        line.append(message);
        self.messages.push(line);
        assert(self@.messages =~= old(self)@.messages.push(
            diagnostic_line(self.deny_warnings, message@),
        ));
    }

    /// Number of messages generated.
    pub fn count(&self) -> (n: usize)
        ensures
            n == self@.messages.len(),
    {
        self.messages.len()
    }
}

} // verus!
