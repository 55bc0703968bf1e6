//! The minimal application state: configuration, document and whether to quit.
use vstd::prelude::*;

use crate::config::Config;
use crate::document::{Document, DocumentView, shows_as};

verus! {

/// The minimal state of the editor.
#[derive(Debug)]
pub struct AppState {
    pub config: Config,
    pub document: Document,
    /// The event loop ends.
    pub should_quit: bool,
}

/// The name of a document for the status bar, with a mark behind it when it is modified.
pub open spec fn status_name(shown: Seq<char>, modified: bool) -> Seq<char> {
    if modified {
        shown + " [+]"@
    } else {
        shown
    }
}

/// What the status bar can show for a document: it depends on the file name that the platform finds
/// in its path.
pub open spec fn status_shows(document: DocumentView, text: Seq<char>) -> bool {
    exists|shown: Seq<char>| #[trigger]
        shows_as(document.path, shown) && text == status_name(shown, document.modified)
}

/// The name of a document for the status bar.
pub fn status_name_of(document: &Document) -> (r: String)
    ensures
        status_shows(document@, r@),
{
    let mut name = document.display_name();
    assert(shows_as(document@.path, name@));
    if document.is_modified() {
        name.append(" [+]");
    }
    name
}

impl AppState {
    pub fn new(config: Config, document: Document) -> (r: AppState)
        ensures
            r.config == config,
            r.document == document,
            !r.should_quit,
    {
        AppState { config, document, should_quit: false }
    }

    /// The name shown in the status bar. Appends `[+]` when the document has unsaved changes.
    pub fn status_filename(&self) -> (r: String)
        ensures
            status_shows(self.document@, r@),
    {
        status_name_of(&self.document)
    }
}

/// A modified document is marked behind its name, and no other one is.
pub proof fn law_modified_documents_are_marked(shown: Seq<char>)
    ensures
        status_name(shown, true) == shown + seq![' ', '[', '+', ']'],
        status_name(shown, false) == shown,
{
    reveal_strlit(" [+]");
    assert(" [+]"@ =~= seq![' ', '[', '+', ']']);
}

} // verus!
