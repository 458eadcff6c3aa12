//! A versioned in-memory text buffer for one open file.
//!
//! A document records the cumulative result of every accepted edit together
//! with the version it has reached.  Applying changes and advancing the
//! version are separate steps: which changes are accepted, and what version
//! they produce, is the protocol handler's policy, not the document's.

use vstd::prelude::*;
use crate::text::{apply_changes, changes_applied, ContentChange};

verus! {

/// Mathematical view of a document: its key, version and text.
pub ghost struct DocView {
    pub uri: Seq<char>,
    pub version: u64,
    pub text: Seq<char>,
}

/// A versioned text buffer for one open file.
#[derive(Debug)]
pub struct Document {
    pub uri: Vec<char>,
    pub version: u64,
    pub text: Vec<char>,
}

impl View for Document {
    type V = DocView;

    open spec fn view(&self) -> DocView {
        DocView { uri: self.uri@, version: self.version, text: self.text@ }
    }
}

impl Document {
    /// A freshly opened document starts at version zero.
    pub fn new(uri: &Vec<char>, text: &Vec<char>) -> (d: Document)
        ensures
            d@ == (DocView { uri: uri@, version: 0, text: text@ }),
    {
        Document {
            uri: crate::text::copy_chars(uri),
            version: 0,
            text: crate::text::copy_chars(text),
        }
    }

    /// The URI this document is registered under.
    pub fn uri_chars(&self) -> (u: &Vec<char>)
        ensures
            u@ == self@.uri,
    {
        &self.uri
    }

    /// Current version.
    pub fn version(&self) -> (v: u64)
        ensures
            v == self@.version,
    {
        self.version
    }

    /// A copy of the current text.
    pub fn contents(&self) -> (t: Vec<char>)
        ensures
            t@ == self@.text,
    {
        crate::text::copy_chars(&self.text)
    }

    /// Applies a change list strictly in order.  The version is left alone:
    /// advancing it is the protocol handler's decision.
    pub fn apply_content_changes(&mut self, changes: &Vec<ContentChange>)
        ensures
            final(self)@.text == changes_applied(old(self)@.text, changes@),
            final(self)@.uri == old(self)@.uri,
            final(self)@.version == old(self)@.version,
    {
        self.text = apply_changes(&self.text, changes);
    }

    /// Records the version the handler has decided on.
    pub fn set_version(&mut self, version: u64)
        ensures
            final(self)@ == (DocView {
                uri: old(self)@.uri,
                version: version,
                text: old(self)@.text,
            }),
    {
        self.version = version;
    }
}

} // verus!
