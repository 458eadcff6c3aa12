//! The protocol handler: the state machine that maps inbound protocol
//! events to registry operations, enforces the version-ordering policy,
//! and turns a formatter's output into the formatting response.
//!
//! The handler owns the registry and the shutdown flag.  The transport
//! driver feeds it one event at a time; each handler function says, per
//! URI, exactly which `doc_step` the registry takes and which outcome the
//! driver must report or act on.  The driver side — streams, logging, the
//! formatter and the file system — stays outside the library and hands
//! plain values in.

use vstd::prelude::*;
use crate::document::DocView;
use crate::history::{doc_step, DocEvent};
use crate::text::{
    chars_eq, last_line, newline_count, utf16_len, ContentChange, Position, TextEdit, TextRange,
};
use crate::vfs::Vfs;

verus! {

/// What a `didChange` notification led to.  The driver recovers from
/// `NotOpen` and `Stale` after logging; `NullVersion` and `Desynchronized`
/// are protocol violations, fatal after logging.
#[derive(Clone, Copy, Debug, PartialEq, Eq, Structural)]
pub enum ChangeOutcome {
    /// The claimed version matched: the edits applied and the document now
    /// carries `new_version`.
    Applied { new_version: u64 },
    /// The document is not open; nothing was created.
    NotOpen,
    /// A null version is only legal from server to client: fatal.
    NullVersion,
    /// The client claims a version ahead of the server's: intermediate
    /// edits are missing, the views have desynchronized: fatal.
    Desynchronized { server_version: u64, client_version: u64 },
    /// The server is already past the claimed version: a stale or
    /// duplicate notification, skipped.
    Stale { server_version: u64, client_version: u64 },
}

/// Severity of a log message sent to the client.
#[derive(Clone, Copy, Debug, PartialEq, Eq, Structural)]
pub enum LogSeverity {
    Error,
    Warning,
    Info,
}

/// Why a shutdown request was rejected.
#[derive(Clone, Copy, Debug, PartialEq, Eq, Structural)]
pub enum RequestRejection {
    /// The shutdown flag could not be acquired without blocking; the
    /// caller may retry, the server never blocks for it.
    ShutdownContention,
}

/// The capabilities the server advertises: document formatting, nothing
/// else.
#[derive(Clone, Copy, Debug, PartialEq, Eq, Structural)]
pub struct ServerCapabilities {
    pub document_formatting_provider: bool,
}

/// The outcome a `didChange` notification must produce, given the state of
/// the addressed document and the claimed version.
pub open spec fn change_outcome(s: Option<DocView>, version: Option<u64>) -> ChangeOutcome {
    match s {
        None => ChangeOutcome::NotOpen,
        Some(d) => match version {
            None => ChangeOutcome::NullVersion,
            Some(v) => {
                if d.version == v {
                    ChangeOutcome::Applied { new_version: (v + 1) as u64 }
                } else if d.version < v {
                    ChangeOutcome::Desynchronized { server_version: d.version, client_version: v }
                } else {
                    ChangeOutcome::Stale { server_version: d.version, client_version: v }
                }
            },
        },
    }
}

/// A change outcome is fatal exactly on the two protocol violations.
pub open spec fn spec_is_fatal(o: ChangeOutcome) -> bool {
    o is NullVersion || o is Desynchronized
}

impl ChangeOutcome {
    /// Whether the driver must end the event loop after logging.
    pub fn is_fatal(&self) -> (r: bool)
        ensures
            r == spec_is_fatal(*self),
    {
        match self {
            ChangeOutcome::NullVersion => true,
            ChangeOutcome::Desynchronized { .. } => true,
            _ => false,
        }
    }

    /// The severity of the log message the driver owes the client for this
    /// outcome; an applied change is not logged.
    pub fn log_severity(&self) -> (r: Option<LogSeverity>)
        ensures
            r == match *self {
                ChangeOutcome::Applied { .. } => None::<LogSeverity>,
                ChangeOutcome::NotOpen => Some(LogSeverity::Warning),
                ChangeOutcome::NullVersion => Some(LogSeverity::Error),
                ChangeOutcome::Desynchronized { .. } => Some(LogSeverity::Error),
                ChangeOutcome::Stale { .. } => Some(LogSeverity::Info),
            },
    {
        match self {
            ChangeOutcome::Applied { .. } => None,
            ChangeOutcome::NotOpen => Some(LogSeverity::Warning),
            ChangeOutcome::NullVersion => Some(LogSeverity::Error),
            ChangeOutcome::Desynchronized { .. } => Some(LogSeverity::Error),
            ChangeOutcome::Stale { .. } => Some(LogSeverity::Info),
        }
    }
}

/// The protocol handler: registry plus shutdown flag.
#[derive(Debug)]
pub struct ServerBackend {
    pub vfs: Vfs,
    pub did_shutdown: bool,
}

impl ServerBackend {
    /// The registry never holds two documents under one URI.
    pub open spec fn wf(self) -> bool {
        self.vfs.wf()
    }

    /// The document currently open under `uri`.
    pub open spec fn doc_state(self, uri: Seq<char>) -> Option<DocView> {
        self.vfs.spec_get(uri)
    }

    /// A fresh handler over `vfs`; the shutdown flag starts false.
    pub fn new(vfs: Vfs) -> (r: ServerBackend)
        ensures
            r.vfs == vfs,
            !r.did_shutdown,
    {
        ServerBackend { vfs, did_shutdown: false }
    }

    /// Answers `initialize`: formatting is advertised, nothing else.
    pub fn initialize(&self) -> (r: ServerCapabilities)
        ensures
            r == (ServerCapabilities { document_formatting_provider: true }),
    {
        ServerCapabilities { document_formatting_provider: true }
    }

    /// `didOpen`: registers the document at version zero, replacing any
    /// prior entry for the URI.
    pub fn did_open(&mut self, uri: &Vec<char>, text: &Vec<char>)
        requires
            old(self).wf(),
        ensures
            final(self).wf(),
            final(self).doc_state(uri@) == doc_step(
                uri@,
                old(self).doc_state(uri@),
                (DocEvent::Open { text: text@ }),
            ),
            forall|u: Seq<char>| u != uri@ ==> final(self).doc_state(u) == old(self).doc_state(u),
            final(self).did_shutdown == old(self).did_shutdown,
    {
        self.vfs.create_document(uri, text);
    }

    /// `didChange`: applies the edits only when the claimed version equals
    /// the document's; every other case leaves the registry alone and is
    /// reported in the outcome for the driver to log or to end the loop on.
    pub fn did_change(
        &mut self,
        uri: &Vec<char>,
        version: Option<u64>,
        changes: &Vec<ContentChange>,
    ) -> (r: ChangeOutcome)
        requires
            old(self).wf(),
            old(self).doc_state(uri@) matches Some(d) ==> d.version < u64::MAX,
        ensures
            final(self).wf(),
            r == change_outcome(old(self).doc_state(uri@), version),
            final(self).doc_state(uri@) == doc_step(
                uri@,
                old(self).doc_state(uri@),
                (DocEvent::Change { version, changes: changes@ }),
            ),
            forall|u: Seq<char>| u != uri@ ==> final(self).doc_state(u) == old(self).doc_state(u),
            final(self).did_shutdown == old(self).did_shutdown,
    {
        let server_version = match self.vfs.document_version(uri) {
            None => {
                return ChangeOutcome::NotOpen;
            },
            Some(v) => v,
        };
        match version {
            None => ChangeOutcome::NullVersion,
            Some(client_version) => {
                if server_version == client_version {
                    self.vfs.update_document(uri, changes, client_version + 1);
                    ChangeOutcome::Applied { new_version: client_version + 1 }
                } else if server_version < client_version {
                    ChangeOutcome::Desynchronized { server_version, client_version }
                } else {
                    ChangeOutcome::Stale { server_version, client_version }
                }
            },
        }
    }

    /// `didClose`: evicts the entry; never fails, also when absent.
    pub fn did_close(&mut self, uri: &Vec<char>)
        requires
            old(self).wf(),
        ensures
            final(self).wf(),
            final(self).doc_state(uri@) == doc_step(uri@, old(self).doc_state(uri@), DocEvent::Close),
            forall|u: Seq<char>| u != uri@ ==> final(self).doc_state(u) == old(self).doc_state(u),
            final(self).did_shutdown == old(self).did_shutdown,
    {
        self.vfs.evict_document(uri);
    }

    /// The formatting request's first step: the in-memory text of the
    /// addressed document, or nothing when the URI is not open — the driver
    /// must then fall back to the file on disk.
    pub fn open_document_text(&self, uri: &Vec<char>) -> (r: Option<Vec<char>>)
        requires
            self.wf(),
        ensures
            match self.doc_state(uri@) {
                Some(d) => r matches Some(t) && t@ == d.text,
                None => r is None,
            },
    {
        self.vfs.open_contents(uri)
    }

    /// `shutdown`: a non-blocking attempt to set the shutdown flag.  The
    /// driver reports whether the flag's lock was acquired; on contention
    /// nothing changes and the client is told to retry.
    pub fn shutdown(&mut self, flag_acquired: bool) -> (r: Result<(), RequestRejection>)
        ensures
            flag_acquired ==> r is Ok && final(self).did_shutdown && final(self).vfs == old(
                self,
            ).vfs,
            !flag_acquired ==> r == Err::<(), RequestRejection>(
                RequestRejection::ShutdownContention,
            ) && *final(self) == *old(self),
    {
        if flag_acquired {
            self.did_shutdown = true;
            Ok(())
        } else {
            Err(RequestRejection::ShutdownContention)
        }
    }
}

/// The process exit signal read from the shutdown flag at termination:
/// zero ("clean") exactly when a shutdown request was accepted before the
/// stream closed, one ("abnormal") otherwise.
pub fn exit_code(did_shutdown: bool) -> (r: i32)
    ensures
        r == (if did_shutdown {
            0int
        } else {
            1int
        }),
{
    if did_shutdown {
        0
    } else {
        1
    }
}

/// The position just past the end of `text`: its line count and the UTF-16
/// length of its final line.
pub open spec fn end_position(text: Seq<char>) -> Position {
    Position { line: newline_count(text) as u64, character: utf16_len(last_line(text)) as u64 }
}

/// Computes the position just past the end of `text`.
pub fn get_final_position(text: &Vec<char>) -> (r: Position)
    requires
        2 * text@.len() <= u64::MAX,
    ensures
        r == end_position(text@),
{
    let ghost t = text@;
    let mut line: u64 = 0;
    let mut units: u64 = 0;
    let mut i: usize = 0;
    while i < text.len()
        invariant
            i <= t.len(),
            t == text@,
            2 * t.len() <= u64::MAX,
            line <= i,
            units <= 2 * i,
            line == newline_count(t.take(i as int)),
            units == utf16_len(last_line(t.take(i as int))),
        decreases t.len() - i,
    {
        assert(t.take(i + 1).drop_last() =~= t.take(i as int));
        assert(t.take(i + 1).last() == t[i as int]);
        if text[i] == '\n' {
            line = line + 1;
            units = 0;
        } else {
            let u = crate::text::char_utf16_units(text[i]);
            assert(last_line(t.take(i + 1)) == last_line(t.take(i as int)).push(t[i as int]));
            assert(last_line(t.take(i + 1)).drop_last() =~= last_line(t.take(i as int)));
            units = units + u;
        }
        i = i + 1;
    }
    assert(t.take(t.len() as int) == t);
    Position { line, character: units }
}

/// Turns the formatter's outcome for a document into the formatting
/// response.  A parse failure is surfaced as the request's error, with the
/// formatter's message.  Text the formatter returns unchanged yields the
/// empty edit list — the explicit no-op signal.  Otherwise the response is
/// a single edit from the document start to the end position of the
/// formatted text, carrying the whole formatted text.
pub fn format_response(original: &Vec<char>, outcome: Result<Vec<char>, Vec<char>>) -> (r: Result<
    Vec<TextEdit>,
    Vec<char>,
>)
    requires
        outcome matches Ok(f) ==> 2 * f@.len() <= u64::MAX,
    ensures
        outcome matches Err(m) ==> (r matches Err(m2) && m2@ == m@),
        outcome matches Ok(f) ==> (f@ == original@ ==> (r matches Ok(es) && es@.len() == 0)),
        outcome matches Ok(f) ==> (f@ != original@ ==> (r matches Ok(es) && es@.len() == 1
            && es@[0].range == (TextRange {
            start: Position { line: 0, character: 0 },
            end: end_position(f@),
        }) && es@[0].new_text@ == f@)),
{
    match outcome {
        Err(message) => Err(message),
        Ok(formatted) => {
            if chars_eq(original, &formatted) {
                Ok(Vec::new())
            } else {
                let end = get_final_position(&formatted);
                let range = TextRange { start: Position { line: 0, character: 0 }, end };
                let mut edits: Vec<TextEdit> = Vec::new();
                edits.push(TextEdit { range, new_text: formatted });
                Ok(edits)
            }
        },
    }
}

} // verus!
