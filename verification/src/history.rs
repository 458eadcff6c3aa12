//! The per-URI lifecycle, as one transition function, and the law that a
//! document's version and text track exactly the changes the handler
//! accepts.
//!
//! `doc_step` is the mathematical transition the protocol handler promises
//! for a single URI; the handler's contracts state that each notification
//! moves the registry entry by one `doc_step`.  The lemma at the bottom
//! folds a whole run: over any stretch of events, the entry's version grows
//! by one per accepted change list, each accepted list claimed exactly the
//! version the document had when it arrived, and the text is the cumulative
//! application of the accepted lists in order.

use vstd::prelude::*;
use crate::document::DocView;
use crate::text::{changes_applied, ContentChange};

verus! {

/// One lifecycle event for a single URI.
pub ghost enum DocEvent {
    Open { text: Seq<char> },
    Change { version: Option<u64>, changes: Seq<ContentChange> },
    Close,
}

/// The registry entry for one URI after one event.
///
/// An open replaces the entry with a fresh document at version zero; a
/// close removes it.  A change applies only when the claimed version equals
/// the document's version; every other change — on an unopened document,
/// with a null version, stale, or desynchronized — leaves the entry alone
/// (the handler reports those outcomes separately).
pub open spec fn doc_step(uri: Seq<char>, s: Option<DocView>, e: DocEvent) -> Option<DocView> {
    match e {
        DocEvent::Open { text } => Some(DocView { uri: uri, version: 0, text: text }),
        DocEvent::Close => None,
        DocEvent::Change { version, changes } => match s {
            None => None,
            Some(d) => match version {
                None => s,
                Some(v) => {
                    if d.version == v {
                        Some(
                            DocView {
                                uri: d.uri,
                                version: (v + 1) as u64,
                                text: changes_applied(d.text, changes),
                            },
                        )
                    } else {
                        s
                    }
                },
            },
        },
    }
}

/// The registry entry for one URI after a sequence of events, in order.
pub open spec fn doc_run(uri: Seq<char>, s: Option<DocView>, events: Seq<DocEvent>) -> Option<
    DocView,
>
    decreases events.len(),
{
    if events.len() == 0 {
        s
    } else {
        doc_run(uri, doc_step(uri, s, events[0]), events.drop_first())
    }
}

/// The (claimed version, change list) pairs accepted along a run that
/// starts from an open document `d`.
pub open spec fn accepted_changes(d: DocView, events: Seq<DocEvent>) -> Seq<
    (u64, Seq<ContentChange>),
>
    decreases events.len(),
{
    if events.len() == 0 {
        Seq::empty()
    } else {
        match events[0] {
            DocEvent::Change { version, changes } => {
                if version == Some(d.version) {
                    seq![(d.version, changes)] + accepted_changes(
                        DocView {
                            uri: d.uri,
                            version: (d.version + 1) as u64,
                            text: changes_applied(d.text, changes),
                        },
                        events.drop_first(),
                    )
                } else {
                    accepted_changes(d, events.drop_first())
                }
            },
            _ => Seq::empty(),
        }
    }
}

/// Cumulative application of accepted change lists, strictly in order.
pub open spec fn replay(text: Seq<char>, accepted: Seq<(u64, Seq<ContentChange>)>) -> Seq<char>
    decreases accepted.len(),
{
    if accepted.len() == 0 {
        text
    } else {
        replay(changes_applied(text, accepted[0].1), accepted.drop_first())
    }
}

/// Once a URI is closed, no later change or close reopens it.
pub proof fn lemma_closed_stays_closed(uri: Seq<char>, events: Seq<DocEvent>)
    requires
        forall|i: int| 0 <= i < events.len() ==> !(events[i] is Open),
    ensures
        doc_run(uri, None, events) == None::<DocView>,
    decreases events.len(),
{
    if events.len() > 0 {
        assert(!(events[0] is Open));
        assert(doc_step(uri, None, events[0]) == None::<DocView>);
        assert(forall|i: int|
            0 <= i < events.drop_first().len() ==> events.drop_first()[i] == events[i + 1]);
        lemma_closed_stays_closed(uri, events.drop_first());
    }
}

/// Over any stretch of events without a reopen, a document's version grows
/// by exactly one per accepted change list, the k-th accepted list claimed
/// exactly the version the document had then, and the final text is the
/// cumulative application of the accepted lists, in order.
pub proof fn lemma_registry_tracks_accepted_changes(
    uri: Seq<char>,
    d: DocView,
    events: Seq<DocEvent>,
)
    requires
        forall|i: int| 0 <= i < events.len() ==> !(events[i] is Open),
        d.version + events.len() <= u64::MAX,
    ensures
        doc_run(uri, Some(d), events) matches Some(d2) ==> {
            &&& d2.uri == d.uri
            &&& d2.version == d.version + accepted_changes(d, events).len()
            &&& d2.text == replay(d.text, accepted_changes(d, events))
        },
        forall|k: int|
            0 <= k < accepted_changes(d, events).len() ==> #[trigger] accepted_changes(d, events)[k].0
                == d.version + k,
    decreases events.len(),
{
    if events.len() == 0 {
    } else {
        let rest = events.drop_first();
        assert(forall|i: int| 0 <= i < rest.len() ==> rest[i] == events[i + 1]);
        match events[0] {
            DocEvent::Open { text } => {
                assert(false);
            },
            DocEvent::Close => {
                lemma_closed_stays_closed(uri, rest);
            },
            DocEvent::Change { version, changes } => {
                let acc = accepted_changes(d, events);
                if version == Some(d.version) {
                    let d1 = DocView {
                        uri: d.uri,
                        version: (d.version + 1) as u64,
                        text: changes_applied(d.text, changes),
                    };
                    assert(doc_step(uri, Some(d), events[0]) == Some(d1));
                    lemma_registry_tracks_accepted_changes(uri, d1, rest);
                    let accr = accepted_changes(d1, rest);
                    assert(acc == seq![(d.version, changes)] + accr);
                    assert(acc.drop_first() =~= accr);
                    assert(acc[0] == (d.version, changes));
                    assert(replay(d.text, acc) == replay(changes_applied(d.text, changes), accr));
                    assert forall|k: int| 0 <= k < acc.len() implies #[trigger] acc[k].0
                        == d.version + k by {
                        if k > 0 {
                            assert(acc[k] == accr[k - 1]);
                            assert(accr[k - 1].0 == d1.version + (k - 1));
                        }
                    }
                } else {
                    assert(doc_step(uri, Some(d), events[0]) == Some(d));
                    lemma_registry_tracks_accepted_changes(uri, d, rest);
                    assert(acc == accepted_changes(d, rest));
                }
            },
        }
    }
}

/// A whole per-URI history: whatever stood under the URI before, opening
/// it and then delivering any changes and closes leaves — if the document
/// is still open — exactly the version `accepted count` and the cumulative
/// application of the accepted change lists to the opened text.
pub proof fn lemma_open_history(
    uri: Seq<char>,
    s: Option<DocView>,
    text0: Seq<char>,
    events: Seq<DocEvent>,
)
    requires
        forall|i: int| 0 <= i < events.len() ==> !(events[i] is Open),
        events.len() <= u64::MAX,
    ensures
        doc_run(uri, s, seq![DocEvent::Open { text: text0 }] + events) == doc_run(
            uri,
            Some(DocView { uri: uri, version: 0, text: text0 }),
            events,
        ),
        doc_run(uri, s, seq![DocEvent::Open { text: text0 }] + events) matches Some(d2) ==> {
            let d0 = DocView { uri: uri, version: 0, text: text0 };
            &&& d2.uri == uri
            &&& d2.version == accepted_changes(d0, events).len()
            &&& d2.text == replay(text0, accepted_changes(d0, events))
        },
        forall|k: int|
            0 <= k < accepted_changes(
                (DocView { uri: uri, version: 0, text: text0 }),
                events,
            ).len() ==> #[trigger] accepted_changes(
                (DocView { uri: uri, version: 0, text: text0 }),
                events,
            )[k].0 == k,
{
    let evs = seq![DocEvent::Open { text: text0 }] + events;
    let d0 = DocView { uri: uri, version: 0, text: text0 };
    assert(evs[0] == (DocEvent::Open { text: text0 }));
    assert(evs.drop_first() =~= events);
    assert(doc_step(uri, s, evs[0]) == Some(d0));
    lemma_registry_tracks_accepted_changes(uri, d0, events);
}

} // verus!
