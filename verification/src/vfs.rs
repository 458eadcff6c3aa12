//! The document registry: the single source of truth for which files are
//! open and what they currently contain.
//!
//! The registry owns one document per URI.  Opening a URI that is already
//! open replaces the prior entry; evicting an absent URI is a no-op.  Its
//! contracts speak of `spec_get`, the mapping from a URI to the document
//! registered under it.

use vstd::prelude::*;
use crate::document::{DocView, Document};
use crate::text::{changes_applied, chars_eq, ContentChange};

verus! {

/// The document registered under `uri`: the first entry with that key.
pub open spec fn find_doc(s: Seq<Document>, uri: Seq<char>) -> Option<DocView>
    decreases s.len(),
{
    if s.len() == 0 {
        None
    } else if s[0]@.uri == uri {
        Some(s[0]@)
    } else {
        find_doc(s.drop_first(), uri)
    }
}

/// No two entries share a URI.
pub open spec fn distinct_uris(s: Seq<Document>) -> bool {
    forall|i: int, j: int| 0 <= i < j < s.len() ==> s[i]@.uri != s[j]@.uri
}

proof fn lemma_find_at(s: Seq<Document>, i: int)
    requires
        0 <= i < s.len(),
        forall|j: int| 0 <= j < i ==> s[j]@.uri != s[i]@.uri,
    ensures
        find_doc(s, s[i]@.uri) == Some(s[i]@),
    decreases i,
{
    if i > 0 {
        assert(s.drop_first()[i - 1] == s[i]);
        lemma_find_at(s.drop_first(), i - 1);
    }
}

proof fn lemma_find_none_iff(s: Seq<Document>, uri: Seq<char>)
    ensures
        find_doc(s, uri) == None::<DocView> <==> (forall|j: int|
            0 <= j < s.len() ==> s[j]@.uri != uri),
    decreases s.len(),
{
    if s.len() > 0 {
        lemma_find_none_iff(s.drop_first(), uri);
        assert(forall|j: int| 0 <= j < s.drop_first().len() ==> s.drop_first()[j] == s[j + 1]);
        if s[0]@.uri == uri {
            assert(find_doc(s, uri) == Some(s[0]@));
        } else {
            if find_doc(s, uri) == None::<DocView> {
                assert forall|j: int| 0 <= j < s.len() implies s[j]@.uri != uri by {
                    if j > 0 {
                        assert(s[j] == s.drop_first()[j - 1]);
                    }
                }
            } else {
                assert(find_doc(s.drop_first(), uri) != None::<DocView>);
                assert(exists|j: int|
                    0 <= j < s.drop_first().len() && s.drop_first()[j]@.uri == uri);
                let j0 = choose|j: int|
                    0 <= j < s.drop_first().len() && s.drop_first()[j]@.uri == uri;
                assert(s[j0 + 1]@.uri == uri);
            }
        }
    }
}

proof fn lemma_find_update(s: Seq<Document>, i: int, d: Document, u: Seq<char>)
    requires
        0 <= i < s.len(),
        distinct_uris(s),
        d@.uri == s[i]@.uri,
    ensures
        distinct_uris(s.update(i, d)),
        find_doc(s.update(i, d), u) == (if u == d@.uri {
            Some(d@)
        } else {
            find_doc(s, u)
        }),
    decreases s.len(),
{
    let s2 = s.update(i, d);
    assert(forall|k: int| 0 <= k < s.len() ==> s2[k]@.uri == s[k]@.uri);
    if i == 0 {
        if u != d@.uri {
            assert(s2.drop_first() =~= s.drop_first());
        }
    } else {
        assert(s2[0] == s[0]);
        if s[0]@.uri == u {
            if u == d@.uri {
                assert(s[0]@.uri == s[i]@.uri);
                assert(false);
            }
        } else {
            assert(s2.drop_first() =~= s.drop_first().update(i - 1, d));
            assert(distinct_uris(s.drop_first())) by {
                assert(forall|k: int|
                    0 <= k < s.drop_first().len() ==> s.drop_first()[k] == s[k + 1]);
            }
            assert(s.drop_first()[i - 1] == s[i]);
            lemma_find_update(s.drop_first(), i - 1, d, u);
        }
    }
}

proof fn lemma_find_remove(s: Seq<Document>, i: int, u: Seq<char>)
    requires
        0 <= i < s.len(),
        distinct_uris(s),
    ensures
        distinct_uris(s.remove(i)),
        find_doc(s.remove(i), u) == (if u == s[i]@.uri {
            None::<DocView>
        } else {
            find_doc(s, u)
        }),
    decreases s.len(),
{
    let s2 = s.remove(i);
    assert(distinct_uris(s2)) by {
        assert(forall|k: int| 0 <= k < i ==> s2[k] == s[k]);
        assert(forall|k: int| i <= k < s2.len() ==> s2[k] == s[k + 1]);
    }
    if i == 0 {
        assert(s2 =~= s.drop_first());
        if u == s[0]@.uri {
            lemma_find_none_iff(s.drop_first(), u);
            assert(forall|j: int| 0 <= j < s.drop_first().len() ==> s.drop_first()[j] == s[j + 1]);
        }
    } else {
        assert(s2[0] == s[0]);
        if s[0]@.uri == u {
            assert(u != s[i]@.uri);
        } else {
            assert(s2.drop_first() =~= s.drop_first().remove(i - 1));
            assert(distinct_uris(s.drop_first())) by {
                assert(forall|k: int|
                    0 <= k < s.drop_first().len() ==> s.drop_first()[k] == s[k + 1]);
            }
            assert(s.drop_first()[i - 1] == s[i]);
            lemma_find_remove(s.drop_first(), i - 1, u);
        }
    }
}

proof fn lemma_find_push(s: Seq<Document>, d: Document, u: Seq<char>)
    requires
        distinct_uris(s),
        find_doc(s, d@.uri) == None::<DocView>,
    ensures
        distinct_uris(s.push(d)),
        find_doc(s.push(d), u) == (if u == d@.uri {
            Some(d@)
        } else {
            find_doc(s, u)
        }),
    decreases s.len(),
{
    lemma_find_none_iff(s, d@.uri);
    let s2 = s.push(d);
    assert(distinct_uris(s2)) by {
        assert(forall|k: int| 0 <= k < s.len() ==> s2[k] == s[k]);
        assert(s2[s.len() as int] == d);
    }
    if s.len() == 0 {
        assert(s2[0] == d);
        if u != d@.uri {
            assert(s2.drop_first() =~= Seq::<Document>::empty());
        }
    } else {
        assert(s2[0] == s[0]);
        assert(s2.drop_first() =~= s.drop_first().push(d));
        assert(distinct_uris(s.drop_first())) by {
            assert(forall|k: int| 0 <= k < s.drop_first().len() ==> s.drop_first()[k] == s[k + 1]);
        }
        assert(find_doc(s.drop_first(), d@.uri) == None::<DocView>) by {
            lemma_find_none_iff(s.drop_first(), d@.uri);
            assert(forall|j: int| 0 <= j < s.drop_first().len() ==> s.drop_first()[j] == s[j + 1]);
        }
        assert(s[0]@.uri != d@.uri);
        if s[0]@.uri == u {
            assert(find_doc(s2, u) == Some(s[0]@));
            assert(find_doc(s, u) == Some(s[0]@));
        } else {
            lemma_find_push(s.drop_first(), d, u);
            assert(find_doc(s2, u) == find_doc(s2.drop_first(), u));
            assert(find_doc(s, u) == find_doc(s.drop_first(), u));
        }
    }
}

/// The registry: a mapping from URI to the one open document under it.
#[derive(Debug)]
pub struct Vfs {
    pub entries: Vec<Document>,
}

impl Vfs {
    /// Entries never share a URI, so lookup is unambiguous.
    pub open spec fn wf(self) -> bool {
        distinct_uris(self.entries@)
    }

    /// The document registered under `uri`, if any.
    pub open spec fn spec_get(self, uri: Seq<char>) -> Option<DocView> {
        find_doc(self.entries@, uri)
    }

    /// An empty registry.
    pub fn new() -> (r: Vfs)
        ensures
            r.wf(),
            forall|u: Seq<char>| r.spec_get(u) == None::<DocView>,
    {
        Vfs { entries: Vec::new() }
    }

    fn find_index(&self, uri: &Vec<char>) -> (r: Option<usize>)
        ensures
            match r {
                Some(i) => i < self.entries@.len() && self.entries@[i as int]@.uri == uri@
                    && self.spec_get(uri@) == Some(self.entries@[i as int]@),
                None => self.spec_get(uri@) == None::<DocView>,
            },
    {
        let mut i: usize = 0;
        while i < self.entries.len()
            invariant
                i <= self.entries@.len(),
                forall|j: int| 0 <= j < i ==> self.entries@[j]@.uri != uri@,
            decreases self.entries@.len() - i,
        {
            if chars_eq(self.entries[i].uri_chars(), uri) {
                proof {
                    lemma_find_at(self.entries@, i as int);
                }
                return Some(i);
            }
            i = i + 1;
        }
        proof {
            lemma_find_none_iff(self.entries@, uri@);
        }
        None
    }

    /// Registers a fresh document at version zero under `uri`, replacing
    /// any prior entry for that URI.
    pub fn create_document(&mut self, uri: &Vec<char>, text: &Vec<char>)
        requires
            old(self).wf(),
        ensures
            final(self).wf(),
            final(self).spec_get(uri@) == Some(DocView { uri: uri@, version: 0, text: text@ }),
            forall|u: Seq<char>| u != uri@ ==> final(self).spec_get(u) == old(self).spec_get(u),
    {
        let d = Document::new(uri, text);
        let found = self.find_index(uri);
        match found {
            Some(i) => {
                let ghost s = self.entries@;
                self.entries.remove(i);
                self.entries.insert(i, d);
                proof {
                    assert(self.entries@ =~= s.update(i as int, d));
                    assert forall|u: Seq<char>|
                        find_doc(s.update(i as int, d), u) == (if u == uri@ {
                            Some(d@)
                        } else {
                            find_doc(s, u)
                        }) by {
                        lemma_find_update(s, i as int, d, u);
                    }
                    lemma_find_update(s, i as int, d, uri@);
                }
            },
            None => {
                let ghost s = self.entries@;
                self.entries.push(d);
                proof {
                    assert forall|u: Seq<char>|
                        find_doc(s.push(d), u) == (if u == uri@ {
                            Some(d@)
                        } else {
                            find_doc(s, u)
                        }) by {
                        lemma_find_push(s, d, u);
                    }
                    lemma_find_push(s, d, uri@);
                }
            },
        }
    }

    /// The version of the document open under `uri`, if one is.
    pub fn document_version(&self, uri: &Vec<char>) -> (r: Option<u64>)
        ensures
            match self.spec_get(uri@) {
                Some(d) => r == Some(d.version),
                None => r == None::<u64>,
            },
    {
        match self.find_index(uri) {
            Some(i) => Some(self.entries[i].version()),
            None => None,
        }
    }

    /// A copy of the text open under `uri`, if any.
    pub fn open_contents(&self, uri: &Vec<char>) -> (r: Option<Vec<char>>)
        ensures
            match self.spec_get(uri@) {
                Some(d) => r matches Some(t) && t@ == d.text,
                None => r is None,
            },
    {
        match self.find_index(uri) {
            Some(i) => Some(self.entries[i].contents()),
            None => None,
        }
    }

    /// Applies a change list to the document under `uri` and stamps it with
    /// `version`; a no-op when the URI is not open.
    pub fn update_document(&mut self, uri: &Vec<char>, changes: &Vec<ContentChange>, version: u64)
        requires
            old(self).wf(),
        ensures
            final(self).wf(),
            match old(self).spec_get(uri@) {
                Some(d) => final(self).spec_get(uri@) == Some(DocView {
                    uri: d.uri,
                    version: version,
                    text: changes_applied(d.text, changes@),
                }) && (forall|u: Seq<char>|
                    u != uri@ ==> final(self).spec_get(u) == old(self).spec_get(u)),
                None => *final(self) == *old(self),
            },
    {
        let found = self.find_index(uri);
        match found {
            Some(i) => {
                let ghost s = self.entries@;
                let mut d = self.entries.remove(i);
                d.apply_content_changes(changes);
                d.set_version(version);
                self.entries.insert(i, d);
                proof {
                    assert(self.entries@ =~= s.update(i as int, d));
                    assert forall|u: Seq<char>|
                        find_doc(s.update(i as int, d), u) == (if u == uri@ {
                            Some(d@)
                        } else {
                            find_doc(s, u)
                        }) by {
                        lemma_find_update(s, i as int, d, u);
                    }
                    lemma_find_update(s, i as int, d, uri@);
                }
            },
            None => {},
        }
    }

    /// Removes the entry under `uri`; never fails, also when absent.
    pub fn evict_document(&mut self, uri: &Vec<char>)
        requires
            old(self).wf(),
        ensures
            final(self).wf(),
            final(self).spec_get(uri@) == None::<DocView>,
            forall|u: Seq<char>| u != uri@ ==> final(self).spec_get(u) == old(self).spec_get(u),
    {
        let found = self.find_index(uri);
        match found {
            Some(i) => {
                let ghost s = self.entries@;
                self.entries.remove(i);
                proof {
                    assert forall|u: Seq<char>|
                        find_doc(s.remove(i as int), u) == (if u == uri@ {
                            None::<DocView>
                        } else {
                            find_doc(s, u)
                        }) by {
                        lemma_find_remove(s, i as int, u);
                    }
                    lemma_find_remove(s, i as int, uri@);
                }
            },
            None => {},
        }
    }
}

} // verus!
