//! The open `.http` documents and the requests found in each, kept in step:
//! whenever a document is opened or changed its requests are found again.

use vstd::prelude::*;
use crate::dash::{
    request_entries, request_map_get, request_map_insert, request_map_new, request_map_remove,
    text_entries, text_map_get, text_map_insert, text_map_new, text_map_remove, RequestMap,
    TextMap,
};
use crate::request_index::{
    enclosing, lemma_request_at_line_picks_enclosing, lemma_scan_anchors_increase,
    request_at_line, request_views, scan, scanned, Request, RequestView,
};
use crate::text::{chars_of, split_lines, text_lines};

verus! {

/// The open documents (by URI) and their requests.
pub struct DocumentStore {
    documents: TextMap,
    requests: RequestMap,
}

impl DocumentStore {
    /// The text of each open document, by URI.
    pub closed spec fn texts(&self) -> Map<Seq<char>, Seq<char>> {
        text_entries(self.documents)
    }

    /// The requests held for each open document, by URI.
    pub closed spec fn indexed(&self) -> Map<Seq<char>, Seq<RequestView>> {
        request_entries(self.requests)
    }

    /// The store's invariant: the requests held for each open document are
    /// exactly those that scanning its text finds, and requests are held for
    /// open documents only.
    pub open spec fn wf(&self) -> bool {
        &&& self.indexed().dom() == self.texts().dom()
        &&& forall|uri: Seq<char>|
            #[trigger] self.texts().contains_key(uri) ==> self.indexed()[uri] == scanned(
                self.texts()[uri],
            )
    }

    /// A store with no documents.
    pub fn new() -> (s: Self)
        ensures
            s.wf(),
            s.texts() == Map::<Seq<char>, Seq<char>>::empty(),
    {
        let s = DocumentStore { documents: text_map_new(), requests: request_map_new() };
        proof {
            assert(s.indexed().dom() =~= s.texts().dom());
        }
        s
    }

    fn reindex(&mut self, uri: &String, text: &String)
        ensures
            final(self).texts() == old(self).texts(),
            final(self).indexed() == old(self).indexed().insert(uri@, scanned(text@)),
    {
        let reqs = scan(text.as_str());
        request_map_insert(&mut self.requests, uri.clone(), reqs);
    }

    /// A document was opened with the text `text`.
    pub fn open(&mut self, uri: String, text: String)
        requires
            old(self).wf(),
        ensures
            final(self).wf(),
            final(self).texts() == old(self).texts().insert(uri@, text@),
    {
        self.reindex(&uri, &text);
        text_map_insert(&mut self.documents, uri, text);
        proof {
            assert(self.indexed().dom() =~= self.texts().dom());
        }
    }

    /// A document changed; `last_change` is the full text of the last change
    /// in the notification, if there was any change.
    pub fn change(&mut self, uri: String, last_change: Option<String>)
        requires
            old(self).wf(),
        ensures
            final(self).wf(),
            final(self).texts() == match last_change {
                Some(text) => old(self).texts().insert(uri@, text@),
                None => old(self).texts(),
            },
    {
        match last_change {
            Some(text) => self.open(uri, text),
            None => {},
        }
    }

    /// A document was closed: it and its requests are forgotten.
    pub fn close(&mut self, uri: &String)
        requires
            old(self).wf(),
        ensures
            final(self).wf(),
            final(self).texts() == old(self).texts().remove(uri@),
    {
        text_map_remove(&mut self.documents, uri);
        request_map_remove(&mut self.requests, uri);
        proof {
            assert(self.indexed().dom() =~= self.texts().dom());
        }
    }

    /// The requests of the document `uri`, if it is open.
    pub fn requests_of(&self, uri: &String) -> (r: Option<Vec<Request>>)
        requires
            self.wf(),
        ensures
            match r {
                Some(v) => self.texts().contains_key(uri@) && request_views(v@) == scanned(
                    self.texts()[uri@],
                ),
                None => !self.texts().contains_key(uri@),
            },
    {
        request_map_get(&self.requests, uri)
    }

    /// The request whose block holds `line` of the document `uri`, with the
    /// document's number of lines (counted as `str::lines` does, as a `u32`).
    pub fn enclosing_request(&self, uri: &String, line: u32) -> (r: Option<(Request, u32)>)
        requires
            self.wf(),
        ensures
            match r {
                Some((req, total)) => {
                    &&& self.texts().contains_key(uri@)
                    &&& total == text_lines(self.texts()[uri@]).len() as u32
                    &&& enclosing(scanned(self.texts()[uri@]), line, total) == Some(req@)
                },
                None => !self.texts().contains_key(uri@) || enclosing(
                    scanned(self.texts()[uri@]),
                    line,
                    text_lines(self.texts()[uri@]).len() as u32,
                ) is None,
            },
    {
        let reqs = match request_map_get(&self.requests, uri) {
            Some(v) => v,
            None => return None,
        };
        let text = match text_map_get(&self.documents, uri) {
            Some(t) => t,
            None => return None,
        };
        let chars = chars_of(text.as_str());
        let total = split_lines(&chars).len() as u32;
        match request_at_line(reqs.as_slice(), line, total) {
            Some(r) => Some((copy_request(r), total)),
            None => None,
        }
    }
}

/// A copy of a request.
pub fn copy_request(r: &Request) -> (c: Request)
    ensures
        c@ == r@,
{
    Request { line: r.line, method: r.method.clone(), url: r.url.clone() }
}

/// In an open document of fewer than 2^32 lines, for a line inside it,
/// `enclosing_request` finds the request with the greatest anchor at or
/// before that line, and finds none exactly when every request starts after
/// it.
pub proof fn lemma_enclosing_request_is_last_anchor_before(text: Seq<char>, line: u32)
    requires
        text_lines(text).len() < 0x1_0000_0000,
        line < text_lines(text).len(),
    ensures
        ({
            let found = scanned(text);
            let total = text_lines(text).len() as u32;
            &&& enclosing(found, line, total) is None <==> forall|k: int|
                0 <= k < found.len() ==> (#[trigger] found[k]).0 > line
            &&& enclosing(found, line, total) matches Some(r) ==> {
                &&& r.0 <= line
                &&& exists|k: int| 0 <= k < found.len() && found[k] == r
                &&& forall|k: int|
                    0 <= k < found.len() && (#[trigger] found[k]).0 <= line ==> found[k].0 <= r.0
            }
        }),
{
    lemma_scan_anchors_increase(text);
    let total = text_lines(text).len() as u32;
    assert(total as int == text_lines(text).len());
    lemma_request_at_line_picks_enclosing(scanned(text), line, total);
}

/// In a document of fewer than 2^32 lines, every request's own anchor line
/// lies in that request's block: looking up the anchor gives the request.
pub proof fn lemma_anchor_line_gives_its_request(text: Seq<char>, i: int)
    requires
        text_lines(text).len() < 0x1_0000_0000,
        0 <= i < scanned(text).len(),
    ensures
        enclosing(scanned(text), scanned(text)[i].0, text_lines(text).len() as u32) == Some(
            scanned(text)[i],
        ),
{
    let found = scanned(text);
    let total = text_lines(text).len() as u32;
    let line = found[i].0;
    lemma_scan_anchors_increase(text);
    assert(line < text_lines(text).len());
    assert(total as int == text_lines(text).len());
    lemma_request_at_line_picks_enclosing(found, line, total);
    let r = enclosing(found, line, total)->Some_0;
    let k = choose|k: int| 0 <= k < found.len() && found[k] == r;
    if k < i {
        assert(found[k].0 < found[i].0);
    } else if k > i {
        assert(found[i].0 < found[k].0);
    }
}

} // verus!
