//! The state of one Lean server: which documents are open in it, what was last published of each,
//! and how a check runs from its first message to its end.
use vstd::prelude::*;

use crate::bindings::{
    bind, distinct, entry_at, find, law_bind, law_unbind, lemma_entry_at, put, take, unbind,
    value_of, BindV, Binding,
};
use crate::daemon::{
    file_uri, header_of, import_header, uri_of, DiagV, InV, Incoming, OutV, Outgoing, Published,
    MAX_OPEN_DOCS,
};
use crate::repr::{group_views, opt_view, views};
use crate::text::{owned, same_text};
use crate::wire::{LeanMessage, MessageV};

verus! {

broadcast use group_views;

/// A document that is open in the server.
#[derive(Debug)]
pub struct OpenDocument {
    pub uri: String,
    /// The lines that import, as they stand: a worker keeps what it has imported.
    pub import_header: String,
    /// The text as it was last sent: what was published is reused for this text only.
    pub text: String,
}

pub ghost struct DocV {
    pub uri: Seq<char>,
    pub header: Seq<char>,
    pub text: Seq<char>,
}

impl View for OpenDocument {
    type V = DocV;

    open spec fn view(&self) -> DocV {
        DocV { uri: self.uri@, header: self.import_header@, text: self.text@ }
    }
}

/// The state of a server between checks.
#[derive(Debug)]
pub struct Session {
    pub next_id: i64,
    /// The version of the last document that was sent, over all documents.
    pub next_version: i64,
    /// The open documents, the most recently used last.
    pub open_docs: Vec<OpenDocument>,
    /// What was last published of each open document. Nothing is published anew for a document
    /// that did not change.
    pub last_diags: Vec<Binding<Published>>,
}

pub ghost struct SessionV {
    pub next_id: i64,
    pub next_version: i64,
    pub docs: Seq<DocV>,
    pub diags: Seq<BindV<Option<Seq<DiagV>>>>,
}

impl View for Session {
    type V = SessionV;

    open spec fn view(&self) -> SessionV {
        SessionV {
            next_id: self.next_id,
            next_version: self.next_version,
            docs: views(self.open_docs@),
            diags: views(self.last_diags@),
        }
    }
}

impl SessionV {
    /// No more documents are open than may be, none is open twice, and only of open documents is
    /// it known what was published.
    pub open spec fn wf(self) -> bool {
        &&& self.docs.len() <= MAX_OPEN_DOCS
        &&& forall|i: int, j: int|
            0 <= i < j < self.docs.len() ==> (#[trigger] self.docs[i]).uri != (
            #[trigger] self.docs[j]).uri
        &&& distinct(self.diags)
        &&& forall|i: int|
            0 <= i < self.diags.len() ==> doc_at(
                self.docs,
                (#[trigger] self.diags[i]).name,
                0,
            ) is Some
    }
}

/// The first open document of an address, at `i` or later.
pub open spec fn doc_at(docs: Seq<DocV>, uri: Seq<char>, i: nat) -> Option<nat>
    decreases docs.len() - i,
{
    if i >= docs.len() {
        None
    } else if docs[i as int].uri == uri {
        Some(i)
    } else {
        doc_at(docs, uri, i + 1)
    }
}

proof fn lemma_doc_at(docs: Seq<DocV>, uri: Seq<char>, i: nat)
    ensures
        match doc_at(docs, uri, i) {
            Some(k) => i <= k < docs.len() && docs[k as int].uri == uri && forall|j: int|
                i <= j < k ==> (#[trigger] docs[j]).uri != uri,
            None => forall|j: int| i <= j < docs.len() ==> (#[trigger] docs[j]).uri != uri,
        },
    decreases docs.len() - i,
{
    if i < docs.len() && docs[i as int].uri != uri {
        lemma_doc_at(docs, uri, i + 1);
    }
}

fn find_doc(docs: &Vec<OpenDocument>, uri: &str) -> (r: Option<usize>)
    ensures
        match doc_at(views(docs@), uri@, 0) {
            Some(i) => r == Some(i as usize) && i < docs@.len() && i <= usize::MAX,
            None => r is None,
        },
{
    let n: usize = docs.len();
    let mut i: usize = 0;
    while i < n
        invariant
            n == docs@.len(),
            i <= n,
            doc_at(views(docs@), uri@, 0) == doc_at(views(docs@), uri@, i as nat),
        decreases n - i,
    {
        if same_text(docs[i].uri.as_str(), uri) {
            return Some(i);
        }
        i = i + 1;
    }
    None
}

// ------------------------------------------------------------------------------------------
// One check
// ------------------------------------------------------------------------------------------

/// A check that waits for the server.
#[derive(Debug)]
pub struct PendingCheck {
    pub uri: String,
    /// The number of the request whose answer ends the check.
    pub wait_id: i64,
    /// What was published of the document since the check began.
    pub diagnostics: Option<Published>,
    /// The answer was an error: the end of the processing ends the check instead.
    pub wait_failed: bool,
    pub progress_done: bool,
    /// The client has gone.
    pub canceled: bool,
}

pub ghost struct CheckV {
    pub uri: Seq<char>,
    pub wait_id: i64,
    pub diagnostics: Option<Option<Seq<DiagV>>>,
    pub wait_failed: bool,
    pub progress_done: bool,
    pub canceled: bool,
}

impl View for PendingCheck {
    type V = CheckV;

    open spec fn view(&self) -> CheckV {
        CheckV {
            uri: self.uri@,
            wait_id: self.wait_id,
            diagnostics: opt_view(self.diagnostics),
            wait_failed: self.wait_failed,
            progress_done: self.progress_done,
            canceled: self.canceled,
        }
    }
}

/// How a check begins: the state it leaves, and the messages to send, in order.
pub open spec fn begun(s: SessionV, uri: Seq<char>, text: Seq<char>) -> (SessionV, Seq<OutV>) {
    let version = (s.next_version + 1) as i64;
    let id = (s.next_id + 1) as i64;
    let doc = DocV { uri, header: header_of(text), text };
    let open = OutV::Open { uri, version, text };
    let wait = OutV::Wait { id, uri, version };
    let (docs, diags, out) = match doc_at(s.docs, uri, 0) {
        Some(i) => {
            let old_doc = s.docs[i as int];
            if old_doc.header != doc.header {
                (s.docs.remove(i as int), unbind(s.diags, uri), seq![OutV::Close { uri }, open])
            } else {
                (
                    s.docs.remove(i as int),
                    if old_doc.text == text {
                        s.diags
                    } else {
                        unbind(s.diags, uri)
                    },
                    seq![OutV::Change { uri, version, text }],
                )
            }
        },
        None => if s.docs.len() >= MAX_OPEN_DOCS {
            (
                s.docs.remove(0),
                unbind(s.diags, s.docs[0].uri),
                seq![OutV::Close { uri: s.docs[0].uri }, open],
            )
        } else {
            (s.docs, s.diags, seq![open])
        },
    };
    (SessionV { next_id: id, next_version: version, docs: docs.push(doc), diags }, out.push(wait))
}

/// A check that has just begun.
pub open spec fn waiting(s: SessionV, uri: Seq<char>) -> CheckV {
    CheckV {
        uri,
        wait_id: (s.next_id + 1) as i64,
        diagnostics: None,
        wait_failed: false,
        progress_done: false,
        canceled: false,
    }
}

/// What happens while a check waits.
#[derive(Debug)]
pub enum Event {
    /// The server sent a message.
    Message(Incoming),
    /// The server sent nothing for a while; the client may have gone meanwhile.
    Silence { disconnected: bool },
    /// The time that a canceled check is given has run out.
    Expired,
    /// Nothing can be received from the server.
    Broken(String),
}

pub ghost enum EventV {
    Message(InV),
    Silence { disconnected: bool },
    Expired,
    Broken(Seq<char>),
}

impl View for Event {
    type V = EventV;

    open spec fn view(&self) -> EventV {
        match *self {
            Event::Message(m) => EventV::Message(m@),
            Event::Silence { disconnected } => EventV::Silence { disconnected },
            Event::Expired => EventV::Expired,
            Event::Broken(e) => EventV::Broken(e@),
        }
    }
}

/// What to do next.
#[derive(Debug)]
pub enum Action {
    /// Wait on.
    Wait,
    /// Send this text, and wait on.
    Send(String),
    /// Close the document, so that its worker ends, and wait on for a limited time.
    Cancel,
    /// The check is over.
    Finish,
    /// The check has failed.
    Fail(String),
}

pub ghost enum ActionV {
    Wait,
    Send(Seq<char>),
    Cancel,
    Finish,
    Fail(Seq<char>),
}

impl View for Action {
    type V = ActionV;

    open spec fn view(&self) -> ActionV {
        match *self {
            Action::Wait => ActionV::Wait,
            Action::Send(s) => ActionV::Send(s@),
            Action::Cancel => ActionV::Cancel,
            Action::Finish => ActionV::Finish,
            Action::Fail(e) => ActionV::Fail(e@),
        }
    }
}

pub open spec fn canceled_text() -> Seq<char> {
    "canceled: client disconnected"@
}

/// Waits on, unless the processing has ended and nothing else will end the check.
pub open spec fn rest(c: CheckV) -> (CheckV, ActionV) {
    if !c.canceled && c.wait_failed && c.progress_done {
        (c, ActionV::Finish)
    } else {
        (c, ActionV::Wait)
    }
}

/// The check after an event, and what to do next.
pub open spec fn stepped(c: CheckV, e: EventV) -> (CheckV, ActionV) {
    match e {
        EventV::Silence { disconnected } => if !c.canceled && disconnected {
            (CheckV { canceled: true, ..c }, ActionV::Cancel)
        } else {
            (c, ActionV::Wait)
        },
        EventV::Expired => (c, ActionV::Fail(canceled_text())),
        EventV::Broken(error) => (c, ActionV::Fail(error)),
        EventV::Message(InV::Diagnostics(p)) => rest(CheckV { diagnostics: Some(p), ..c }),
        EventV::Message(InV::Progress { finished }) => rest(CheckV { progress_done: finished, ..c }),
        EventV::Message(InV::Answer { failed }) => if c.canceled {
            (c, ActionV::Fail(canceled_text()))
        } else if !failed {
            (c, ActionV::Finish)
        } else {
            rest(CheckV { wait_failed: true, ..c })
        },
        EventV::Message(InV::Request(body)) => (c, ActionV::Send(body)),
        EventV::Message(InV::Other) => (c, ActionV::Wait),
    }
}

impl PendingCheck {
    fn rest(&self) -> (r: Action)
        ensures
            r@ == rest(self@).1,
    {
        if !self.canceled && self.wait_failed && self.progress_done {
            Action::Finish
        } else {
            Action::Wait
        }
    }

    /// Takes an event, and tells what to do next.
    pub fn step(&mut self, event: Event) -> (r: Action)
        ensures
            (final(self)@, r@) == stepped(old(self)@, event@),
    {
        match event {
            Event::Silence { disconnected } => if !self.canceled && disconnected {
                self.canceled = true;
                Action::Cancel
            } else {
                Action::Wait
            },
            Event::Expired => Action::Fail(owned("canceled: client disconnected")),
            Event::Broken(error) => Action::Fail(error),
            Event::Message(message) => match message {
                Incoming::Diagnostics(p) => {
                    self.diagnostics = Some(p);
                    self.rest()
                },
                Incoming::Progress { finished } => {
                    self.progress_done = finished;
                    self.rest()
                },
                Incoming::Answer { failed } => {
                    if self.canceled {
                        return Action::Fail(owned("canceled: client disconnected"));
                    }
                    if !failed {
                        return Action::Finish;
                    }
                    self.wait_failed = true;
                    self.rest()
                },
                Incoming::Request(body) => Action::Send(body),
                Incoming::Other => Action::Wait,
            },
        }
    }
}

// ------------------------------------------------------------------------------------------
// The end of a check
// ------------------------------------------------------------------------------------------

pub open spec fn severity_of(severity: Option<u64>) -> Seq<char> {
    match severity {
        None => "error"@,
        Some(n) => if n == 1 {
            "error"@
        } else if n == 2 {
            "warning"@
        } else if n == 3 {
            "information"@
        } else {
            "hint"@
        },
    }
}

/// The line of a diagnostic, counted from one.
pub open spec fn line_of(d: DiagV) -> int {
    d.line as usize + 1
}

/// A machine word holds the line of every diagnostic.
pub open spec fn countable(p: Option<Seq<DiagV>>) -> bool {
    match p {
        Some(items) => lines_fit(items),
        None => true,
    }
}

pub open spec fn lines_fit(items: Seq<DiagV>) -> bool {
    forall|i: int| 0 <= i < items.len() ==> line_of(#[trigger] items[i]) <= usize::MAX
}

/// The messages of what was published.
pub open spec fn messages_of(p: Option<Seq<DiagV>>) -> Seq<MessageV> {
    match p {
        Some(items) => Seq::new(
            items.len(),
            |i: int|
                MessageV {
                    severity: severity_of(items[i].severity),
                    line: line_of(items[i]) as usize,
                    data: items[i].message,
                },
        ),
        None => Seq::empty(),
    }
}

/// What a check found: what was published since it began, or else what is known from before.
pub open spec fn found(s: SessionV, c: CheckV) -> Option<Seq<DiagV>> {
    match c.diagnostics {
        Some(p) => p,
        None => match value_of(s.diags, c.uri) {
            Some(p) => p,
            None => None,
        },
    }
}

/// The state after a check that is over.
pub open spec fn finished(s: SessionV, c: CheckV) -> SessionV {
    match c.diagnostics {
        Some(p) => SessionV { diags: bind(s.diags, c.uri, p), ..s },
        None => s,
    }
}

/// The state after a check that has failed: its document is no longer known.
pub open spec fn abandoned(s: SessionV, c: CheckV) -> SessionV {
    SessionV {
        docs: s.docs.filter(|d: DocV| d.uri != c.uri),
        diags: unbind(s.diags, c.uri),
        ..s
    }
}

proof fn lemma_uncountable(items: Seq<DiagV>, i: int)
    requires
        0 <= i < items.len(),
        line_of(items[i]) > usize::MAX,
    ensures
        !countable(Some(items)),
{
}

impl Published {
    /// Whether a machine word holds the line of every diagnostic.
    pub fn countable(&self) -> (r: bool)
        ensures
            r == countable(self@),
    {
        match &self.items {
            None => true,
            Some(items) => {
                let n: usize = items.len();
                let mut i: usize = 0;
                while i < n
                    invariant
                        self.items == Some(*items),
                        n == items@.len(),
                        i <= n,
                        forall|k: int| 0 <= k < i ==> line_of(#[trigger] views(items@)[k]) <= usize::MAX,
                    decreases n - i,
                {
                    if items[i].line as usize == usize::MAX {
                        proof {
                            lemma_uncountable(views(items@), i as int);
                        }
                        return false;
                    }
                    i = i + 1;
                }
                true
            },
        }
    }

    /// The messages, with lines that count from one.
    pub fn messages(&self) -> (r: Vec<LeanMessage>)
        requires
            countable(self@),
        ensures
            views(r@) == messages_of(self@),
    {
        let mut out: Vec<LeanMessage> = Vec::new();
        match &self.items {
            None => {},
            Some(items) => {
                let n: usize = items.len();
                let mut i: usize = 0;
                while i < n
                    invariant
                        n == items@.len(),
                        i <= n,
                        countable(Some(views(items@))),
                        views(out@) == messages_of(Some(views(items@))).take(i as int),
                    decreases n - i,
                {
                    let severity = match items[i].severity {
                        None => "error",
                        Some(s) => if s == 1 {
                            "error"
                        } else if s == 2 {
                            "warning"
                        } else if s == 3 {
                            "information"
                        } else {
                            "hint"
                        },
                    };
                    assert(line_of(views(items@)[i as int]) <= usize::MAX);
                    out.push(
                        LeanMessage {
                            severity: owned(severity),
                            line: items[i].line as usize + 1,
                            data: items[i].message.clone(),
                        },
                    );
                    let ghost all = messages_of(Some(views(items@)));
                    assert(all.take(i + 1) =~= all.take(i as int).push(all[i as int]));
                    i = i + 1;
                }
                let ghost all = messages_of(Some(views(items@)));
                assert(all.take(n as int) =~= all);
            },
        }
        out
    }
}

impl Session {
    pub fn new() -> (r: Self)
        ensures
            r@ == (SessionV {
                next_id: 0,
                next_version: 0,
                docs: Seq::empty(),
                diags: Seq::empty(),
            }),
            r@.wf(),
    {
        Session { next_id: 0, next_version: 0, open_docs: Vec::new(), last_diags: Vec::new() }
    }

    /// The first message to a fresh server.
    pub fn initialize(&mut self, process: u32, root: &str) -> (r: Outgoing)
        requires
            old(self).next_id < i64::MAX,
        ensures
            r@ == (OutV::Initialize {
                id: final(self).next_id,
                process: process as i64,
                root_uri: uri_of(root@),
            }),
            final(self)@ == (SessionV { next_id: (old(self).next_id + 1) as i64, ..old(self)@ }),
    {
        self.next_id = self.next_id + 1;
        Outgoing::Initialize { id: self.next_id, process: process as i64, root_uri: file_uri(root) }
    }

    /// Begins the check of a text under a path: what to send, in order, and the check that waits.
    /// The text travels with the request, and the path is an address only.
    pub fn begin(&mut self, file: &str, text: &str) -> (r: (PendingCheck, Vec<Outgoing>))
        requires
            old(self).next_id < i64::MAX,
            old(self).next_version < i64::MAX,
        ensures
            r.0@ == waiting(old(self)@, uri_of(file@)),
            (final(self)@, views(r.1@)) == begun(old(self)@, uri_of(file@), text@),
    {
        let uri = file_uri(file);
        let header = import_header(text);
        self.next_version = self.next_version + 1;
        let version: i64 = self.next_version;
        let mut out: Vec<Outgoing> = Vec::new();
        let ghost docs = views(self.open_docs@);
        match find_doc(&self.open_docs, uri.as_str()) {
            Some(i) => {
                let kept = self.open_docs.remove(i);
                assert(kept@ == docs[i as int]);
                assert(views(self.open_docs@) =~= docs.remove(i as int));
                if !same_text(kept.import_header.as_str(), header.as_str()) {
                    out.push(Outgoing::Close { uri: uri.clone() });
                    let _ = take(&mut self.last_diags, uri.as_str());
                    out.push(Outgoing::Open { uri: uri.clone(), version, text: owned(text) });
                } else {
                    out.push(Outgoing::Change { uri: uri.clone(), version, text: owned(text) });
                    if !same_text(kept.text.as_str(), text) {
                        let _ = take(&mut self.last_diags, uri.as_str());
                    }
                }
            },
            None => {
                if self.open_docs.len() >= MAX_OPEN_DOCS {
                    let evicted = self.open_docs.remove(0);
                    assert(evicted@ == docs[0]);
                    assert(views(self.open_docs@) =~= docs.remove(0));
                    let _ = take(&mut self.last_diags, evicted.uri.as_str());
                    out.push(Outgoing::Close { uri: evicted.uri });
                }
                out.push(Outgoing::Open { uri: uri.clone(), version, text: owned(text) });
            },
        }
        self.open_docs.push(
            OpenDocument { uri: uri.clone(), import_header: header, text: owned(text) },
        );
        self.next_id = self.next_id + 1;
        out.push(Outgoing::Wait { id: self.next_id, uri: uri.clone(), version });
        proof {
            assert(views(out@) =~= begun(old(self)@, uri@, text@).1);
        }
        (
            PendingCheck {
                uri,
                wait_id: self.next_id,
                diagnostics: None,
                wait_failed: false,
                progress_done: false,
                canceled: false,
            },
            out,
        )
    }

    /// Whether a machine word holds the line of everything that a check found.
    pub fn countable(&self, check: &PendingCheck) -> (r: bool)
        ensures
            r == countable(found(self@, check@)),
    {
        match &check.diagnostics {
            Some(p) => p.countable(),
            None => match find(&self.last_diags, check.uri.as_str()) {
                Some(p) => p.countable(),
                None => true,
            },
        }
    }

    /// Ends a check that is over: its messages.
    pub fn finish(&mut self, check: PendingCheck) -> (r: Vec<LeanMessage>)
        requires
            countable(found(old(self)@, check@)),
        ensures
            views(r@) == messages_of(found(old(self)@, check@)),
            final(self)@ == finished(old(self)@, check@),
    {
        match check.diagnostics {
            Some(p) => {
                let r = p.messages();
                put(&mut self.last_diags, check.uri.as_str(), p);
                r
            },
            None => match find(&self.last_diags, check.uri.as_str()) {
                Some(p) => p.messages(),
                None => {
                    let none: Vec<LeanMessage> = Vec::new();
                    assert(views(none@) =~= messages_of(None));
                    none
                },
            },
        }
    }

    /// Ends a check that has failed: the message to send, unless the document was closed before.
    pub fn abandon(&mut self, check: PendingCheck) -> (r: Option<Outgoing>)
        ensures
            final(self)@ == abandoned(old(self)@, check@),
            opt_view(r) == (if check.canceled {
                None
            } else {
                Some(OutV::Close { uri: check.uri@ })
            }),
    {
        let mut kept: Vec<OpenDocument> = Vec::new();
        let ghost docs = views(self.open_docs@);
        let ghost other = |d: DocV| d.uri != check.uri@;
        let mut rest: Vec<OpenDocument> = Vec::new();
        std::mem::swap(&mut rest, &mut self.open_docs);
        let n: usize = rest.len();
        let mut i: usize = 0;
        assert(views(kept@) =~= docs.take(0).filter(other)) by {
            reveal(Seq::filter);
        }
        while rest.len() > 0
            invariant
                n == docs.len(),
                i + rest@.len() == n,
                views(rest@) == docs.skip(i as int),
                other == (|d: DocV| d.uri != check.uri@),
                views(kept@) == docs.take(i as int).filter(other),
            decreases rest@.len(),
        {
            let ghost before = rest@;
            let doc = rest.remove(0);
            proof {
                assert(views(before)[0] == docs[i as int]);
                assert(views(rest@) =~= docs.skip(i + 1)) by {
                    assert forall|k: int| 0 <= k < rest@.len() implies views(rest@)[k] == docs.skip(
                        i + 1,
                    )[k] by {
                        assert(rest@[k] == before[k + 1]);
                        assert(views(before)[k + 1] == docs.skip(i as int)[k + 1]);
                    }
                }
                assert(docs.take(i + 1).drop_last() =~= docs.take(i as int));
                assert(docs.take(i + 1).last() == docs[i as int]);
                reveal(Seq::filter);
            }
            if !same_text(doc.uri.as_str(), check.uri.as_str()) {
                kept.push(doc);
            }
            i = i + 1;
        }
        assert(docs.take(n as int) =~= docs);
        self.open_docs = kept;
        let _ = take(&mut self.last_diags, check.uri.as_str());
        if check.canceled {
            None
        } else {
            Some(Outgoing::Close { uri: check.uri })
        }
    }
}

// ------------------------------------------------------------------------------------------
// One turn of a check
// ------------------------------------------------------------------------------------------

/// What comes of an event: how the check goes on, or how it ended.
#[derive(Debug)]
pub enum Turn {
    /// Wait on.
    Wait(PendingCheck),
    /// Send this text, and wait on.
    Send(PendingCheck, String),
    /// Send this message, so that the worker ends, and wait on for a limited time.
    Cancel(PendingCheck, Outgoing),
    /// The check is over, with these messages.
    Done(Vec<LeanMessage>),
    /// The check has failed; the message is to be sent where there is one.
    Failed(String, Option<Outgoing>),
    /// The check is over, and a line of what it found is beyond the machine's words.
    Uncounted(PendingCheck),
}

pub ghost enum TurnV {
    Wait(CheckV),
    Send(CheckV, Seq<char>),
    Cancel(CheckV, OutV),
    Done(Seq<MessageV>),
    Failed(Seq<char>, Option<OutV>),
    Uncounted(CheckV),
}

impl View for Turn {
    type V = TurnV;

    open spec fn view(&self) -> TurnV {
        match *self {
            Turn::Wait(c) => TurnV::Wait(c@),
            Turn::Send(c, body) => TurnV::Send(c@, body@),
            Turn::Cancel(c, close) => TurnV::Cancel(c@, close@),
            Turn::Done(messages) => TurnV::Done(views(messages@)),
            Turn::Failed(error, close) => TurnV::Failed(error@, opt_view(close)),
            Turn::Uncounted(c) => TurnV::Uncounted(c@),
        }
    }
}

/// The session after an event of a check, and what comes of it.
pub open spec fn turned(s: SessionV, c: CheckV, e: EventV) -> (SessionV, TurnV) {
    match stepped(c, e) {
        (c, ActionV::Wait) => (s, TurnV::Wait(c)),
        (c, ActionV::Send(body)) => (s, TurnV::Send(c, body)),
        (c, ActionV::Cancel) => (s, TurnV::Cancel(c, OutV::Close { uri: c.uri })),
        (c, ActionV::Finish) => if countable(found(s, c)) {
            (finished(s, c), TurnV::Done(messages_of(found(s, c))))
        } else {
            (s, TurnV::Uncounted(c))
        },
        (c, ActionV::Fail(error)) => (
            abandoned(s, c),
            TurnV::Failed(
                error,
                if c.canceled {
                    None
                } else {
                    Some(OutV::Close { uri: c.uri })
                },
            ),
        ),
    }
}

impl Session {
    /// Takes an event of a check: steps it, and ends it where it ends.
    pub fn turn(&mut self, check: PendingCheck, event: Event) -> (r: Turn)
        ensures
            (final(self)@, r@) == turned(old(self)@, check@, event@),
    {
        let mut check = check;
        match check.step(event) {
            Action::Wait => Turn::Wait(check),
            Action::Send(body) => Turn::Send(check, body),
            Action::Cancel => {
                let close = Outgoing::Close { uri: check.uri.clone() };
                Turn::Cancel(check, close)
            },
            Action::Finish => {
                if self.countable(&check) {
                    Turn::Done(self.finish(check))
                } else {
                    Turn::Uncounted(check)
                }
            },
            Action::Fail(error) => {
                let close = self.abandon(check);
                Turn::Failed(error, close)
            },
        }
    }
}

// ------------------------------------------------------------------------------------------
// Laws
// ------------------------------------------------------------------------------------------

/// A check that begins keeps the open documents within their number and each open once; its own
/// document is then the most recently used one.
pub proof fn law_begin_keeps_the_session(s: SessionV, uri: Seq<char>, text: Seq<char>)
    requires
        s.wf(),
    ensures
        begun(s, uri, text).0.wf(),
        begun(s, uri, text).0.docs.last() == (DocV { uri, header: header_of(text), text }),
{
    let t = begun(s, uri, text).0;
    lemma_doc_at(s.docs, uri, 0);
    let gone = match doc_at(s.docs, uri, 0) {
        Some(i) => i as int,
        None => if s.docs.len() >= MAX_OPEN_DOCS {
            0
        } else {
            -1
        },
    };
    let last = t.docs.len() - 1;
    assert forall|i: int, j: int| 0 <= i < j < t.docs.len() implies (#[trigger] t.docs[i]).uri != (
    #[trigger] t.docs[j]).uri by {
        let a = if gone < 0 || i < gone {
            i
        } else {
            i + 1
        };
        let b = if gone < 0 || j < gone {
            j
        } else {
            j + 1
        };
        assert(t.docs[i] == s.docs[a]);
        if j < last {
            assert(t.docs[j] == s.docs[b]);
        }
    }
    let name = match doc_at(s.docs, uri, 0) {
        Some(i) => uri,
        None => if s.docs.len() >= MAX_OPEN_DOCS {
            s.docs[0].uri
        } else {
            uri
        },
    };
    law_unbind(s.diags, name, uri);
    assert(distinct(t.diags));
    assert forall|i: int| 0 <= i < t.diags.len() implies doc_at(
        t.docs,
        (#[trigger] t.diags[i]).name,
        0,
    ) is Some by {
        let n = t.diags[i].name;
        lemma_entry_at(t.diags, n, 0);
        law_unbind(s.diags, name, n);
        lemma_entry_at(s.diags, n, 0);
        lemma_entry_at(s.diags, name, 0);
        assert(value_of(t.diags, n) is Some);
        assert(value_of(s.diags, n) is Some) by {
            if n == name && t.diags != s.diags {
                assert(value_of(unbind(s.diags, name), name) is None);
            }
        }
        let e = entry_at(s.diags, n, 0)->Some_0;
        assert(s.diags[e as int].name == n);
        assert(doc_at(s.docs, n, 0) is Some);
        lemma_doc_at(s.docs, n, 0);
        lemma_doc_at(t.docs, n, 0);
        let k = doc_at(s.docs, n, 0)->Some_0 as int;
        if n == uri {
            assert(t.docs[last].uri == n);
        } else {
            assert(k != gone) by {
                if k == gone {
                    match doc_at(s.docs, uri, 0) {
                        Some(_) => {},
                        None => {
                            assert(n == name);
                            assert(t.diags == unbind(s.diags, name));
                        },
                    }
                }
            }
            let m = if gone < 0 || k < gone {
                k
            } else {
                k - 1
            };
            assert(t.docs[m] == s.docs[k]);
        }
    }
}

/// A document is changed only where its imports stayed as they are; where they differ it is closed
/// and opened anew.
pub proof fn law_no_change_under_other_imports(s: SessionV, uri: Seq<char>, text: Seq<char>, i: int)
    requires
        0 <= i < begun(s, uri, text).1.len(),
        begun(s, uri, text).1[i] is Change,
    ensures
        doc_at(s.docs, uri, 0) is Some,
        s.docs[doc_at(s.docs, uri, 0)->Some_0 as int].header == header_of(text),
{
}

/// What was published before is kept only for a document with the very same text.
pub proof fn law_reuse_needs_the_same_text(s: SessionV, uri: Seq<char>, text: Seq<char>)
    requires
        s.wf(),
        value_of(begun(s, uri, text).0.diags, uri) is Some,
    ensures
        doc_at(s.docs, uri, 0) is Some,
        s.docs[doc_at(s.docs, uri, 0)->Some_0 as int].text == text,
        value_of(begun(s, uri, text).0.diags, uri) == value_of(s.diags, uri),
{
    law_unbind(s.diags, uri, uri);
    lemma_doc_at(s.docs, uri, 0);
    if doc_at(s.docs, uri, 0) is None {
        lemma_entry_at(s.diags, uri, 0);
        if s.docs.len() >= MAX_OPEN_DOCS {
            law_unbind(s.diags, s.docs[0].uri, uri);
        }
        assert(value_of(s.diags, uri) is Some);
        let e = entry_at(s.diags, uri, 0)->Some_0;
        assert(s.diags[e as int].name == uri);
        assert(doc_at(s.docs, s.diags[e as int].name, 0) is Some);
    }
}

/// The end of a check of an open document keeps the session.
pub proof fn law_finish_keeps_the_session(s: SessionV, c: CheckV)
    requires
        s.wf(),
        doc_at(s.docs, c.uri, 0) is Some,
    ensures
        finished(s, c).wf(),
        c.diagnostics is Some ==> value_of(finished(s, c).diags, c.uri) == Some(found(s, c)),
{
    match c.diagnostics {
        Some(p) => {
            let t = finished(s, c);
            law_bind(s.diags, c.uri, p, c.uri);
            lemma_entry_at(s.diags, c.uri, 0);
            assert forall|i: int| 0 <= i < t.diags.len() implies doc_at(
                t.docs,
                (#[trigger] t.diags[i]).name,
                0,
            ) is Some by {
                if t.diags[i].name != c.uri {
                    assert(t.diags[i] == s.diags[i]);
                }
            }
        },
        None => {},
    }
}

proof fn lemma_others(docs: Seq<DocV>, uri: Seq<char>)
    requires
        forall|i: int, j: int|
            0 <= i < j < docs.len() ==> (#[trigger] docs[i]).uri != (#[trigger] docs[j]).uri,
    ensures
        ({
            let kept = docs.filter(|d: DocV| d.uri != uri);
            &&& kept.len() <= docs.len()
            &&& forall|i: int| 0 <= i < kept.len() ==> (#[trigger] kept[i]).uri != uri
            &&& forall|i: int| 0 <= i < kept.len() ==> docs.contains(#[trigger] kept[i])
            &&& forall|i: int|
                0 <= i < docs.len() && (#[trigger] docs[i]).uri != uri ==> kept.contains(docs[i])
            &&& forall|i: int, j: int|
                0 <= i < j < kept.len() ==> (#[trigger] kept[i]).uri != (#[trigger] kept[j]).uri
        }),
    decreases docs.len(),
{
    reveal(Seq::filter);
    let other = |d: DocV| d.uri != uri;
    let kept = docs.filter(other);
    if docs.len() > 0 {
        let front = docs.drop_last();
        lemma_others(front, uri);
        let before = front.filter(other);
        assert forall|i: int| 0 <= i < before.len() implies docs.contains(
            #[trigger] before[i],
        ) && before[i].uri != docs.last().uri by {
            assert(front.contains(before[i]));
            let k = choose|k: int| 0 <= k < front.len() && front[k] == before[i];
            assert(docs[k] == before[i]);
            assert(docs[docs.len() - 1] == docs.last());
        }
        if other(docs.last()) {
            assert(kept == before.push(docs.last()));
            assert(docs.contains(docs.last())) by {
                assert(docs[docs.len() - 1] == docs.last());
            }
            assert forall|i: int| 0 <= i < kept.len() implies docs.contains(#[trigger] kept[i]) by {
                if i < before.len() {
                    assert(kept[i] == before[i]);
                }
            }
        } else {
            assert(kept == before);
        }
        assert forall|i: int|
            0 <= i < docs.len() && (#[trigger] docs[i]).uri != uri implies kept.contains(docs[i]) by {
            if i < front.len() {
                assert(front[i] == docs[i]);
                assert(before.contains(front[i]));
                let k = choose|k: int| 0 <= k < before.len() && before[k] == docs[i];
                assert(kept[k] == docs[i]);
            } else {
                assert(kept[kept.len() - 1] == docs[i]);
            }
        }
    }
}

/// The document of a check that failed leaves the session, and nothing else does: the next check
/// of its path opens it anew.
pub proof fn law_abandoned_document_leaves(s: SessionV, c: CheckV)
    requires
        s.wf(),
    ensures
        abandoned(s, c).wf(),
        doc_at(abandoned(s, c).docs, c.uri, 0) is None,
        value_of(abandoned(s, c).diags, c.uri) is None,
        forall|uri: Seq<char>|
            uri != c.uri && (#[trigger] doc_at(s.docs, uri, 0)) is Some ==> doc_at(
                abandoned(s, c).docs,
                uri,
                0,
            ) is Some,
{
    let t = abandoned(s, c);
    lemma_others(s.docs, c.uri);
    lemma_doc_at(t.docs, c.uri, 0);
    law_unbind(s.diags, c.uri, c.uri);
    assert forall|uri: Seq<char>|
        uri != c.uri && (#[trigger] doc_at(s.docs, uri, 0)) is Some implies doc_at(
        t.docs,
        uri,
        0,
    ) is Some by {
        lemma_doc_at(s.docs, uri, 0);
        lemma_doc_at(t.docs, uri, 0);
        let k = doc_at(s.docs, uri, 0)->Some_0 as int;
        assert(t.docs.contains(s.docs[k]));
    }
    assert forall|i: int| 0 <= i < t.diags.len() implies doc_at(
        t.docs,
        (#[trigger] t.diags[i]).name,
        0,
    ) is Some by {
        let n = t.diags[i].name;
        lemma_entry_at(t.diags, n, 0);
        lemma_entry_at(s.diags, n, 0);
        law_unbind(s.diags, c.uri, n);
        assert(value_of(t.diags, n) is Some);
        assert(n != c.uri);
        let e = entry_at(s.diags, n, 0)->Some_0;
        assert(s.diags[e as int].name == n);
        assert(doc_at(s.docs, n, 0) is Some);
    }
}

/// A check whose client has gone stays canceled and never succeeds.
pub proof fn law_canceled_checks_fail(c: CheckV, e: EventV)
    requires
        c.canceled,
    ensures
        stepped(c, e).0.canceled,
        stepped(c, e).1 !is Finish,
        stepped(c, e).1 !is Cancel,
{
}

/// Where the answer is an error, the check ends as soon as the processing has ended, and not
/// before.
pub proof fn law_progress_ends_a_check_without_answer(c: CheckV, finished: bool)
    requires
        !c.canceled,
        c.wait_failed,
    ensures
        stepped(c, EventV::Message(InV::Progress { finished })).1 == (if finished {
            ActionV::Finish
        } else {
            ActionV::Wait
        }),
{
}

/// Where a check stands after some events.
pub ghost enum CourseV {
    /// It waits on.
    Open(CheckV),
    /// It is over, with its messages, or has failed.
    Over(Result<Seq<MessageV>, Seq<char>>),
    /// It is over, and a line of what it found is beyond the machine's words.
    Uncounted(CheckV),
}

/// The course of a check through the events from `i` on, one turn after the other.
pub open spec fn followed(s: SessionV, c: CheckV, events: Seq<EventV>, i: nat) -> (
    SessionV,
    CourseV,
)
    decreases events.len() - i,
{
    if i >= events.len() {
        (s, CourseV::Open(c))
    } else {
        match turned(s, c, events[i as int]) {
            (s, TurnV::Wait(c)) => followed(s, c, events, i + 1),
            (s, TurnV::Send(c, _)) => followed(s, c, events, i + 1),
            (s, TurnV::Cancel(c, _)) => followed(s, c, events, i + 1),
            (s, TurnV::Done(messages)) => (s, CourseV::Over(Ok(messages))),
            (s, TurnV::Failed(error, _)) => (s, CourseV::Over(Err(error))),
            (s, TurnV::Uncounted(c)) => (s, CourseV::Uncounted(c)),
        }
    }
}

/// A whole check, from its beginning through a course of events.
pub open spec fn checked(
    s: SessionV,
    uri: Seq<char>,
    text: Seq<char>,
    events: Seq<EventV>,
) -> (SessionV, CourseV) {
    followed(begun(s, uri, text).0, waiting(s, uri), events, 0)
}

/// The documents that stay open when a document is checked: not an older text of its own, and not
/// the least recently used one where there is no room.
pub open spec fn others_open(docs: Seq<DocV>, uri: Seq<char>) -> Seq<DocV> {
    match doc_at(docs, uri, 0) {
        Some(i) => docs.remove(i as int),
        None => if docs.len() >= MAX_OPEN_DOCS {
            docs.remove(0)
        } else {
            docs
        },
    }
}

/// A course keeps the session. While it is open it changes nothing; it ends well only where the
/// client stayed; and where it fails, its document is gone.
proof fn lemma_course(s: SessionV, c: CheckV, events: Seq<EventV>, i: nat)
    requires
        s.wf(),
        doc_at(s.docs, c.uri, 0) is Some,
    ensures
        followed(s, c, events, i).0.wf(),
        match followed(s, c, events, i) {
            (t, CourseV::Open(d)) => t == s && d.uri == c.uri && (c.canceled ==> d.canceled),
            (t, CourseV::Uncounted(d)) => t == s && d.uri == c.uri && !c.canceled,
            (t, CourseV::Over(Ok(_))) => t.docs == s.docs && !c.canceled,
            (t, CourseV::Over(Err(_))) => doc_at(t.docs, c.uri, 0) is None && value_of(
                t.diags,
                c.uri,
            ) is None,
        },
    decreases events.len() - i,
{
    if i < events.len() {
        let (d, action) = stepped(c, events[i as int]);
        match action {
            ActionV::Finish => law_finish_keeps_the_session(s, d),
            ActionV::Fail(_) => law_abandoned_document_leaves(s, d),
            _ => lemma_course(s, d, events, i + 1),
        }
    }
}

/// A whole check keeps the session. One that succeeds leaves its document last, as it was sent,
/// behind every document that was open and is neither its own nor the least recently used of too
/// many. One that fails leaves its document neither open nor known.
pub proof fn law_whole_check(
    s: SessionV,
    uri: Seq<char>,
    text: Seq<char>,
    events: Seq<EventV>,
)
    requires
        s.wf(),
    ensures
        checked(s, uri, text, events).0.wf(),
        match checked(s, uri, text, events) {
            (t, CourseV::Over(Ok(_))) => t.docs == others_open(s.docs, uri).push(
                DocV { uri, header: header_of(text), text },
            ),
            (t, CourseV::Over(Err(_))) => doc_at(t.docs, uri, 0) is None && value_of(
                t.diags,
                uri,
            ) is None,
            (t, _) => t == begun(s, uri, text).0,
        },
{
    let t = begun(s, uri, text).0;
    law_begin_keeps_the_session(s, uri, text);
    lemma_doc_at(t.docs, uri, 0);
    assert(t.docs[t.docs.len() - 1].uri == uri);
    lemma_course(t, waiting(s, uri), events, 0);
}

/// What a check sends before it waits: a change only of an open document with the same imports; a
/// document with other imports is closed and opened anew; where there is no room, the least
/// recently used document is closed first.
pub proof fn law_check_opens_its_document(s: SessionV, uri: Seq<char>, text: Seq<char>)
    ensures
        ({
            let out = begun(s, uri, text).1;
            let version = (s.next_version + 1) as i64;
            let open = OutV::Open { uri, version, text };
            let wait = OutV::Wait { id: (s.next_id + 1) as i64, uri, version };
            match doc_at(s.docs, uri, 0) {
                Some(i) => if s.docs[i as int].header == header_of(text) {
                    out == seq![OutV::Change { uri, version, text }, wait]
                } else {
                    out == seq![OutV::Close { uri }, open, wait]
                },
                None => if s.docs.len() >= MAX_OPEN_DOCS {
                    out == seq![OutV::Close { uri: s.docs[0].uri }, open, wait]
                } else {
                    out == seq![open, wait]
                },
            }
        }),
{
    let out = begun(s, uri, text).1;
    let version = (s.next_version + 1) as i64;
    let open = OutV::Open { uri, version, text };
    let wait = OutV::Wait { id: (s.next_id + 1) as i64, uri, version };
    match doc_at(s.docs, uri, 0) {
        Some(i) => if s.docs[i as int].header == header_of(text) {
            assert(out =~= seq![OutV::Change { uri, version, text }, wait]);
        } else {
            assert(out =~= seq![OutV::Close { uri }, open, wait]);
        },
        None => if s.docs.len() >= MAX_OPEN_DOCS {
            assert(out =~= seq![OutV::Close { uri: s.docs[0].uri }, open, wait]);
        } else {
            assert(out =~= seq![open, wait]);
        },
    }
}

/// A check whose client goes while it waits does not succeed, whatever comes after, and once it
/// ends its document is neither open nor known.
pub proof fn law_canceled_check_leaves_nothing(
    s: SessionV,
    uri: Seq<char>,
    text: Seq<char>,
    before: Seq<EventV>,
    after: Seq<EventV>,
)
    requires
        s.wf(),
        checked(s, uri, text, before).1 is Open,
    ensures
        ({
            let gone = EventV::Silence { disconnected: true };
            match checked(s, uri, text, before.push(gone) + after) {
                (_, CourseV::Open(c)) => c.canceled,
                (t, CourseV::Over(r)) => r is Err && doc_at(t.docs, uri, 0) is None && value_of(
                    t.diags,
                    uri,
                ) is None,
                (_, CourseV::Uncounted(_)) => false,
            }
        }),
{
    let gone = EventV::Silence { disconnected: true };
    let events = before.push(gone) + after;
    let t = begun(s, uri, text).0;
    law_begin_keeps_the_session(s, uri, text);
    lemma_doc_at(t.docs, uri, 0);
    assert(t.docs[t.docs.len() - 1].uri == uri);
    lemma_course(t, waiting(s, uri), before, 0);
    lemma_course_goes_on(t, waiting(s, uri), before, events, 0);
    let c = checked(s, uri, text, before).1->Open_0;
    assert(events[before.len() as int] == gone);
    let d = stepped(c, gone).0;
    assert(followed(t, c, events, before.len()) == followed(t, d, events, before.len() + 1));
    lemma_course(t, d, events, before.len() + 1);
}

proof fn lemma_course_goes_on(
    s: SessionV,
    c: CheckV,
    before: Seq<EventV>,
    events: Seq<EventV>,
    i: nat,
)
    requires
        i <= before.len() <= events.len(),
        forall|k: int| 0 <= k < before.len() ==> events[k] == before[k],
        followed(s, c, before, i).1 is Open,
    ensures
        followed(s, c, events, i) == followed(
            s,
            followed(s, c, before, i).1->Open_0,
            events,
            before.len(),
        ),
    decreases before.len() - i,
{
    if i < before.len() {
        lemma_course_goes_on(s, stepped(c, before[i as int]).0, before, events, i + 1);
    }
}

} // verus!
