//! What the daemon and its clients write to each other, and how messages to the Lean server are
//! framed.
//!
//! A client sends one line, `{"file": .., "fingerprint": .., "text": ..}`, and gets one line back:
//! `{"ok": true, "messages": [{"severity": .., "line": .., "data": ..}]}` or
//! `{"ok": false, "error": ..}`. Lines of messages count from one.
use vstd::prelude::*;

use crate::json::{
    array, boolean, count, exact, field, json, json_bytes, json_print, json_text, member, object,
    parse_bytes, parse_text, print, string, tree_array, tree_bool, tree_str, tree_u64, trees, JsonV,
};
use crate::repr::{group_views, opt_view, views};
use crate::scan::{
    after_prefix, first_solid, last_solid, law_decimal_reads_back, parse_word, strip_prefix, trim,
    trim_end, trimmed, trimmed_end, trimmed_start, word_of,
};
use crate::text::{byte_len, cat2, cat4, nat_text, owned, usize_decimal};

verus! {

broadcast use group_views;

/// One message of Lean about a generated file.
#[derive(Debug)]
pub struct LeanMessage {
    pub severity: String,
    pub line: usize,
    pub data: String,
}

pub ghost struct MessageV {
    pub severity: Seq<char>,
    pub line: usize,
    pub data: Seq<char>,
}

impl View for LeanMessage {
    type V = MessageV;

    open spec fn view(&self) -> MessageV {
        MessageV { severity: self.severity@, line: self.line, data: self.data@ }
    }
}

/// What a client asks for: a check of this text, under this path, in the proof environment of this
/// fingerprint.
#[derive(Debug)]
pub struct CheckRequest {
    pub file: String,
    pub fingerprint: String,
    pub text: String,
}

pub ghost struct RequestV {
    pub file: Seq<char>,
    pub fingerprint: Seq<char>,
    pub text: Seq<char>,
}

impl View for CheckRequest {
    type V = RequestV;

    open spec fn view(&self) -> RequestV {
        RequestV { file: self.file@, fingerprint: self.fingerprint@, text: self.text@ }
    }
}

// ------------------------------------------------------------------------------------------
// Objects of a few members
// ------------------------------------------------------------------------------------------

pub open spec fn object1(k: &str, v: JsonV) -> JsonV {
    JsonV::Obj(Map::empty().insert(k@, v))
}

pub open spec fn object2(k: &str, v: JsonV, k2: &str, v2: JsonV) -> JsonV {
    JsonV::Obj(Map::empty().insert(k@, v).insert(k2@, v2))
}

pub open spec fn object3(k: &str, v: JsonV, k2: &str, v2: JsonV, k3: &str, v3: JsonV) -> JsonV {
    JsonV::Obj(Map::empty().insert(k@, v).insert(k2@, v2).insert(k3@, v3))
}

pub open spec fn object4(
    k: &str,
    v: JsonV,
    k2: &str,
    v2: JsonV,
    k3: &str,
    v3: JsonV,
    k4: &str,
    v4: JsonV,
) -> JsonV {
    JsonV::Obj(Map::empty().insert(k@, v).insert(k2@, v2).insert(k3@, v3).insert(k4@, v4))
}

pub(crate) fn make1(k: &str, v: serde_json::Value) -> (r: serde_json::Value)
    ensures
        json(r) == object1(k, json(v)),
{
    let mut fields: Vec<(String, serde_json::Value)> = Vec::new();
    fields.push((owned(k), v));
    proof {
        reveal_with_fuel(crate::json::members, 2);
    }
    object(fields)
}

pub(crate) fn make2(k: &str, v: serde_json::Value, k2: &str, v2: serde_json::Value) -> (r:
    serde_json::Value)
    requires
        k@ != k2@,
    ensures
        json(r) == object2(k, json(v), k2, json(v2)),
{
    let mut fields: Vec<(String, serde_json::Value)> = Vec::new();
    fields.push((owned(k), v));
    let ghost one = fields@;
    fields.push((owned(k2), v2));
    proof {
        reveal_with_fuel(crate::json::members, 3);
        assert(fields@.drop_last() =~= one);
    }
    object(fields)
}

pub(crate) fn make3(
    k: &str,
    v: serde_json::Value,
    k2: &str,
    v2: serde_json::Value,
    k3: &str,
    v3: serde_json::Value,
) -> (r: serde_json::Value)
    requires
        k@ != k2@,
        k@ != k3@,
        k2@ != k3@,
    ensures
        json(r) == object3(k, json(v), k2, json(v2), k3, json(v3)),
{
    let mut fields: Vec<(String, serde_json::Value)> = Vec::new();
    fields.push((owned(k), v));
    let ghost one = fields@;
    fields.push((owned(k2), v2));
    let ghost two = fields@;
    fields.push((owned(k3), v3));
    proof {
        reveal_with_fuel(crate::json::members, 4);
        assert(fields@.drop_last() =~= two);
        assert(two.drop_last() =~= one);
    }
    object(fields)
}

pub(crate) fn make4(
    k: &str,
    v: serde_json::Value,
    k2: &str,
    v2: serde_json::Value,
    k3: &str,
    v3: serde_json::Value,
    k4: &str,
    v4: serde_json::Value,
) -> (r: serde_json::Value)
    requires
        k@ != k2@,
        k@ != k3@,
        k@ != k4@,
        k2@ != k3@,
        k2@ != k4@,
        k3@ != k4@,
    ensures
        json(r) == object4(k, json(v), k2, json(v2), k3, json(v3), k4, json(v4)),
{
    let mut fields: Vec<(String, serde_json::Value)> = Vec::new();
    fields.push((owned(k), v));
    let ghost one = fields@;
    fields.push((owned(k2), v2));
    let ghost two = fields@;
    fields.push((owned(k3), v3));
    let ghost three = fields@;
    fields.push((owned(k4), v4));
    proof {
        reveal_with_fuel(crate::json::members, 5);
        assert(fields@.drop_last() =~= three);
        assert(three.drop_last() =~= two);
        assert(two.drop_last() =~= one);
    }
    object(fields)
}

/// The text of a member.
pub open spec fn text_at(tree: JsonV, key: &str) -> Option<Seq<char>> {
    match member(tree, key@) {
        Some(v) => tree_str(v),
        None => None,
    }
}

/// The number of a member.
pub open spec fn number_at(tree: JsonV, key: &str) -> Option<u64> {
    match member(tree, key@) {
        Some(v) => tree_u64(v),
        None => None,
    }
}

pub(crate) fn get_text(v: &serde_json::Value, key: &str) -> (r: Option<String>)
    ensures
        opt_view(r) == text_at(json(*v), key),
{
    match field(v, key) {
        Some(f) => match f.as_str() {
            Some(s) => Some(owned(s)),
            None => None,
        },
        None => None,
    }
}

pub(crate) fn get_number(v: &serde_json::Value, key: &str) -> (r: Option<u64>)
    ensures
        r == number_at(json(*v), key),
{
    match field(v, key) {
        Some(f) => f.as_u64(),
        None => None,
    }
}

// ------------------------------------------------------------------------------------------
// Requests
// ------------------------------------------------------------------------------------------

pub open spec fn request_tree(r: RequestV) -> JsonV {
    object3(
        "file",
        JsonV::Str(r.file),
        "fingerprint",
        JsonV::Str(r.fingerprint),
        "text",
        JsonV::Str(r.text),
    )
}

/// The request that a tree stands for, or what is missing in it.
pub open spec fn request_of(tree: JsonV) -> Result<RequestV, Seq<char>> {
    match text_at(tree, "file") {
        None => Err("request missing \"file\""@),
        Some(file) => match text_at(tree, "fingerprint") {
            None => Err("request missing \"fingerprint\""@),
            Some(fingerprint) => match text_at(tree, "text") {
                None => Err("request missing \"text\""@),
                Some(text) => Ok(RequestV { file, fingerprint, text }),
            },
        },
    }
}

/// The request that a line stands for, or why it is refused.
pub open spec fn request_of_line(line: Seq<char>) -> Result<RequestV, Seq<char>> {
    match json_text(trimmed(line)) {
        None => Err("malformed request (expected one JSON line)"@),
        Some(tree) => request_of(tree),
    }
}

pub open spec fn request_result(r: Result<CheckRequest, String>) -> Result<RequestV, Seq<char>> {
    match r {
        Ok(q) => Ok(q@),
        Err(e) => Err(e@),
    }
}

/// Reads the request off a value.
pub fn take_request(v: &serde_json::Value) -> (r: Result<CheckRequest, String>)
    ensures
        request_result(r) == request_of(json(*v)),
{
    let file = match get_text(v, "file") {
        None => {
            return Err(owned("request missing \"file\""));
        },
        Some(file) => file,
    };
    let fingerprint = match get_text(v, "fingerprint") {
        None => {
            return Err(owned("request missing \"fingerprint\""));
        },
        Some(fingerprint) => fingerprint,
    };
    match get_text(v, "text") {
        None => Err(owned("request missing \"text\"")),
        Some(text) => Ok(CheckRequest { file, fingerprint, text }),
    }
}

/// Reads the request off a client's line.
pub fn read_request(line: &str) -> (r: Result<CheckRequest, String>)
    ensures
        request_result(r) == request_of_line(line@),
{
    match parse_text(trim(line).as_str()) {
        None => Err(owned("malformed request (expected one JSON line)")),
        Some(v) => take_request(&v),
    }
}

/// The line of a request, without its line feed. The daemon reads the same request from the line.
pub fn request_line(file: &str, fingerprint: &str, text: &str) -> (r: String)
    ensures
        r@ == json_print(
            request_tree(RequestV { file: file@, fingerprint: fingerprint@, text: text@ }),
        ),
        request_of_line(r@ + "\n"@) == Ok::<RequestV, Seq<char>>(
            RequestV { file: file@, fingerprint: fingerprint@, text: text@ },
        ),
        forall|i: int| 0 <= i < r@.len() ==> #[trigger] r@[i] != '\n',
{
    proof {
        reveal_strlit("file");
        reveal_strlit("fingerprint");
        reveal_strlit("text");
        assert("file"@.len() == 4);
        assert("fingerprint"@.len() == 11);
        assert("text"@.len() == 4);
        assert("file"@[0] != "text"@[0]);
    }
    let v = make3(
        "file",
        string(file),
        "fingerprint",
        string(fingerprint),
        "text",
        string(text),
    );
    let r = print(&v);
    proof {
        let q = RequestV { file: file@, fingerprint: fingerprint@, text: text@ };
        assert(exact(request_tree(q), 127)) by {
            reveal_with_fuel(exact, 2);
        }
        law_request_reads_back(q);
        lemma_trimmed_line(r@);
    }
    r
}

/// A request is read back from its tree.
pub proof fn law_request_reads_back(r: RequestV)
    ensures
        request_of(request_tree(r)) == Ok::<RequestV, Seq<char>>(r),
{
    reveal_strlit("file");
    reveal_strlit("fingerprint");
    reveal_strlit("text");
    assert("file"@.len() == 4);
    assert("fingerprint"@.len() == 11);
    assert("text"@.len() == 4);
    assert("file"@[0] != "text"@[0]);
}

/// The text of an object, on a line of its own, is all there is on it besides white space.
proof fn lemma_trimmed_line(s: Seq<char>)
    requires
        s.len() >= 2,
        s[0] == '{',
        s.last() == '}',
    ensures
        trimmed(s + "\n"@) == s,
{
    reveal_strlit("\n");
    let line = s + "\n"@;
    assert(line[0] == '{');
    assert(first_solid(line, 0) == 0);
    assert(trimmed_start(line) =~= line);
    assert(line[line.len() - 1] == '\n');
    assert(line[line.len() - 2] == s.last());
    reveal_with_fuel(last_solid, 3);
    assert(last_solid(line, line.len()) == line.len() - 1);
    assert(trimmed_end(line) =~= s);
}

// ------------------------------------------------------------------------------------------
// Replies
// ------------------------------------------------------------------------------------------

pub open spec fn message_tree(m: MessageV) -> JsonV {
    object3(
        "severity",
        JsonV::Str(m.severity),
        "line",
        JsonV::Int(m.line as int),
        "data",
        JsonV::Str(m.data),
    )
}

pub open spec fn reply_tree(messages: Seq<MessageV>) -> JsonV {
    object2(
        "ok",
        JsonV::Bool(true),
        "messages",
        JsonV::Arr(Seq::new(messages.len(), |i: int| message_tree(messages[i]))),
    )
}

pub open spec fn error_tree(message: Seq<char>) -> JsonV {
    object2("ok", JsonV::Bool(false), "error", JsonV::Str(message))
}

/// The message that a tree stands for. What is missing in it has a stand-in.
pub open spec fn message_of(tree: JsonV) -> MessageV {
    MessageV {
        severity: match text_at(tree, "severity") {
            Some(s) => s,
            None => "error"@,
        },
        line: match number_at(tree, "line") {
            Some(n) => n as usize,
            None => 0,
        },
        data: match text_at(tree, "data") {
            Some(s) => s,
            None => ""@,
        },
    }
}

/// The messages that a reply brings, where it brings any.
pub open spec fn reply_of(tree: JsonV) -> Option<Seq<MessageV>> {
    if (match member(tree, "ok"@) {
        Some(v) => tree_bool(v),
        None => None,
    }) != Some(true) {
        None
    } else {
        match member(tree, "messages"@) {
            None => None,
            Some(v) => match tree_array(v) {
                None => None,
                Some(items) => Some(Seq::new(items.len(), |i: int| message_of(items[i]))),
            },
        }
    }
}

/// The messages that a line brings. Anything else that a daemon may write brings none.
pub open spec fn reply_of_line(line: Seq<char>) -> Option<Seq<MessageV>> {
    match json_text(trimmed(line)) {
        None => None,
        Some(tree) => reply_of(tree),
    }
}

pub open spec fn reply_result(r: Option<Vec<LeanMessage>>) -> Option<Seq<MessageV>> {
    match r {
        Some(v) => Some(views(v@)),
        None => None,
    }
}

fn take_message(v: &serde_json::Value) -> (r: LeanMessage)
    ensures
        r@ == message_of(json(*v)),
{
    LeanMessage {
        severity: match get_text(v, "severity") {
            Some(s) => s,
            None => owned("error"),
        },
        line: match get_number(v, "line") {
            Some(n) => n as usize,
            None => 0,
        },
        data: match get_text(v, "data") {
            Some(s) => s,
            None => owned(""),
        },
    }
}

/// Reads the messages off a value.
pub fn take_reply(v: &serde_json::Value) -> (r: Option<Vec<LeanMessage>>)
    ensures
        reply_result(r) == reply_of(json(*v)),
{
    let fine = match field(v, "ok") {
        Some(f) => match f.as_bool() {
            Some(b) => b,
            None => false,
        },
        None => false,
    };
    if !fine {
        return None;
    }
    let items = match field(v, "messages") {
        None => {
            return None;
        },
        Some(f) => match f.as_array() {
            None => {
                return None;
            },
            Some(items) => items,
        },
    };
    let mut out: Vec<LeanMessage> = Vec::new();
    let n: usize = items.len();
    let mut i: usize = 0;
    while i < n
        invariant
            n == items@.len(),
            i <= n,
            out@.len() == i,
            forall|k: int| 0 <= k < i ==> (#[trigger] out@[k])@ == message_of(json(items@[k])),
        decreases n - i,
    {
        out.push(take_message(&items[i]));
        i = i + 1;
    }
    assert(views(out@) =~= Seq::new(
        trees(items@).len(),
        |i: int| message_of(trees(items@)[i]),
    ));
    Some(out)
}

/// Reads the messages off a daemon's line.
pub fn read_reply(line: &str) -> (r: Option<Vec<LeanMessage>>)
    ensures
        reply_result(r) == reply_of_line(line@),
{
    match parse_text(trim(line).as_str()) {
        None => None,
        Some(v) => take_reply(&v),
    }
}

fn message_value(m: &LeanMessage) -> (r: serde_json::Value)
    ensures
        json(r) == message_tree(m@),
{
    proof {
        reveal_strlit("severity");
        reveal_strlit("line");
        reveal_strlit("data");
        assert("severity"@.len() == 8);
        assert("line"@.len() == 4);
        assert("data"@.len() == 4);
        assert("line"@[0] != "data"@[0]);
    }
    make3(
        "severity",
        string(m.severity.as_str()),
        "line",
        count(m.line),
        "data",
        string(m.data.as_str()),
    )
}

/// The line of a reply with messages, without its line feed. The client reads the same messages
/// from the line.
pub fn reply_line(messages: &Vec<LeanMessage>) -> (r: String)
    ensures
        r@ == json_print(reply_tree(views(messages@))),
        reply_of_line(r@ + "\n"@) == Some(views(messages@)),
        forall|i: int| 0 <= i < r@.len() ==> #[trigger] r@[i] != '\n',
{
    let mut items: Vec<serde_json::Value> = Vec::new();
    let n: usize = messages.len();
    let mut i: usize = 0;
    while i < n
        invariant
            n == messages@.len(),
            i <= n,
            items@.len() == i,
            forall|k: int| 0 <= k < i ==> json(#[trigger] items@[k]) == message_tree(messages@[k]@),
        decreases n - i,
    {
        items.push(message_value(&messages[i]));
        i = i + 1;
    }
    let ghost all = views(messages@);
    assert(trees(items@) =~= Seq::new(all.len(), |i: int| message_tree(all[i])));
    proof {
        reveal_strlit("ok");
        reveal_strlit("messages");
        assert("ok"@.len() == 2);
        assert("messages"@.len() == 8);
    }
    let v = make2("ok", boolean(true), "messages", array(items));
    let r = print(&v);
    proof {
        assert(exact(reply_tree(all), 127)) by {
            reveal_with_fuel(exact, 4);
            assert forall|i: int| 0 <= i < all.len() implies exact(
                #[trigger] message_tree(all[i]),
                125,
            ) by {}
        }
        law_reply_reads_back(all);
        lemma_trimmed_line(r@);
    }
    r
}

/// The line of a reply that refuses, without its line feed. A client reads no messages from it.
pub fn error_reply(message: &str) -> (r: String)
    ensures
        r@ == json_print(error_tree(message@)),
        reply_of_line(r@ + "\n"@) is None,
        forall|i: int| 0 <= i < r@.len() ==> #[trigger] r@[i] != '\n',
{
    proof {
        reveal_strlit("ok");
        reveal_strlit("error");
        assert("ok"@.len() == 2);
        assert("error"@.len() == 5);
    }
    let v = make2("ok", boolean(false), "error", string(message));
    let r = print(&v);
    proof {
        assert(exact(error_tree(message@), 127)) by {
            reveal_with_fuel(exact, 2);
        }
        law_refusals_bring_no_messages(message@);
        lemma_trimmed_line(r@);
    }
    r
}

/// Messages are read back from the tree of their reply.
pub proof fn law_reply_reads_back(messages: Seq<MessageV>)
    ensures
        reply_of(reply_tree(messages)) == Some(messages),
{
    reveal_strlit("ok");
    reveal_strlit("messages");
    reveal_strlit("severity");
    reveal_strlit("line");
    reveal_strlit("data");
    assert("ok"@.len() == 2);
    assert("messages"@.len() == 8);
    assert("severity"@.len() == 8);
    assert("line"@.len() == 4);
    assert("data"@.len() == 4);
    assert("line"@[0] != "data"@[0]);
    let items = Seq::new(messages.len(), |i: int| message_tree(messages[i]));
    assert forall|i: int| 0 <= i < messages.len() implies message_of(#[trigger] items[i])
        == messages[i] by {
        let m = messages[i];
        assert(items[i] == message_tree(m));
        assert(number_at(message_tree(m), "line") == Some(m.line as u64));
    }
    assert(Seq::new(items.len(), |i: int| message_of(items[i])) =~= messages);
}

/// A refusal brings no messages: the client falls back.
pub proof fn law_refusals_bring_no_messages(message: Seq<char>)
    ensures
        reply_of(error_tree(message)) is None,
{
    reveal_strlit("ok");
    reveal_strlit("error");
    assert("ok"@.len() == 2);
    assert("error"@.len() == 5);
}

// ------------------------------------------------------------------------------------------
// Frames
// ------------------------------------------------------------------------------------------

/// The header line of a frame.
pub open spec fn length_line(n: nat) -> Seq<char> {
    "Content-Length: "@ + nat_text(n) + "\r\n"@
}

/// A message body in its frame: how many bytes it has, a blank line, and the body.
pub open spec fn framed(body: Seq<char>) -> Seq<char> {
    "Content-Length: "@ + nat_text(byte_len(body)) + "\r\n\r\n"@ + body
}

pub fn frame(body: &str) -> (r: String)
    ensures
        r@ == framed(body@),
{
    cat4("Content-Length: ", usize_decimal(body.as_bytes().len()).as_str(), "\r\n\r\n", body)
}

/// What a header line says.
#[derive(Clone, Copy, Debug, PartialEq, Eq, Structural)]
pub enum HeaderLine {
    /// The stream has ended.
    Closed,
    /// The headers have ended.
    Blank,
    /// The length of the body, or a length that is no number.
    Length(Option<usize>),
    /// Another header.
    Other,
}

/// What a header line says. Nothing at all is the end of the stream: a blank line has a line feed.
pub open spec fn header_of(line: Seq<char>) -> HeaderLine {
    let s = trimmed_end(line);
    if line.len() == 0 {
        HeaderLine::Closed
    } else if s.len() == 0 {
        HeaderLine::Blank
    } else {
        match after_prefix(s, "Content-Length:"@) {
            Some(value) => HeaderLine::Length(word_of(trimmed(value))),
            None => match after_prefix(s, "content-length:"@) {
                Some(value) => HeaderLine::Length(word_of(trimmed(value))),
                None => HeaderLine::Other,
            },
        }
    }
}

pub fn read_header(line: &str) -> (r: HeaderLine)
    ensures
        r == header_of(line@),
{
    if crate::scan::is_blank(line) {
        return HeaderLine::Closed;
    }
    let s = trim_end(line);
    if crate::scan::is_blank(s.as_str()) {
        return HeaderLine::Blank;
    }
    match strip_prefix(s.as_str(), "Content-Length:") {
        Some(value) => HeaderLine::Length(parse_word(trim(value.as_str()).as_str())),
        None => match strip_prefix(s.as_str(), "content-length:") {
            Some(value) => HeaderLine::Length(parse_word(trim(value.as_str()).as_str())),
            None => HeaderLine::Other,
        },
    }
}

/// Reads the header block of a frame, line by line.
#[derive(Debug)]
pub struct HeaderReader {
    pub length: Option<usize>,
}

/// What the reader does next.
#[derive(Debug)]
pub enum HeaderStep {
    /// Read another line.
    More,
    /// Read a body of this many bytes.
    Body(usize),
    Failed(String),
}

pub ghost enum HeaderStepV {
    More,
    Body(usize),
    Failed(Seq<char>),
}

impl View for HeaderStep {
    type V = HeaderStepV;

    open spec fn view(&self) -> HeaderStepV {
        match *self {
            HeaderStep::More => HeaderStepV::More,
            HeaderStep::Body(n) => HeaderStepV::Body(n),
            HeaderStep::Failed(e) => HeaderStepV::Failed(e@),
        }
    }
}

/// The length that is known after a line, and what to do next. The last length counts.
pub open spec fn header_step(length: Option<usize>, line: Seq<char>) -> (
    Option<usize>,
    HeaderStepV,
) {
    match header_of(line) {
        HeaderLine::Closed => (length, HeaderStepV::Failed("lean server closed its stdout"@)),
        HeaderLine::Blank => (
            length,
            match length {
                Some(n) => HeaderStepV::Body(n),
                None => HeaderStepV::Failed("lean server message missing Content-Length"@),
            },
        ),
        HeaderLine::Length(n) => (n, HeaderStepV::More),
        HeaderLine::Other => (length, HeaderStepV::More),
    }
}

impl HeaderReader {
    pub fn new() -> (r: Self)
        ensures
            r.length is None,
    {
        HeaderReader { length: None }
    }

    pub fn line(&mut self, line: &str) -> (r: HeaderStep)
        ensures
            (final(self).length, r@) == header_step(old(self).length, line@),
    {
        match read_header(line) {
            HeaderLine::Closed => HeaderStep::Failed(owned("lean server closed its stdout")),
            HeaderLine::Blank => match self.length {
                Some(n) => HeaderStep::Body(n),
                None => HeaderStep::Failed(owned("lean server message missing Content-Length")),
            },
            HeaderLine::Length(n) => {
                self.length = n;
                HeaderStep::More
            },
            HeaderLine::Other => HeaderStep::More,
        }
    }
}

/// The header of a frame tells the length of its body: its two lines are the length line and a
/// blank one, and a reader that gets them asks for exactly the bytes of the body.
#[verifier::rlimit(40)]
pub proof fn law_frame_header_reads_back(body: Seq<char>)
    requires
        byte_len(body) <= usize::MAX,
    ensures
        framed(body) == length_line(byte_len(body)) + "\r\n"@ + body,
        header_step(None, length_line(byte_len(body))) == (
            Some(byte_len(body) as usize),
            HeaderStepV::More,
        ),
        header_step(Some(byte_len(body) as usize), "\r\n"@) == (
            Some(byte_len(body) as usize),
            HeaderStepV::Body(byte_len(body) as usize),
        ),
{
    let n = byte_len(body);
    let digits = nat_text(n);
    let line = length_line(n);
    reveal_strlit("Content-Length: ");
    reveal_strlit("Content-Length:");
    reveal_strlit("\r\n\r\n");
    reveal_strlit("\r\n");
    assert("\r\n\r\n"@ =~= "\r\n"@ + "\r\n"@);
    assert(framed(body) =~= line + "\r\n"@ + body);
    law_decimal_reads_back(n as usize);
    crate::scan::lemma_nat_text(n);
    let k = line.len();
    assert(line[k - 1] == '\n');
    assert(line[k - 2] == '\r');
    assert(line[k - 3] == digits.last());
    assert(crate::scan::is_digit(digits[digits.len() - 1]));
    assert(crate::scan::is_digit(digits[0]));
    reveal_with_fuel(last_solid, 4);
    assert(last_solid(line, k) == k - 2);
    let s = trimmed_end(line);
    assert(s =~= "Content-Length: "@ + digits);
    assert(s.subrange(0, 15) =~= "Content-Length:"@);
    assert("Content-Length:"@.is_prefix_of(s));
    let value = s.skip(15);
    assert(value =~= seq![' '] + digits);
    reveal_with_fuel(first_solid, 3);
    assert(first_solid(value, 0) == 1);
    assert(trimmed_start(value) =~= digits);
    assert(last_solid(digits, digits.len()) == digits.len());
    assert(trimmed_end(digits) =~= digits);
    let blank = "\r\n"@;
    assert(blank[0] == '\r' && blank[1] == '\n');
    assert(last_solid(blank, 2) == 0);
    assert(trimmed_end(blank).len() == 0);
}

/// The message of a body, or why there is none.
pub open spec fn body_of(bytes: Seq<u8>) -> Result<JsonV, Seq<char>> {
    match json_bytes(bytes) {
        Ok(tree) => Ok(tree),
        Err(e) => Err("lean server sent invalid JSON: "@ + e),
    }
}

/// Reads the message of a body.
pub fn read_body(bytes: &Vec<u8>) -> (r: Result<serde_json::Value, String>)
    ensures
        match r {
            Ok(v) => body_of(bytes@) == Ok::<JsonV, Seq<char>>(json(v)),
            Err(e) => body_of(bytes@) == Err::<JsonV, Seq<char>>(e@),
        },
{
    match parse_bytes(bytes.as_slice()) {
        Ok(v) => Ok(v),
        Err(e) => Err(cat2("lean server sent invalid JSON: ", e.as_str())),
    }
}

} // verus!
