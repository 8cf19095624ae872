//! The warm-check daemon: what it says to the Lean server for each check, what it makes of the
//! server's messages, and which documents stay open between checks.
//!
//! A document is opened the first time its path is checked and changed on later checks. It is
//! closed and opened anew where its imports differ, since a worker keeps what it has imported.
//! Each open document costs a worker process, so only the most recently used stay open.
use vstd::prelude::*;

use crate::doctor::{below, join_path};
use crate::json::{
    array, copy_value, field, json, json_print, member, number, opt_json, print, string, tree_array,
    tree_i64, trees, JsonV,
};
use crate::repr::{copy_vec, group_views, views, Repr};
use crate::scan::{lines_from, split_lines, starts_with, trim_start, trimmed_start};
use crate::text::{cat2, cat4, owned, same_text};
use crate::wire::{
    get_number, get_text, make1, make2, make3, make4, number_at, object1, object2, object3, object4,
    text_at,
};

verus! {

broadcast use group_views;

/// How many documents stay open at once.
pub const MAX_OPEN_DOCS: usize = 4;

/// Where the daemon of a checkout listens.
pub fn socket_path(repo_root: &str) -> (r: String)
    ensures
        r@ == below(below(repo_root@, ".sable-out"@), "daemon.sock"@),
{
    join_path(join_path(repo_root, ".sable-out").as_str(), "daemon.sock")
}

// ------------------------------------------------------------------------------------------
// File addresses
// ------------------------------------------------------------------------------------------

/// A byte that stands for itself in a file address.
pub open spec fn plain_byte(b: u8) -> bool {
    97 <= b <= 122 || 65 <= b <= 90 || 48 <= b <= 57 || b == 47 || b == 45 || b == 46 || b == 95
        || b == 126
}

pub open spec fn hex_digit(n: int) -> char {
    if n < 10 {
        (48 + n) as char
    } else {
        (55 + n) as char
    }
}

/// A byte in a file address: itself, or a percent sign and two upper case hexadecimal digits.
pub open spec fn uri_byte(b: u8) -> Seq<char> {
    if plain_byte(b) {
        seq![b as char]
    } else {
        seq!['%', hex_digit(b as int / 16), hex_digit(b as int % 16)]
    }
}

/// The first `n` bytes in a file address.
pub open spec fn uri_bytes(bytes: Seq<u8>, n: nat) -> Seq<char>
    decreases n,
{
    if n == 0 || n > bytes.len() {
        Seq::empty()
    } else {
        uri_bytes(bytes, (n - 1) as nat) + uri_byte(bytes[n - 1])
    }
}

/// The address of a file.
pub open spec fn uri_of(path: Seq<char>) -> Seq<char> {
    let bytes = vstd::utf8::encode_utf8(path);
    "file://"@ + uri_bytes(bytes, bytes.len())
}

fn hex(n: u8) -> (r: char)
    requires
        n < 16,
    ensures
        r == hex_digit(n as int),
{
    if n < 10 {
        (48 + n) as char
    } else {
        (55 + n) as char
    }
}

pub fn file_uri(path: &str) -> (r: String)
    ensures
        r@ == uri_of(path@),
{
    let bytes = path.as_bytes();
    let mut out = owned("file://");
    let n: usize = bytes.len();
    let mut i: usize = 0;
    assert(out@ =~= "file://"@ + uri_bytes(bytes@, 0));
    while i < n
        invariant
            n == bytes@.len(),
            i <= n,
            out@ == "file://"@ + uri_bytes(bytes@, i as nat),
        decreases n - i,
    {
        let b: u8 = bytes[i];
        let ghost before = out@;
        if (97 <= b && b <= 122) || (65 <= b && b <= 90) || (48 <= b && b <= 57) || b == 47 || b
            == 45 || b == 46 || b == 95 || b == 126 {
            out.push(b as char);
        } else {
            out.push('%');
            out.push(hex(b / 16));
            out.push(hex(b % 16));
        }
        assert(out@ =~= before + uri_byte(b));
        assert(out@ =~= "file://"@ + (uri_bytes(bytes@, i as nat) + uri_byte(b)));
        i = i + 1;
    }
    out
}

// ------------------------------------------------------------------------------------------
// Imports
// ------------------------------------------------------------------------------------------

/// A line that imports.
pub open spec fn imports(line: Seq<char>) -> bool {
    "import "@.is_prefix_of(trimmed_start(line))
}

/// The first of the lines, at `i` or later, that imports nothing.
pub open spec fn import_end(lines: Seq<Seq<char>>, i: nat) -> nat
    decreases lines.len() - i,
{
    if i >= lines.len() {
        lines.len()
    } else if imports(lines[i as int]) {
        import_end(lines, i + 1)
    } else {
        i
    }
}

/// The first `n` lines, with a line feed between each two.
pub open spec fn joined(lines: Seq<Seq<char>>, n: nat) -> Seq<char>
    decreases n,
{
    if n == 0 || n > lines.len() {
        Seq::empty()
    } else if n == 1 {
        lines[0]
    } else {
        joined(lines, (n - 1) as nat) + "\n"@ + lines[n - 1]
    }
}

/// The lines that import, at the head of a text, as they stand.
pub open spec fn header_of(text: Seq<char>) -> Seq<char> {
    let lines = lines_from(text, 0);
    joined(lines, import_end(lines, 0))
}

pub fn import_header(text: &str) -> (r: String)
    ensures
        r@ == header_of(text@),
{
    let lines = split_lines(text);
    let ghost all = lines_from(text@, 0);
    let n: usize = lines.len();
    let mut out = String::new();
    let mut i: usize = 0;
    proof {
        assert(out@ =~= joined(all, 0));
        assert(lines@.map_values(|s: String| s@).len() == lines@.len());
    }
    while i < n
        invariant
            n == lines@.len(),
            n == all.len(),
            i <= n,
            all == lines_from(text@, 0),
            lines@.map_values(|s: String| s@) == all,
            out@ == joined(all, i as nat),
            import_end(all, 0) == import_end(all, i as nat),
        decreases n - i,
    {
        assert(all[i as int] == lines@[i as int]@);
        if !starts_with(trim_start(lines[i].as_str()).as_str(), "import ") {
            return out;
        }
        if i > 0 {
            out = cat2(out.as_str(), "\n");
        }
        let ghost before = out@;
        out = cat2(out.as_str(), lines[i].as_str());
        i = i + 1;
        assert(out@ =~= joined(all, i as nat));
    }
    out
}

// ------------------------------------------------------------------------------------------
// Messages to the server
// ------------------------------------------------------------------------------------------

/// A message to the Lean server.
#[derive(Debug)]
pub enum Outgoing {
    Initialize { id: i64, process: i64, root_uri: String },
    Initialized,
    Open { uri: String, version: i64, text: String },
    Change { uri: String, version: i64, text: String },
    Close { uri: String },
    /// Asks for an answer once the document of this version is fully elaborated.
    Wait { id: i64, uri: String, version: i64 },
}

pub ghost enum OutV {
    Initialize { id: i64, process: i64, root_uri: Seq<char> },
    Initialized,
    Open { uri: Seq<char>, version: i64, text: Seq<char> },
    Change { uri: Seq<char>, version: i64, text: Seq<char> },
    Close { uri: Seq<char> },
    Wait { id: i64, uri: Seq<char>, version: i64 },
}

impl View for Outgoing {
    type V = OutV;

    open spec fn view(&self) -> OutV {
        match *self {
            Outgoing::Initialize { id, process, root_uri } => OutV::Initialize {
                id,
                process,
                root_uri: root_uri@,
            },
            Outgoing::Initialized => OutV::Initialized,
            Outgoing::Open { uri, version, text } => OutV::Open {
                uri: uri@,
                version,
                text: text@,
            },
            Outgoing::Change { uri, version, text } => OutV::Change {
                uri: uri@,
                version,
                text: text@,
            },
            Outgoing::Close { uri } => OutV::Close { uri: uri@ },
            Outgoing::Wait { id, uri, version } => OutV::Wait { id, uri: uri@, version },
        }
    }
}

pub open spec fn notification(method: &str, params: JsonV) -> JsonV {
    object3("jsonrpc", JsonV::Str("2.0"@), "method", JsonV::Str(method@), "params", params)
}

pub open spec fn request(id: i64, method: &str, params: JsonV) -> JsonV {
    object4(
        "jsonrpc",
        JsonV::Str("2.0"@),
        "id",
        JsonV::Int(id as int),
        "method",
        JsonV::Str(method@),
        "params",
        params,
    )
}

/// The tree of a message.
pub open spec fn out_tree(o: OutV) -> JsonV {
    match o {
        OutV::Initialize { id, process, root_uri } => request(
            id,
            "initialize",
            object3(
                "processId",
                JsonV::Int(process as int),
                "rootUri",
                JsonV::Str(root_uri),
                "capabilities",
                JsonV::Obj(Map::empty()),
            ),
        ),
        OutV::Initialized => notification("initialized", JsonV::Obj(Map::empty())),
        OutV::Open { uri, version, text } => notification(
            "textDocument/didOpen",
            object1(
                "textDocument",
                object4(
                    "uri",
                    JsonV::Str(uri),
                    "languageId",
                    JsonV::Str("lean"@),
                    "version",
                    JsonV::Int(version as int),
                    "text",
                    JsonV::Str(text),
                ),
            ),
        ),
        OutV::Change { uri, version, text } => notification(
            "textDocument/didChange",
            object2(
                "textDocument",
                object2("uri", JsonV::Str(uri), "version", JsonV::Int(version as int)),
                "contentChanges",
                JsonV::Arr(seq![object1("text", JsonV::Str(text))]),
            ),
        ),
        OutV::Close { uri } => notification(
            "textDocument/didClose",
            object1("textDocument", object1("uri", JsonV::Str(uri))),
        ),
        OutV::Wait { id, uri, version } => request(
            id,
            "textDocument/waitForDiagnostics",
            object2("uri", JsonV::Str(uri), "version", JsonV::Int(version as int)),
        ),
    }
}

fn empty_object() -> (r: serde_json::Value)
    ensures
        json(r) == JsonV::Obj(Map::empty()),
{
    let fields: Vec<(String, serde_json::Value)> = Vec::new();
    crate::json::object(fields)
}

fn notify(method: &str, params: serde_json::Value) -> (r: serde_json::Value)
    ensures
        json(r) == notification(method, json(params)),
{
    proof {
        reveal_strlit("jsonrpc");
        reveal_strlit("method");
        reveal_strlit("params");
        assert("jsonrpc"@.len() == 7);
        assert("method"@.len() == 6);
        assert("params"@.len() == 6);
        assert("method"@[0] != "params"@[0]);
    }
    make3("jsonrpc", string("2.0"), "method", string(method), "params", params)
}

fn ask(id: i64, method: &str, params: serde_json::Value) -> (r: serde_json::Value)
    ensures
        json(r) == request(id, method, json(params)),
{
    proof {
        reveal_strlit("jsonrpc");
        reveal_strlit("id");
        reveal_strlit("method");
        reveal_strlit("params");
        assert("jsonrpc"@.len() == 7);
        assert("id"@.len() == 2);
        assert("method"@.len() == 6);
        assert("params"@.len() == 6);
        assert("method"@[0] != "params"@[0]);
    }
    make4("jsonrpc", string("2.0"), "id", number(id), "method", string(method), "params", params)
}

fn singleton(v: serde_json::Value) -> (r: serde_json::Value)
    ensures
        json(r) == JsonV::Arr(seq![json(v)]),
{
    let mut items: Vec<serde_json::Value> = Vec::new();
    items.push(v);
    assert(trees(items@) =~= seq![json(v)]);
    array(items)
}

impl Outgoing {
    /// The value that is sent.
    pub fn value(&self) -> (r: serde_json::Value)
        ensures
            json(r) == out_tree(self@),
    {
        proof {
            reveal_strlit("processId");
            reveal_strlit("rootUri");
            reveal_strlit("capabilities");
            reveal_strlit("uri");
            reveal_strlit("languageId");
            reveal_strlit("version");
            reveal_strlit("text");
            reveal_strlit("textDocument");
            reveal_strlit("contentChanges");
            assert("processId"@.len() == 9);
            assert("rootUri"@.len() == 7);
            assert("capabilities"@.len() == 12);
            assert("uri"@.len() == 3);
            assert("languageId"@.len() == 10);
            assert("version"@.len() == 7);
            assert("text"@.len() == 4);
            assert("textDocument"@.len() == 12);
            assert("contentChanges"@.len() == 14);
        }
        match self {
            Outgoing::Initialize { id, process, root_uri } => ask(
                *id,
                "initialize",
                make3(
                    "processId",
                    number(*process),
                    "rootUri",
                    string(root_uri.as_str()),
                    "capabilities",
                    empty_object(),
                ),
            ),
            Outgoing::Initialized => notify("initialized", empty_object()),
            Outgoing::Open { uri, version, text } => notify(
                "textDocument/didOpen",
                make1(
                    "textDocument",
                    make4(
                        "uri",
                        string(uri.as_str()),
                        "languageId",
                        string("lean"),
                        "version",
                        number(*version),
                        "text",
                        string(text.as_str()),
                    ),
                ),
            ),
            Outgoing::Change { uri, version, text } => notify(
                "textDocument/didChange",
                make2(
                    "textDocument",
                    make2("uri", string(uri.as_str()), "version", number(*version)),
                    "contentChanges",
                    singleton(make1("text", string(text.as_str()))),
                ),
            ),
            Outgoing::Close { uri } => notify(
                "textDocument/didClose",
                make1("textDocument", make1("uri", string(uri.as_str()))),
            ),
            Outgoing::Wait { id, uri, version } => ask(
                *id,
                "textDocument/waitForDiagnostics",
                make2("uri", string(uri.as_str()), "version", number(*version)),
            ),
        }
    }

    /// The text of the message, before it is framed.
    pub fn body(&self) -> (r: String)
        ensures
            r@ == json_print(out_tree(self@)),
    {
        print(&self.value())
    }
}

/// The answer to a request of the server's that is not served.
pub open spec fn decline_tree(id: JsonV) -> JsonV {
    object3(
        "jsonrpc",
        JsonV::Str("2.0"@),
        "id",
        id,
        "error",
        object2("code", JsonV::Int(-32601), "message", JsonV::Str("method not found"@)),
    )
}

fn decline(id: &serde_json::Value) -> (r: String)
    ensures
        r@ == json_print(decline_tree(json(*id))),
{
    proof {
        reveal_strlit("jsonrpc");
        reveal_strlit("id");
        reveal_strlit("error");
        reveal_strlit("code");
        reveal_strlit("message");
        assert("jsonrpc"@.len() == 7);
        assert("id"@.len() == 2);
        assert("error"@.len() == 5);
        assert("code"@.len() == 4);
        assert("message"@.len() == 7);
    }
    let v = make3(
        "jsonrpc",
        string("2.0"),
        "id",
        copy_value(id),
        "error",
        make2("code", number(-32601), "message", string("method not found")),
    );
    print(&v)
}

// ------------------------------------------------------------------------------------------
// Messages from the server
// ------------------------------------------------------------------------------------------

/// What is read of one diagnostic.
#[derive(Debug)]
pub struct LeanDiagnostic {
    pub severity: Option<u64>,
    /// Lines count from zero.
    pub line: u64,
    pub message: String,
}

pub ghost struct DiagV {
    pub severity: Option<u64>,
    pub line: u64,
    pub message: Seq<char>,
}

impl View for LeanDiagnostic {
    type V = DiagV;

    open spec fn view(&self) -> DiagV {
        DiagV { severity: self.severity, line: self.line, message: self.message@ }
    }
}

impl Repr for LeanDiagnostic {
    fn copy(&self) -> (r: Self) {
        LeanDiagnostic { severity: self.severity, line: self.line, message: self.message.clone() }
    }

    fn same(&self, other: &Self) -> (r: bool) {
        self.severity == other.severity && self.line == other.line && self.message
            == other.message
    }
}

/// What was published of a document: its diagnostics, or something that is no list of them.
#[derive(Debug)]
pub struct Published {
    pub items: Option<Vec<LeanDiagnostic>>,
}

impl View for Published {
    type V = Option<Seq<DiagV>>;

    open spec fn view(&self) -> Option<Seq<DiagV>> {
        match self.items {
            Some(v) => Some(views(v@)),
            None => None,
        }
    }
}

impl Published {
    fn duplicate(&self) -> (r: Self)
        ensures
            r@ == self@,
    {
        match &self.items {
            Some(v) => Published { items: Some(copy_vec(v)) },
            None => Published { items: None },
        }
    }
}

pub open spec fn diagnostic_of(tree: JsonV) -> DiagV {
    DiagV {
        severity: number_at(tree, "severity"),
        line: match member(tree, "range"@) {
            Some(range) => match member(range, "start"@) {
                Some(start) => match number_at(start, "line") {
                    Some(n) => n,
                    None => 0,
                },
                None => 0,
            },
            None => 0,
        },
        message: match text_at(tree, "message") {
            Some(s) => s,
            None => ""@,
        },
    }
}

/// The diagnostics that a tree lists, where it is a list.
pub open spec fn published_of(tree: Option<JsonV>) -> Option<Seq<DiagV>> {
    match tree {
        Some(tree) => match tree_array(tree) {
            Some(items) => Some(Seq::new(items.len(), |i: int| diagnostic_of(items[i]))),
            None => None,
        },
        None => None,
    }
}

fn take_diagnostic(v: &serde_json::Value) -> (r: LeanDiagnostic)
    ensures
        r@ == diagnostic_of(json(*v)),
{
    let line: u64 = match field(v, "range") {
        Some(range) => match field(range, "start") {
            Some(start) => match get_number(start, "line") {
                Some(n) => n,
                None => 0,
            },
            None => 0,
        },
        None => 0,
    };
    LeanDiagnostic {
        severity: get_number(v, "severity"),
        line,
        message: match get_text(v, "message") {
            Some(s) => s,
            None => owned(""),
        },
    }
}

fn take_published(v: Option<&serde_json::Value>) -> (r: Published)
    ensures
        r@ == published_of(opt_json(v)),
{
    let items = match v {
        None => {
            return Published { items: None };
        },
        Some(v) => match v.as_array() {
            None => {
                return Published { items: None };
            },
            Some(items) => items,
        },
    };
    let mut out: Vec<LeanDiagnostic> = Vec::new();
    let n: usize = items.len();
    let mut i: usize = 0;
    while i < n
        invariant
            n == items@.len(),
            i <= n,
            out@.len() == i,
            forall|k: int| 0 <= k < i ==> (#[trigger] out@[k])@ == diagnostic_of(json(items@[k])),
        decreases n - i,
    {
        out.push(take_diagnostic(&items[i]));
        i = i + 1;
    }
    assert(views(out@) =~= Seq::new(
        trees(items@).len(),
        |i: int| diagnostic_of(trees(items@)[i]),
    ));
    Published { items: Some(out) }
}

/// What a message of the server means to the check that waits for it.
#[derive(Debug)]
pub enum Incoming {
    /// The diagnostics of the document.
    Diagnostics(Published),
    /// How far the document has been processed.
    Progress { finished: bool },
    /// The answer that the check waits for.
    Answer { failed: bool },
    /// A request of the server's, and the text that declines it.
    Request(String),
    Other,
}

pub ghost enum InV {
    Diagnostics(Option<Seq<DiagV>>),
    Progress { finished: bool },
    Answer { failed: bool },
    Request(Seq<char>),
    Other,
}

impl View for Incoming {
    type V = InV;

    open spec fn view(&self) -> InV {
        match *self {
            Incoming::Diagnostics(p) => InV::Diagnostics(p@),
            Incoming::Progress { finished } => InV::Progress { finished },
            Incoming::Answer { failed } => InV::Answer { failed },
            Incoming::Request(s) => InV::Request(s@),
            Incoming::Other => InV::Other,
        }
    }
}

/// A member of a member.
pub open spec fn inner(tree: JsonV, key: &str, key2: &str) -> Option<JsonV> {
    match member(tree, key@) {
        Some(v) => member(v, key2@),
        None => None,
    }
}

/// A message about the document of this address, of this method.
pub open spec fn publishes(tree: JsonV, uri: Seq<char>) -> bool {
    &&& text_at(tree, "method") == Some("textDocument/publishDiagnostics"@)
    &&& inner(tree, "params", "uri") == Some(JsonV::Str(uri))
}

pub open spec fn reports_progress(tree: JsonV, uri: Seq<char>) -> bool {
    &&& text_at(tree, "method") == Some("$/lean/fileProgress"@)
    &&& match inner(tree, "params", "textDocument") {
        Some(doc) => text_at(doc, "uri") == Some(uri),
        None => false,
    }
}

/// Nothing of the document is left to process.
pub open spec fn nothing_left(tree: JsonV) -> bool {
    match inner(tree, "params", "processing") {
        Some(v) => match tree_array(v) {
            Some(items) => items.len() == 0,
            None => false,
        },
        None => false,
    }
}

/// The answer to the request of this number.
pub open spec fn answers(tree: JsonV, id: i64) -> bool {
    &&& member(tree, "method"@) is None
    &&& match member(tree, "id"@) {
        Some(v) => tree_i64(v) == Some(id),
        None => false,
    }
}

/// What a message means to a check of this document that waits for this answer.
pub open spec fn incoming_of(tree: JsonV, uri: Seq<char>, wait_id: i64) -> InV {
    if publishes(tree, uri) {
        InV::Diagnostics(published_of(inner(tree, "params", "diagnostics")))
    } else if reports_progress(tree, uri) {
        InV::Progress { finished: nothing_left(tree) }
    } else if answers(tree, wait_id) {
        InV::Answer { failed: member(tree, "error"@) is Some }
    } else if member(tree, "id"@) is Some && member(tree, "method"@) is Some {
        InV::Request(json_print(decline_tree(member(tree, "id"@)->Some_0)))
    } else {
        InV::Other
    }
}

fn get_inner<'a>(v: &'a serde_json::Value, key: &str, key2: &str) -> (r: Option<
    &'a serde_json::Value,
>)
    ensures
        opt_json(r) == inner(json(*v), key, key2),
{
    match field(v, key) {
        Some(f) => field(f, key2),
        None => None,
    }
}

/// Whether a value is this text.
fn is_text(v: Option<&serde_json::Value>, s: &str) -> (r: bool)
    ensures
        r == (opt_json(v) == Some(JsonV::Str(s@))),
{
    match v {
        Some(v) => match v.as_str() {
            Some(t) => same_text(t, s),
            None => false,
        },
        None => false,
    }
}

fn is_answer(v: &serde_json::Value, id: i64) -> (r: bool)
    ensures
        r == answers(json(*v), id),
{
    if field(v, "method").is_some() {
        return false;
    }
    match field(v, "id") {
        Some(f) => match f.as_i64() {
            Some(n) => n == id,
            None => false,
        },
        None => false,
    }
}

/// Tells what a message means to a check.
pub fn classify(v: &serde_json::Value, uri: &str, wait_id: i64) -> (r: Incoming)
    ensures
        r@ == incoming_of(json(*v), uri@, wait_id),
{
    if is_text(field(v, "method"), "textDocument/publishDiagnostics") && is_text(
        get_inner(v, "params", "uri"),
        uri,
    ) {
        return Incoming::Diagnostics(take_published(get_inner(v, "params", "diagnostics")));
    }
    if is_text(field(v, "method"), "$/lean/fileProgress") {
        let about = match get_inner(v, "params", "textDocument") {
            Some(doc) => is_text(field(doc, "uri"), uri),
            None => false,
        };
        if about {
            let finished = match get_inner(v, "params", "processing") {
                Some(p) => match p.as_array() {
                    Some(items) => items.len() == 0,
                    None => false,
                },
                None => false,
            };
            return Incoming::Progress { finished };
        }
    }
    if is_answer(v, wait_id) {
        return Incoming::Answer { failed: field(v, "error").is_some() };
    }
    match field(v, "id") {
        Some(id) => if field(v, "method").is_some() {
            Incoming::Request(decline(id))
        } else {
            Incoming::Other
        },
        None => Incoming::Other,
    }
}

// ------------------------------------------------------------------------------------------
// The handshake
// ------------------------------------------------------------------------------------------

/// What a message of the server means to a request that blocks until it is answered.
#[derive(Debug)]
pub enum Awaited {
    Answered,
    /// The server refused the request.
    Refused(String),
    /// A request of the server's, and the text that declines it.
    Request(String),
    Other,
}

pub ghost enum AwaitedV {
    Answered,
    Refused(Seq<char>),
    Request(Seq<char>),
    Other,
}

impl View for Awaited {
    type V = AwaitedV;

    open spec fn view(&self) -> AwaitedV {
        match *self {
            Awaited::Answered => AwaitedV::Answered,
            Awaited::Refused(s) => AwaitedV::Refused(s@),
            Awaited::Request(s) => AwaitedV::Request(s@),
            Awaited::Other => AwaitedV::Other,
        }
    }
}

pub open spec fn awaited_of(tree: JsonV, method: Seq<char>, id: i64) -> AwaitedV {
    if answers(tree, id) {
        match member(tree, "error"@) {
            Some(e) => AwaitedV::Refused(
                "lean server error for "@ + method + ": "@ + json_print(e),
            ),
            None => AwaitedV::Answered,
        }
    } else if member(tree, "id"@) is Some && member(tree, "method"@) is Some {
        AwaitedV::Request(json_print(decline_tree(member(tree, "id"@)->Some_0)))
    } else {
        AwaitedV::Other
    }
}

/// Tells what a message means to a request of this method and number.
pub fn awaited(v: &serde_json::Value, method: &str, id: i64) -> (r: Awaited)
    ensures
        r@ == awaited_of(json(*v), method@, id),
{
    if is_answer(v, id) {
        return match field(v, "error") {
            Some(e) => Awaited::Refused(
                cat4("lean server error for ", method, ": ", print(e).as_str()),
            ),
            None => Awaited::Answered,
        };
    }
    match field(v, "id") {
        Some(id) => if field(v, "method").is_some() {
            Awaited::Request(decline(id))
        } else {
            Awaited::Other
        },
        None => Awaited::Other,
    }
}

} // verus!
