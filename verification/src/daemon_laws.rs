//! What holds of the texts that the daemon compares and sends: the import header of a document,
//! file addresses, and the messages of the server.
use vstd::prelude::*;

use crate::daemon::{
    answers, awaited_of, decline_tree, diagnostic_of, header_of, import_end, imports, incoming_of,
    joined, out_tree, plain_byte, published_of, uri_byte, uri_bytes, uri_of, AwaitedV, InV, OutV,
};
use crate::json::{json_print, member, JsonV};
use crate::scan::{first_solid, is_space, lines_from, trimmed_start};
use crate::text_laws::{blank, law_lines_hold_no_feed, lemma_first_solid, one_row};

verus! {

// ------------------------------------------------------------------------------------------
// The import header
// ------------------------------------------------------------------------------------------

/// White space, then the word `import` and a blank, then anything.
pub open spec fn import_row(line: Seq<char>) -> bool {
    exists|w: Seq<char>, rest: Seq<char>|
        #[trigger] blank(w) && line == #[trigger] (w + "import "@ + rest)
}

/// The first `n` lines import, and the line after them, where there is one, does not.
pub open spec fn leading_imports(lines: Seq<Seq<char>>, n: nat) -> bool {
    &&& n <= lines.len()
    &&& forall|k: int| 0 <= k < n ==> import_row(#[trigger] lines[k])
    &&& n < lines.len() ==> !import_row(lines[n as int])
}

proof fn lemma_solid_at(s: Seq<char>, i: nat, k: nat)
    requires
        i <= k < s.len(),
        forall|j: int| i <= j < k ==> is_space(#[trigger] s[j]),
        !is_space(s[k as int]),
    ensures
        first_solid(s, i) == k,
    decreases k - i,
{
    if i < k {
        lemma_solid_at(s, i + 1, k);
    }
}

/// A line imports exactly where its first word is `import` and a blank follows it.
pub proof fn law_import_lines(line: Seq<char>)
    ensures
        imports(line) == import_row(line),
{
    reveal_strlit("import ");
    let word = "import "@;
    assert(word.len() == 7 && word[0] == 'i');
    lemma_first_solid(line, 0);
    let a = first_solid(line, 0) as int;
    if imports(line) {
        let w = line.take(a);
        let rest = line.skip(a + 7);
        assert(blank(w));
        assert(line =~= w + word + rest);
    }
    if import_row(line) {
        let (w, rest) = choose|w: Seq<char>, rest: Seq<char>|
            #[trigger] blank(w) && line == #[trigger] (w + word + rest);
        assert forall|j: int| 0 <= j < w.len() implies is_space(#[trigger] line[j]) by {
            assert(line[j] == w[j]);
        }
        assert(line[w.len() as int] == 'i');
        lemma_solid_at(line, 0, w.len());
        assert(trimmed_start(line) =~= word + rest);
        assert(word.is_prefix_of(word + rest));
    }
}

proof fn lemma_import_end(lines: Seq<Seq<char>>, i: nat, n: nat)
    requires
        i <= n,
        leading_imports(lines, n),
    ensures
        import_end(lines, i) == n,
    decreases n - i,
{
    if i < lines.len() {
        law_import_lines(lines[i as int]);
        if i < n {
            lemma_import_end(lines, i + 1, n);
        }
    }
}

/// Each row with a line feed behind it, in order.
pub open spec fn fed(rows: Seq<Seq<char>>) -> Seq<char> {
    rows.map_values(|row: Seq<char>| row + seq!['\n']).flatten()
}

proof fn lemma_feed()
    ensures
        "\n"@ == seq!['\n'],
{
    reveal_strlit("\n");
    assert("\n"@ =~= seq!['\n']);
}

proof fn lemma_joined(lines: Seq<Seq<char>>, n: nat)
    requires
        0 < n <= lines.len(),
    ensures
        joined(lines, n) + seq!['\n'] == fed(lines.take(n as int)),
    decreases n,
{
    let f = |row: Seq<char>| row + seq!['\n'];
    lemma_feed();
    let shorter = lines.take(n - 1).map_values(f);
    let last = f(lines[n - 1]);
    assert(lines.take(n as int).map_values(f) =~= shorter.push(last));
    shorter.lemma_flatten_push(last);
    if n > 1 {
        lemma_joined(lines, (n - 1) as nat);
        assert(joined(lines, n) + seq!['\n'] =~= (joined(lines, (n - 1) as nat) + seq!['\n'])
            + last);
    } else {
        assert(shorter =~= Seq::<Seq<char>>::empty());
        assert(shorter.flatten() =~= Seq::<char>::empty());
        assert(joined(lines, 1) + seq!['\n'] =~= shorter.flatten() + last);
    }
}

/// The import header holds every line of the longest run of import lines at the head of a text, as
/// it stands and in order, and no other line: with a line feed behind it, it is those lines, each
/// with its feed.
pub proof fn law_header_holds_every_leading_import(text: Seq<char>, n: nat)
    requires
        leading_imports(lines_from(text, 0), n),
    ensures
        n == 0 ==> header_of(text) == Seq::<char>::empty(),
        n > 0 ==> header_of(text) + seq!['\n'] == fed(lines_from(text, 0).take(n as int)),
{
    lemma_import_end(lines_from(text, 0), 0, n);
    if n > 0 {
        lemma_joined(lines_from(text, 0), n);
    }
}

proof fn lemma_joined_feed(lines: Seq<Seq<char>>, n: nat)
    requires
        n <= lines.len(),
        forall|k: int| 0 <= k < n ==> (#[trigger] lines[k]).len() > 0,
    ensures
        n > 0 ==> joined(lines, n).len() > 0,
{
    if n == 1 {
        assert(joined(lines, 1) == lines[0]);
    }
}

proof fn lemma_joined_apart(a: Seq<Seq<char>>, n: nat, b: Seq<Seq<char>>, k: nat)
    requires
        0 < n <= a.len(),
        0 < k <= b.len(),
        forall|i: int| 0 <= i < n ==> one_row(#[trigger] a[i]),
        forall|i: int| 0 <= i < k ==> one_row(#[trigger] b[i]),
        joined(a, n) == joined(b, k),
    ensures
        n == k,
        a.take(n as int) == b.take(k as int),
    decreases n,
{
    lemma_feed();
    let x = joined(a, n);
    let u = a[n - 1];
    let v = b[k - 1];
    assert(one_row(u) && one_row(v));
    if n == 1 && k == 1 {
        assert(a.take(1) =~= b.take(1));
    } else if n == 1 {
        let p = joined(b, (k - 1) as nat);
        assert(x =~= p + seq!['\n'] + v);
        assert(x[p.len() as int] == '\n');
        assert(u[p.len() as int] == '\n');
        assert(false);
    } else if k == 1 {
        let p = joined(a, (n - 1) as nat);
        assert(x =~= p + seq!['\n'] + u);
        assert(x[p.len() as int] == '\n');
        assert(v[p.len() as int] == '\n');
        assert(false);
    } else {
        let p = joined(a, (n - 1) as nat);
        let q = joined(b, (k - 1) as nat);
        assert(x =~= p + seq!['\n'] + u);
        assert(x =~= q + seq!['\n'] + v);
        if p.len() < q.len() {
            assert(x[q.len() as int] == '\n');
            assert(u[q.len() - p.len() - 1] == '\n');
            assert(false);
        }
        if q.len() < p.len() {
            assert(x[p.len() as int] == '\n');
            assert(v[p.len() - q.len() - 1] == '\n');
            assert(false);
        }
        assert(p =~= x.take(p.len() as int));
        assert(q =~= x.take(q.len() as int));
        assert(u =~= x.skip(p.len() as int + 1));
        assert(v =~= x.skip(q.len() as int + 1));
        lemma_joined_apart(a, (n - 1) as nat, b, (k - 1) as nat);
        assert forall|i: int| 0 <= i < n implies a[i] == b[i] by {
            if i < n - 1 {
                assert(a.take(n - 1)[i] == b.take(k - 1)[i]);
            }
        }
        assert(a.take(n as int) =~= b.take(k as int));
    }
}

/// Two texts have the same import header exactly where the lines that import at their heads are the
/// same, line for line: a change in any of them, an added and a removed one change the header.
pub proof fn law_same_header_means_same_imports(s: Seq<char>, n: nat, t: Seq<char>, k: nat)
    requires
        leading_imports(lines_from(s, 0), n),
        leading_imports(lines_from(t, 0), k),
    ensures
        header_of(s) == header_of(t) <==> lines_from(s, 0).take(n as int) == lines_from(t, 0).take(
            k as int,
        ),
{
    let a = lines_from(s, 0);
    let b = lines_from(t, 0);
    reveal_strlit("import ");
    lemma_import_end(a, 0, n);
    lemma_import_end(b, 0, k);
    law_lines_hold_no_feed(s);
    law_lines_hold_no_feed(t);
    assert forall|i: int| 0 <= i < n implies (#[trigger] a[i]).len() > 0 by {
        assert(import_row(a[i]));
    }
    assert forall|i: int| 0 <= i < k implies (#[trigger] b[i]).len() > 0 by {
        assert(import_row(b[i]));
    }
    lemma_joined_feed(a, n);
    lemma_joined_feed(b, k);
    if header_of(s) == header_of(t) {
        if n > 0 {
            lemma_joined_apart(a, n, b, k);
        } else {
            assert(a.take(0) =~= b.take(0));
        }
    }
    if a.take(n as int) == b.take(k as int) {
        assert(a.take(n as int).len() == n);
        assert(b.take(k as int).len() == k);
        if n > 0 {
            law_header_holds_every_leading_import(s, n);
            law_header_holds_every_leading_import(t, k);
            let x = header_of(s) + seq!['\n'];
            let y = header_of(t) + seq!['\n'];
            assert(x == y);
            assert(header_of(s) =~= x.drop_last());
            assert(header_of(t) =~= y.drop_last());
        }
    }
}

// ------------------------------------------------------------------------------------------
// File addresses
// ------------------------------------------------------------------------------------------

/// The value of an upper case hexadecimal digit.
pub open spec fn hex_value(c: char) -> int {
    if '0' <= c <= '9' {
        c as int - '0' as int
    } else if 'A' <= c <= 'F' {
        c as int - 'A' as int + 10
    } else {
        -1
    }
}

/// A letter or a digit, or one of `/`, `-`, `.`, `_` and `~`.
pub open spec fn address_char(c: char) -> bool {
    'a' <= c <= 'z' || 'A' <= c <= 'Z' || '0' <= c <= '9' || c == '/' || c == '-' || c == '.' || c
        == '_' || c == '~'
}

/// A byte that is a letter, a digit or one of a few signs stands for itself in a file address; any
/// other is a percent sign and the two hexadecimal digits of its value.
pub proof fn law_address_of_a_byte(b: u8)
    ensures
        address_char(b as char) ==> uri_byte(b) == seq![b as char],
        !address_char(b as char) ==> {
            &&& uri_byte(b).len() == 3
            &&& uri_byte(b)[0] == '%'
            &&& 0 <= hex_value(uri_byte(b)[1]) < 16
            &&& 0 <= hex_value(uri_byte(b)[2]) < 16
            &&& hex_value(uri_byte(b)[1]) * 16 + hex_value(uri_byte(b)[2]) == b
        },
{
    assert(plain_byte(b) == address_char(b as char));
    assert(0 <= b as int / 16 < 16);
    assert(b as int == (b as int / 16) * 16 + b as int % 16);
}

proof fn lemma_address(bytes: Seq<u8>, n: nat)
    requires
        n <= bytes.len(),
    ensures
        uri_bytes(bytes, n) == bytes.take(n as int).map_values(|b: u8| uri_byte(b)).flatten(),
    decreases n,
{
    let f = |b: u8| uri_byte(b);
    if n == 0 {
        assert(bytes.take(0).map_values(f) =~= Seq::<Seq<char>>::empty());
        assert(Seq::<Seq<char>>::empty().flatten() =~= Seq::<char>::empty());
    } else {
        lemma_address(bytes, (n - 1) as nat);
        let shorter = bytes.take(n - 1).map_values(f);
        let last = f(bytes[n - 1]);
        assert(bytes.take(n as int).map_values(f) =~= shorter.push(last));
        shorter.lemma_flatten_push(last);
    }
}

/// The address of a file is `file://` and every byte of its path, each once and in order.
pub proof fn law_address_of_a_file(path: Seq<char>)
    ensures
        uri_of(path) == "file://"@ + vstd::utf8::encode_utf8(path).map_values(
            |b: u8| uri_byte(b),
        ).flatten(),
{
    let bytes = vstd::utf8::encode_utf8(path);
    lemma_address(bytes, bytes.len());
    assert(bytes.take(bytes.len() as int) =~= bytes);
}

// ------------------------------------------------------------------------------------------
// Messages
// ------------------------------------------------------------------------------------------

/// The member at the end of a path of names.
pub open spec fn at(tree: JsonV, path: Seq<Seq<char>>) -> Option<JsonV>
    decreases path.len(),
{
    if path.len() == 0 {
        Some(tree)
    } else {
        match member(tree, path[0]) {
            Some(next) => at(next, path.skip(1)),
            None => None,
        }
    }
}

proof fn lemma_at1(tree: JsonV, a: Seq<char>)
    ensures
        at(tree, seq![a]) == member(tree, a),
{
    reveal_with_fuel(at, 2);
}

proof fn lemma_at2(tree: JsonV, a: Seq<char>, b: Seq<char>)
    ensures
        at(tree, seq![a, b]) == (match member(tree, a) {
            Some(next) => member(next, b),
            None => None,
        }),
{
    assert(seq![a, b].skip(1) =~= seq![b]);
    if member(tree, a) is Some {
        lemma_at1(member(tree, a)->Some_0, b);
    }
}

proof fn lemma_at3(tree: JsonV, a: Seq<char>, b: Seq<char>, c: Seq<char>)
    ensures
        at(tree, seq![a, b, c]) == (match member(tree, a) {
            Some(next) => match member(next, b) {
                Some(last) => member(last, c),
                None => None,
            },
            None => None,
        }),
{
    assert(seq![a, b, c].skip(1) =~= seq![b, c]);
    if member(tree, a) is Some {
        lemma_at2(member(tree, a)->Some_0, b, c);
    }
}

proof fn lemma_names()
    ensures
        "jsonrpc"@ != "method"@,
        "jsonrpc"@ != "params"@,
        "jsonrpc"@ != "id"@,
        "method"@ != "params"@,
        "method"@ != "id"@,
        "params"@ != "id"@,
        "uri"@ != "languageId"@,
        "uri"@ != "version"@,
        "uri"@ != "text"@,
        "languageId"@ != "version"@,
        "languageId"@ != "text"@,
        "version"@ != "text"@,
        "textDocument"@ != "contentChanges"@,
        "processId"@ != "rootUri"@,
        "processId"@ != "capabilities"@,
        "rootUri"@ != "capabilities"@,
        "error"@ != "jsonrpc"@,
        "error"@ != "id"@,
        "error"@ != "method"@,
        "code"@ != "message"@,
{
    reveal_strlit("jsonrpc");
    reveal_strlit("method");
    reveal_strlit("params");
    reveal_strlit("id");
    reveal_strlit("uri");
    reveal_strlit("languageId");
    reveal_strlit("version");
    reveal_strlit("text");
    reveal_strlit("textDocument");
    reveal_strlit("contentChanges");
    reveal_strlit("processId");
    reveal_strlit("rootUri");
    reveal_strlit("capabilities");
    reveal_strlit("error");
    reveal_strlit("code");
    reveal_strlit("message");
    assert("jsonrpc"@[0] == 'j' && "version"@[0] == 'v' && "rootUri"@[0] == 'r');
    assert("method"@[0] == 'm' && "params"@[0] == 'p');
    assert("code"@.len() != "message"@.len());
    assert("uri"@.len() != "text"@.len());
    assert("textDocument"@.len() != "contentChanges"@.len());
    assert("processId"@.len() != "capabilities"@.len());
    assert("error"@.len() == 5 && "id"@.len() == 2);
    assert("jsonrpc"@.len() == 7 && "method"@.len() == 6);
}

/// The method that a message names.
pub open spec fn method_of(o: OutV) -> Seq<char> {
    match o {
        OutV::Initialize { .. } => "initialize"@,
        OutV::Initialized => "initialized"@,
        OutV::Open { .. } => "textDocument/didOpen"@,
        OutV::Change { .. } => "textDocument/didChange"@,
        OutV::Close { .. } => "textDocument/didClose"@,
        OutV::Wait { .. } => "textDocument/waitForDiagnostics"@,
    }
}

/// Every message is of version 2.0 of the protocol and names its method; a request carries its
/// number, and a notification has none.
pub proof fn law_messages_name_their_method(o: OutV)
    ensures
        member(out_tree(o), "jsonrpc"@) == Some(JsonV::Str("2.0"@)),
        member(out_tree(o), "method"@) == Some(JsonV::Str(method_of(o))),
        member(out_tree(o), "id"@) == (match o {
            OutV::Initialize { id, .. } => Some(JsonV::Int(id as int)),
            OutV::Wait { id, .. } => Some(JsonV::Int(id as int)),
            _ => None,
        }),
{
    lemma_names();
}

/// What a message says of a document is where the server looks for it: the address, the version and
/// the whole text, unchanged.
pub proof fn law_messages_carry_their_document(o: OutV)
    ensures
        o matches OutV::Open { uri, version, text } ==> {
            &&& at(out_tree(o), seq!["params"@, "textDocument"@, "uri"@]) == Some(JsonV::Str(uri))
            &&& at(out_tree(o), seq!["params"@, "textDocument"@, "languageId"@]) == Some(
                JsonV::Str("lean"@),
            )
            &&& at(out_tree(o), seq!["params"@, "textDocument"@, "version"@]) == Some(
                JsonV::Int(version as int),
            )
            &&& at(out_tree(o), seq!["params"@, "textDocument"@, "text"@]) == Some(
                JsonV::Str(text),
            )
        },
        o matches OutV::Change { uri, version, text } ==> {
            &&& at(out_tree(o), seq!["params"@, "textDocument"@, "uri"@]) == Some(JsonV::Str(uri))
            &&& at(out_tree(o), seq!["params"@, "textDocument"@, "version"@]) == Some(
                JsonV::Int(version as int),
            )
            &&& at(out_tree(o), seq!["params"@, "contentChanges"@]) matches Some(
                JsonV::Arr(changes),
            )
            &&& changes.len() == 1
            &&& member(changes[0], "text"@) == Some(JsonV::Str(text))
        },
        o matches OutV::Close { uri } ==> at(
            out_tree(o),
            seq!["params"@, "textDocument"@, "uri"@],
        ) == Some(JsonV::Str(uri)),
        o matches OutV::Wait { uri, version, .. } ==> {
            &&& at(out_tree(o), seq!["params"@, "uri"@]) == Some(JsonV::Str(uri))
            &&& at(out_tree(o), seq!["params"@, "version"@]) == Some(JsonV::Int(version as int))
        },
        o matches OutV::Initialize { process, root_uri, .. } ==> {
            &&& at(out_tree(o), seq!["params"@, "processId"@]) == Some(JsonV::Int(process as int))
            &&& at(out_tree(o), seq!["params"@, "rootUri"@]) == Some(JsonV::Str(root_uri))
        },
{
    lemma_names();
    let t = out_tree(o);
    lemma_at3(t, "params"@, "textDocument"@, "uri"@);
    lemma_at3(t, "params"@, "textDocument"@, "languageId"@);
    lemma_at3(t, "params"@, "textDocument"@, "version"@);
    lemma_at3(t, "params"@, "textDocument"@, "text"@);
    lemma_at2(t, "params"@, "contentChanges"@);
    lemma_at2(t, "params"@, "uri"@);
    lemma_at2(t, "params"@, "version"@);
    lemma_at2(t, "params"@, "processId"@);
    lemma_at2(t, "params"@, "rootUri"@);
}

/// A message counts for a check only by what it is about: diagnostics and progress by the address of
/// the document, an answer by its number. A message for another document, and the answer to another
/// request, are never taken for this check's.
pub proof fn law_checks_heed_their_own_messages(tree: JsonV, uri: Seq<char>, id: i64)
    ensures
        incoming_of(tree, uri, id) is Diagnostics <==> at(tree, seq!["method"@]) == Some(
            JsonV::Str("textDocument/publishDiagnostics"@),
        ) && at(tree, seq!["params"@, "uri"@]) == Some(JsonV::Str(uri)),
        incoming_of(tree, uri, id) is Progress <==> at(tree, seq!["method"@]) == Some(
            JsonV::Str("$/lean/fileProgress"@),
        ) && at(tree, seq!["params"@, "textDocument"@, "uri"@]) == Some(JsonV::Str(uri)),
        incoming_of(tree, uri, id) is Answer <==> at(tree, seq!["method"@]) is None && at(
            tree,
            seq!["id"@],
        ) == Some(JsonV::Int(id as int)),
{
    lemma_at1(tree, "method"@);
    lemma_at1(tree, "id"@);
    lemma_at2(tree, "params"@, "uri"@);
    lemma_at3(tree, "params"@, "textDocument"@, "uri"@);
    reveal_strlit("textDocument/publishDiagnostics");
    reveal_strlit("$/lean/fileProgress");
    assert("textDocument/publishDiagnostics"@.len() != "$/lean/fileProgress"@.len());
    if member(tree, "id"@) is Some {
        let v = member(tree, "id"@)->Some_0;
        match v {
            JsonV::Int(n) => {
                assert(answers(tree, id) == (member(tree, "method"@) is None && n == id));
            },
            _ => {},
        }
    }
}

/// Progress is finished exactly where the list of what is left to process is empty; an answer failed
/// exactly where it carries an error.
pub proof fn law_ends_are_told_apart(tree: JsonV, uri: Seq<char>, id: i64)
    ensures
        incoming_of(tree, uri, id) matches InV::Progress { finished } ==> (finished <==> at(
            tree,
            seq!["params"@, "processing"@],
        ) == Some(JsonV::Arr(Seq::empty()))),
        incoming_of(tree, uri, id) matches InV::Answer { failed } ==> (failed <==> at(
            tree,
            seq!["error"@],
        ) is Some),
{
    lemma_at1(tree, "error"@);
    lemma_at2(tree, "params"@, "processing"@);
    match at(tree, seq!["params"@, "processing"@]) {
        Some(JsonV::Arr(items)) => {
            if items.len() == 0 {
                assert(items =~= Seq::<JsonV>::empty());
            }
        },
        _ => {},
    }
}

/// Every diagnostic that was published is kept, in order, with the severity, the line and the
/// message that it states.
pub proof fn law_published_diagnostics_are_kept(tree: JsonV, uri: Seq<char>, id: i64, i: int)
    requires
        incoming_of(tree, uri, id) is Diagnostics,
    ensures
        at(tree, seq!["params"@, "diagnostics"@]) matches Some(JsonV::Arr(items)) ==> {
            &&& incoming_of(tree, uri, id) matches InV::Diagnostics(Some(told))
            &&& told.len() == items.len()
            &&& 0 <= i < items.len() ==> {
                &&& member(items[i], "message"@) matches Some(JsonV::Str(s)) ==> told[i].message == s
                &&& member(items[i], "severity"@) matches Some(JsonV::Int(n)) ==> (0 <= n <= u64::MAX
                    ==> told[i].severity == Some(n as u64))
                &&& member(items[i], "severity"@) is None ==> told[i].severity is None
                &&& at(items[i], seq!["range"@, "start"@, "line"@]) matches Some(JsonV::Int(n)) ==> (
                0 <= n <= u64::MAX ==> told[i].line == n)
            }
        },
        !(at(tree, seq!["params"@, "diagnostics"@]) matches Some(JsonV::Arr(_))) ==> incoming_of(
            tree,
            uri,
            id,
        ) == InV::Diagnostics(None),
{
    lemma_at2(tree, "params"@, "diagnostics"@);
    match at(tree, seq!["params"@, "diagnostics"@]) {
        Some(JsonV::Arr(items)) => {
            let told = published_of(Some(JsonV::Arr(items)))->Some_0;
            if 0 <= i < items.len() {
                assert(told[i] == diagnostic_of(items[i]));
                lemma_at3(items[i], "range"@, "start"@, "line"@);
            }
        },
        _ => {},
    }
}

/// A request of the server's is declined under its own number, with the code for an unknown method;
/// it is neither dropped nor taken for the answer that is waited for.
pub proof fn law_requests_of_the_server_are_declined(
    tree: JsonV,
    uri: Seq<char>,
    method: Seq<char>,
    id: i64,
)
    requires
        member(tree, "id"@) is Some,
        member(tree, "method"@) is Some,
    ensures
        awaited_of(tree, method, id) == AwaitedV::Request(
            json_print(decline_tree(member(tree, "id"@)->Some_0)),
        ),
        !(incoming_of(tree, uri, id) is Diagnostics) && !(incoming_of(tree, uri, id) is Progress)
            ==> incoming_of(tree, uri, id) == InV::Request(
            json_print(decline_tree(member(tree, "id"@)->Some_0)),
        ),
        member(decline_tree(member(tree, "id"@)->Some_0), "id"@) == member(tree, "id"@),
        at(decline_tree(member(tree, "id"@)->Some_0), seq!["error"@, "code"@]) == Some(
            JsonV::Int(-32601),
        ),
        member(decline_tree(member(tree, "id"@)->Some_0), "method"@) is None,
{
    lemma_names();
    lemma_at2(decline_tree(member(tree, "id"@)->Some_0), "error"@, "code"@);
}

/// A request is answered by the message that has its number and no method, and refused exactly where
/// that message carries an error.
pub proof fn law_answers_match_their_request(tree: JsonV, method: Seq<char>, id: i64)
    ensures
        awaited_of(tree, method, id) is Answered <==> member(tree, "method"@) is None && member(
            tree,
            "id"@,
        ) == Some(JsonV::Int(id as int)) && member(tree, "error"@) is None,
        awaited_of(tree, method, id) is Refused <==> member(tree, "method"@) is None && member(
            tree,
            "id"@,
        ) == Some(JsonV::Int(id as int)) && member(tree, "error"@) is Some,
{
    if member(tree, "id"@) is Some {
        match member(tree, "id"@)->Some_0 {
            JsonV::Int(n) => {
                assert(answers(tree, id) == (member(tree, "method"@) is None && n == id));
            },
            _ => {},
        }
    }
}

/// A message is a request of the server's exactly where it has a number and a method, and is not one
/// that the check itself heeds; a message with only one of the two is none.
pub proof fn law_requests_have_a_number_and_a_method(
    tree: JsonV,
    uri: Seq<char>,
    method: Seq<char>,
    id: i64,
)
    ensures
        awaited_of(tree, method, id) is Request <==> member(tree, "id"@) is Some && member(
            tree,
            "method"@,
        ) is Some,
        incoming_of(tree, uri, id) is Request <==> member(tree, "id"@) is Some && member(
            tree,
            "method"@,
        ) is Some && !(incoming_of(tree, uri, id) is Diagnostics) && !(incoming_of(tree, uri, id)
            is Progress),
        member(tree, "id"@) is None && member(tree, "method"@) is None ==> awaited_of(
            tree,
            method,
            id,
        ) == AwaitedV::Other && incoming_of(tree, uri, id) == InV::Other,
{
}

} // verus!
