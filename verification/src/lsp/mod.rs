//! Language-server protocol data: message classification, the parsing of
//! responses into the editor's types, and file URIs.
pub mod dispatch;
pub mod json;
pub mod requests;
pub mod transport;

use vstd::prelude::*;
use vstd::string::StringExecFns;

use self::json::{member_from, 
    elems_view, json_as_array, json_as_i64, json_as_str, json_as_u64, json_get, json_get_opt,
    lemma_elems_view, lemma_members_view, members_view, JsonValue, JsonView,
};
use crate::buffer::text_eq;

verus! {

// ── Message types ──────────────────────────────────────────────────

#[derive(Debug)]
pub enum LspMessage {
    Response { id: i64, result: Option<JsonValue>, error: Option<JsonValue> },
    Notification { method: String, params: JsonValue },
    ServerRequest { id: JsonValue, method: String, params: JsonValue },
}

/// The mathematical value of a message.
pub enum LspMessageView {
    Response { id: i64, result: Option<JsonView>, error: Option<JsonView> },
    Notification { method: Seq<char>, params: JsonView },
    ServerRequest { id: JsonView, method: Seq<char>, params: JsonView },
}

pub open spec fn opt_view(v: Option<JsonValue>) -> Option<JsonView> {
    match v {
        Some(x) => Some(x@),
        None => None,
    }
}

impl View for LspMessage {
    type V = LspMessageView;

    open spec fn view(&self) -> LspMessageView {
        match *self {
            LspMessage::Response { id, result, error } => LspMessageView::Response {
                id,
                result: opt_view(result),
                error: opt_view(error),
            },
            LspMessage::Notification { method, params } => LspMessageView::Notification {
                method: method@,
                params: params@,
            },
            LspMessage::ServerRequest { id, method, params } => LspMessageView::ServerRequest {
                id: id@,
                method: method@,
                params: params@,
            },
        }
    }
}

/// The value of a member, or `null` when it is missing.
pub open spec fn or_null(v: Option<JsonView>) -> JsonView {
    match v {
        Some(x) => x,
        None => JsonView::Null,
    }
}

/// How a JSON-RPC message is classified: a message with an `id` and a
/// `method` is a request from the server, one with an `id` only is a
/// response to us (its id must be an integer), one with a `method` only is a
/// notification. Anything else, or a method that is not a string, is not a
/// message.
pub open spec fn spec_message(msg: JsonView) -> Option<LspMessageView> {
    if !(msg is Object) {
        None
    } else {
        let id = json_get(msg, "id"@);
        let method = json_get(msg, "method"@);
        if id is Some {
            if method is Some {
                match json_as_str(method) {
                    Some(m) => Some(
                        LspMessageView::ServerRequest {
                            id: id.unwrap(),
                            method: m,
                            params: or_null(json_get(msg, "params"@)),
                        },
                    ),
                    None => None,
                }
            } else {
                match json_as_i64(id) {
                    Some(n) => Some(
                        LspMessageView::Response {
                            id: n,
                            result: json_get(msg, "result"@),
                            error: json_get(msg, "error"@),
                        },
                    ),
                    None => None,
                }
            }
        } else if method is Some {
            match json_as_str(method) {
                Some(m) => Some(
                    LspMessageView::Notification { method: m, params: or_null(json_get(msg, "params"@)) },
                ),
                None => None,
            }
        } else {
            None
        }
    }
}

fn cloned(v: Option<&JsonValue>) -> (r: Option<JsonValue>)
    ensures
        opt_view(r) == match v {
            Some(x) => Some(x@),
            None => None,
        },
{
    match v {
        Some(x) => Some(x.clone()),
        None => None,
    }
}

impl LspMessage {
    pub fn from_value(msg: JsonValue) -> (r: Option<Self>)
        ensures
            match r {
                Some(m) => spec_message(msg@) == Some(m@),
                None => spec_message(msg@) is None,
            },
    {
        if !msg.is_object() {
            return None;
        }
        if let Some(id_val) = msg.get("id") {
            if let Some(method) = msg.get("method") {
                // Server → Client request
                let m = method.as_str()?;
                Some(
                    LspMessage::ServerRequest {
                        id: id_val.clone(),
                        method: String::from_str(m),
                        params: match msg.get("params") {
                            Some(p) => p.clone(),
                            None => JsonValue::Null,
                        },
                    },
                )
            } else {
                // Response to our request
                let id = id_val.as_i64()?;
                Some(
                    LspMessage::Response {
                        id,
                        result: cloned(msg.get("result")),
                        error: cloned(msg.get("error")),
                    },
                )
            }
        } else if let Some(method) = msg.get("method") {
            let m = method.as_str()?;
            Some(
                LspMessage::Notification {
                    method: String::from_str(m),
                    params: match msg.get("params") {
                        Some(p) => p.clone(),
                        None => JsonValue::Null,
                    },
                },
            )
        } else {
            None
        }
    }
}

// ── Diagnostic / Completion types (parsed from JSON) ───────────────

#[derive(Debug, Clone)]
pub struct LspDiagnostic {
    pub start_line: u32,
    pub start_col: u32,
    pub end_line: u32,
    pub end_col: u32,
    pub severity: u8,  // 1=Error 2=Warning 3=Info 4=Hint
    pub message: String,
}

#[derive(Debug, Clone)]
pub struct LspCompletionItem {
    pub label: String,
    pub detail: Option<String>,
    pub insert_text: Option<String>,
    pub kind: u32,  // CompletionItemKind numeric value
}

#[derive(Debug, Clone)]
pub struct LspLocation {
    pub uri: String,
    pub start_line: u32,
    pub start_col: u32,
    pub end_line: u32,
    pub end_col: u32,
}

#[derive(Debug, Clone)]
pub struct LspCodeAction {
    pub title: String,
    pub kind: Option<String>,
    pub edit: Option<JsonValue>,
    pub command: Option<JsonValue>,
}

#[derive(Debug, Clone)]
pub struct LspWorkspaceEdit {
    pub uri: String,
    pub edits: Vec<LspTextEdit>,
}

#[derive(Debug, Clone)]
pub struct LspTextEdit {
    pub start_line: u32,
    pub start_col: u32,
    pub end_line: u32,
    pub end_col: u32,
    pub new_text: String,
}

// ── Views of the parsed types ──────────────────────────────────────

pub struct DiagnosticView {
    pub start_line: u32,
    pub start_col: u32,
    pub end_line: u32,
    pub end_col: u32,
    pub severity: u8,
    pub message: Seq<char>,
}

pub struct CompletionView {
    pub label: Seq<char>,
    pub detail: Option<Seq<char>>,
    pub insert_text: Option<Seq<char>>,
    pub kind: u32,
}

pub struct LocationView {
    pub uri: Seq<char>,
    pub start_line: u32,
    pub start_col: u32,
    pub end_line: u32,
    pub end_col: u32,
}

pub struct CodeActionView {
    pub title: Seq<char>,
    pub kind: Option<Seq<char>>,
    pub edit: Option<JsonView>,
    pub command: Option<JsonView>,
}

pub struct TextEditView {
    pub start_line: u32,
    pub start_col: u32,
    pub end_line: u32,
    pub end_col: u32,
    pub new_text: Seq<char>,
}

pub open spec fn opt_str_view(s: Option<String>) -> Option<Seq<char>> {
    match s {
        Some(x) => Some(x@),
        None => None,
    }
}

impl View for LspDiagnostic {
    type V = DiagnosticView;

    open spec fn view(&self) -> DiagnosticView {
        DiagnosticView {
            start_line: self.start_line,
            start_col: self.start_col,
            end_line: self.end_line,
            end_col: self.end_col,
            severity: self.severity,
            message: self.message@,
        }
    }
}

impl View for LspCompletionItem {
    type V = CompletionView;

    open spec fn view(&self) -> CompletionView {
        CompletionView {
            label: self.label@,
            detail: opt_str_view(self.detail),
            insert_text: opt_str_view(self.insert_text),
            kind: self.kind,
        }
    }
}

impl View for LspLocation {
    type V = LocationView;

    open spec fn view(&self) -> LocationView {
        LocationView {
            uri: self.uri@,
            start_line: self.start_line,
            start_col: self.start_col,
            end_line: self.end_line,
            end_col: self.end_col,
        }
    }
}

impl View for LspCodeAction {
    type V = CodeActionView;

    open spec fn view(&self) -> CodeActionView {
        CodeActionView {
            title: self.title@,
            kind: opt_str_view(self.kind),
            edit: opt_view(self.edit),
            command: opt_view(self.command),
        }
    }
}

impl View for LspTextEdit {
    type V = TextEditView;

    open spec fn view(&self) -> TextEditView {
        TextEditView {
            start_line: self.start_line,
            start_col: self.start_col,
            end_line: self.end_line,
            end_col: self.end_col,
            new_text: self.new_text@,
        }
    }
}

// ── Field access helpers ───────────────────────────────────────────

/// `v[a][b][c]` in serde_json style: missing steps give nothing.
pub open spec fn get_path3(v: JsonView, a: Seq<char>, b: Seq<char>, c: Seq<char>) -> Option<JsonView> {
    json_get_opt(json_get_opt(json_get(v, a), b), c)
}

pub open spec fn u64_or(v: Option<u64>, d: u64) -> u64 {
    match v {
        Some(n) => n,
        None => d,
    }
}

pub open spec fn str_or_empty(v: Option<Seq<char>>) -> Seq<char> {
    match v {
        Some(s) => s,
        None => Seq::empty(),
    }
}

fn get_opt<'a>(v: Option<&'a JsonValue>, key: &str) -> (r: Option<&'a JsonValue>)
    ensures
        opt_ref_view(r) == json_get_opt(opt_ref_view(v), key@),
{
    match v {
        Some(x) => x.get(key),
        None => None,
    }
}

pub open spec fn opt_ref_view(v: Option<&JsonValue>) -> Option<JsonView> {
    match v {
        Some(x) => Some(x@),
        None => None,
    }
}

fn u64_of(v: Option<&JsonValue>) -> (r: Option<u64>)
    ensures
        r == json_as_u64(opt_ref_view(v)),
{
    match v {
        Some(x) => x.as_u64(),
        None => None,
    }
}

fn str_of<'a>(v: Option<&'a JsonValue>) -> (r: Option<&'a str>)
    ensures
        match r {
            Some(s) => json_as_str(opt_ref_view(v)) == Some(s@),
            None => json_as_str(opt_ref_view(v)) is None,
        },
{
    match v {
        Some(x) => x.as_str(),
        None => None,
    }
}

fn array_of<'a>(v: Option<&'a JsonValue>) -> (r: Option<&'a Vec<JsonValue>>)
    ensures
        match r {
            Some(a) => json_as_array(opt_ref_view(v)) == Some(elems_view(a@, a@.len())),
            None => json_as_array(opt_ref_view(v)) is None,
        },
{
    match v {
        Some(x) => x.as_array(),
        None => None,
    }
}

fn owned_str(s: Option<&str>) -> (r: Option<String>)
    ensures
        opt_str_view(r) == match s {
            Some(x) => Some(x@),
            None => None,
        },
{
    match s {
        Some(x) => Some(String::from_str(x)),
        None => None,
    }
}

// ── Parsing ────────────────────────────────────────────────────────

pub open spec fn diagnostic_views(s: Seq<LspDiagnostic>) -> Seq<DiagnosticView> {
    Seq::new(s.len(), |i: int| s[i]@)
}

pub open spec fn completion_views(s: Seq<LspCompletionItem>) -> Seq<CompletionView> {
    Seq::new(s.len(), |i: int| s[i]@)
}

pub open spec fn location_views(s: Seq<LspLocation>) -> Seq<LocationView> {
    Seq::new(s.len(), |i: int| s[i]@)
}

/// The `Some` results of `f` over `s`, in order.
pub open spec fn filter_some<A, B>(s: Seq<A>, f: spec_fn(A) -> Option<B>) -> Seq<B>
    decreases s.len(),
{
    if s.len() == 0 {
        Seq::empty()
    } else {
        filter_some(s.drop_last(), f) + match f(s.last()) {
            Some(b) => seq![b],
            None => Seq::empty(),
        }
    }
}

/// The concatenation of `f` over `s`.
pub open spec fn concat_map<A, B>(s: Seq<A>, f: spec_fn(A) -> Seq<B>) -> Seq<B>
    decreases s.len(),
{
    if s.len() == 0 {
        Seq::empty()
    } else {
        concat_map(s.drop_last(), f) + f(s.last())
    }
}

proof fn lemma_filter_some_step<A, B>(s: Seq<A>, f: spec_fn(A) -> Option<B>, i: int)
    requires
        0 <= i < s.len(),
    ensures
        filter_some(s.take(i + 1), f) == filter_some(s.take(i), f) + match f(s[i]) {
            Some(b) => seq![b],
            None => Seq::empty(),
        },
{
    assert(s.take(i + 1).drop_last() =~= s.take(i));
}

proof fn lemma_concat_map_step<A, B>(s: Seq<A>, f: spec_fn(A) -> Seq<B>, i: int)
    requires
        0 <= i < s.len(),
    ensures
        concat_map(s.take(i + 1), f) == concat_map(s.take(i), f) + f(s[i]),
{
    assert(s.take(i + 1).drop_last() =~= s.take(i));
}

/// A position field of a range: `v[range][part][field]` as an integer.
pub open spec fn range_field(v: JsonView, part: Seq<char>, field: Seq<char>) -> Option<u64> {
    json_as_u64(get_path3(v, "range"@, part, field))
}

/// A diagnostic read from its JSON form; missing numbers become 0 (severity
/// 1, an error) and a missing message the empty text.
pub open spec fn diagnostic_of(d: JsonView) -> DiagnosticView {
    DiagnosticView {
        start_line: u64_or(range_field(d, "start"@, "line"@), 0) as u32,
        start_col: u64_or(range_field(d, "start"@, "character"@), 0) as u32,
        end_line: u64_or(range_field(d, "end"@, "line"@), 0) as u32,
        end_col: u64_or(range_field(d, "end"@, "character"@), 0) as u32,
        severity: u64_or(json_as_u64(json_get(d, "severity"@)), 1) as u8,
        message: str_or_empty(json_as_str(json_get(d, "message"@))),
    }
}

/// The diagnostics of `textDocument/publishDiagnostics` params.
pub open spec fn spec_parse_diagnostics(params: JsonView) -> Seq<DiagnosticView> {
    match json_as_array(json_get(params, "diagnostics"@)) {
        Some(ds) => Seq::new(ds.len(), |i: int| diagnostic_of(ds[i])),
        None => Seq::empty(),
    }
}

fn u32_or(v: Option<u64>, d: u64) -> (r: u32)
    ensures
        r == u64_or(v, d) as u32,
{
    match v {
        Some(n) => n as u32,
        None => d as u32,
    }
}

fn text_or_empty(v: Option<&str>) -> (r: String)
    ensures
        r@ == str_or_empty(match v {
            Some(s) => Some(s@),
            None => None,
        }),
{
    match v {
        Some(s) => String::from_str(s),
        None => {
            let e = "";
            proof {
                reveal_strlit("");
            }
            String::from_str(e)
        },
    }
}

/// Parse `textDocument/publishDiagnostics` params into our diagnostic type.
pub fn parse_diagnostics(params: &JsonValue) -> (r: Vec<LspDiagnostic>)
    ensures
        diagnostic_views(r@) == spec_parse_diagnostics(params@),
{
    let mut out: Vec<LspDiagnostic> = Vec::new();
    if let Some(diags) = array_of(params.get("diagnostics")) {
        let ghost dv = elems_view(diags@, diags@.len());
        proof {
            lemma_elems_view(diags@, diags@.len());
        }
        let mut i = 0usize;
        while i < diags.len()
            invariant
                i <= diags@.len(),
                dv == elems_view(diags@, diags@.len()),
                dv.len() == diags@.len(),
                forall|k: int| 0 <= k < diags@.len() ==> #[trigger] dv[k] == diags@[k]@,
                out@.len() == i,
                forall|k: int| 0 <= k < i ==> #[trigger] out@[k]@ == diagnostic_of(dv[k]),
            decreases diags@.len() - i,
        {
            let d = &diags[i];
            let range = d.get("range");
            let start = get_opt(range, "start");
            let end = get_opt(range, "end");
            let severity = match u64_of(d.get("severity")) {
                Some(n) => n as u8,
                None => 1u8,
            };
            let message = text_or_empty(str_of(d.get("message")));
            let diag = LspDiagnostic {
                start_line: u32_or(u64_of(get_opt(start, "line")), 0),
                start_col: u32_or(u64_of(get_opt(start, "character")), 0),
                end_line: u32_or(u64_of(get_opt(end, "line")), 0),
                end_col: u32_or(u64_of(get_opt(end, "character")), 0),
                severity,
                message,
            };
            proof {
                assert(diag@ == diagnostic_of(dv[i as int]));
            }
            out.push(diag);
            i += 1;
        }
        proof {
            assert(diagnostic_views(out@) =~= spec_parse_diagnostics(params@));
        }
    }
    out
}

/// A completion item read from its JSON form.
pub open spec fn completion_of(item: JsonView) -> CompletionView {
    CompletionView {
        label: str_or_empty(json_as_str(json_get(item, "label"@))),
        detail: json_as_str(json_get(item, "detail"@)),
        insert_text: json_as_str(json_get(item, "insertText"@)),
        kind: u64_or(json_as_u64(json_get(item, "kind"@)), 0) as u32,
    }
}

/// The items of a completion response: an array of items, or an object
/// whose `items` is one; anything else has none.
pub open spec fn spec_parse_completions(result: JsonView) -> Seq<CompletionView> {
    match json_as_array(Some(result)) {
        Some(a) => Seq::new(a.len(), |i: int| completion_of(a[i])),
        None => match json_as_array(json_get(result, "items"@)) {
            Some(a) => Seq::new(a.len(), |i: int| completion_of(a[i])),
            None => Seq::empty(),
        },
    }
}

/// Parse a completion response into our completion item type.
pub fn parse_completions(result: &JsonValue) -> (r: Vec<LspCompletionItem>)
    ensures
        completion_views(r@) == spec_parse_completions(result@),
{
    let items = if let Some(arr) = result.as_array() {
        arr
    } else if let Some(arr) = array_of(result.get("items")) {
        arr
    } else {
        return Vec::new();
    };
    let ghost iv = elems_view(items@, items@.len());
    proof {
        lemma_elems_view(items@, items@.len());
    }
    let mut out: Vec<LspCompletionItem> = Vec::new();
    let mut i = 0usize;
    while i < items.len()
        invariant
            i <= items@.len(),
            iv == elems_view(items@, items@.len()),
            iv.len() == items@.len(),
            forall|k: int| 0 <= k < items@.len() ==> #[trigger] iv[k] == items@[k]@,
            out@.len() == i,
            forall|k: int| 0 <= k < i ==> #[trigger] out@[k]@ == completion_of(iv[k]),
        decreases items@.len() - i,
    {
        let item = &items[i];
        let c = LspCompletionItem {
            label: text_or_empty(str_of(item.get("label"))),
            detail: owned_str(str_of(item.get("detail"))),
            insert_text: owned_str(str_of(item.get("insertText"))),
            kind: u32_or(u64_of(item.get("kind")), 0),
        };
        proof {
            assert(c.label@ == completion_of(iv[i as int]).label);
            assert(c.detail is Some <==> completion_of(iv[i as int]).detail is Some);
            assert(opt_str_view(c.detail) == completion_of(iv[i as int]).detail);
            assert(opt_str_view(c.insert_text) == completion_of(iv[i as int]).insert_text);
            assert(c@ == completion_of(iv[i as int]));
        }
        out.push(c);
        i += 1;
    }
    proof {
        assert(completion_views(out@) =~= Seq::new(iv.len(), |k: int| completion_of(iv[k])));
    }
    out
}

/// A reference location read from its JSON form: it needs a string `uri` and
/// a `range`; missing numbers in the range become 0.
pub open spec fn reference_of(item: JsonView) -> Option<LocationView> {
    match (json_as_str(json_get(item, "uri"@)), json_get(item, "range"@)) {
        (Some(uri), Some(_)) => Some(
            LocationView {
                uri,
                start_line: u64_or(range_field(item, "start"@, "line"@), 0) as u32,
                start_col: u64_or(range_field(item, "start"@, "character"@), 0) as u32,
                end_line: u64_or(range_field(item, "end"@, "line"@), 0) as u32,
                end_col: u64_or(range_field(item, "end"@, "character"@), 0) as u32,
            },
        ),
        _ => None,
    }
}

pub open spec fn reference_fn() -> spec_fn(JsonView) -> Option<LocationView> {
    |i: JsonView| reference_of(i)
}

/// The locations of a references response (an array; anything else has none).
pub open spec fn spec_parse_references(result: JsonView) -> Seq<LocationView> {
    match json_as_array(Some(result)) {
        Some(a) => filter_some(a, reference_fn()),
        None => Seq::empty(),
    }
}

/// Parse a references response into locations.
pub fn parse_references(result: &JsonValue) -> (r: Vec<LspLocation>)
    ensures
        location_views(r@) == spec_parse_references(result@),
{
    let mut out: Vec<LspLocation> = Vec::new();
    if let Some(arr) = result.as_array() {
        let ghost av = elems_view(arr@, arr@.len());
        proof {
            lemma_elems_view(arr@, arr@.len());
        }
        let mut i = 0usize;
        while i < arr.len()
            invariant
                i <= arr@.len(),
                av == elems_view(arr@, arr@.len()),
                av.len() == arr@.len(),
                forall|k: int| 0 <= k < arr@.len() ==> #[trigger] av[k] == arr@[k]@,
                location_views(out@) == filter_some(av.take(i as int), reference_fn()),
            decreases arr@.len() - i,
        {
            let item = &arr[i];
            proof {
                lemma_filter_some_step(av, reference_fn(), i as int);
            }
            if let (Some(uri), Some(range)) = (str_of(item.get("uri")), item.get("range")) {
                let start = range.get("start");
                let end = range.get("end");
                let loc = LspLocation {
                    uri: String::from_str(uri),
                    start_line: u32_or(u64_of(get_opt(start, "line")), 0),
                    start_col: u32_or(u64_of(get_opt(start, "character")), 0),
                    end_line: u32_or(u64_of(get_opt(end, "line")), 0),
                    end_col: u32_or(u64_of(get_opt(end, "character")), 0),
                };
                let ghost lv = loc@;
                let ghost before = out@;
                proof {
                    assert(lv == reference_of(av[i as int]).unwrap());
                }
                out.push(loc);
                proof {
                    assert(location_views(out@) =~= location_views(before).push(lv));
                }
            } else {
                proof {
                    assert(reference_of(av[i as int]) is None);
                    assert(filter_some(av.take(i + 1), reference_fn()) =~= filter_some(
                        av.take(i as int),
                        reference_fn(),
                    ));
                }
            }
            i += 1;
        }
        proof {
            assert(av.take(arr@.len() as int) =~= av);
        }
    }
    out
}


// ── Text edits ─────────────────────────────────────────────────────

/// The four numbers of a range, when all of them are non-negative integers.
pub open spec fn range_numbers(range: Option<JsonView>) -> Option<(u64, u64, u64, u64)> {
    let start = json_get_opt(range, "start"@);
    let end = json_get_opt(range, "end"@);
    match (
        json_as_u64(json_get_opt(start, "line"@)),
        json_as_u64(json_get_opt(start, "character"@)),
        json_as_u64(json_get_opt(end, "line"@)),
        json_as_u64(json_get_opt(end, "character"@)),
    ) {
        (Some(a), Some(b), Some(c), Some(d)) => Some((a, b, c, d)),
        _ => None,
    }
}

/// A text edit read from its JSON form: it needs a `range` with all four
/// numbers and a string `newText`.
pub open spec fn text_edit_of(edit: JsonView) -> Option<TextEditView> {
    let range = json_get(edit, "range"@);
    match (range, json_as_str(json_get(edit, "newText"@)), range_numbers(range)) {
        (Some(_), Some(t), Some((a, b, c, d))) => Some(
            TextEditView {
                start_line: a as u32,
                start_col: b as u32,
                end_line: c as u32,
                end_col: d as u32,
                new_text: t,
            },
        ),
        _ => None,
    }
}

/// The four numbers of `range`, each required.
fn read_range(range: Option<&JsonValue>) -> (r: Option<(u64, u64, u64, u64)>)
    ensures
        r == range_numbers(opt_ref_view(range)),
{
    let start = get_opt(range, "start");
    let end = get_opt(range, "end");
    let a = u64_of(get_opt(start, "line"))?;
    let b = u64_of(get_opt(start, "character"))?;
    let c = u64_of(get_opt(end, "line"))?;
    let d = u64_of(get_opt(end, "character"))?;
    Some((a, b, c, d))
}

pub fn parse_text_edit(edit: &JsonValue) -> (r: Option<LspTextEdit>)
    ensures
        match r {
            Some(te) => text_edit_of(edit@) == Some(te@),
            None => text_edit_of(edit@) is None,
        },
{
    let range = edit.get("range")?;
    let new_text = str_of(edit.get("newText"))?;
    let (a, b, c, d) = read_range(Some(range))?;
    Some(
        LspTextEdit {
            start_line: a as u32,
            start_col: b as u32,
            end_line: c as u32,
            end_col: d as u32,
            new_text: String::from_str(new_text),
        },
    )
}

// ── Goto definition ────────────────────────────────────────────────

/// A location from a `uri` value and a `range` value: the uri must be a
/// string and the range must hold all four numbers.
pub open spec fn location_from(uri: Option<JsonView>, range: Option<JsonView>) -> Option<LocationView> {
    match (json_as_str(uri), range, range_numbers(range)) {
        (Some(u), Some(_), Some((a, b, c, d))) => Some(
            LocationView {
                uri: u,
                start_line: a as u32,
                start_col: b as u32,
                end_line: c as u32,
                end_col: d as u32,
            },
        ),
        _ => None,
    }
}

/// A `Location` (its `range`, or else its `targetRange`).
pub open spec fn location_of(v: JsonView) -> Option<LocationView> {
    let range = match json_get(v, "range"@) {
        Some(r) => Some(r),
        None => json_get(v, "targetRange"@),
    };
    location_from(json_get(v, "uri"@), range)
}

/// An element of a definition array: a `Location` when it has a `uri`, else
/// a `LocationLink` read through its `targetUri` and `targetRange`.
pub open spec fn definition_item_of(item: JsonView) -> Option<LocationView> {
    if json_get(item, "uri"@) is Some {
        location_of(item)
    } else if json_get(item, "targetUri"@) is Some {
        location_from(json_get(item, "targetUri"@), json_get(item, "targetRange"@))
    } else {
        None
    }
}

pub open spec fn definition_item_fn() -> spec_fn(JsonView) -> Option<LocationView> {
    |i: JsonView| definition_item_of(i)
}

/// The locations of a definition response: `Location`, `Location[]`,
/// `LocationLink[]` or `null`.
pub open spec fn spec_parse_goto_definition(result: JsonView) -> Seq<LocationView> {
    match result {
        JsonView::Array(a) => filter_some(a, definition_item_fn()),
        JsonView::Object(_) => match location_of(result) {
            Some(l) => seq![l],
            None => Seq::empty(),
        },
        _ => Seq::empty(),
    }
}

fn location_from_values(uri: Option<&JsonValue>, range: Option<&JsonValue>) -> (r: Option<LspLocation>)
    ensures
        match r {
            Some(l) => location_from(opt_ref_view(uri), opt_ref_view(range)) == Some(l@),
            None => location_from(opt_ref_view(uri), opt_ref_view(range)) is None,
        },
{
    let u = str_of(uri)?;
    if range.is_none() {
        return None;
    }
    let (a, b, c, d) = read_range(range)?;
    Some(
        LspLocation {
            uri: String::from_str(u),
            start_line: a as u32,
            start_col: b as u32,
            end_line: c as u32,
            end_col: d as u32,
        },
    )
}

fn parse_location(v: &JsonValue) -> (r: Option<LspLocation>)
    ensures
        match r {
            Some(l) => location_of(v@) == Some(l@),
            None => location_of(v@) is None,
        },
{
    let range = match v.get("range") {
        Some(r) => Some(r),
        None => v.get("targetRange"),
    };
    location_from_values(v.get("uri"), range)
}

/// Parse a goto definition response into locations.
pub fn parse_goto_definition(result: &JsonValue) -> (r: Vec<LspLocation>)
    ensures
        location_views(r@) == spec_parse_goto_definition(result@),
{
    let mut out: Vec<LspLocation> = Vec::new();
    if let Some(arr) = result.as_array() {
        let ghost av = elems_view(arr@, arr@.len());
        proof {
            lemma_elems_view(arr@, arr@.len());
        }
        let mut i = 0usize;
        while i < arr.len()
            invariant
                i <= arr@.len(),
                av == elems_view(arr@, arr@.len()),
                av.len() == arr@.len(),
                forall|k: int| 0 <= k < arr@.len() ==> #[trigger] av[k] == arr@[k]@,
                location_views(out@) == filter_some(av.take(i as int), definition_item_fn()),
            decreases arr@.len() - i,
        {
            let item = &arr[i];
            proof {
                lemma_filter_some_step(av, definition_item_fn(), i as int);
            }
            let found = if item.get("uri").is_some() {
                parse_location(item)
            } else if let Some(target_uri) = item.get("targetUri") {
                location_from_values(Some(target_uri), item.get("targetRange"))
            } else {
                None
            };
            proof {
                assert(opt_loc_view(found) == definition_item_of(av[i as int]));
            }
            if let Some(l) = found {
                let ghost before = out@;
                out.push(l);
                proof {
                    assert(location_views(out@) =~= location_views(before).push(l@));
                }
            }
            i += 1;
        }
        proof {
            assert(av.take(arr@.len() as int) =~= av);
        }
    } else if result.is_object() {
        if let Some(l) = parse_location(result) {
            out.push(l);
            proof {
                assert(location_views(out@) =~= seq![l@]);
            }
        }
    }
    out
}

pub open spec fn opt_loc_view(l: Option<LspLocation>) -> Option<LocationView> {
    match l {
        Some(x) => Some(x@),
        None => None,
    }
}


// ── Hover ──────────────────────────────────────────────────────────

/// The text of one element of a hover array: a string, or the string
/// `value` of an object.
pub open spec fn hover_part_of(item: JsonView) -> Option<Seq<char>> {
    match item {
        JsonView::Str(s) => Some(s),
        _ => json_as_str(json_get(item, "value"@)),
    }
}

pub open spec fn hover_part_fn() -> spec_fn(JsonView) -> Option<Seq<char>> {
    |i: JsonView| hover_part_of(i)
}

/// The blank line that separates the parts of a hover text.
pub open spec fn hover_separator() -> Seq<char> {
    seq!['\n', '\n']
}

/// `parts` joined by `sep`.
pub open spec fn join(parts: Seq<Seq<char>>, sep: Seq<char>) -> Seq<char>
    decreases parts.len(),
{
    if parts.len() == 0 {
        Seq::empty()
    } else if parts.len() == 1 {
        parts[0]
    } else {
        join(parts.drop_last(), sep) + sep + parts.last()
    }
}

/// The text of a hover response: string contents, the `value` of a
/// `MarkedString` or `MarkupContent`, or the non-empty join of an array of
/// them; nothing otherwise.
pub open spec fn spec_parse_hover(result: JsonView) -> Option<Seq<char>> {
    match json_get(result, "contents"@) {
        None => None,
        Some(c) => match c {
            JsonView::Str(s) => Some(s),
            _ => match json_as_str(json_get(c, "value"@)) {
                Some(v) => Some(v),
                None => match c {
                    JsonView::Array(a) => {
                        let parts = filter_some(a, hover_part_fn());
                        if parts.len() > 0 {
                            Some(join(parts, hover_separator()))
                        } else {
                            None
                        }
                    },
                    _ => None,
                },
            },
        },
    }
}

fn hover_part(item: &JsonValue) -> (r: Option<&str>)
    ensures
        match r {
            Some(s) => hover_part_of(item@) == Some(s@),
            None => hover_part_of(item@) is None,
        },
{
    match item.as_str() {
        Some(s) => Some(s),
        None => str_of(item.get("value")),
    }
}

/// Parse a hover response into displayable text.
pub fn parse_hover(result: &JsonValue) -> (r: Option<String>)
    ensures
        opt_str_view(r) == spec_parse_hover(result@),
{
    let contents = result.get("contents")?;
    if let Some(s) = contents.as_str() {
        return Some(String::from_str(s));
    }
    if let Some(value) = str_of(contents.get("value")) {
        return Some(String::from_str(value));
    }
    let arr = match contents.as_array() {
        Some(a) => a,
        None => return None,
    };
    let ghost av = elems_view(arr@, arr@.len());
    proof {
        lemma_elems_view(arr@, arr@.len());
    }
    let sep = "\n\n";
    proof {
        reveal_strlit("\n\n");
        assert(sep@ =~= hover_separator());
    }
    let mut text = String::new();
    let mut count = 0usize;
    let mut i = 0usize;
    while i < arr.len()
        invariant
            i <= arr@.len(),
            av == elems_view(arr@, arr@.len()),
            av.len() == arr@.len(),
            forall|k: int| 0 <= k < arr@.len() ==> #[trigger] av[k] == arr@[k]@,
            sep@ == hover_separator(),
            count == filter_some(av.take(i as int), hover_part_fn()).len(),
            count <= i,
            text@ == join(filter_some(av.take(i as int), hover_part_fn()), hover_separator()),
        decreases arr@.len() - i,
    {
        proof {
            lemma_filter_some_step(av, hover_part_fn(), i as int);
        }
        if let Some(p) = hover_part(&arr[i]) {
            let ghost parts = filter_some(av.take(i as int), hover_part_fn());
            if count > 0 {
                text.append(sep);
            }
            text.append(p);
            count += 1;
            proof {
                let np = parts.push(p@);
                assert(np.drop_last() =~= parts);
                assert(filter_some(av.take(i + 1), hover_part_fn()) =~= np);
                if parts.len() == 0 {
                    assert(text@ =~= p@);
                }
            }
        }
        i += 1;
    }
    proof {
        assert(av.take(arr@.len() as int) =~= av);
    }
    if count > 0 {
        Some(text)
    } else {
        None
    }
}

// ── Code actions ───────────────────────────────────────────────────

/// A code action (or command) read from its JSON form: it needs a string
/// `title`.
pub open spec fn code_action_of(item: JsonView) -> Option<CodeActionView> {
    match json_as_str(json_get(item, "title"@)) {
        Some(t) => Some(
            CodeActionView {
                title: t,
                kind: json_as_str(json_get(item, "kind"@)),
                edit: json_get(item, "edit"@),
                command: json_get(item, "command"@),
            },
        ),
        None => None,
    }
}

pub open spec fn code_action_fn() -> spec_fn(JsonView) -> Option<CodeActionView> {
    |i: JsonView| code_action_of(i)
}

/// The actions of a code-action response (an array; anything else has none).
pub open spec fn spec_parse_code_actions(result: JsonView) -> Seq<CodeActionView> {
    match result {
        JsonView::Array(a) => filter_some(a, code_action_fn()),
        _ => Seq::empty(),
    }
}

pub open spec fn code_action_views(s: Seq<LspCodeAction>) -> Seq<CodeActionView> {
    Seq::new(s.len(), |i: int| s[i]@)
}

/// Parse a code action response into our code action type.
pub fn parse_code_actions(result: &JsonValue) -> (r: Vec<LspCodeAction>)
    ensures
        code_action_views(r@) == spec_parse_code_actions(result@),
{
    let items = match result.as_array() {
        Some(arr) => arr,
        None => return Vec::new(),
    };
    let ghost av = elems_view(items@, items@.len());
    proof {
        lemma_elems_view(items@, items@.len());
    }
    let mut out: Vec<LspCodeAction> = Vec::new();
    let mut i = 0usize;
    while i < items.len()
        invariant
            i <= items@.len(),
            av == elems_view(items@, items@.len()),
            av.len() == items@.len(),
            forall|k: int| 0 <= k < items@.len() ==> #[trigger] av[k] == items@[k]@,
            code_action_views(out@) == filter_some(av.take(i as int), code_action_fn()),
        decreases items@.len() - i,
    {
        let item = &items[i];
        proof {
            lemma_filter_some_step(av, code_action_fn(), i as int);
        }
        if let Some(title) = str_of(item.get("title")) {
            let action = LspCodeAction {
                title: String::from_str(title),
                kind: owned_str(str_of(item.get("kind"))),
                edit: cloned(item.get("edit")),
                command: cloned(item.get("command")),
            };
            let ghost before = out@;
            proof {
                assert(action@ == code_action_of(av[i as int]).unwrap());
            }
            out.push(action);
            proof {
                assert(code_action_views(out@) =~= code_action_views(before).push(action@));
            }
        }
        i += 1;
    }
    proof {
        assert(av.take(items@.len() as int) =~= av);
    }
    out
}


// ── Rename edits ───────────────────────────────────────────────────

pub open spec fn text_edit_fn() -> spec_fn(JsonView) -> Option<TextEditView> {
    |e: JsonView| text_edit_of(e)
}

pub open spec fn text_edit_views(s: Seq<LspTextEdit>) -> Seq<TextEditView> {
    Seq::new(s.len(), |i: int| s[i]@)
}

/// The text edits of an optional array of edits.
pub open spec fn edits_in(arr: Option<Seq<JsonView>>) -> Seq<TextEditView> {
    match arr {
        Some(a) => filter_some(a, text_edit_fn()),
        None => Seq::empty(),
    }
}

/// The edits listed for `uri` under a workspace edit's `changes`.
pub open spec fn changes_edits(result: JsonView, uri: Seq<char>) -> Seq<TextEditView> {
    edits_in(json_as_array(json_get_opt(json_get(result, "changes"@), uri)))
}

/// The edits of one `documentChanges` entry, when it is for `uri`.
pub open spec fn doc_change_edits(dc: JsonView, uri: Seq<char>) -> Seq<TextEditView> {
    if json_as_str(json_get_opt(json_get(dc, "textDocument"@), "uri"@)) == Some(uri) {
        edits_in(json_as_array(json_get(dc, "edits"@)))
    } else {
        Seq::empty()
    }
}

pub open spec fn doc_change_fn(uri: Seq<char>) -> spec_fn(JsonView) -> Seq<TextEditView> {
    |dc: JsonView| doc_change_edits(dc, uri)
}

/// The edits of a workspace edit for `uri`, in the order the server listed
/// them: those under `changes`, or when there are none, those under
/// `documentChanges`.
pub open spec fn collected_edits(result: JsonView, uri: Seq<char>) -> Seq<TextEditView> {
    let first = changes_edits(result, uri);
    if first.len() > 0 {
        first
    } else {
        match json_as_array(json_get(result, "documentChanges"@)) {
            Some(dcs) => concat_map(dcs, doc_change_fn(uri)),
            None => Seq::empty(),
        }
    }
}

/// Whether `a` starts (or with `by_end`, ends) at or after where `b` does,
/// by line, then by column.
pub open spec fn at_or_after(a: TextEditView, b: TextEditView, by_end: bool) -> bool {
    if by_end {
        a.end_line > b.end_line || (a.end_line == b.end_line && a.end_col >= b.end_col)
    } else {
        a.start_line > b.start_line || (a.start_line == b.start_line && a.start_col >= b.start_col)
    }
}

/// Where `x` goes in a list sorted from the last start to the first: after
/// every edit that starts at or after it.
pub open spec fn insert_pos(s: Seq<TextEditView>, x: TextEditView, by_end: bool) -> int
    decreases s.len(),
{
    if s.len() == 0 {
        0
    } else if at_or_after(s.last(), x, by_end) {
        s.len() as int
    } else {
        insert_pos(s.drop_last(), x, by_end)
    }
}

/// `s` sorted from the last start to the first; edits with the same start
/// keep their order.
pub open spec fn sort_desc(s: Seq<TextEditView>, by_end: bool) -> Seq<TextEditView>
    decreases s.len(),
{
    if s.len() == 0 {
        Seq::empty()
    } else {
        let rest = sort_desc(s.drop_last(), by_end);
        rest.insert(insert_pos(rest, s.last(), by_end), s.last())
    }
}

pub open spec fn spec_parse_rename_edits(result: JsonView, uri: Seq<char>) -> Seq<TextEditView> {
    sort_desc(collected_edits(result, uri), false)
}

/// Whether every edit starts at or after every edit that follows it.
pub open spec fn sorted_desc(s: Seq<TextEditView>, by_end: bool) -> bool {
    forall|i: int, j: int| 0 <= i < j < s.len() ==> #[trigger] at_or_after(s[i], s[j], by_end)
}

/// Appends the text edits read from `arr`.
fn push_text_edits(arr: &Vec<JsonValue>, out: &mut Vec<LspTextEdit>)
    ensures
        text_edit_views(final(out)@) == text_edit_views(old(out)@) + filter_some(
            elems_view(arr@, arr@.len()),
            text_edit_fn(),
        ),
{
    let ghost av = elems_view(arr@, arr@.len());
    let ghost start = text_edit_views(out@);
    proof {
        lemma_elems_view(arr@, arr@.len());
    }
    let mut i = 0usize;
    while i < arr.len()
        invariant
            i <= arr@.len(),
            av == elems_view(arr@, arr@.len()),
            av.len() == arr@.len(),
            forall|k: int| 0 <= k < arr@.len() ==> #[trigger] av[k] == arr@[k]@,
            text_edit_views(out@) == start + filter_some(av.take(i as int), text_edit_fn()),
        decreases arr@.len() - i,
    {
        proof {
            lemma_filter_some_step(av, text_edit_fn(), i as int);
        }
        if let Some(te) = parse_text_edit(&arr[i]) {
            let ghost before = out@;
            out.push(te);
            proof {
                assert(text_edit_views(out@) =~= text_edit_views(before).push(te@));
            }
        } else {
            proof {
                assert(filter_some(av.take(i + 1), text_edit_fn()) =~= filter_some(
                    av.take(i as int),
                    text_edit_fn(),
                ));
            }
        }
        i += 1;
    }
    proof {
        assert(av.take(arr@.len() as int) =~= av);
    }
}

fn at_or_after_exec(a: &LspTextEdit, b: &LspTextEdit, by_end: bool) -> (r: bool)
    ensures
        r == at_or_after(a@, b@, by_end),
{
    if by_end {
        a.end_line > b.end_line || (a.end_line == b.end_line && a.end_col >= b.end_col)
    } else {
        a.start_line > b.start_line || (a.start_line == b.start_line && a.start_col >= b.start_col)
    }
}

/// Sorts edits from the last start to the first, keeping the order of
/// edits that start at the same place.
fn sort_edits_desc(edits: Vec<LspTextEdit>, by_end: bool) -> (r: Vec<LspTextEdit>)
    ensures
        text_edit_views(r@) == sort_desc(text_edit_views(edits@), by_end),
{
    let ghost ev = text_edit_views(edits@);
    let mut rest = edits;
    let mut out: Vec<LspTextEdit> = Vec::new();
    let ghost mut i: int = 0;
    while rest.len() > 0
        invariant
            0 <= i <= ev.len(),
            rest@.len() + i == ev.len(),
            forall|k: int| 0 <= k < rest@.len() ==> #[trigger] rest@[k]@ == ev[i + k],
            text_edit_views(out@) == sort_desc(ev.take(i), by_end),
        decreases rest@.len(),
    {
        let ghost before_rest = rest@;
        let x = rest.remove(0);
        let ghost ov = text_edit_views(out@);
        proof {
            assert(x@ == ev[i]);
            assert forall|k: int| 0 <= k < rest@.len() implies #[trigger] rest@[k]@ == ev[(i + 1)
                + k] by {
                assert(before_rest[k + 1]@ == ev[i + (k + 1)]);
            }
        }
        let mut j = out.len();
        proof {
            assert(ov.take(j as int) =~= ov);
        }
        while j > 0 && !at_or_after_exec(&out[j - 1], &x, by_end)
            invariant
                j <= out@.len(),
                ov == text_edit_views(out@),
                insert_pos(ov, x@, by_end) == insert_pos(ov.take(j as int), x@, by_end),
            decreases j,
        {
            proof {
                assert(ov.take(j as int).drop_last() =~= ov.take(j - 1));
            }
            j -= 1;
        }
        proof {
            if j > 0 {
                assert(ov.take(j as int).last() == ov[j - 1]);
            }
            assert(insert_pos(ov, x@, by_end) == j);
            assert(ev.take(i + 1).drop_last() =~= ev.take(i));
            assert(ev.take(i + 1).last() == x@);
        }
        out.insert(j, x);
        proof {
            assert(text_edit_views(out@) =~= ov.insert(j as int, x@));
            i = i + 1;
        }
    }
    proof {
        assert(ev.take(i) =~= ev);
    }
    out
}


/// Parse a rename response (a workspace edit) into the edits for
/// `file_uri`, from the last start to the first, so that applying them in
/// order leaves the positions of the rest valid.
pub fn parse_rename_edits(result: &JsonValue, file_uri: &str) -> (r: Vec<LspTextEdit>)
    ensures
        text_edit_views(r@) == spec_parse_rename_edits(result@, file_uri@),
{
    let mut edits: Vec<LspTextEdit> = Vec::new();
    if let Some(file_edits) = array_of(get_opt(result.get("changes"), file_uri)) {
        push_text_edits(file_edits, &mut edits);
    }
    proof {
        assert(text_edit_views(edits@) =~= changes_edits(result@, file_uri@));
    }
    if edits.len() == 0 {
        if let Some(dcs) = array_of(result.get("documentChanges")) {
            let ghost dv = elems_view(dcs@, dcs@.len());
            proof {
                lemma_elems_view(dcs@, dcs@.len());
                assert(text_edit_views(edits@) =~= concat_map(dv.take(0), doc_change_fn(file_uri@)));
            }
            let mut i = 0usize;
            while i < dcs.len()
                invariant
                    i <= dcs@.len(),
                    dv == elems_view(dcs@, dcs@.len()),
                    dv.len() == dcs@.len(),
                    forall|k: int| 0 <= k < dcs@.len() ==> #[trigger] dv[k] == dcs@[k]@,
                    text_edit_views(edits@) == concat_map(dv.take(i as int), doc_change_fn(file_uri@)),
                decreases dcs@.len() - i,
            {
                let dc = &dcs[i];
                proof {
                    lemma_concat_map_step(dv, doc_change_fn(file_uri@), i as int);
                }
                let ghost before = text_edit_views(edits@);
                let same = match str_of(get_opt(dc.get("textDocument"), "uri")) {
                    Some(u) => text_eq(u, file_uri),
                    None => false,
                };
                if same {
                    if let Some(arr) = array_of(dc.get("edits")) {
                        push_text_edits(arr, &mut edits);
                    }
                }
                proof {
                    assert(text_edit_views(edits@) =~= before + doc_change_edits(dv[i as int], file_uri@));
                }
                i += 1;
            }
            proof {
                assert(dv.take(dcs@.len() as int) =~= dv);
            }
        }
    }
    sort_edits_desc(edits, false)
}

proof fn lemma_insert_pos(s: Seq<TextEditView>, x: TextEditView, by_end: bool)
    ensures
        0 <= insert_pos(s, x, by_end) <= s.len(),
        insert_pos(s, x, by_end) > 0 ==> at_or_after(s[insert_pos(s, x, by_end) - 1], x, by_end),
        forall|k: int| insert_pos(s, x, by_end) <= k < s.len() ==> !at_or_after(#[trigger] s[k], x, by_end),
    decreases s.len(),
{
    if s.len() > 0 && !at_or_after(s.last(), x, by_end) {
        let d = s.drop_last();
        lemma_insert_pos(d, x, by_end);
        assert forall|k: int| insert_pos(s, x, by_end) <= k < s.len() implies !at_or_after(
            #[trigger] s[k],
            x,
            by_end,
        ) by {
            if k < d.len() {
                assert(s[k] == d[k]);
            }
        }
    }
}

proof fn lemma_sort_desc(s: Seq<TextEditView>, by_end: bool)
    ensures
        sorted_desc(sort_desc(s, by_end), by_end),
        sort_desc(s, by_end).to_multiset() =~= s.to_multiset(),
    decreases s.len(),
{
    broadcast use vstd::seq_lib::group_to_multiset_ensures, vstd::multiset::group_multiset_axioms;

    if s.len() > 0 {
        let rest = sort_desc(s.drop_last(), by_end);
        let x = s.last();
        lemma_sort_desc(s.drop_last(), by_end);
        lemma_insert_pos(rest, x, by_end);
        let p = insert_pos(rest, x, by_end);
        let t = rest.insert(p, x);
        rest.insert_ensures(p, x);
        assert(t == sort_desc(s, by_end));
        assert forall|i: int, j: int| 0 <= i < j < t.len() implies #[trigger] at_or_after(
            t[i],
            t[j],
            by_end,
        ) by {
            if j < p {
                assert(at_or_after(rest[i], rest[j], by_end));
            } else if j == p {
                if i < p - 1 {
                    assert(at_or_after(rest[i], rest[p - 1], by_end));
                }
            } else if i < p {
                assert(t[j] == rest[j - 1]);
                assert(at_or_after(rest[i], rest[j - 1], by_end));
            } else if i == p {
                assert(t[j] == rest[j - 1]);
                assert(!at_or_after(rest[j - 1], x, by_end));
            } else {
                assert(t[i] == rest[i - 1]);
                assert(t[j] == rest[j - 1]);
                assert(at_or_after(rest[i - 1], rest[j - 1], by_end));
            }
        }
        assert(t.remove(p) =~= rest);
        assert(t[p] == x);
        assert(t.to_multiset().count(x) > 0) by {
            assert(t.contains(x));
        }
        assert(t.to_multiset() =~= rest.to_multiset().insert(x));
        assert(s.drop_last().push(x) =~= s);
    }
}

/// Rename edits come out from the last start to the first (bottom to top,
/// right to left), and they are exactly the edits the server listed for the
/// file.
pub proof fn law_rename_edits_bottom_to_top(result: JsonView, uri: Seq<char>)
    ensures
        sorted_desc(spec_parse_rename_edits(result, uri), false),
        spec_parse_rename_edits(result, uri).to_multiset() =~= collected_edits(
            result,
            uri,
        ).to_multiset(),
{
    lemma_sort_desc(collected_edits(result, uri), false);
}


// ── File URIs ──────────────────────────────────────────────────────

/// The scheme of a file URI.
pub open spec fn file_scheme() -> Seq<char> {
    seq!['f', 'i', 'l', 'e', ':', '/', '/']
}

/// Whether `s` begins with `prefix`.
pub open spec fn has_prefix(s: Seq<char>, prefix: Seq<char>) -> bool {
    prefix.len() <= s.len() && s.take(prefix.len() as int) == prefix
}

pub(crate) fn starts_with(s: &str, prefix: &str) -> (r: bool)
    ensures
        r == has_prefix(s@, prefix@),
{
    let n = prefix.unicode_len();
    if n > s.unicode_len() {
        return false;
    }
    let mut i = 0usize;
    while i < n
        invariant
            n == prefix@.len(),
            n <= s@.len(),
            i <= n,
            forall|k: int| 0 <= k < i ==> s@[k] == prefix@[k],
        decreases n - i,
    {
        if s.get_char(i) != prefix.get_char(i) {
            assert(s@.take(n as int)[i as int] != prefix@[i as int]);
            return false;
        }
        i += 1;
    }
    assert(s@.take(n as int) =~= prefix@);
    true
}

/// The `file://` URI of an absolute path (the caller makes the path
/// absolute).
pub fn path_to_uri(abs_path: &str) -> (r: String)
    ensures
        r@ == file_scheme() + abs_path@,
{
    let scheme = "file://";
    proof {
        reveal_strlit("file://");
    }
    let mut uri = String::from_str(scheme);
    uri.append(abs_path);
    uri
}

/// The path of a `file://` URI; `None` for any other text.
pub fn uri_to_path(uri: &str) -> (r: Option<String>)
    ensures
        match r {
            Some(p) => has_prefix(uri@, file_scheme()) && p@ == uri@.skip(7),
            None => !has_prefix(uri@, file_scheme()),
        },
{
    let scheme = "file://";
    proof {
        reveal_strlit("file://");
        assert(scheme@ =~= file_scheme());
    }
    if starts_with(uri, scheme) {
        let rest = uri.substring_char(7, uri.unicode_len());
        Some(String::from_str(rest))
    } else {
        None
    }
}


// ── Formatting edits ───────────────────────────────────────────────

/// The edits of a formatting response (an array of text edits; anything
/// else gives nothing), from the last end to the first, keeping the order of
/// edits that end at the same place.
pub open spec fn spec_parse_format_edits(result: JsonView) -> Option<Seq<TextEditView>> {
    match result {
        JsonView::Array(a) => Some(sort_desc(filter_some(a, text_edit_fn()), true)),
        _ => None,
    }
}

/// Parse a formatting response into text edits to apply from bottom to top.
pub fn parse_format_edits(result: &JsonValue) -> (r: Option<Vec<LspTextEdit>>)
    ensures
        match r {
            Some(v) => spec_parse_format_edits(result@) == Some(text_edit_views(v@)),
            None => spec_parse_format_edits(result@) is None,
        },
{
    let arr = match result.as_array() {
        Some(a) => a,
        None => return None,
    };
    let mut edits: Vec<LspTextEdit> = Vec::new();
    push_text_edits(arr, &mut edits);
    proof {
        assert(text_edit_views(Seq::<LspTextEdit>::empty()) =~= Seq::<TextEditView>::empty());
        assert(text_edit_views(edits@) =~= filter_some(elems_view(arr@, arr@.len()), text_edit_fn()));
    }
    Some(sort_edits_desc(edits, true))
}

/// Formatting edits come out from the last end to the first, and they are
/// exactly the text edits of the response.
pub proof fn law_format_edits_bottom_to_top(result: JsonView)
    requires
        result is Array,
    ensures
        sorted_desc(spec_parse_format_edits(result).unwrap(), true),
        spec_parse_format_edits(result).unwrap().to_multiset() =~= filter_some(
            result->Array_0,
            text_edit_fn(),
        ).to_multiset(),
{
    lemma_sort_desc(filter_some(result->Array_0, text_edit_fn()), true);
}


// ── Request parameters ─────────────────────────────────────────────

/// A JSON position `{line, character}`.
pub open spec fn position_json(line: u32, character: u32) -> JsonView {
    JsonView::Object(seq![("line"@, JsonView::PosInt(line as u64)), ("character"@, JsonView::PosInt(character as u64))])
}

/// A JSON range `{start, end}`.
pub open spec fn range_json(sl: u32, sc: u32, el: u32, ec: u32) -> JsonView {
    JsonView::Object(seq![("start"@, position_json(sl, sc)), ("end"@, position_json(el, ec))])
}

/// A diagnostic as it is sent back to the server.
pub open spec fn diagnostic_json(d: LspDiagnostic) -> JsonView {
    JsonView::Object(
        seq![
            ("range"@, range_json(d.start_line, d.start_col, d.end_line, d.end_col)),
            ("severity"@, JsonView::PosInt(d.severity as u64)),
            ("message"@, JsonView::Str(d.message@)),
        ],
    )
}

/// The diagnostic in JSON when its lines cover `line`.
pub open spec fn covering_json(line: u32) -> spec_fn(LspDiagnostic) -> Option<JsonView> {
    |d: LspDiagnostic|
        if d.start_line <= line && d.end_line >= line {
            Some(diagnostic_json(d))
        } else {
            None
        }
}

/// The parameters of a code-action request at a position: the document,
/// an empty range at the position, and the diagnostics whose lines cover
/// the position's line.
pub open spec fn spec_code_action_params(uri: Seq<char>, line: u32, character: u32, diags: Seq<LspDiagnostic>) -> JsonView {
    JsonView::Object(
        seq![
            ("textDocument"@, JsonView::Object(seq![("uri"@, JsonView::Str(uri))])),
            ("range"@, range_json(line, character, line, character)),
            (
                "context"@,
                JsonView::Object(seq![("diagnostics"@, JsonView::Array(filter_some(diags, covering_json(line))))]),
            ),
        ],
    )
}

fn key(k: &str) -> (r: String)
    ensures
        r@ == k@,
{
    String::from_str(k)
}

pub(crate) fn object2(k1: &str, v1: JsonValue, k2: &str, v2: JsonValue) -> (r: JsonValue)
    ensures
        r@ == JsonView::Object(seq![(k1@, v1@), (k2@, v2@)]),
{
    let members = vec![(key(k1), v1), (key(k2), v2)];
    proof {
        lemma_members_view(members@, members@.len());
        assert(members_view(members@, members@.len()) =~= seq![(k1@, v1@), (k2@, v2@)]);
    }
    JsonValue::Object(members)
}

pub(crate) fn object1(k1: &str, v1: JsonValue) -> (r: JsonValue)
    ensures
        r@ == JsonView::Object(seq![(k1@, v1@)]),
{
    let members = vec![(key(k1), v1)];
    proof {
        lemma_members_view(members@, members@.len());
        assert(members_view(members@, members@.len()) =~= seq![(k1@, v1@)]);
    }
    JsonValue::Object(members)
}

pub(crate) fn object3(k1: &str, v1: JsonValue, k2: &str, v2: JsonValue, k3: &str, v3: JsonValue) -> (r: JsonValue)
    ensures
        r@ == JsonView::Object(seq![(k1@, v1@), (k2@, v2@), (k3@, v3@)]),
{
    let members = vec![(key(k1), v1), (key(k2), v2), (key(k3), v3)];
    proof {
        lemma_members_view(members@, members@.len());
        assert(members_view(members@, members@.len()) =~= seq![(k1@, v1@), (k2@, v2@), (k3@, v3@)]);
    }
    JsonValue::Object(members)
}

pub(crate) fn position_value(line: u32, character: u32) -> (r: JsonValue)
    ensures
        r@ == position_json(line, character),
{
    proof {
        reveal_strlit("line");
        reveal_strlit("character");
    }
    object2("line", JsonValue::PosInt(line as u64), "character", JsonValue::PosInt(character as u64))
}

fn range_value(sl: u32, sc: u32, el: u32, ec: u32) -> (r: JsonValue)
    ensures
        r@ == range_json(sl, sc, el, ec),
{
    proof {
        reveal_strlit("start");
        reveal_strlit("end");
    }
    object2("start", position_value(sl, sc), "end", position_value(el, ec))
}

fn diagnostic_value(d: &LspDiagnostic) -> (r: JsonValue)
    ensures
        r@ == diagnostic_json(*d),
{
    proof {
        reveal_strlit("range");
        reveal_strlit("severity");
        reveal_strlit("message");
    }
    object3(
        "range",
        range_value(d.start_line, d.start_col, d.end_line, d.end_col),
        "severity",
        JsonValue::PosInt(d.severity as u64),
        "message",
        JsonValue::String(d.message.clone()),
    )
}

/// The parameters of a code-action request at a position, with the
/// diagnostics that cover its line as context.
pub fn code_action_params(uri: &str, line: u32, character: u32, diagnostics: &[LspDiagnostic]) -> (r: JsonValue)
    ensures
        r@ == spec_code_action_params(uri@, line, character, diagnostics@),
{
    let mut diags: Vec<JsonValue> = Vec::new();
    let mut i = 0usize;
    while i < diagnostics.len()
        invariant
            i <= diagnostics@.len(),
            elems_view(diags@, diags@.len()) == filter_some(diagnostics@.take(i as int), covering_json(line)),
        decreases diagnostics@.len() - i,
    {
        let d = &diagnostics[i];
        proof {
            lemma_filter_some_step(diagnostics@, covering_json(line), i as int);
        }
        if d.start_line <= line && d.end_line >= line {
            let v = diagnostic_value(d);
            let ghost before = diags@;
            diags.push(v);
            proof {
                lemma_elems_view(before, before.len());
                lemma_elems_view(diags@, diags@.len());
                assert(elems_view(diags@, diags@.len()) =~= elems_view(before, before.len()).push(v@));
            }
        }
        i += 1;
    }
    proof {
        assert(diagnostics@.take(diagnostics@.len() as int) =~= diagnostics@);
        reveal_strlit("textDocument");
        reveal_strlit("uri");
        reveal_strlit("range");
        reveal_strlit("context");
        reveal_strlit("diagnostics");
    }
    let text_document = object1("uri", JsonValue::String(String::from_str(uri)));
    let context = object1("diagnostics", JsonValue::Array(diags));
    object3(
        "textDocument",
        text_document,
        "range",
        range_value(line, character, line, character),
        "context",
        context,
    )
}

} // verus!

verus! {

/// A diagnostic sent back to the server as context of a code-action
/// request reads back as the same diagnostic.
pub proof fn law_diagnostic_json_reads_back(d: LspDiagnostic)
    ensures
        diagnostic_of(diagnostic_json(d)) == d@,
{
    reveal_strlit("range");
    reveal_strlit("severity");
    reveal_strlit("message");
    reveal_strlit("start");
    reveal_strlit("end");
    reveal_strlit("line");
    reveal_strlit("character");
    reveal_with_fuel(self::json::member_from, 4);
    assert("range"@[0] != "severity"@[0]);
    assert("range"@[0] != "message"@[0]);
    assert("severity"@[0] != "message"@[0]);
    assert("start"@.len() != "end"@.len());
    assert("line"@.len() != "character"@.len());
    assert(diagnostic_of(diagnostic_json(d)).message =~= d.message@);
}


/// A JSON object `{"line": line, "character": character}`.
pub open spec fn json_position(line: u64, character: u64) -> JsonView {
    JsonView::Object(seq![("line"@, JsonView::PosInt(line)), ("character"@, JsonView::PosInt(character))])
}

/// A JSON `Location`: `{"uri": uri, "range": {"start": .., "end": ..}}`.
pub open spec fn json_location(uri: Seq<char>, sl: u64, sc: u64, el: u64, ec: u64) -> JsonView {
    JsonView::Object(
        seq![
            ("uri"@, JsonView::Str(uri)),
            ("range"@, JsonView::Object(seq![("start"@, json_position(sl, sc)), ("end"@, json_position(el, ec))])),
        ],
    )
}

/// Each `Location` of a references answer gives one location with its uri,
/// the line and character of its range's start as its start, and those of
/// its range's end as its end.
pub proof fn law_reference_location_fields(
    uri: Seq<char>,
    sl: u64,
    sc: u64,
    el: u64,
    ec: u64,
    rest: Seq<JsonView>,
)
    requires
        sl <= u32::MAX,
        sc <= u32::MAX,
        el <= u32::MAX,
        ec <= u32::MAX,
    ensures
        spec_parse_references(JsonView::Array(rest.push(json_location(uri, sl, sc, el, ec)))) == spec_parse_references(
            JsonView::Array(rest),
        ).push(
            LocationView {
                uri,
                start_line: sl as u32,
                start_col: sc as u32,
                end_line: el as u32,
                end_col: ec as u32,
            },
        ),
{
    reveal_strlit("uri");
    reveal_strlit("range");
    reveal_strlit("start");
    reveal_strlit("end");
    reveal_strlit("line");
    reveal_strlit("character");
    let item = json_location(uri, sl, sc, el, ec);
    let a = rest.push(item);
    assert(a.drop_last() =~= rest);
    assert("range"@.len() != "uri"@.len());
    assert("range"@ != "uri"@);
    assert("end"@.len() != "start"@.len());
    assert("end"@ != "start"@);
    assert("character"@.len() != "line"@.len());
    assert("character"@ != "line"@);
    let r = JsonView::Object(seq![("start"@, json_position(sl, sc)), ("end"@, json_position(el, ec))]);
    let m = seq![("uri"@, JsonView::Str(uri)), ("range"@, r)];
    assert(item == JsonView::Object(m));
    assert(member_from(m, "uri"@, 0) == Some(JsonView::Str(uri)));
    assert(member_from(m, "range"@, 1) == Some(r));
    assert(member_from(m, "range"@, 0) == Some(r));
    assert(json_get(item, "uri"@) == Some(JsonView::Str(uri)));
    assert(json_get(item, "range"@) == Some(r));
    let rm = seq![("start"@, json_position(sl, sc)), ("end"@, json_position(el, ec))];
    assert(member_from(rm, "start"@, 0) == Some(json_position(sl, sc)));
    assert(member_from(rm, "end"@, 1) == Some(json_position(el, ec)));
    assert(member_from(rm, "end"@, 0) == Some(json_position(el, ec)));
    assert(json_get(r, "start"@) == Some(json_position(sl, sc)));
    assert(json_get(r, "end"@) == Some(json_position(el, ec)));
    let p1 = seq![("line"@, JsonView::PosInt(sl)), ("character"@, JsonView::PosInt(sc))];
    let p2 = seq![("line"@, JsonView::PosInt(el)), ("character"@, JsonView::PosInt(ec))];
    assert(member_from(p1, "character"@, 1) == Some(JsonView::PosInt(sc)));
    assert(member_from(p1, "character"@, 0) == Some(JsonView::PosInt(sc)));
    assert(member_from(p2, "character"@, 1) == Some(JsonView::PosInt(ec)));
    assert(member_from(p2, "character"@, 0) == Some(JsonView::PosInt(ec)));
    assert(json_get(json_position(sl, sc), "line"@) == Some(JsonView::PosInt(sl)));
    assert(json_get(json_position(sl, sc), "character"@) == Some(JsonView::PosInt(sc)));
    assert(json_get(json_position(el, ec), "line"@) == Some(JsonView::PosInt(el)));
    assert(json_get(json_position(el, ec), "character"@) == Some(JsonView::PosInt(ec)));
}


/// A JSON range `{"start": .., "end": ..}`.
pub open spec fn json_range(sl: u64, sc: u64, el: u64, ec: u64) -> JsonView {
    JsonView::Object(seq![("start"@, json_position(sl, sc)), ("end"@, json_position(el, ec))])
}

proof fn lemma_range_numbers(sl: u64, sc: u64, el: u64, ec: u64)
    ensures
        range_numbers(Some(json_range(sl, sc, el, ec))) == Some((sl, sc, el, ec)),
{
    reveal_strlit("start");
    reveal_strlit("end");
    reveal_strlit("line");
    reveal_strlit("character");
    assert("end"@.len() != "start"@.len());
    assert("character"@.len() != "line"@.len());
    let rm = seq![("start"@, json_position(sl, sc)), ("end"@, json_position(el, ec))];
    assert(member_from(rm, "start"@, 0) == Some(json_position(sl, sc)));
    assert(member_from(rm, "end"@, 1) == Some(json_position(el, ec)));
    assert(member_from(rm, "end"@, 0) == Some(json_position(el, ec)));
    let p1 = seq![("line"@, JsonView::PosInt(sl)), ("character"@, JsonView::PosInt(sc))];
    let p2 = seq![("line"@, JsonView::PosInt(el)), ("character"@, JsonView::PosInt(ec))];
    assert(member_from(p1, "line"@, 0) == Some(JsonView::PosInt(sl)));
    assert(member_from(p1, "character"@, 1) == Some(JsonView::PosInt(sc)));
    assert(member_from(p1, "character"@, 0) == Some(JsonView::PosInt(sc)));
    assert(member_from(p2, "line"@, 0) == Some(JsonView::PosInt(el)));
    assert(member_from(p2, "character"@, 1) == Some(JsonView::PosInt(ec)));
    assert(member_from(p2, "character"@, 0) == Some(JsonView::PosInt(ec)));
}

/// A definition answer that is one `Location` gives that location: its uri,
/// its range's start as the start and its range's end as the end.
pub proof fn law_definition_location_fields(uri: Seq<char>, sl: u64, sc: u64, el: u64, ec: u64)
    ensures
        spec_parse_goto_definition(json_location(uri, sl, sc, el, ec)) == seq![
            LocationView {
                uri,
                start_line: sl as u32,
                start_col: sc as u32,
                end_line: el as u32,
                end_col: ec as u32,
            },
        ],
{
    reveal_strlit("uri");
    reveal_strlit("range");
    assert("range"@.len() != "uri"@.len());
    let r = json_range(sl, sc, el, ec);
    let m = seq![("uri"@, JsonView::Str(uri)), ("range"@, r)];
    assert(json_location(uri, sl, sc, el, ec) == JsonView::Object(m));
    assert(member_from(m, "uri"@, 0) == Some(JsonView::Str(uri)));
    assert(member_from(m, "range"@, 1) == Some(r));
    assert(member_from(m, "range"@, 0) == Some(r));
    lemma_range_numbers(sl, sc, el, ec);
}

/// A text edit `{"range": .., "newText": t}` reads back as the edit of that
/// range to `t`.
pub proof fn law_text_edit_fields(sl: u64, sc: u64, el: u64, ec: u64, t: Seq<char>)
    ensures
        text_edit_of(JsonView::Object(seq![("range"@, json_range(sl, sc, el, ec)), ("newText"@, JsonView::Str(t))]))
            == Some(
            TextEditView {
                start_line: sl as u32,
                start_col: sc as u32,
                end_line: el as u32,
                end_col: ec as u32,
                new_text: t,
            },
        ),
{
    reveal_strlit("range");
    reveal_strlit("newText");
    assert("range"@.len() != "newText"@.len());
    let r = json_range(sl, sc, el, ec);
    let m = seq![("range"@, r), ("newText"@, JsonView::Str(t))];
    assert(member_from(m, "range"@, 0) == Some(r));
    assert(member_from(m, "newText"@, 1) == Some(JsonView::Str(t)));
    assert(member_from(m, "newText"@, 0) == Some(JsonView::Str(t)));
    lemma_range_numbers(sl, sc, el, ec);
}


/// A completion item `{"label": l, "detail": d, "insertText": i, "kind": k}`.
pub open spec fn json_completion(l: Seq<char>, d: Seq<char>, i: Seq<char>, k: u64) -> JsonView {
    JsonView::Object(
        seq![
            ("label"@, JsonView::Str(l)),
            ("detail"@, JsonView::Str(d)),
            ("insertText"@, JsonView::Str(i)),
            ("kind"@, JsonView::PosInt(k)),
        ],
    )
}

/// Each item of a completion answer (an array of items) gives, in order,
/// the completion with that item's label, detail, insert text and kind.
pub proof fn law_completion_fields(items: Seq<(Seq<char>, Seq<char>, Seq<char>, u64)>, n: int)
    requires
        0 <= n < items.len(),
        items[n].3 <= u32::MAX,
    ensures
        ({
            let arr = JsonView::Array(
                Seq::new(items.len(), |j: int| json_completion(items[j].0, items[j].1, items[j].2, items[j].3)),
            );
            let r = spec_parse_completions(arr);
            &&& r.len() == items.len()
            &&& r[n] == CompletionView {
                label: items[n].0,
                detail: Some(items[n].1),
                insert_text: Some(items[n].2),
                kind: items[n].3 as u32,
            }
        }),
{
    reveal_strlit("label");
    reveal_strlit("detail");
    reveal_strlit("insertText");
    reveal_strlit("kind");
    assert("label"@.len() != "detail"@.len());
    assert("label"@.len() != "insertText"@.len());
    assert("label"@.len() != "kind"@.len());
    assert("detail"@.len() != "insertText"@.len());
    assert("detail"@.len() != "kind"@.len());
    assert("insertText"@.len() != "kind"@.len());
    let (l, d, i, k) = items[n];
    let m = seq![
        ("label"@, JsonView::Str(l)),
        ("detail"@, JsonView::Str(d)),
        ("insertText"@, JsonView::Str(i)),
        ("kind"@, JsonView::PosInt(k)),
    ];
    assert(member_from(m, "label"@, 0) == Some(JsonView::Str(l)));
    assert(member_from(m, "detail"@, 1) == Some(JsonView::Str(d)));
    assert(member_from(m, "detail"@, 0) == Some(JsonView::Str(d)));
    assert(member_from(m, "insertText"@, 2) == Some(JsonView::Str(i)));
    assert(member_from(m, "insertText"@, 1) == Some(JsonView::Str(i)));
    assert(member_from(m, "insertText"@, 0) == Some(JsonView::Str(i)));
    assert(member_from(m, "kind"@, 3) == Some(JsonView::PosInt(k)));
    assert(member_from(m, "kind"@, 2) == Some(JsonView::PosInt(k)));
    assert(member_from(m, "kind"@, 1) == Some(JsonView::PosInt(k)));
    assert(member_from(m, "kind"@, 0) == Some(JsonView::PosInt(k)));
}

/// A hover answer whose `contents` is plain text gives that text.
pub proof fn law_hover_plain_text(text: Seq<char>)
    ensures
        spec_parse_hover(JsonView::Object(seq![("contents"@, JsonView::Str(text))])) == Some(text),
{
    let m = seq![("contents"@, JsonView::Str(text))];
    assert(member_from(m, "contents"@, 0) == Some(JsonView::Str(text)));
}

} // verus!
