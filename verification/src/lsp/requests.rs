//! The messages the editor sends to the language server: JSON-RPC
//! envelopes and the parameters of each request and notification.
use vstd::prelude::*;
use vstd::string::StringExecFns;

use super::json::{
    elems_view, json_as_str, json_get, lemma_elems_view, lemma_members_view, members_view, JsonValue, JsonView,
};
use super::{object1, object2, object3, position_json, position_value};

verus! {

/// A JSON number for an `i64`.
pub open spec fn int_json(v: i64) -> JsonView {
    if v >= 0 {
        JsonView::PosInt(v as u64)
    } else {
        JsonView::NegInt(v)
    }
}

/// `{"uri": uri}`.
pub open spec fn document_json(uri: Seq<char>) -> JsonView {
    JsonView::Object(seq![("uri"@, JsonView::Str(uri))])
}

/// The parameters naming a document and a position in it.
pub open spec fn spec_position_params(uri: Seq<char>, line: u32, character: u32) -> JsonView {
    JsonView::Object(seq![("textDocument"@, document_json(uri)), ("position"@, position_json(line, character))])
}

/// The parameters of a references request: the position, declarations
/// included.
pub open spec fn spec_references_params(uri: Seq<char>, line: u32, character: u32) -> JsonView {
    JsonView::Object(
        seq![
            ("textDocument"@, document_json(uri)),
            ("position"@, position_json(line, character)),
            ("context"@, JsonView::Object(seq![("includeDeclaration"@, JsonView::Bool(true))])),
        ],
    )
}

/// The parameters of a rename request: the position and the new name.
pub open spec fn spec_rename_params(uri: Seq<char>, line: u32, character: u32, new_name: Seq<char>) -> JsonView {
    JsonView::Object(
        seq![
            ("textDocument"@, document_json(uri)),
            ("position"@, position_json(line, character)),
            ("newName"@, JsonView::Str(new_name)),
        ],
    )
}

/// The parameters announcing an opened Rust document with its text.
pub open spec fn spec_did_open_params(uri: Seq<char>, text: Seq<char>, version: i64) -> JsonView {
    JsonView::Object(
        seq![
            (
                "textDocument"@,
                JsonView::Object(
                    seq![
                        ("uri"@, JsonView::Str(uri)),
                        ("languageId"@, JsonView::Str("rust"@)),
                        ("version"@, int_json(version)),
                        ("text"@, JsonView::Str(text)),
                    ],
                ),
            ),
        ],
    )
}

/// The parameters announcing a document's new text, whole.
pub open spec fn spec_did_change_params(uri: Seq<char>, text: Seq<char>, version: i64) -> JsonView {
    JsonView::Object(
        seq![
            (
                "textDocument"@,
                JsonView::Object(seq![("uri"@, JsonView::Str(uri)), ("version"@, int_json(version))]),
            ),
            ("contentChanges"@, JsonView::Array(seq![JsonView::Object(seq![("text"@, JsonView::Str(text))])])),
        ],
    )
}

/// The parameters announcing that a document was saved.
pub open spec fn spec_did_save_params(uri: Seq<char>) -> JsonView {
    JsonView::Object(seq![("textDocument"@, document_json(uri))])
}

/// A request: its id, method and parameters.
pub open spec fn spec_request_message(id: i64, method: Seq<char>, params: JsonView) -> JsonView {
    JsonView::Object(
        seq![
            ("jsonrpc"@, JsonView::Str("2.0"@)),
            ("id"@, int_json(id)),
            ("method"@, JsonView::Str(method)),
            ("params"@, params),
        ],
    )
}

/// A notification: its method and parameters, no id.
pub open spec fn spec_notification_message(method: Seq<char>, params: JsonView) -> JsonView {
    JsonView::Object(
        seq![("jsonrpc"@, JsonView::Str("2.0"@)), ("method"@, JsonView::Str(method)), ("params"@, params)],
    )
}

/// The answer to a request of the server.
pub open spec fn spec_response_message(id: JsonView, result: JsonView) -> JsonView {
    JsonView::Object(seq![("jsonrpc"@, JsonView::Str("2.0"@)), ("id"@, id), ("result"@, result)])
}

fn object4(
    k1: &str,
    v1: JsonValue,
    k2: &str,
    v2: JsonValue,
    k3: &str,
    v3: JsonValue,
    k4: &str,
    v4: JsonValue,
) -> (r: JsonValue)
    ensures
        r@ == JsonView::Object(seq![(k1@, v1@), (k2@, v2@), (k3@, v3@), (k4@, v4@)]),
{
    let members = vec![
        (String::from_str(k1), v1),
        (String::from_str(k2), v2),
        (String::from_str(k3), v3),
        (String::from_str(k4), v4),
    ];
    proof {
        lemma_members_view(members@, members@.len());
        assert(members_view(members@, members@.len()) =~= seq![(k1@, v1@), (k2@, v2@), (k3@, v3@), (k4@, v4@)]);
    }
    JsonValue::Object(members)
}

fn int_value(v: i64) -> (r: JsonValue)
    ensures
        r@ == int_json(v),
{
    if v >= 0 {
        JsonValue::PosInt(v as u64)
    } else {
        JsonValue::NegInt(v)
    }
}

fn str_value(s: &str) -> (r: JsonValue)
    ensures
        r@ == JsonView::Str(s@),
{
    JsonValue::String(String::from_str(s))
}

fn document_value(uri: &str) -> (r: JsonValue)
    ensures
        r@ == document_json(uri@),
{
    proof {
        reveal_strlit("uri");
    }
    object1("uri", str_value(uri))
}

/// The parameters naming a document and a position in it, as completion,
/// definition and hover requests take them.
pub fn position_params(uri: &str, line: u32, character: u32) -> (r: JsonValue)
    ensures
        r@ == spec_position_params(uri@, line, character),
{
    proof {
        reveal_strlit("textDocument");
        reveal_strlit("position");
    }
    object2("textDocument", document_value(uri), "position", position_value(line, character))
}

pub fn references_params(uri: &str, line: u32, character: u32) -> (r: JsonValue)
    ensures
        r@ == spec_references_params(uri@, line, character),
{
    proof {
        reveal_strlit("textDocument");
        reveal_strlit("position");
        reveal_strlit("context");
        reveal_strlit("includeDeclaration");
    }
    let context = object1("includeDeclaration", JsonValue::Bool(true));
    object3("textDocument", document_value(uri), "position", position_value(line, character), "context", context)
}

pub fn rename_params(uri: &str, line: u32, character: u32, new_name: &str) -> (r: JsonValue)
    ensures
        r@ == spec_rename_params(uri@, line, character, new_name@),
{
    proof {
        reveal_strlit("textDocument");
        reveal_strlit("position");
        reveal_strlit("newName");
    }
    object3(
        "textDocument",
        document_value(uri),
        "position",
        position_value(line, character),
        "newName",
        str_value(new_name),
    )
}

pub fn did_open_params(uri: &str, text: &str, version: i64) -> (r: JsonValue)
    ensures
        r@ == spec_did_open_params(uri@, text@, version),
{
    proof {
        reveal_strlit("textDocument");
        reveal_strlit("uri");
        reveal_strlit("languageId");
        reveal_strlit("rust");
        reveal_strlit("version");
        reveal_strlit("text");
    }
    let doc = object4(
        "uri",
        str_value(uri),
        "languageId",
        str_value("rust"),
        "version",
        int_value(version),
        "text",
        str_value(text),
    );
    object1("textDocument", doc)
}

pub fn did_change_params(uri: &str, text: &str, version: i64) -> (r: JsonValue)
    ensures
        r@ == spec_did_change_params(uri@, text@, version),
{
    proof {
        reveal_strlit("textDocument");
        reveal_strlit("uri");
        reveal_strlit("version");
        reveal_strlit("contentChanges");
        reveal_strlit("text");
    }
    let doc = object2("uri", str_value(uri), "version", int_value(version));
    let change = object1("text", str_value(text));
    let changes = vec![change];
    proof {
        lemma_elems_view(changes@, changes@.len());
        assert(elems_view(changes@, changes@.len()) =~= seq![changes@[0]@]);
    }
    object2("textDocument", doc, "contentChanges", JsonValue::Array(changes))
}

pub fn did_save_params(uri: &str) -> (r: JsonValue)
    ensures
        r@ == spec_did_save_params(uri@),
{
    proof {
        reveal_strlit("textDocument");
    }
    object1("textDocument", document_value(uri))
}

pub fn request_message(id: i64, method: &str, params: JsonValue) -> (r: JsonValue)
    ensures
        r@ == spec_request_message(id, method@, params@),
{
    proof {
        reveal_strlit("jsonrpc");
        reveal_strlit("2.0");
        reveal_strlit("id");
        reveal_strlit("method");
        reveal_strlit("params");
    }
    object4("jsonrpc", str_value("2.0"), "id", int_value(id), "method", str_value(method), "params", params)
}

pub fn notification_message(method: &str, params: JsonValue) -> (r: JsonValue)
    ensures
        r@ == spec_notification_message(method@, params@),
{
    proof {
        reveal_strlit("jsonrpc");
        reveal_strlit("2.0");
        reveal_strlit("method");
        reveal_strlit("params");
    }
    object3("jsonrpc", str_value("2.0"), "method", str_value(method), "params", params)
}

pub fn response_message(id: JsonValue, result: JsonValue) -> (r: JsonValue)
    ensures
        r@ == spec_response_message(id@, result@),
{
    proof {
        reveal_strlit("jsonrpc");
        reveal_strlit("2.0");
        reveal_strlit("id");
        reveal_strlit("result");
    }
    object3("jsonrpc", str_value("2.0"), "id", id, "result", result)
}

} // verus!

verus! {

/// The envelopes the editor writes are read back as what they are: a
/// request with its id, method and parameters, a notification with its
/// method and parameters, and a response with its id and result.
pub proof fn law_envelopes_read_back(id: i64, method: Seq<char>, params: JsonView, result: JsonView)
    ensures
        super::spec_message(spec_request_message(id, method, params)) == Some(
            super::LspMessageView::ServerRequest { id: int_json(id), method, params },
        ),
        super::spec_message(spec_notification_message(method, params)) == Some(
            super::LspMessageView::Notification { method, params },
        ),
        super::spec_message(spec_response_message(int_json(id), result)) == Some(
            super::LspMessageView::Response { id, result: Some(result), error: None },
        ),
{
    reveal_strlit("jsonrpc");
    reveal_strlit("2.0");
    reveal_strlit("id");
    reveal_strlit("method");
    reveal_strlit("params");
    reveal_strlit("result");
    reveal_strlit("error");
    reveal_with_fuel(super::json::member_from, 5);
    assert("jsonrpc"@.len() != "id"@.len());
    assert("jsonrpc"@.len() != "method"@.len());
    assert("jsonrpc"@.len() != "params"@.len());
    assert("jsonrpc"@.len() != "result"@.len());
    assert("jsonrpc"@.len() != "error"@.len());
    assert("id"@.len() != "method"@.len());
    assert("id"@.len() != "params"@.len());
    assert("id"@.len() != "result"@.len());
    assert("id"@.len() != "error"@.len());
    assert("method"@[0] != "params"@[0]);
    assert("method"@[0] != "result"@[0]);
    assert("method"@.len() != "error"@.len());
    assert("params"@[0] != "result"@[0]);
    assert("params"@.len() != "error"@.len());
    assert("result"@.len() != "error"@.len());
}

} // verus!

verus! {

pub open spec fn no_dynamic_registration() -> (Seq<char>, JsonView) {
    ("dynamicRegistration"@, JsonView::Bool(false))
}

/// What the editor tells the server it can do with documents.
pub open spec fn text_document_capabilities() -> JsonView {
    JsonView::Object(
        seq![
            (
                "completion"@,
                JsonView::Object(
                    seq![("completionItem"@, JsonView::Object(seq![("snippetSupport"@, JsonView::Bool(false))]))],
                ),
            ),
            ("publishDiagnostics"@, JsonView::Object(seq![("relatedInformation"@, JsonView::Bool(true))])),
            (
                "synchronization"@,
                JsonView::Object(seq![("didSave"@, JsonView::Bool(true)), no_dynamic_registration()]),
            ),
            ("definition"@, JsonView::Object(seq![no_dynamic_registration()])),
            (
                "hover"@,
                JsonView::Object(
                    seq![
                        no_dynamic_registration(),
                        ("contentFormat"@, JsonView::Array(seq![JsonView::Str("plaintext"@)])),
                    ],
                ),
            ),
            ("references"@, JsonView::Object(seq![no_dynamic_registration()])),
            (
                "rename"@,
                JsonView::Object(seq![no_dynamic_registration(), ("prepareSupport"@, JsonView::Bool(false))]),
            ),
            (
                "codeAction"@,
                JsonView::Object(
                    seq![
                        no_dynamic_registration(),
                        (
                            "codeActionLiteralSupport"@,
                            JsonView::Object(
                                seq![
                                    (
                                        "codeActionKind"@,
                                        JsonView::Object(
                                            seq![
                                                (
                                                    "valueSet"@,
                                                    JsonView::Array(
                                                        seq![
                                                            JsonView::Str("quickfix"@),
                                                            JsonView::Str("refactor"@),
                                                            JsonView::Str("source"@),
                                                        ],
                                                    ),
                                                ),
                                            ],
                                        ),
                                    ),
                                ],
                            ),
                        ),
                    ],
                ),
            ),
        ],
    )
}

/// The parameters of the start request: the editor's process id, the
/// project's root URI and what the editor can do.
pub open spec fn spec_initialize_params(process_id: u32, root_uri: Seq<char>) -> JsonView {
    JsonView::Object(
        seq![
            ("processId"@, JsonView::PosInt(process_id as u64)),
            ("rootUri"@, JsonView::Str(root_uri)),
            ("capabilities"@, JsonView::Object(seq![("textDocument"@, text_document_capabilities())])),
        ],
    )
}

fn object_from(members: Vec<(String, JsonValue)>) -> (r: JsonValue)
    ensures
        r@ == JsonView::Object(Seq::new(members@.len(), |i: int| (members@[i].0@, members@[i].1@))),
{
    proof {
        lemma_members_view(members@, members@.len());
        assert(members_view(members@, members@.len()) =~= Seq::new(
            members@.len(),
            |i: int| (members@[i].0@, members@[i].1@),
        ));
    }
    JsonValue::Object(members)
}

fn array_from(items: Vec<JsonValue>) -> (r: JsonValue)
    ensures
        r@ == JsonView::Array(Seq::new(items@.len(), |i: int| items@[i]@)),
{
    proof {
        lemma_elems_view(items@, items@.len());
        assert(elems_view(items@, items@.len()) =~= Seq::new(items@.len(), |i: int| items@[i]@));
    }
    JsonValue::Array(items)
}

fn member(k: &str, v: JsonValue) -> (r: (String, JsonValue))
    ensures
        r.0@ == k@,
        r.1 == v,
{
    (String::from_str(k), v)
}

pub fn initialize_params(process_id: u32, root_uri: &str) -> (r: JsonValue)
    ensures
        r@ == spec_initialize_params(process_id, root_uri@),
{
    proof {
        reveal_strlit("completion");
        reveal_strlit("completionItem");
        reveal_strlit("snippetSupport");
        reveal_strlit("publishDiagnostics");
        reveal_strlit("relatedInformation");
        reveal_strlit("synchronization");
        reveal_strlit("didSave");
        reveal_strlit("definition");
        reveal_strlit("hover");
        reveal_strlit("contentFormat");
        reveal_strlit("plaintext");
        reveal_strlit("references");
        reveal_strlit("rename");
        reveal_strlit("prepareSupport");
        reveal_strlit("codeAction");
        reveal_strlit("codeActionLiteralSupport");
        reveal_strlit("codeActionKind");
        reveal_strlit("valueSet");
        reveal_strlit("quickfix");
        reveal_strlit("refactor");
        reveal_strlit("source");
        reveal_strlit("processId");
        reveal_strlit("rootUri");
        reveal_strlit("capabilities");
        reveal_strlit("textDocument");
    }
    let completion = object1("completionItem", object1("snippetSupport", JsonValue::Bool(false)));
    let diagnostics = object1("relatedInformation", JsonValue::Bool(true));
    let sync = object2("didSave", JsonValue::Bool(true), "dynamicRegistration", JsonValue::Bool(false));
    let definition = object1("dynamicRegistration", JsonValue::Bool(false));
    let format_list = vec![str_value("plaintext")];
    let ghost format_views = format_list@;
    let formats = array_from(format_list);
    let hover = object2("dynamicRegistration", JsonValue::Bool(false), "contentFormat", formats);
    let references = object1("dynamicRegistration", JsonValue::Bool(false));
    let rename = object2("dynamicRegistration", JsonValue::Bool(false), "prepareSupport", JsonValue::Bool(false));
    let kind_list = vec![str_value("quickfix"), str_value("refactor"), str_value("source")];
    let ghost kind_views = kind_list@;
    let kinds = array_from(kind_list);
    let literal = object1("codeActionKind", object1("valueSet", kinds));
    let code_action = object2("dynamicRegistration", JsonValue::Bool(false), "codeActionLiteralSupport", literal);
    proof {
        assert(Seq::new(format_views.len(), |i: int| format_views[i]@) =~= seq![JsonView::Str("plaintext"@)]);
        assert(Seq::new(kind_views.len(), |i: int| kind_views[i]@) =~= seq![
            JsonView::Str("quickfix"@),
            JsonView::Str("refactor"@),
            JsonView::Str("source"@),
        ]);
    }
    let members = vec![
        member("completion", completion),
        member("publishDiagnostics", diagnostics),
        member("synchronization", sync),
        member("definition", definition),
        member("hover", hover),
        member("references", references),
        member("rename", rename),
        member("codeAction", code_action),
    ];
    let ghost mv = members@;
    let text_document = object_from(members);
    proof {
        assert(Seq::new(mv.len(), |i: int| (mv[i].0@, mv[i].1@)) =~= match text_document_capabilities() {
            JsonView::Object(m) => m,
            _ => Seq::empty(),
        });
    }
    object3(
        "processId",
        JsonValue::PosInt(process_id as u64),
        "rootUri",
        str_value(root_uri),
        "capabilities",
        object1("textDocument", text_document),
    )
}

} // verus!

verus! {

/// The parameters of a formatting request: the document, indented with
/// four spaces.
pub open spec fn spec_formatting_params(uri: Seq<char>) -> JsonView {
    JsonView::Object(
        seq![
            ("textDocument"@, document_json(uri)),
            (
                "options"@,
                JsonView::Object(seq![("tabSize"@, JsonView::PosInt(4)), ("insertSpaces"@, JsonView::Bool(true))]),
            ),
        ],
    )
}

pub fn formatting_params(uri: &str) -> (r: JsonValue)
    ensures
        r@ == spec_formatting_params(uri@),
{
    proof {
        reveal_strlit("textDocument");
        reveal_strlit("options");
        reveal_strlit("tabSize");
        reveal_strlit("insertSpaces");
    }
    let options = object2("tabSize", JsonValue::PosInt(4), "insertSpaces", JsonValue::Bool(true));
    object2("textDocument", document_value(uri), "options", options)
}

} // verus!

verus! {

/// The parameters that run a code action's command: its `command` text (or
/// the empty text) and its `arguments` (or none).
pub open spec fn spec_execute_command_params(command: JsonView) -> JsonView {
    JsonView::Object(
        seq![
            (
                "command"@,
                JsonView::Str(
                    match json_as_str(json_get(command, "command"@)) {
                        Some(c) => c,
                        None => Seq::empty(),
                    },
                ),
            ),
            (
                "arguments"@,
                match json_get(command, "arguments"@) {
                    Some(a) => a,
                    None => JsonView::Array(Seq::empty()),
                },
            ),
        ],
    )
}

pub fn execute_command_params(command: &JsonValue) -> (r: JsonValue)
    ensures
        r@ == spec_execute_command_params(command@),
{
    proof {
        reveal_strlit("command");
        reveal_strlit("arguments");
        reveal_strlit("");
        assert(""@ =~= Seq::<char>::empty());
    }
    let name = match command.get("command") {
        Some(c) => match c.as_str() {
            Some(s) => str_value(s),
            None => str_value(""),
        },
        None => str_value(""),
    };
    let arguments = match command.get("arguments") {
        Some(a) => a.clone(),
        None => {
            let none: Vec<JsonValue> = Vec::new();
            proof {
                lemma_elems_view(none@, 0);
                assert(elems_view(none@, 0) =~= Seq::<JsonView>::empty());
            }
            JsonValue::Array(none)
        },
    };
    proof {
        let want = spec_execute_command_params(command@);
        assert(name@ == JsonView::Str(
            match json_as_str(json_get(command@, "command"@)) {
                Some(c) => c,
                None => Seq::empty(),
            },
        ));
        assert(arguments@ == match json_get(command@, "arguments"@) {
            Some(a) => a,
            None => JsonView::Array(Seq::empty()),
        });
        assert(seq![("command"@, name@), ("arguments"@, arguments@)] =~= match want {
            JsonView::Object(m) => m,
            _ => Seq::empty(),
        });
    }
    object2("command", name, "arguments", arguments)
}

} // verus!
