//! What the editor does with each message from the language server: which
//! awaited request a response answers, and what the answer changes.
use vstd::prelude::*;
use vstd::string::StringExecFns;

use super::json::{json_as_str, json_get, JsonValue, JsonView};
use super::transport::{decimal, decimal_string};
use super::{
    code_action_views, completion_views, diagnostic_views, file_scheme, has_prefix, location_views,
    parse_code_actions, parse_completions, parse_diagnostics, parse_format_edits,
    parse_goto_definition, parse_hover, parse_references, parse_rename_edits, spec_parse_code_actions,
    spec_parse_completions, spec_parse_diagnostics, spec_parse_format_edits,
    spec_parse_goto_definition, spec_parse_hover, spec_parse_references, spec_parse_rename_edits,
    text_edit_views, uri_to_path, CodeActionView, CompletionView, DiagnosticView, LocationView,
    LspCodeAction, LspCompletionItem, LspDiagnostic, LspLocation, LspMessage, LspMessageView,
    LspTextEdit, TextEditView,
};
use crate::buffer::text_eq;

verus! {

/// The ids of the requests sent to the server whose answers are awaited.
#[derive(Debug, Clone, Copy, PartialEq, Eq, Structural)]
pub struct PendingRequests {
    pub completion: Option<i64>,
    pub goto_definition: Option<i64>,
    pub hover: Option<i64>,
    pub references: Option<i64>,
    pub formatting: Option<i64>,
    pub code_action: Option<i64>,
    pub rename: Option<i64>,
}

/// The kind of request a response answers.
#[derive(Debug, Clone, Copy, PartialEq, Eq, Structural)]
pub enum RequestKind {
    Completion,
    GotoDefinition,
    Hover,
    References,
    Formatting,
    CodeAction,
    Rename,
}

/// What the editor does with a message.
#[derive(Debug)]
pub enum LspEffect {
    /// Nothing.
    Ignore,
    /// The server refused to start; the status line says so.
    InitializeFailed,
    /// The server started: confirm it, open the current file with it, and
    /// say it is ready.
    Ready,
    ShowCompletions(Vec<LspCompletionItem>),
    /// Record the jump, then move the cursor to a line and column of the
    /// current file.
    JumpTo(u32, u32),
    /// Record the jump, then open a file and move to a line and column.
    OpenAt(String, u32, u32),
    /// Record the jump, then say where the definition is.
    DefinitionElsewhere(String),
    /// Show a message on the status line.
    Status(String),
    ShowHover(String),
    ShowReferences(Vec<LspLocation>),
    /// Apply formatting edits, from the last to the first.
    ApplyFormat(Vec<LspTextEdit>),
    ShowCodeActions(Vec<LspCodeAction>),
    /// Apply the edits of a rename to the current file.
    ApplyRename(Vec<LspTextEdit>),
    SetDiagnostics(Vec<LspDiagnostic>),
    /// Answer a request of the server, with `null`, under the given id.
    RespondNull(JsonValue),
}

pub enum LspEffectView {
    Ignore,
    InitializeFailed,
    Ready,
    ShowCompletions(Seq<CompletionView>),
    JumpTo(u32, u32),
    OpenAt(Seq<char>, u32, u32),
    DefinitionElsewhere(Seq<char>),
    Status(Seq<char>),
    ShowHover(Seq<char>),
    ShowReferences(Seq<LocationView>),
    ApplyFormat(Seq<TextEditView>),
    ShowCodeActions(Seq<CodeActionView>),
    ApplyRename(Seq<TextEditView>),
    SetDiagnostics(Seq<DiagnosticView>),
    RespondNull(JsonView),
}

impl View for LspEffect {
    type V = LspEffectView;

    open spec fn view(&self) -> LspEffectView {
        match self {
            LspEffect::Ignore => LspEffectView::Ignore,
            LspEffect::InitializeFailed => LspEffectView::InitializeFailed,
            LspEffect::Ready => LspEffectView::Ready,
            LspEffect::ShowCompletions(v) => LspEffectView::ShowCompletions(completion_views(v@)),
            LspEffect::JumpTo(l, c) => LspEffectView::JumpTo(*l, *c),
            LspEffect::OpenAt(p, l, c) => LspEffectView::OpenAt(p@, *l, *c),
            LspEffect::DefinitionElsewhere(m) => LspEffectView::DefinitionElsewhere(m@),
            LspEffect::Status(m) => LspEffectView::Status(m@),
            LspEffect::ShowHover(t) => LspEffectView::ShowHover(t@),
            LspEffect::ShowReferences(v) => LspEffectView::ShowReferences(location_views(v@)),
            LspEffect::ApplyFormat(v) => LspEffectView::ApplyFormat(text_edit_views(v@)),
            LspEffect::ShowCodeActions(v) => LspEffectView::ShowCodeActions(code_action_views(v@)),
            LspEffect::ApplyRename(v) => LspEffectView::ApplyRename(text_edit_views(v@)),
            LspEffect::SetDiagnostics(v) => LspEffectView::SetDiagnostics(diagnostic_views(v@)),
            LspEffect::RespondNull(id) => LspEffectView::RespondNull(id@),
        }
    }
}

/// The text after the last `/` of `s` (all of `s` when it has none).
pub open spec fn after_last_slash(s: Seq<char>) -> Seq<char>
    decreases s.len(),
{
    if s.len() == 0 {
        s
    } else if s.last() == '/' {
        Seq::empty()
    } else {
        after_last_slash(s.drop_last()).push(s.last())
    }
}

/// Where a location is, for the status line: `what`, the file name of its
/// URI, and its one-based line and column.
pub open spec fn spec_location_message(what: Seq<char>, l: LocationView) -> Seq<char> {
    what + " in "@ + after_last_slash(l.uri) + ":"@ + decimal((l.start_line + 1) as nat) + ":"@
        + decimal((l.start_col + 1) as nat)
}

/// The awaited request that a response with `id` answers, if any.
pub open spec fn spec_route(p: PendingRequests, id: i64) -> Option<RequestKind> {
    if p.completion == Some(id) {
        Some(RequestKind::Completion)
    } else if p.goto_definition == Some(id) {
        Some(RequestKind::GotoDefinition)
    } else if p.hover == Some(id) {
        Some(RequestKind::Hover)
    } else if p.references == Some(id) {
        Some(RequestKind::References)
    } else if p.formatting == Some(id) {
        Some(RequestKind::Formatting)
    } else if p.code_action == Some(id) {
        Some(RequestKind::CodeAction)
    } else if p.rename == Some(id) {
        Some(RequestKind::Rename)
    } else {
        None
    }
}

/// The requests still awaited once a request of `kind` is answered.
pub open spec fn spec_answered(p: PendingRequests, kind: RequestKind) -> PendingRequests {
    match kind {
        RequestKind::Completion => PendingRequests { completion: None, ..p },
        RequestKind::GotoDefinition => PendingRequests { goto_definition: None, ..p },
        RequestKind::Hover => PendingRequests { hover: None, ..p },
        RequestKind::References => PendingRequests { references: None, ..p },
        RequestKind::Formatting => PendingRequests { formatting: None, ..p },
        RequestKind::CodeAction => PendingRequests { code_action: None, ..p },
        RequestKind::Rename => PendingRequests { rename: None, ..p },
    }
}

/// What the answer to a definition request does: nothing found, a jump
/// within the current file, the opening of another file, or a message where
/// the definition cannot be opened.
pub open spec fn spec_definition_effect(locs: Seq<LocationView>, uri: Seq<char>) -> LspEffectView {
    if locs.len() == 0 {
        LspEffectView::Status("No definition found"@)
    } else {
        let l = locs[0];
        if l.uri == uri {
            LspEffectView::JumpTo(l.start_line, l.start_col)
        } else if has_prefix(l.uri, file_scheme()) {
            LspEffectView::OpenAt(l.uri.skip(7), l.start_line, l.start_col)
        } else {
            LspEffectView::DefinitionElsewhere(spec_location_message("Definition"@, l))
        }
    }
}

/// The message of a failed rename: the server's message, or a default.
pub open spec fn rename_error_text(err: JsonView) -> Seq<char> {
    match json_as_str(json_get(err, "message"@)) {
        Some(m) => m,
        None => "Rename failed"@,
    }
}

/// What the answer to a request of `kind` does; `uri` is the current file's
/// URI, if it has one.
pub open spec fn spec_response_effect(
    kind: RequestKind,
    result: Option<JsonView>,
    error: Option<JsonView>,
    uri: Option<Seq<char>>,
) -> LspEffectView {
    match kind {
        RequestKind::Rename => match error {
            Some(e) => LspEffectView::Status("Rename error: "@ + rename_error_text(e)),
            None => match (result, uri) {
                (Some(r), Some(u)) => {
                    let edits = spec_parse_rename_edits(r, u);
                    if edits.len() == 0 {
                        LspEffectView::Status("No edits to apply"@)
                    } else {
                        LspEffectView::ApplyRename(edits)
                    }
                },
                _ => LspEffectView::Ignore,
            },
        },
        _ => match result {
            None => LspEffectView::Ignore,
            Some(r) => match kind {
                RequestKind::Completion => {
                    let items = spec_parse_completions(r);
                    if items.len() > 0 {
                        LspEffectView::ShowCompletions(items)
                    } else {
                        LspEffectView::Ignore
                    }
                },
                RequestKind::GotoDefinition => spec_definition_effect(
                    spec_parse_goto_definition(r),
                    match uri {
                        Some(u) => u,
                        None => Seq::empty(),
                    },
                ),
                RequestKind::Hover => match spec_parse_hover(r) {
                    Some(t) => LspEffectView::ShowHover(t),
                    None => LspEffectView::Status("No hover info"@),
                },
                RequestKind::References => {
                    let locs = spec_parse_references(r);
                    if locs.len() > 0 {
                        LspEffectView::ShowReferences(locs)
                    } else {
                        LspEffectView::Status("No references found"@)
                    }
                },
                RequestKind::Formatting => match r {
                    JsonView::Array(a) => if a.len() > 0 {
                        LspEffectView::ApplyFormat(spec_parse_format_edits(r).unwrap())
                    } else {
                        LspEffectView::Status("Formatted (no changes)"@)
                    },
                    _ => LspEffectView::Status("Formatted (no changes)"@),
                },
                RequestKind::CodeAction => {
                    let actions = spec_parse_code_actions(r);
                    if actions.len() > 0 {
                        LspEffectView::ShowCodeActions(actions)
                    } else {
                        LspEffectView::Status("No code actions available"@)
                    }
                },
                RequestKind::Rename => LspEffectView::Ignore,
            },
        },
    }
}

/// The server's requests that the editor answers (with `null`).
pub open spec fn answered_method(m: Seq<char>) -> bool {
    m == "window/workDoneProgress/create"@ || m == "client/registerCapability"@
}

/// How a message changes the awaited requests and what it does.
/// `initialize` is the id of the start request while the server has not
/// started.
pub open spec fn spec_handle_message(
    p: PendingRequests,
    initialize: Option<i64>,
    msg: LspMessageView,
    uri: Option<Seq<char>>,
) -> (PendingRequests, LspEffectView) {
    match msg {
        LspMessageView::Response { id, result, error } => if initialize == Some(id) {
            (p, if error is Some { LspEffectView::InitializeFailed } else { LspEffectView::Ready })
        } else {
            match spec_route(p, id) {
                Some(kind) => (spec_answered(p, kind), spec_response_effect(kind, result, error, uri)),
                None => (p, LspEffectView::Ignore),
            }
        },
        LspMessageView::Notification { method, params } => (
            p,
            if method == "textDocument/publishDiagnostics"@ {
                LspEffectView::SetDiagnostics(spec_parse_diagnostics(params))
            } else {
                LspEffectView::Ignore
            },
        ),
        LspMessageView::ServerRequest { id, method, params } => (
            p,
            if answered_method(method) {
                LspEffectView::RespondNull(id)
            } else {
                LspEffectView::Ignore
            },
        ),
    }
}

proof fn lemma_after_last_slash(s: Seq<char>, k: int)
    requires
        0 <= k <= s.len(),
        k == 0 || s[k - 1] == '/',
        forall|j: int| k <= j < s.len() ==> s[j] != '/',
    ensures
        after_last_slash(s) == s.skip(k),
    decreases s.len(),
{
    if s.len() == k {
        if k > 0 {
            assert(s.skip(k) =~= Seq::<char>::empty());
        } else {
            assert(s.skip(0) =~= s);
        }
    } else {
        lemma_after_last_slash(s.drop_last(), k);
        assert(s.drop_last().skip(k).push(s.last()) =~= s.skip(k));
    }
}

/// The text after the last `/` of `s`.
pub(crate) fn after_last_slash_exec(s: &str) -> (r: String)
    ensures
        r@ == after_last_slash(s@),
{
    let n = s.unicode_len();
    let mut k = n;
    while k > 0 && s.get_char(k - 1) != '/'
        invariant
            k <= n,
            n == s@.len(),
            forall|j: int| k <= j < n ==> s@[j] != '/',
        decreases k,
    {
        k -= 1;
    }
    proof {
        lemma_after_last_slash(s@, k as int);
    }
    String::from_str(s.substring_char(k, n))
}

/// Where a location is, for the status line.
pub fn location_message(what: &str, loc: &LspLocation) -> (r: String)
    ensures
        r@ == spec_location_message(what@, loc@),
{
    let mut out = String::from_str(what);
    out.append(" in ");
    let name = after_last_slash_exec(loc.uri.as_str());
    out.append(name.as_str());
    out.append(":");
    let line = decimal_string(loc.start_line as u64 + 1);
    out.append(line.as_str());
    out.append(":");
    let col = decimal_string(loc.start_col as u64 + 1);
    out.append(col.as_str());
    proof {
        reveal_strlit(" in ");
        reveal_strlit(":");
    }
    out
}

fn status(text: &str) -> (e: LspEffect)
    ensures
        e@ == LspEffectView::Status(text@),
{
    LspEffect::Status(String::from_str(text))
}

impl PendingRequests {
    /// No request awaited.
    pub fn new() -> (p: Self)
        ensures
            p == (PendingRequests {
                completion: None,
                goto_definition: None,
                hover: None,
                references: None,
                formatting: None,
                code_action: None,
                rename: None,
            }),
    {
        PendingRequests {
            completion: None,
            goto_definition: None,
            hover: None,
            references: None,
            formatting: None,
            code_action: None,
            rename: None,
        }
    }

    /// The request a response with `id` answers; it is no longer awaited.
    pub fn answer(&mut self, id: i64) -> (k: Option<RequestKind>)
        ensures
            k == spec_route(*old(self), id),
            *final(self) == match k {
                Some(kind) => spec_answered(*old(self), kind),
                None => *old(self),
            },
    {
        if self.completion == Some(id) {
            self.completion = None;
            Some(RequestKind::Completion)
        } else if self.goto_definition == Some(id) {
            self.goto_definition = None;
            Some(RequestKind::GotoDefinition)
        } else if self.hover == Some(id) {
            self.hover = None;
            Some(RequestKind::Hover)
        } else if self.references == Some(id) {
            self.references = None;
            Some(RequestKind::References)
        } else if self.formatting == Some(id) {
            self.formatting = None;
            Some(RequestKind::Formatting)
        } else if self.code_action == Some(id) {
            self.code_action = None;
            Some(RequestKind::CodeAction)
        } else if self.rename == Some(id) {
            self.rename = None;
            Some(RequestKind::Rename)
        } else {
            None
        }
    }

    /// Handles one message from the server: `initialize` is the id of the
    /// start request while the server has not started, `file_uri` the
    /// current file's URI.
    pub fn handle_lsp_message(
        &mut self,
        initialize: Option<i64>,
        msg: LspMessage,
        file_uri: Option<&str>,
    ) -> (e: LspEffect)
        ensures
            (*final(self), e@) == spec_handle_message(
                *old(self),
                initialize,
                msg@,
                match file_uri {
                    Some(u) => Some(u@),
                    None => None,
                },
            ),
    {
        match msg {
            LspMessage::Response { id, result, error } => {
                if initialize == Some(id) {
                    return if error.is_some() {
                        LspEffect::InitializeFailed
                    } else {
                        LspEffect::Ready
                    };
                }
                match self.answer(id) {
                    Some(kind) => response_effect(kind, result, error, file_uri),
                    None => LspEffect::Ignore,
                }
            },
            LspMessage::Notification { method, params } => {
                proof {
                    reveal_strlit("textDocument/publishDiagnostics");
                }
                if text_eq(method.as_str(), "textDocument/publishDiagnostics") {
                    LspEffect::SetDiagnostics(parse_diagnostics(&params))
                } else {
                    LspEffect::Ignore
                }
            },
            LspMessage::ServerRequest { id, method, params } => {
                if text_eq(method.as_str(), "window/workDoneProgress/create") || text_eq(
                    method.as_str(),
                    "client/registerCapability",
                ) {
                    LspEffect::RespondNull(id)
                } else {
                    LspEffect::Ignore
                }
            },
        }
    }
}

/// A request is acted on once: after its answer is handled, a second
/// message with the same id does not reach it again.
pub proof fn law_request_answered_once(
    p: PendingRequests,
    initialize: Option<i64>,
    id: i64,
    result: Option<JsonView>,
    error: Option<JsonView>,
    uri: Option<Seq<char>>,
)
    requires
        initialize != Some(id),
        spec_route(p, id) is Some,
    ensures
        ({
            let after = spec_handle_message(
                p,
                initialize,
                LspMessageView::Response { id, result, error },
                uri,
            ).0;
            spec_route(after, id) != spec_route(p, id)
        }),
{
}

/// Only a response to an awaited request changes the awaited requests, and
/// it removes just that request.
pub proof fn law_only_answers_change_pending(
    p: PendingRequests,
    initialize: Option<i64>,
    msg: LspMessageView,
    uri: Option<Seq<char>>,
)
    ensures
        ({
            let after = spec_handle_message(p, initialize, msg, uri).0;
            ||| after == p
            ||| match msg {
                LspMessageView::Response { id, .. } => {
                    &&& initialize != Some(id)
                    &&& spec_route(p, id) is Some
                    &&& after == spec_answered(p, spec_route(p, id).unwrap())
                },
                _ => false,
            }
        }),
{
}

fn definition_effect(locs: Vec<LspLocation>, uri: &str) -> (e: LspEffect)
    ensures
        e@ == spec_definition_effect(location_views(locs@), uri@),
{
    if locs.len() == 0 {
        return status("No definition found");
    }
    let loc = &locs[0];
    if text_eq(loc.uri.as_str(), uri) {
        LspEffect::JumpTo(loc.start_line, loc.start_col)
    } else {
        match uri_to_path(loc.uri.as_str()) {
            Some(path) => LspEffect::OpenAt(path, loc.start_line, loc.start_col),
            None => LspEffect::DefinitionElsewhere(location_message("Definition", loc)),
        }
    }
}

fn response_effect(
    kind: RequestKind,
    result: Option<JsonValue>,
    error: Option<JsonValue>,
    file_uri: Option<&str>,
) -> (e: LspEffect)
    ensures
        e@ == spec_response_effect(
            kind,
            match result {
                Some(r) => Some(r@),
                None => None,
            },
            match error {
                Some(x) => Some(x@),
                None => None,
            },
            match file_uri {
                Some(u) => Some(u@),
                None => None,
            },
        ),
{
    if kind == RequestKind::Rename {
        if let Some(err) = error {
            let mut text = String::from_str("Rename error: ");
            match err.get("message") {
                Some(m) => match m.as_str() {
                    Some(s) => text.append(s),
                    None => text.append("Rename failed"),
                },
                None => text.append("Rename failed"),
            }
            proof {
                reveal_strlit("Rename error: ");
                reveal_strlit("Rename failed");
            }
            return LspEffect::Status(text);
        }
        return match (result, file_uri) {
            (Some(r), Some(u)) => {
                let edits = parse_rename_edits(&r, u);
                if edits.len() == 0 {
                    status("No edits to apply")
                } else {
                    LspEffect::ApplyRename(edits)
                }
            },
            _ => LspEffect::Ignore,
        };
    }
    let r = match result {
        Some(r) => r,
        None => return LspEffect::Ignore,
    };
    match kind {
        RequestKind::Completion => {
            let items = parse_completions(&r);
            if items.len() > 0 {
                LspEffect::ShowCompletions(items)
            } else {
                LspEffect::Ignore
            }
        },
        RequestKind::GotoDefinition => {
            let locs = parse_goto_definition(&r);
            match file_uri {
                Some(u) => definition_effect(locs, u),
                None => {
                    let e = definition_effect(locs, "");
                    proof {
                        reveal_strlit("");
                        assert(""@ =~= Seq::<char>::empty());
                    }
                    e
                },
            }
        },
        RequestKind::Hover => match parse_hover(&r) {
            Some(t) => LspEffect::ShowHover(t),
            None => status("No hover info"),
        },
        RequestKind::References => {
            let locs = parse_references(&r);
            if locs.len() > 0 {
                LspEffect::ShowReferences(locs)
            } else {
                status("No references found")
            }
        },
        RequestKind::Formatting => {
            let has_edits = match r.as_array() {
                Some(a) => {
                    proof {
                        super::json::lemma_elems_view(a@, a@.len());
                    }
                    a.len() > 0
                },
                None => false,
            };
            if has_edits {
                match parse_format_edits(&r) {
                    Some(edits) => LspEffect::ApplyFormat(edits),
                    None => status("Formatted (no changes)"),
                }
            } else {
                status("Formatted (no changes)")
            }
        },
        RequestKind::CodeAction => {
            let actions = parse_code_actions(&r);
            if actions.len() > 0 {
                LspEffect::ShowCodeActions(actions)
            } else {
                status("No code actions available")
            }
        },
        RequestKind::Rename => LspEffect::Ignore,
    }
}

} // verus!

verus! {

/// Where the chosen reference of a list leads.
#[derive(Debug)]
pub enum ReferenceJump {
    /// The list is empty.
    Nowhere,
    /// A line and column of the current file.
    Here(u32, u32),
    /// Another file: what the status line says of it.
    Elsewhere(String),
}

pub enum ReferenceJumpView {
    Nowhere,
    Here(u32, u32),
    Elsewhere(Seq<char>),
}

impl View for ReferenceJump {
    type V = ReferenceJumpView;

    open spec fn view(&self) -> ReferenceJumpView {
        match self {
            ReferenceJump::Nowhere => ReferenceJumpView::Nowhere,
            ReferenceJump::Here(l, c) => ReferenceJumpView::Here(*l, *c),
            ReferenceJump::Elsewhere(m) => ReferenceJumpView::Elsewhere(m@),
        }
    }
}

/// Where reference `index` of `refs` leads, from the file with URI `uri`
/// (none without a current file).
pub open spec fn spec_reference_jump(refs: Seq<LocationView>, index: int, uri: Option<Seq<char>>) -> ReferenceJumpView {
    if refs.len() == 0 {
        ReferenceJumpView::Nowhere
    } else {
        let l = refs[index];
        if l.uri == (match uri {
            Some(u) => u,
            None => Seq::empty(),
        }) {
            ReferenceJumpView::Here(l.start_line, l.start_col)
        } else {
            ReferenceJumpView::Elsewhere(spec_location_message("Reference"@, l))
        }
    }
}

/// Where the chosen reference leads: a position of the current file, or a
/// message naming the other file.
pub fn jump_to_reference(references: &[LspLocation], index: usize, file_uri: Option<&str>) -> (r: ReferenceJump)
    requires
        references@.len() > 0 ==> index < references@.len(),
    ensures
        r@ == spec_reference_jump(
            location_views(references@),
            index as int,
            match file_uri {
                Some(u) => Some(u@),
                None => None,
            },
        ),
{
    if references.len() == 0 {
        return ReferenceJump::Nowhere;
    }
    let loc = &references[index];
    let current = match file_uri {
        Some(u) => u,
        None => {
            proof {
                reveal_strlit("");
                assert(""@ =~= Seq::<char>::empty());
            }
            ""
        },
    };
    if text_eq(loc.uri.as_str(), current) {
        ReferenceJump::Here(loc.start_line, loc.start_col)
    } else {
        ReferenceJump::Elsewhere(location_message("Reference", loc))
    }
}

} // verus!
