//! The request dispatcher: it decodes a buffered request into an operation,
//! answers what the registry can answer, and hands out what has to be
//! evaluated.

use crate::engine::EvalError;
use crate::ident::{id_text, is_lower_hex, lemma_text_round_trip, ScriptId};
use crate::registry::{RegistryView, ScriptRegistry};
use crate::text::{chars_of, has_prefix, same_text, starts_with};
use vstd::prelude::*;
use vstd::string::{StrSliceExecFns, StringExecFns};
use vstd::utf8::{decode_utf8, valid_utf8};

verus! {

/// The method of a request.
#[derive(Clone, Copy, Debug, PartialEq, Eq, Structural)]
pub enum Method {
    Get,
    Post,
    Delete,
    Other,
}

/// The operation that a request asks for.
#[derive(Clone, Copy, Debug, PartialEq, Eq, Structural)]
pub enum Route {
    /// Evaluate the body as a script, without arguments.
    Execute,
    /// Store the body as a script.
    Create,
    /// Return the script under the identifier.
    Fetch(Option<ScriptId>),
    /// Evaluate the script under the identifier on the body as arguments.
    Run(Option<ScriptId>),
    /// Remove the script under the identifier.
    Delete(Option<ScriptId>),
    /// Answer that the service is up.
    Ping,
    /// Nothing that the service offers.
    Unknown,
}

/// The operation that `method` on `path` asks for. What follows `/scripts/`
/// is read as an identifier; it is `None` where it is not the text of one.
pub open spec fn route_of(method: Method, path: Seq<char>) -> Route {
    if method == Method::Post && path == "/execute"@ {
        Route::Execute
    } else if has_prefix(path, "/scripts/"@) && path.len() > "/scripts/"@.len() && method
        != Method::Other {
        let id = ScriptId::parsed(path.skip("/scripts/"@.len() as int));
        match method {
            Method::Get => Route::Fetch(id),
            Method::Post => Route::Run(id),
            _ => Route::Delete(id),
        }
    } else if method == Method::Post && (path == "/scripts"@ || path == "/scripts/"@) {
        Route::Create
    } else if method == Method::Get && path == "/ping"@ {
        Route::Ping
    } else {
        Route::Unknown
    }
}

/// Decodes `method` and `path` into the operation they ask for.
pub fn route(method: Method, path: &str) -> (found: Route)
    ensures
        found == route_of(method, path@),
{
    let chars = chars_of(path);
    let scripts = chars_of("/scripts/");
    let is_post = match method {
        Method::Post => true,
        _ => false,
    };
    let is_get = match method {
        Method::Get => true,
        _ => false,
    };
    let is_other = match method {
        Method::Other => true,
        _ => false,
    };
    if is_post && same_text(&chars, &chars_of("/execute")) {
        Route::Execute
    } else if starts_with(&chars, &scripts) && chars.len() > scripts.len() && !is_other {
        let tail = path.substring_char(scripts.len(), chars.len());
        assert(tail@ =~= path@.skip("/scripts/"@.len() as int));
        let id = ScriptId::parse(tail);
        match method {
            Method::Get => Route::Fetch(id),
            Method::Post => Route::Run(id),
            _ => Route::Delete(id),
        }
    } else if is_post && (same_text(&chars, &chars_of("/scripts")) || same_text(&chars, &scripts)) {
        Route::Create
    } else if is_get && same_text(&chars, &chars_of("/ping")) {
        Route::Ping
    } else {
        Route::Unknown
    }
}

/// A reply: its status, whether it is marked as `application/json`, where
/// the created resource is, and its body.
#[derive(Debug)]
pub struct Response {
    pub status: u16,
    pub json: bool,
    pub location: Option<String>,
    pub body: String,
}

/// A reply as a value, its texts as sequences of characters.
pub ghost struct ResponseView {
    pub status: u16,
    pub json: bool,
    pub location: Option<Seq<char>>,
    pub body: Seq<char>,
}

impl View for Response {
    type V = ResponseView;

    open spec fn view(&self) -> ResponseView {
        ResponseView {
            status: self.status,
            json: self.json,
            location: match self.location {
                Some(l) => Some(l@),
                None => None,
            },
            body: self.body@,
        }
    }
}

/// What the dispatcher does with a request: it replies, or it has a script
/// evaluated and replies with what comes of it.
#[derive(Debug)]
pub enum Dispatch {
    Reply(Response),
    Evaluate { code: String, args: String, limit_millis: u64 },
}

/// What the dispatcher does with a request, as a value.
pub ghost enum DispatchView {
    Reply(ResponseView),
    Evaluate { code: Seq<char>, args: Seq<char>, limit_millis: u64 },
}

impl View for Dispatch {
    type V = DispatchView;

    open spec fn view(&self) -> DispatchView {
        match self {
            Dispatch::Reply(r) => DispatchView::Reply(r@),
            Dispatch::Evaluate { code, args, limit_millis } => DispatchView::Evaluate {
                code: code@,
                args: args@,
                limit_millis: *limit_millis,
            },
        }
    }
}

/// A reply with a plain body.
pub open spec fn plain_reply(status: u16, body: Seq<char>) -> DispatchView {
    DispatchView::Reply(ResponseView { status, json: false, location: None, body })
}

/// A reply with a body marked as `application/json`.
pub open spec fn json_reply(status: u16, body: Seq<char>) -> DispatchView {
    DispatchView::Reply(ResponseView { status, json: true, location: None, body })
}

/// `s` as a JSON string, for an `s` that needs no escapes.
pub open spec fn json_quoted(s: Seq<char>) -> Seq<char> {
    seq!['"'] + s + seq!['"']
}

/// Whether `s` is free of the characters that a JSON string escapes: the
/// quotation mark, the backslash and the controls below the space.
pub open spec fn needs_no_escape(s: Seq<char>) -> bool {
    forall|i: int| 0 <= i < s.len() ==> ' ' <= #[trigger] s[i] && s[i] != '"' && s[i] != '\\'
}

/// The reply to a script that was stored under `id`.
pub open spec fn created_reply(id: u128) -> DispatchView {
    DispatchView::Reply(
        ResponseView {
            status: 201,
            json: true,
            location: Some("/scripts/"@ + id_text(id)),
            body: "{\"id\":"@ + json_quoted(id_text(id)) + "}"@,
        },
    )
}

/// The text that the bytes of a body stand for, if they are UTF-8.
pub open spec fn body_text(body: Seq<u8>) -> Option<Seq<char>> {
    if valid_utf8(body) {
        Some(decode_utf8(body))
    } else {
        None
    }
}

/// Decodes with `String::from_utf8`: the bytes give a string exactly when
/// they are valid UTF-8, and the string holds the characters they encode.
#[verifier::external_body]
fn text_of(bytes: Vec<u8>) -> (text: Option<String>)
    ensures
        text.is_some() == valid_utf8(bytes@),
        text.is_some() ==> text.unwrap()@ == decode_utf8(bytes@),
{
    String::from_utf8(bytes).ok()
}

/// Writes `s` as a JSON string with `serde_json::to_string`. Where `s` holds
/// nothing that JSON escapes, the result is `s` between quotation marks.
#[verifier::external_body]
fn quote_json(s: &str) -> (quoted: String)
    ensures
        needs_no_escape(s@) ==> quoted@ == json_quoted(s@),
{
    serde_json::to_string(s).unwrap_or_default()
}

/// The reply that reports what came of an evaluation: the JSON text of the
/// result, or the failure's message under the failure's status.
pub open spec fn reply_of(result: Result<String, EvalError>) -> ResponseView {
    match result {
        Ok(json) => ResponseView { status: 200, json: true, location: None, body: json@ },
        Err(e) => ResponseView {
            status: e.status_code(),
            json: false,
            location: None,
            body: e.message_text(),
        },
    }
}

/// The reply to the request whose evaluation gave `result`.
pub fn reply_for(result: Result<String, EvalError>) -> (response: Response)
    ensures
        response@ == reply_of(result),
{
    match result {
        Ok(json) => Response { status: 200, json: true, location: None, body: json },
        Err(e) => Response { status: e.status(), json: false, location: None, body: e.message() },
    }
}

fn plain(status: u16, body: &str) -> (dispatch: Dispatch)
    ensures
        dispatch@ == plain_reply(status, body@),
{
    Dispatch::Reply(Response { status, json: false, location: None, body: String::from_str(body) })
}

/// The dispatcher as a value: its registry and the time that a call may
/// take, in milliseconds.
pub ghost struct DispatcherView {
    pub registry: RegistryView,
    pub limit_millis: u64,
}

impl DispatcherView {
    /// What the dispatcher does with the operation `route` and the body
    /// `body` at the clock reading `now`, where `fresh` is the identifier
    /// that a new script gets.
    pub open spec fn answer(self, route: Route, body: Seq<u8>, now: nat, fresh: u128)
        -> DispatchView {
        match route {
            Route::Execute => match body_text(body) {
                Some(script) => DispatchView::Evaluate {
                    code: script,
                    args: "[]"@,
                    limit_millis: self.limit_millis,
                },
                None => plain_reply(400, "cannot extract script from request body"@),
            },
            Route::Create => match body_text(body) {
                Some(script) => created_reply(fresh),
                None => plain_reply(400, "cannot extract script from request body"@),
            },
            Route::Fetch(Some(id)) => match self.registry.source_of(id.value) {
                Some(source) => json_reply(200, source),
                None => plain_reply(404, "cannot find script"@),
            },
            Route::Run(Some(id)) => match self.registry.source_of(id.value) {
                Some(source) => match body_text(body) {
                    Some(args) => DispatchView::Evaluate {
                        code: source,
                        args,
                        limit_millis: self.limit_millis,
                    },
                    None => plain_reply(400, "cannot extract arguments from request body"@),
                },
                None => plain_reply(404, "cannot find script"@),
            },
            Route::Delete(Some(id)) => plain_reply(204, Seq::<char>::empty()),
            Route::Fetch(None) | Route::Run(None) | Route::Delete(None) => plain_reply(
                404,
                "cannot find script"@,
            ),
            Route::Ping => plain_reply(200, "pong!"@),
            Route::Unknown => plain_reply(404, "cannot find route"@),
        }
    }

    /// The registry after the operation `route` with the body `body` at the
    /// clock reading `now`, where `fresh` is the identifier that a new script
    /// gets.
    pub open spec fn registry_after(self, route: Route, body: Seq<u8>, now: nat, fresh: u128)
        -> RegistryView {
        match route {
            Route::Create => match body_text(body) {
                Some(script) => self.registry.stored(fresh, script, now),
                None => self.registry,
            },
            Route::Fetch(Some(id)) => self.registry.touched(id.value, now),
            Route::Run(Some(id)) => self.registry.touched(id.value, now),
            Route::Delete(Some(id)) => self.registry.removed(id.value),
            _ => self.registry,
        }
    }
}

/// The single owner of the registry.
pub struct Dispatcher {
    registry: ScriptRegistry,
    limit_millis: u64,
}

impl View for Dispatcher {
    type V = DispatcherView;

    closed spec fn view(&self) -> DispatcherView {
        DispatcherView { registry: self.registry@, limit_millis: self.limit_millis }
    }
}

impl Dispatcher {
    /// A dispatcher with an empty registry, whose scripts live `ttl_millis`
    /// milliseconds after their last use and whose calls may take
    /// `limit_millis` milliseconds.
    pub fn new(ttl_millis: u64, limit_millis: u64) -> (dispatcher: Dispatcher)
        ensures
            dispatcher@.limit_millis == limit_millis,
            dispatcher@.registry.ttl == ttl_millis * 1_000_000,
            dispatcher@.registry.entries == Map::<u128, crate::registry::Entry>::empty(),
    {
        Dispatcher { registry: ScriptRegistry::new(ttl_millis), limit_millis }
    }

    /// Serves the operation `route` with the body `body` at the clock
    /// reading `now`; a script that is stored gets the identifier `fresh`.
    pub fn serve_at(&mut self, route: Route, body: Vec<u8>, now: u128, fresh: ScriptId) -> (dispatch:
        Dispatch)
        ensures
            dispatch@ == old(self)@.answer(route, body@, now as nat, fresh.value),
            final(self)@.registry == old(self)@.registry_after(
                route,
                body@,
                now as nat,
                fresh.value,
            ),
            final(self)@.limit_millis == old(self)@.limit_millis,
    {
        match route {
            Route::Execute => match text_of(body) {
                Some(script) => Dispatch::Evaluate {
                    code: script,
                    args: String::from_str("[]"),
                    limit_millis: self.limit_millis,
                },
                None => plain(400, "cannot extract script from request body"),
            },
            Route::Create => match text_of(body) {
                Some(script) => {
                    self.registry.store_at(fresh, script, now);
                    let text = fresh.to_text();
                    proof {
                        lemma_text_round_trip(fresh);
                        assert forall|i: int| 0 <= i < text@.len() implies ' ' <= #[trigger] text@[i]
                            && text@[i] != '"' && text@[i] != '\\' by {
                            if !crate::ident::is_hyphen_position(i) {
                                assert(is_lower_hex(text@[i]));
                            }
                        }
                    }
                    let quoted = quote_json(text.as_str());
                    let mut location = String::from_str("/scripts/");
                    location.append(text.as_str());
                    let mut reply = String::from_str("{\"id\":");
                    reply.append(quoted.as_str());
                    reply.append("}");
                    Dispatch::Reply(
                        Response { status: 201, json: true, location: Some(location), body: reply },
                    )
                },
                None => plain(400, "cannot extract script from request body"),
            },
            Route::Fetch(Some(id)) => match self.registry.get_at(&id, now) {
                Some(source) => Dispatch::Reply(
                    Response { status: 200, json: true, location: None, body: source },
                ),
                None => plain(404, "cannot find script"),
            },
            Route::Run(Some(id)) => match self.registry.get_at(&id, now) {
                Some(source) => match text_of(body) {
                    Some(args) => Dispatch::Evaluate {
                        code: source,
                        args,
                        limit_millis: self.limit_millis,
                    },
                    None => plain(400, "cannot extract arguments from request body"),
                },
                None => plain(404, "cannot find script"),
            },
            Route::Delete(Some(id)) => {
                self.registry.remove(&id);
                let reply = plain(204, "");
                proof {
                    reveal_strlit("");
                    assert(""@ =~= Seq::<char>::empty());
                }
                reply
            },
            Route::Fetch(None) | Route::Run(None) | Route::Delete(None) => plain(
                404,
                "cannot find script",
            ),
            Route::Ping => plain(200, "pong!"),
            Route::Unknown => plain(404, "cannot find route"),
        }
    }
    /// Serves the request `method` on `path` with the body `body`, at the
    /// present reading of the registry's clock. A script that is stored gets
    /// a new random identifier.
    pub fn handle(&mut self, method: Method, path: &str, body: Vec<u8>) -> (dispatch: Dispatch)
        ensures
            exists|now: nat, fresh: u128|
                dispatch@ == #[trigger] old(self)@.answer(route_of(method, path@), body@, now, fresh)
                    && final(self)@.registry == old(self)@.registry_after(
                    route_of(method, path@),
                    body@,
                    now,
                    fresh,
                ),
            final(self)@.limit_millis == old(self)@.limit_millis,
    {
        let found = route(method, path);
        let now = self.registry.now();
        let fresh = match found {
            Route::Create => ScriptId::fresh(),
            _ => ScriptId { value: 0 },
        };
        let ghost body_bytes = body@;
        let dispatch = self.serve_at(found, body, now, fresh);
        assert(dispatch@ == old(self)@.answer(
            route_of(method, path@),
            body_bytes,
            now as nat,
            fresh.value,
        ));
        dispatch
    }
}

/// The location that the reply to a stored script names is the path of that
/// script: a request on it is routed to the script's identifier.
pub proof fn lemma_location_is_the_script(id: ScriptId)
    ensures
        route_of(Method::Get, "/scripts/"@ + id_text(id.value)) == Route::Fetch(Some(id)),
        route_of(Method::Post, "/scripts/"@ + id_text(id.value)) == Route::Run(Some(id)),
        route_of(Method::Delete, "/scripts/"@ + id_text(id.value)) == Route::Delete(Some(id)),
{
    reveal_strlit("/scripts/");
    reveal_strlit("/execute");
    let prefix = "/scripts/"@;
    let path = prefix + id_text(id.value);
    lemma_text_round_trip(id);
    assert(path.take(prefix.len() as int) =~= prefix);
    assert(path.skip(prefix.len() as int) =~= id_text(id.value));
    assert(path.len() == 45);
    assert("/execute"@.len() == 8);
}

/// The request that follows the storing of a script and asks for it by the
/// location it was given gets the script's source.
pub proof fn lemma_created_script_is_fetched(
    dispatcher: DispatcherView,
    body: Seq<u8>,
    stored_at: nat,
    id: ScriptId,
    other_body: Seq<u8>,
    now: nat,
    fresh: u128,
)
    requires
        body_text(body) is Some,
    ensures
        ({
            let after = DispatcherView {
                registry: dispatcher.registry_after(Route::Create, body, stored_at, id.value),
                limit_millis: dispatcher.limit_millis,
            };
            after.answer(
                route_of(Method::Get, "/scripts/"@ + id_text(id.value)),
                other_body,
                now,
                fresh,
            ) == json_reply(200, body_text(body)->0)
        }),
{
    lemma_location_is_the_script(id);
}

} // verus!
