//! The client protocol of the helper: what it answers to each text frame
//! that a touch client sends (hello, intents, module actions), and the text
//! of its acks and errors.

use vstd::prelude::*;
use vstd::string::*;
use crate::injector::{result_view, Injector};
use crate::json::{parse_json, parsed_json, Json, Num, ONE_BITS};
use crate::scene::SceneCache;
use crate::text::{decimal, json_string, push_decimal, push_json_string, same_text};

verus! {

/// The text of an ack for the intent `seq`.
pub open spec fn ack_text(seq: Option<u64>) -> Seq<char> {
    match seq {
        Some(s) => "{\"op\":\"ack\",\"seq\":"@ + decimal(s as nat) + "}"@,
        None => "{\"op\":\"ack\"}"@,
    }
}

/// The text of an error for the intent `seq`, with its reason.
pub open spec fn err_text(seq: Option<u64>, reason: Seq<char>) -> Seq<char> {
    match seq {
        Some(s) => "{\"op\":\"err\",\"seq\":"@ + decimal(s as nat) + ",\"reason\":"@ + json_string(
            reason,
        ) + "}"@,
        None => "{\"op\":\"err\",\"reason\":"@ + json_string(reason) + "}"@,
    }
}

/// The module actions that the rack carries out.
pub open spec fn known_action(action: Seq<char>) -> bool {
    ||| action == "bypass"@
    ||| action == "disconnect"@
    ||| action == "reset"@
    ||| action == "randomize"@
    ||| action == "clone"@
    ||| action == "delete"@
}

/// Whether `action` is one of the six module actions of the rack.
pub fn is_known_action(action: &str) -> (r: bool)
    ensures
        r == known_action(action@),
{
    same_text(action, "bypass") || same_text(action, "disconnect") || same_text(action, "reset")
        || same_text(action, "randomize") || same_text(action, "clone") || same_text(
        action,
        "delete",
    )
}

/// The ack for the intent `seq`.
pub fn ack_reply(seq: Option<u64>) -> (r: String)
    ensures
        r@ == ack_text(seq),
{
    match seq {
        Some(s) => {
            let mut out = String::from_str("{\"op\":\"ack\",\"seq\":");
            push_decimal(&mut out, s);
            out.append("}");
            out
        },
        None => String::from_str("{\"op\":\"ack\"}"),
    }
}

/// The error for the intent `seq`, with its reason as a JSON string.
pub fn err_reply(seq: Option<u64>, reason: &str) -> (r: String)
    ensures
        r@ == err_text(seq, reason@),
{
    match seq {
        Some(s) => {
            let mut out = String::from_str("{\"op\":\"err\",\"seq\":");
            push_decimal(&mut out, s);
            out.append(",\"reason\":");
            push_json_string(&mut out, reason);
            out.append("}");
            out
        },
        None => {
            let mut out = String::from_str("{\"op\":\"err\",\"reason\":");
            push_json_string(&mut out, reason);
            out.append("}");
            out
        },
    }
}

/// The reply to an intent that was handed to the injector, by its result.
pub open spec fn injection_text(seq: Option<u64>, result: Result<(), Seq<char>>) -> Seq<char> {
    match result {
        Ok(()) => ack_text(seq),
        Err(reason) => err_text(seq, reason),
    }
}

/// The reply to a module action by how the rack settled it: done, failed
/// with a reason, or not answered in time (`None`).
pub open spec fn action_text(seq: Option<u64>, outcome: Option<Result<(), Seq<char>>>) -> Seq<
    char,
> {
    match outcome {
        Some(result) => injection_text(seq, result),
        None => err_text(seq, "action-timeout"@),
    }
}

/// The reply to a client frame that is not JSON.
pub open spec fn parse_failure_text(detail: Seq<char>) -> Seq<char> {
    err_text(None, "parse: "@ + detail)
}

/// What the helper does with a client message, as a mathematical value.
pub enum Answer {
    /// Nothing is sent back.
    Silent,
    /// This text is sent back.
    Text(Seq<char>),
    /// This text is sent back and the connection is closed.
    Close(Seq<char>),
    /// The intent of kind `kind` goes to the injector; its result is
    /// answered by `injection_text(seq, ..)`.
    Inject { seq: Option<u64>, kind: Seq<char> },
    /// The module action goes to the rack; its outcome is answered by
    /// `action_text(seq, ..)`.
    Forward { seq: Option<u64>, module_id: i64, action: Seq<char> },
}

/// The protocol version that this helper speaks.
pub const PROTOCOL_VERSION: u64 = 1;

/// Whether a version number is higher than [`PROTOCOL_VERSION`]. A float
/// is compared by its IEEE-754 pattern: the patterns of non-negative floats
/// order as the floats do, so a float is above 1.0 exactly when its sign bit
/// is clear and its pattern is above that of 1.0.
pub open spec fn version_above(n: Num) -> bool {
    match n {
        Num::PosInt(u) => u > PROTOCOL_VERSION,
        Num::NegInt(_) => false,
        Num::Float(bits) => bits < 0x8000_0000_0000_0000u64 && bits > ONE_BITS,
    }
}

/// Whether a hello announces a version that the helper accepts: any but a
/// number above its own (a hello without one is taken as version 1).
pub open spec fn version_accepted(hello: Json) -> bool {
    match hello.num_at("v"@) {
        Some(n) => !version_above(n),
        None => true,
    }
}

/// Whether a version number is higher than [`PROTOCOL_VERSION`].
pub fn is_version_above(n: Num) -> (r: bool)
    ensures
        r == version_above(n),
{
    match n {
        Num::PosInt(u) => u > PROTOCOL_VERSION,
        Num::NegInt(_) => false,
        Num::Float(bits) => bits < 0x8000_0000_0000_0000u64 && bits > ONE_BITS,
    }
}

/// A string member, or the empty text.
pub open spec fn text_or_empty(v: Json, key: Seq<char>) -> Seq<char> {
    match v.str_at(key) {
        Some(s) => s,
        None => Seq::empty(),
    }
}

/// What the helper does with a `module-action` intent.
pub open spec fn module_action_answer(msg: Json, seq: Option<u64>) -> Answer {
    let action = text_or_empty(msg, "action"@);
    if !known_action(action) {
        Answer::Text(err_text(seq, "unknown action: "@ + action))
    } else {
        match msg.i64_at("moduleId"@) {
            None => Answer::Text(err_text(seq, "missing moduleId"@)),
            Some(m) => Answer::Forward { seq, module_id: m, action },
        }
    }
}

/// What the helper does with a client message: nothing for a hello of a
/// version it speaks, an error and the end of the connection for a higher
/// one; an intent goes to the injector, a module action to the rack; any
/// other op is answered by an error.
pub open spec fn message_answer(msg: Json) -> Answer {
    let seq = msg.u64_at("seq"@);
    let op = text_or_empty(msg, "op"@);
    if op == "hello"@ {
        if version_accepted(msg) {
            Answer::Silent
        } else {
            Answer::Close(err_text(seq, "unsupported-version"@))
        }
    } else if op == "intent"@ {
        let kind = text_or_empty(msg, "kind"@);
        if kind == "module-action"@ {
            module_action_answer(msg, seq)
        } else {
            Answer::Inject { seq, kind }
        }
    } else {
        Answer::Text(err_text(seq, "unknown op"@))
    }
}

/// What to do with one client message.
#[derive(Debug)]
pub enum Incoming {
    /// Send nothing back.
    Silent,
    /// Send this text back.
    Reply(String),
    /// Send this text back, then close the connection.
    Close(String),
    /// Hand the intent to the injector (see [`carry_out_intent`]) and
    /// answer its result with [`injection_reply`].
    Inject { seq: Option<u64>, kind: String, intent: Json },
    /// Forward the action to the rack, and answer its outcome with
    /// [`action_reply`].
    ForwardAction { seq: Option<u64>, module_id: i64, action: String },
}

/// The text that answers `result` of the intent `seq`: an ack, or an error
/// with the reason.
pub fn injection_reply(seq: Option<u64>, result: &Result<(), String>) -> (r: String)
    ensures
        r@ == injection_text(
            seq,
            match result {
                Ok(()) => Ok(()),
                Err(e) => Err(e@),
            },
        ),
{
    match result {
        Ok(()) => ack_reply(seq),
        Err(reason) => err_reply(seq, reason.as_str()),
    }
}

/// The text that answers a module action by its outcome: an ack when the
/// rack carried it out, an error with the rack's reason when it did not,
/// and `action-timeout` when no answer came in time (`None`).
pub fn action_reply(seq: Option<u64>, outcome: &Option<Result<(), String>>) -> (r: String)
    ensures
        r@ == action_text(
            seq,
            match outcome {
                Some(Ok(())) => Some(Ok(())),
                Some(Err(e)) => Some(Err(e@)),
                None => None,
            },
        ),
{
    match outcome {
        Some(result) => injection_reply(seq, result),
        None => err_reply(seq, "action-timeout"),
    }
}

/// The error sent for a client frame that is not JSON, `detail` being the
/// parser's message.
pub fn parse_failure_reply(detail: &str) -> (r: String)
    ensures
        r@ == parse_failure_text(detail@),
{
    let mut reason = String::from_str("parse: ");
    reason.append(detail);
    err_reply(None, reason.as_str())
}

/// A string member, or the empty text.
fn str_or_empty(v: &Json, key: &str) -> (r: String)
    ensures
        r@ == text_or_empty(*v, key@),
{
    match v.get_str(key) {
        Some(s) => s.clone(),
        None => String::new(),
    }
}

/// Whether `r` carries out `answer` for the message `msg`.
pub open spec fn carries_out(r: Incoming, answer: Answer, msg: Json) -> bool {
    match answer {
        Answer::Silent => r is Silent,
        Answer::Text(t) => r matches Incoming::Reply(x) && x@ == t,
        Answer::Close(t) => r matches Incoming::Close(x) && x@ == t,
        Answer::Forward { seq, module_id, action } => r matches Incoming::ForwardAction {
            seq: s,
            module_id: m,
            action: a,
        } && s == seq && m == module_id && a@ == action,
        Answer::Inject { seq, kind } => r matches Incoming::Inject { seq: s, kind: k, intent: i }
            && s == seq && k@ == kind && i == msg,
    }
}

/// A `module-action` intent: unknown actions and a missing module id are
/// answered by an error, anything else is forwarded to the rack.
pub fn handle_module_action(msg: &Json, seq: Option<u64>) -> (r: Incoming)
    ensures
        carries_out(r, module_action_answer(*msg, seq), *msg),
{
    let action = str_or_empty(msg, "action");
    if !is_known_action(action.as_str()) {
        let mut reason = String::from_str("unknown action: ");
        reason.append(action.as_str());
        return Incoming::Reply(err_reply(seq, reason.as_str()));
    }
    match msg.get_i64("moduleId") {
        None => Incoming::Reply(err_reply(seq, "missing moduleId")),
        Some(module_id) => Incoming::ForwardAction { seq, module_id, action },
    }
}

/// What to do with one client message: a `hello` gets no answer when it
/// announces no version or one up to [`PROTOCOL_VERSION`], and an error and
/// the end of the connection otherwise; an `intent` goes, with its kind and
/// the whole message, to the injector, except a `module-action`, which goes
/// to the rack; any other op is answered by an error. Every answer carries
/// the message's `seq`.
pub fn handle_text(msg: Json) -> (r: Incoming)
    ensures
        carries_out(r, message_answer(msg), msg),
{
    let seq = msg.get_u64("seq");
    let op = str_or_empty(&msg, "op");
    if same_text(op.as_str(), "hello") {
        let accepted = match msg.get_num("v") {
            Some(n) => !is_version_above(n),
            None => true,
        };
        if accepted {
            Incoming::Silent
        } else {
            Incoming::Close(err_reply(seq, "unsupported-version"))
        }
    } else if same_text(op.as_str(), "intent") {
        let kind = str_or_empty(&msg, "kind");
        if same_text(kind.as_str(), "module-action") {
            handle_module_action(&msg, seq)
        } else {
            Incoming::Inject { seq, kind, intent: msg }
        }
    } else {
        Incoming::Reply(err_reply(seq, "unknown op"))
    }
}

/// What to do with one text frame of a client: the message it parses to is
/// handled by [`handle_text`]; text that is not JSON is answered by an
/// error that carries the parser's message.
pub fn handle_client_text(text: &str) -> (r: Incoming)
    ensures
        match parsed_json(text@) {
            Ok(m) => carries_out(r, message_answer(m), m),
            Err(detail) => r matches Incoming::Reply(x) && x@ == parse_failure_text(detail),
        },
{
    match parse_json(text) {
        Ok(m) => handle_text(m),
        Err(detail) => Incoming::Reply(parse_failure_reply(detail.as_str())),
    }
}

/// Hands an intent, with its kind and the scene, to the injector, and
/// writes the answer to its result: an ack, or an error with the
/// injector's reason.
pub fn carry_out_intent<I: Injector + ?Sized>(
    injector: &I,
    seq: Option<u64>,
    kind: &str,
    intent: &Json,
    scene: &SceneCache,
) -> (r: (Result<(), String>, String))
    ensures
        injector.outcome(kind@, *intent, scene@, result_view(r.0)),
        r.1@ == injection_text(seq, result_view(r.0)),
{
    let result = injector.handle(kind, intent, scene);
    let reply = injection_reply(seq, &result);
    (result, reply)
}

/// Whether `t` answers the intent `seq`: an ack or an error for it.
pub open spec fn answers(t: Seq<char>, seq: Option<u64>) -> bool {
    t == ack_text(seq) || exists|reason: Seq<char>| t == err_text(seq, reason)
}

/// Every intent is answered once, by an ack or an error that carries its
/// `seq`: whatever the injector or the rack does, the one text that the
/// helper sends for it answers that `seq`.
pub proof fn law_intent_answered(msg: Json)
    requires
        msg.str_at("op"@) == Some("intent"@),
    ensures
        !(message_answer(msg) is Silent),
        message_answer(msg) matches Answer::Text(t) ==> answers(t, msg.u64_at("seq"@)),
        message_answer(msg) matches Answer::Inject { seq, .. } ==> seq == msg.u64_at("seq"@)
            && forall|result: Result<(), Seq<char>>| answers(#[trigger] injection_text(seq, result), seq),
        message_answer(msg) matches Answer::Forward { seq, .. } ==> seq == msg.u64_at("seq"@)
            && forall|outcome: Option<Result<(), Seq<char>>>| answers(#[trigger] action_text(seq, outcome), seq),
{
    reveal_strlit("hello");
    reveal_strlit("intent");
    assert("hello"@ != "intent"@) by {
        assert("hello"@[0] != "intent"@[0]);
    }
    let seq = msg.u64_at("seq"@);
    assert forall|result: Result<(), Seq<char>>| answers(#[trigger] injection_text(seq, result), seq) by {
        match result {
            Ok(()) => {},
            Err(reason) => assert(injection_text(seq, result) == err_text(seq, reason)),
        }
    }
    assert forall|outcome: Option<Result<(), Seq<char>>>| answers(#[trigger] action_text(seq, outcome), seq) by {
        match outcome {
            Some(result) => assert(action_text(seq, outcome) == injection_text(seq, result)),
            None => assert(action_text(seq, outcome) == err_text(seq, "action-timeout"@)),
        }
    }
}

/// A hello of a version that the helper speaks is not answered, one of a
/// higher version is refused and ends the connection, and an unknown op is
/// answered by an error.
pub proof fn law_hello_and_unknown_op(msg: Json)
    ensures
        msg.str_at("op"@) == Some("hello"@) && version_accepted(msg) ==> message_answer(msg) is Silent,
        msg.str_at("op"@) == Some("hello"@) && !version_accepted(msg) ==> message_answer(msg)
            == Answer::Close(err_text(msg.u64_at("seq"@), "unsupported-version"@)),
        msg.str_at("op"@) != Some("hello"@) && msg.str_at("op"@) != Some("intent"@)
            ==> message_answer(msg) == Answer::Text(err_text(msg.u64_at("seq"@), "unknown op"@)),
{
    reveal_strlit("hello");
    reveal_strlit("intent");
    if msg.str_at("op"@) is None {
        assert(Seq::<char>::empty() != "hello"@) by {
            assert("hello"@.len() == 5);
        }
        assert(Seq::<char>::empty() != "intent"@) by {
            assert("intent"@.len() == 6);
        }
    }
}

/// A module action of the rack, on a module, goes to the rack unchanged:
/// the message's own action text (any of the six), its module id and its
/// `seq`.
pub proof fn law_module_action_forwarded(msg: Json, action: Seq<char>, module_id: i64)
    requires
        msg.str_at("op"@) == Some("intent"@),
        msg.str_at("kind"@) == Some("module-action"@),
        msg.str_at("action"@) == Some(action),
        action == "bypass"@ || action == "disconnect"@ || action == "reset"@ || action
            == "randomize"@ || action == "clone"@ || action == "delete"@,
        msg.i64_at("moduleId"@) == Some(module_id),
    ensures
        message_answer(msg) == (Answer::Forward {
            seq: msg.u64_at("seq"@),
            module_id,
            action,
        }),
{
    reveal_strlit("hello");
    reveal_strlit("intent");
    assert("hello"@[0] != "intent"@[0]);
}

/// Whatever the helper forwards to the rack is what the client asked for:
/// the action text and the module id of the message itself, under its
/// `seq`; nothing is forwarded for a message without them.
pub proof fn law_forward_is_as_asked(msg: Json)
    ensures
        message_answer(msg) matches Answer::Forward { seq, module_id, action } ==> {
            &&& msg.str_at("action"@) == Some(action)
            &&& msg.i64_at("moduleId"@) == Some(module_id)
            &&& seq == msg.u64_at("seq"@)
        },
{
    reveal_strlit("bypass");
    reveal_strlit("disconnect");
    reveal_strlit("reset");
    reveal_strlit("randomize");
    reveal_strlit("clone");
    reveal_strlit("delete");
    if msg.str_at("action"@) is None {
        assert(!known_action(Seq::<char>::empty()));
    }
}

/// An intent of any kind but `module-action` goes to the injector with its
/// own kind and `seq` (the whole message goes with it, see
/// [`carries_out`]).
pub proof fn law_intent_injected(msg: Json, kind: Seq<char>)
    requires
        msg.str_at("op"@) == Some("intent"@),
        msg.str_at("kind"@) == Some(kind),
        kind != "module-action"@,
    ensures
        message_answer(msg) == (Answer::Inject { seq: msg.u64_at("seq"@), kind }),
{
    reveal_strlit("hello");
    reveal_strlit("intent");
    assert("hello"@[0] != "intent"@[0]);
}

/// A module action that the rack does not have is refused with its name,
/// and nothing goes to the rack.
pub proof fn law_unknown_action_refused(msg: Json, action: Seq<char>)
    requires
        msg.str_at("op"@) == Some("intent"@),
        msg.str_at("kind"@) == Some("module-action"@),
        msg.str_at("action"@) == Some(action),
        action != "bypass"@ && action != "disconnect"@ && action != "reset"@ && action
            != "randomize"@ && action != "clone"@ && action != "delete"@,
    ensures
        message_answer(msg) == Answer::Text(
            err_text(msg.u64_at("seq"@), "unknown action: "@ + action),
        ),
{
    reveal_strlit("hello");
    reveal_strlit("intent");
    assert("hello"@[0] != "intent"@[0]);
}

} // verus!
