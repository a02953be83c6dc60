use serde_json::Value;

use host_input_helper::bridge::{handle_inbound, BridgeLink, HelperState, Inbound};
use host_input_helper::injector::LogInjector;
use host_input_helper::json::{Json, Num};
use host_input_helper::server::{
    action_reply, carry_out_intent, handle_client_text, handle_text, parse_failure_reply, Incoming,
};
use host_input_helper::scene::SceneCache;

const BRIDGE_SNAPSHOT: &str = r#"{
  "t": 0.0,
  "window": {"w": 1920, "h": 1080},
  "view": {"zoom": 1.0},
  "hovered": {"kind": "none"},
  "modules": [
    {"id": 1, "name": "VCO",
     "screenBox": [220, 180, 150, 380],
     "params":  [{"id": 0, "name": "Freq", "x": 295, "y": 240}],
     "inputs":  [{"id": 0, "name": "V/OCT", "x": 250, "y": 520}],
     "outputs": [{"id": 0, "name": "SIN",   "x": 340, "y": 520}]},
    {"id": 2, "name": "VCF",
     "screenBox": [400, 180, 150, 380],
     "params":  [{"id": 0, "name": "Cutoff", "x": 475, "y": 240}],
     "inputs":  [{"id": 0, "name": "IN",     "x": 430, "y": 520}],
     "outputs": [{"id": 0, "name": "OUT",    "x": 520, "y": 520}]}
  ]
}"#;

fn to_json(v: &Value) -> Json {
    match v {
        Value::Null => Json::Null,
        Value::Bool(b) => Json::Bool(*b),
        Value::Number(n) => Json::Number(if let Some(u) = n.as_u64() {
            Num::PosInt(u)
        } else if let Some(i) = n.as_i64() {
            Num::NegInt(i)
        } else {
            Num::Float(n.as_f64().unwrap().to_bits())
        }),
        Value::String(s) => Json::Str(s.clone()),
        Value::Array(a) => Json::Array(a.iter().map(to_json).collect()),
        Value::Object(m) => {
            Json::Object(m.iter().map(|(k, v)| (k.clone(), to_json(v))).collect())
        }
    }
}

fn parse(text: &str) -> Json {
    to_json(&serde_json::from_str::<Value>(text).expect("valid JSON"))
}

fn reply_text(i: Incoming) -> String {
    match i {
        Incoming::Reply(t) => t,
        other => panic!("expected a reply, got {other:?}"),
    }
}

/// What the helper answers to a client's text, the logging injector
/// carrying out intents.
fn answer(text: &str, scene: &SceneCache) -> Option<String> {
    match handle_client_text(text) {
        Incoming::Silent => None,
        Incoming::Reply(t) | Incoming::Close(t) => Some(t),
        Incoming::Inject { seq, kind, intent } => {
            Some(carry_out_intent(&LogInjector, seq, &kind, &intent, scene).1)
        }
        Incoming::ForwardAction { .. } => panic!("no module action here"),
    }
}

fn helper_with_snapshot() -> HelperState {
    let mut state = HelperState::new();
    let mut link: BridgeLink<u8> = BridgeLink::new();
    let line = BRIDGE_SNAPSHOT.replace('\n', " ");
    match handle_inbound(parse(&line), &mut state, &mut link.inflight) {
        Inbound::Snapshot => {}
        _ => panic!("snapshot expected"),
    }
    state
}

#[test]
fn end_to_end_pipeline() {
    let state = helper_with_snapshot();
    assert_eq!(answer(r#"{"op":"hello","v":1,"client":"test"}"#, &state.scene), None);

    let snap = state.last.as_ref().expect("a snapshot is kept");
    assert_eq!(snap.get_str("op").map(|s| s.as_str()), Some("snapshot"));
    assert_eq!(snap.get_u64("v"), Some(1));
    match snap.get_array("modules") {
        Some(mods) => assert_eq!(mods[0].get_i64("id"), Some(1)),
        None => panic!("modules is an array"),
    }

    let intents = vec![
        r#"{"op":"intent","kind":"tap","target":{"kind":"param","moduleId":1,"paramId":0},"seq":1}"#,
        r#"{"op":"intent","kind":"knob-drag","moduleId":1,"paramId":0,"deltaPx":15.5,"seq":2}"#,
        r#"{"op":"intent","kind":"cable","from":{"moduleId":1,"port":"output","portId":0},"to":{"moduleId":2,"port":"input","portId":0},"seq":3}"#,
        r#"{"op":"intent","kind":"pan","dx":40.0,"dy":-20.0,"seq":4}"#,
        r#"{"op":"intent","kind":"zoom","factor":1.1,"anchor":{"x":960,"y":540},"seq":5}"#,
        r#"{"op":"intent","kind":"context","target":{"kind":"module","moduleId":1},"seq":6}"#,
    ];
    for (i, intent) in intents.iter().enumerate() {
        let seq = i + 1;
        let reply = answer(intent, &state.scene).expect("a reply");
        let v: Value = serde_json::from_str(&reply).unwrap();
        assert_eq!(v["op"], "ack", "intent seq={seq}: {reply}");
        assert_eq!(v["seq"], seq as u64);
    }
}

#[test]
fn unknown_intent_kind_is_err() {
    let state = helper_with_snapshot();
    let reply = answer(r#"{"op":"intent","kind":"do-the-thing","seq":42}"#, &state.scene).unwrap();
    let v: Value = serde_json::from_str(&reply).unwrap();
    assert_eq!(v["op"], "err");
    assert_eq!(v["seq"], 42);
    assert!(v
        .get("reason")
        .and_then(|x| x.as_str())
        .unwrap_or("")
        .contains("unknown intent kind"));
    assert_eq!(reply, r#"{"op":"err","seq":42,"reason":"unknown intent kind: do-the-thing"}"#);
}

#[test]
fn unknown_op_is_err() {
    let state = helper_with_snapshot();
    let reply = answer(r#"{"op":"yolo","seq":7}"#, &state.scene).unwrap();
    let v: Value = serde_json::from_str(&reply).unwrap();
    assert_eq!(v["op"], "err");
    assert_eq!(reply, r#"{"op":"err","seq":7,"reason":"unknown op"}"#);
}

#[test]
fn message_without_op_is_unknown_op_without_seq() {
    let state = HelperState::new();
    let reply = reply_text(handle_text(parse(r#"{"kind":"tap"}"#)));
    assert_eq!(reply, r#"{"op":"err","reason":"unknown op"}"#);
}

#[test]
fn hello_versions() {
    let state = HelperState::new();
    for ok in [r#"{"op":"hello"}"#, r#"{"op":"hello","v":0}"#, r#"{"op":"hello","v":1,"client":"web-prototype"}"#] {
        assert!(matches!(handle_text(parse(ok)), Incoming::Silent));
    }
    for ok in [r#"{"op":"hello","v":1.0}"#, r#"{"op":"hello","v":-1}"#, r#"{"op":"hello","v":0.5}"#, r#"{"op":"hello","v":"7"}"#, r#"{"op":"hello","v":-2.5}"#] {
        assert!(matches!(handle_text(parse(ok)), Incoming::Silent), "{ok}");
    }
    for refused in [r#"{"op":"hello","v":2}"#, r#"{"op":"hello","v":1.5}"#, r#"{"op":"hello","v":1e300}"#] {
        match handle_text(parse(refused)) {
            Incoming::Close(t) => assert_eq!(t, r#"{"op":"err","reason":"unsupported-version"}"#),
            other => panic!("expected a refusal, got {other:?}"),
        }
    }
}

#[test]
fn set_param_is_accepted_by_the_log_injector() {
    let state = HelperState::new();
    let msg = r#"{"op":"intent","kind":"set-param","moduleId":7,"paramId":2,"value":0.65,"seq":23}"#;
    assert_eq!(answer(msg, &state.scene).unwrap(), r#"{"op":"ack","seq":23}"#);
}

#[test]
fn intent_without_seq_is_acked_without_seq() {
    let state = HelperState::new();
    let msg = r#"{"op":"intent","kind":"pan","dx":1,"dy":2}"#;
    assert_eq!(answer(msg, &state.scene).unwrap(), r#"{"op":"ack"}"#);
}

#[test]
fn module_action_is_forwarded() {
    let state = HelperState::new();
    let msg = parse(r#"{"op":"intent","kind":"module-action","action":"bypass","moduleId":7,"seq":30}"#);
    match handle_text(msg) {
        Incoming::ForwardAction { seq, module_id, action } => {
            assert_eq!(seq, Some(30));
            assert_eq!(module_id, 7);
            assert_eq!(action, "bypass");
        }
        other => panic!("expected a forward, got {other:?}"),
    }
}

#[test]
fn module_action_unknown_action_is_err() {
    let state = HelperState::new();
    let msg = parse(r#"{"op":"intent","kind":"module-action","action":"explode","moduleId":7,"seq":31}"#);
    assert_eq!(
        reply_text(handle_text(msg)),
        r#"{"op":"err","seq":31,"reason":"unknown action: explode"}"#
    );
    let msg = parse(r#"{"op":"intent","kind":"module-action","moduleId":7,"seq":32}"#);
    assert_eq!(
        reply_text(handle_text(msg)),
        r#"{"op":"err","seq":32,"reason":"unknown action: "}"#
    );
}

#[test]
fn module_action_missing_module_is_err() {
    let state = HelperState::new();
    let msg = parse(r#"{"op":"intent","kind":"module-action","action":"delete","seq":33}"#);
    assert_eq!(
        reply_text(handle_text(msg)),
        r#"{"op":"err","seq":33,"reason":"missing moduleId"}"#
    );
}

#[test]
fn action_outcomes_are_answered() {
    assert_eq!(action_reply(Some(5), &Some(Ok(()))), r#"{"op":"ack","seq":5}"#);
    assert_eq!(
        action_reply(Some(5), &Some(Err("bridge-disconnected".to_string()))),
        r#"{"op":"err","seq":5,"reason":"bridge-disconnected"}"#
    );
    assert_eq!(action_reply(Some(5), &None), r#"{"op":"err","seq":5,"reason":"action-timeout"}"#);
    assert_eq!(action_reply(None, &None), r#"{"op":"err","reason":"action-timeout"}"#);
}

#[test]
fn intents_go_to_the_injector_with_the_whole_message() {
    match handle_client_text(r#"{"op":"intent","kind":"tap","seq":9,"target":{"kind":"point","x":1,"y":2}}"#) {
        Incoming::Inject { seq, kind, intent } => {
            assert_eq!(seq, Some(9));
            assert_eq!(kind, "tap");
            assert_eq!(intent, parse(r#"{"op":"intent","kind":"tap","seq":9,"target":{"kind":"point","x":1,"y":2}}"#));
        }
        other => panic!("expected an injection, got {other:?}"),
    }
}

#[test]
fn text_that_is_not_json_is_refused() {
    assert_eq!(
        answer("{nope", &HelperState::new().scene),
        Some(r#"{"op":"err","reason":"parse: key must be a string at line 1 column 2"}"#.to_string())
    );
}

#[test]
fn parse_failure_has_no_seq() {
    assert_eq!(
        parse_failure_reply("EOF while parsing a value at line 1 column 0"),
        r#"{"op":"err","reason":"parse: EOF while parsing a value at line 1 column 0"}"#
    );
}
