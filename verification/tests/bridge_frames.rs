use serde_json::Value;

use host_input_helper::bridge::{
    disconnected, encode_action, handle_bridge_line, handle_inbound, AssetCache, BridgeLine, BridgeLink, HelperState, Inbound,
};
use host_input_helper::json::{Json, Num};
use host_input_helper::scene::Location;
use host_input_helper::server::{ack_reply, err_reply, is_known_action};

fn to_json(v: &Value) -> Json {
    match v {
        Value::Null => Json::Null,
        Value::Bool(b) => Json::Bool(*b),
        Value::Number(n) => Json::Number(if let Some(u) = n.as_u64() {
            Num::PosInt(u)
        } else if let Some(i) = n.as_i64() {
            Num::NegInt(i)
        } else {
            Num::Float(n.as_f64().unwrap().to_bits())
        }),
        Value::String(s) => Json::Str(s.clone()),
        Value::Array(a) => Json::Array(a.iter().map(to_json).collect()),
        Value::Object(m) => {
            Json::Object(m.iter().map(|(k, v)| (k.clone(), to_json(v))).collect())
        }
    }
}

fn parse(text: &str) -> Json {
    to_json(&serde_json::from_str::<Value>(text).expect("valid JSON"))
}

#[test]
fn asset_cache_keeps_first_seen_order_and_latest_frame() {
    let mut cache: AssetCache<String> = AssetCache::new();
    assert_eq!(cache.len(), 0);
    cache.insert("a/one".to_string(), "1".to_string());
    cache.insert("b/two".to_string(), "2".to_string());
    cache.insert("a/one".to_string(), "1'".to_string());
    cache.insert("c/three".to_string(), "3".to_string());
    assert_eq!(cache.len(), 3);
    let frames: Vec<&String> = cache.ordered_frames();
    assert_eq!(frames, vec!["1'", "2", "3"]);
    assert_eq!(cache.get("b/two").map(|s| s.as_str()), Some("2"));
    assert_eq!(cache.get("d/four"), None);
}

#[test]
fn bare_snapshot_is_stamped_and_kept() {
    let mut state = HelperState::new();
    let mut link: BridgeLink<u8> = BridgeLink::new();
    let raw = parse(r#"{"t": 1.5, "v": 9, "modules": [{"id": 3, "params": [{"id": 1, "x": 4, "y": 5}]}]}"#);
    assert!(matches!(handle_inbound(raw, &mut state, &mut link.inflight), Inbound::Snapshot));
    let last = state.last.as_ref().unwrap();
    assert_eq!(last.get_str("op").map(|s| s.as_str()), Some("snapshot"));
    assert_eq!(last.get_num("v"), Some(Num::PosInt(1)));
    assert_eq!(last.get_num("t"), Some(Num::Float(1.5f64.to_bits())));
    assert_eq!(
        state.scene.resolve_target(&parse(r#"{"kind":"param","moduleId":3,"paramId":1}"#)),
        Some(Location::At(Num::PosInt(4), Num::PosInt(5)))
    );
    let frames = state.greeting_frames();
    assert_eq!(frames.len(), 1);

    // a later snapshot with an op replaces the scene as it is
    let next = parse(r#"{"op": "snapshot", "modules": []}"#);
    assert!(matches!(handle_inbound(next, &mut state, &mut link.inflight), Inbound::Snapshot));
    assert!(state.scene.modules.is_empty());
    assert_eq!(state.last.as_ref().unwrap().get_num("v"), None);
}

#[test]
fn assets_are_cached_and_replayed_before_the_snapshot() {
    let mut state = HelperState::new();
    let mut link: BridgeLink<u8> = BridgeLink::new();
    let asset = parse(r#"{"op":"module-asset","pluginSlug":"Fundamental","modelSlug":"VCO","svg":"<svg/>"}"#);
    match handle_inbound(asset, &mut state, &mut link.inflight) {
        Inbound::Asset(key) => assert_eq!(key, "Fundamental/VCO"),
        _ => panic!("asset expected"),
    }
    let missing = parse(r#"{"op":"module-asset","pluginSlug":"","modelSlug":"VCO"}"#);
    assert!(matches!(handle_inbound(missing, &mut state, &mut link.inflight), Inbound::MissingSlugs));
    let missing = parse(r#"{"op":"module-asset","modelSlug":"VCO"}"#);
    assert!(matches!(handle_inbound(missing, &mut state, &mut link.inflight), Inbound::MissingSlugs));
    assert_eq!(state.assets.len(), 1);
    let snap = parse(r#"{"modules": []}"#);
    handle_inbound(snap, &mut state, &mut link.inflight);
    let frames = state.greeting_frames();
    assert_eq!(frames.len(), 2);
    assert_eq!(frames[0].get_str("svg").map(|s| s.as_str()), Some("<svg/>"));
    assert_eq!(frames[1].get_str("op").map(|s| s.as_str()), Some("snapshot"));
}

#[test]
fn action_acks_settle_pending_actions_once() {
    let mut state = HelperState::new();
    let mut link: BridgeLink<&str> = BridgeLink::new();
    let (s1, frame) = link.next_action(7, "bypass");
    assert_eq!(s1, 1);
    assert_eq!(frame, "{\"op\":\"module-action\",\"seq\":1,\"moduleId\":7,\"action\":\"bypass\"}\n");
    assert!(link.after_write(s1, "first", true).is_none());
    let (s2, _) = link.next_action(-2, "delete");
    assert!(link.after_write(s2, "second", true).is_none());
    let (s3, _) = link.next_action(3, "reset");
    assert!(link.after_write(s3, "third", true).is_none());

    let ack = r#"{"op":"action-ack","seq":1,"ok":true}"#;
    match handle_inbound(parse(ack), &mut state, &mut link.inflight) {
        Inbound::Settled { reply, result } => {
            assert_eq!(reply, "first");
            assert_eq!(result, Ok(()));
        }
        _ => panic!("settled expected"),
    }
    assert!(matches!(handle_inbound(parse(ack), &mut state, &mut link.inflight), Inbound::Unmatched));
    match handle_inbound(parse(r#"{"op":"action-ack","seq":2,"ok":false,"reason":"no such module"}"#), &mut state, &mut link.inflight) {
        Inbound::Settled { reply, result } => {
            assert_eq!(reply, "second");
            assert_eq!(result, Err("no such module".to_string()));
        }
        _ => panic!("settled expected"),
    }
    match handle_inbound(parse(r#"{"op":"action-ack","seq":3}"#), &mut state, &mut link.inflight) {
        Inbound::Settled { result, .. } => assert_eq!(result, Err("action-failed".to_string())),
        _ => panic!("settled expected"),
    }
    assert!(matches!(handle_inbound(parse(r#"{"op":"action-ack","ok":true}"#), &mut state, &mut link.inflight), Inbound::Unmatched));
    assert!(link.inflight.is_empty());
}

#[test]
fn disconnect_hands_back_pending_actions() {
    let mut link: BridgeLink<u32> = BridgeLink::new();
    let (s1, _) = link.next_action(1, "clone");
    assert!(link.after_write(s1, 10, true).is_none());
    let (s2, _) = link.next_action(1, "clone");
    assert!(link.after_write(s2, 20, true).is_none());
    let pending = link.disconnect();
    assert_eq!(pending.len(), 2);
    assert!(link.inflight.is_empty());
    let (s3, _) = link.next_action(1, "clone");
    assert_eq!(s3, 3);
}

#[test]
fn sequence_numbers_wrap() {
    let mut link: BridgeLink<u32> = BridgeLink::new();
    link.seq_counter = u64::MAX - 1;
    assert_eq!(link.next_action(1, "reset").0, u64::MAX);
    assert_eq!(link.next_action(1, "reset").0, 0);
}

#[test]
fn unknown_ops_and_non_objects_are_dropped() {
    let mut state = HelperState::new();
    let mut link: BridgeLink<u8> = BridgeLink::new();
    match handle_inbound(parse(r#"{"op":"ping"}"#), &mut state, &mut link.inflight) {
        Inbound::UnknownOp(op) => assert_eq!(op, "ping"),
        _ => panic!("unknown op expected"),
    }
    match handle_inbound(parse(r#"[1, 2]"#), &mut state, &mut link.inflight) {
        Inbound::UnknownOp(op) => assert_eq!(op, ""),
        _ => panic!("unknown op expected"),
    }
    assert!(state.last.is_none());
}

#[test]
fn encode_action_quotes_the_action() {
    assert_eq!(
        encode_action(18446744073709551615, -9223372036854775808, "a\"b\\c\n"),
        "{\"op\":\"module-action\",\"seq\":18446744073709551615,\"moduleId\":-9223372036854775808,\"action\":\"a\\\"b\\\\c\\n\"}\n"
    );
    assert_eq!(
        encode_action(0, 0, "reset"),
        "{\"op\":\"module-action\",\"seq\":0,\"moduleId\":0,\"action\":\"reset\"}\n"
    );
}

#[test]
fn replies_are_exact() {
    assert_eq!(ack_reply(Some(18)), r#"{"op":"ack","seq":18}"#);
    assert_eq!(ack_reply(None), r#"{"op":"ack"}"#);
    assert_eq!(err_reply(Some(19), "unknown-port"), r#"{"op":"err","seq":19,"reason":"unknown-port"}"#);
    assert_eq!(err_reply(None, "say \"hi\""), r#"{"op":"err","reason":"say \"hi\""}"#);
    assert_eq!(ack_reply(Some(u64::MAX)), r#"{"op":"ack","seq":18446744073709551615}"#);
}

#[test]
fn known_actions() {
    for a in ["bypass", "disconnect", "reset", "randomize", "clone", "delete"] {
        assert!(is_known_action(a));
    }
    assert!(!is_known_action("Bypass"));
    assert!(!is_known_action(""));
}

#[test]
fn bridge_lines_are_parsed_or_dropped() {
    let mut state = HelperState::new();
    let mut link: BridgeLink<u8> = BridgeLink::new();
    assert!(matches!(handle_bridge_line("not json\n", &mut state, &mut link.inflight), BridgeLine::Unreadable));
    assert!(state.last.is_none());
    match handle_bridge_line("{\"modules\":[{\"id\":4}]}\r\n", &mut state, &mut link.inflight) {
        BridgeLine::Frame(Inbound::Snapshot) => {}
        _ => panic!("snapshot expected"),
    }
    assert_eq!(state.scene.modules.len(), 1);
}

#[test]
fn blank_bridge_lines_are_skipped() {
    let mut state = HelperState::new();
    let mut link: BridgeLink<u8> = BridgeLink::new();
    for blank in ["", "\n", "  \r\n", "\t\u{a0}\u{3000}\n"] {
        assert!(matches!(handle_bridge_line(blank, &mut state, &mut link.inflight), BridgeLine::Blank));
    }
    assert!(state.last.is_none());
}

#[test]
fn unicode_trailing_whitespace_is_dropped_before_parsing() {
    let mut state = HelperState::new();
    let mut link: BridgeLink<u8> = BridgeLink::new();
    match handle_bridge_line("{\"modules\":[]}\u{a0}\u{2028}\n", &mut state, &mut link.inflight) {
        BridgeLine::Frame(Inbound::Snapshot) => {}
        _ => panic!("snapshot expected"),
    }
    assert!(state.last.is_some());
    // Leading whitespace stays; JSON whitespace before the frame is still accepted.
    match handle_bridge_line("  {\"modules\":[]}\n", &mut state, &mut link.inflight) {
        BridgeLine::Frame(Inbound::Snapshot) => {}
        _ => panic!("snapshot expected"),
    }
    assert!(matches!(
        handle_bridge_line("\u{a0}{\"modules\":[]}\n", &mut state, &mut link.inflight),
        BridgeLine::Unreadable
    ));
}

#[test]
fn failed_writes_are_answered_at_once() {
    let mut link: BridgeLink<&str> = BridgeLink::new();
    let (s1, _) = link.next_action(1, "reset");
    match link.after_write(s1, "lost", false) {
        Some((reply, answer)) => {
            assert_eq!(reply, "lost");
            assert_eq!(answer, Err("bridge-disconnected".to_string()));
        }
        None => panic!("an answer expected"),
    }
    assert!(link.inflight.is_empty());
}

#[test]
fn disconnected_reason() {
    assert_eq!(disconnected(), Err("bridge-disconnected".to_string()));
}

#[test]
fn control_characters_are_escaped() {
    assert_eq!(
        err_reply(None, "a\u{1}\t\u{8}\u{c}\r\u{1f}b\u{7f}é"),
        "{\"op\":\"err\",\"reason\":\"a\\u0001\\t\\b\\f\\r\\u001fb\u{7f}é\"}"
    );
}

#[test]
fn asset_series_keeps_first_seen_order() {
    let mut cache: AssetCache<u32> = AssetCache::new();
    for (k, f) in [("b", 1), ("a", 2), ("b", 3), ("c", 4), ("a", 5)] {
        cache.insert(k.to_string(), f);
    }
    let frames: Vec<u32> = cache.ordered_frames().into_iter().copied().collect();
    assert_eq!(frames, vec![3, 5, 4]);
}
