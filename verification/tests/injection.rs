use serde_json::Value;

use host_input_helper::injector::{
    f64_field, i64_field, plan_input, InputStep, Injector, LogInjector, MouseButton,
};
use host_input_helper::json::{Json, Num, ONE_BITS, ZERO_BITS};
use host_input_helper::scene::{Location, SceneCache, ScreenBox};

fn to_json(v: &Value) -> Json {
    match v {
        Value::Null => Json::Null,
        Value::Bool(b) => Json::Bool(*b),
        Value::Number(n) => Json::Number(if let Some(u) = n.as_u64() {
            Num::PosInt(u)
        } else if let Some(i) = n.as_i64() {
            Num::NegInt(i)
        } else {
            Num::Float(n.as_f64().unwrap().to_bits())
        }),
        Value::String(s) => Json::Str(s.clone()),
        Value::Array(a) => Json::Array(a.iter().map(to_json).collect()),
        Value::Object(m) => {
            Json::Object(m.iter().map(|(k, v)| (k.clone(), to_json(v))).collect())
        }
    }
}

fn parse(text: &str) -> Json {
    to_json(&serde_json::from_str::<Value>(text).expect("valid JSON"))
}

fn scene() -> SceneCache {
    SceneCache::from_envelope(&parse(
        r#"{"modules":[
            {"id": 1, "screenBox": [220, 180, 150, 380],
             "params": [{"id": 0, "x": 295, "y": 240}],
             "inputs": [{"id": 0, "x": 250, "y": 520}],
             "outputs": [{"id": 0, "x": 340, "y": 520}]},
            {"id": 2, "screenBox": [400, 180, 150, 380],
             "inputs": [{"id": 0, "x": 430, "y": 520}]}
        ]}"#,
    ))
}

fn plan(kind: &str, intent: &str) -> Result<Vec<InputStep>, String> {
    plan_input(kind, &parse(intent), &scene())
}

fn p(n: u64) -> Num {
    Num::PosInt(n)
}

#[test]
fn tap_and_context_click_the_target() {
    assert_eq!(
        plan("tap", r#"{"target":{"kind":"param","moduleId":1,"paramId":0}}"#),
        Ok(vec![
            InputStep::MoveTo(Location::At(p(295), p(240))),
            InputStep::Press(MouseButton::Left),
            InputStep::Release(MouseButton::Left),
        ])
    );
    assert_eq!(
        plan("context", r#"{"target":{"kind":"module","moduleId":1}}"#),
        Ok(vec![
            InputStep::MoveTo(Location::CenterOf(ScreenBox { x: p(220), y: p(180), w: p(150), h: p(380) })),
            InputStep::Press(MouseButton::Right),
            InputStep::Release(MouseButton::Right),
        ])
    );
    assert_eq!(plan("tap", r#"{}"#), Err("missing target".to_string()));
    assert_eq!(
        plan("context", r#"{"target":{"kind":"param","moduleId":3,"paramId":0}}"#),
        Err("target not in scene".to_string())
    );
}

#[test]
fn knob_drag_plans() {
    assert_eq!(
        plan("knob-drag", r#"{"moduleId":1,"paramId":0,"deltaPx":15.5}"#),
        Ok(vec![
            InputStep::MoveTo(Location::At(p(295), p(240))),
            InputStep::Press(MouseButton::Left),
            InputStep::MoveUp(Num::Float(15.5f64.to_bits())),
            InputStep::Release(MouseButton::Left),
        ])
    );
    assert_eq!(
        plan("knob-drag", r#"{"moduleId":1,"paramId":0,"fine":true}"#),
        Ok(vec![
            InputStep::ControlDown,
            InputStep::MoveTo(Location::At(p(295), p(240))),
            InputStep::Press(MouseButton::Left),
            InputStep::MoveUp(Num::Float(ZERO_BITS)),
            InputStep::Release(MouseButton::Left),
            InputStep::ControlUp,
        ])
    );
    assert_eq!(plan("knob-drag", r#"{"paramId":0}"#), Err("missing moduleId".to_string()));
    assert_eq!(plan("knob-drag", r#"{"moduleId":1}"#), Err("missing paramId".to_string()));
    assert_eq!(
        plan("knob-drag", r#"{"moduleId":-4,"paramId":12}"#),
        Err("unknown param -4/12".to_string())
    );
    assert_eq!(
        plan("knob-drag", r#"{"moduleId":2,"paramId":0}"#),
        Err("unknown param 2/0".to_string())
    );
}

#[test]
fn cable_plans() {
    assert_eq!(
        plan(
            "cable",
            r#"{"from":{"moduleId":1,"port":"output","portId":0},"to":{"moduleId":2,"port":"input","portId":0}}"#
        ),
        Ok(vec![
            InputStep::MoveTo(Location::At(p(340), p(520))),
            InputStep::Press(MouseButton::Left),
            InputStep::MoveTo(Location::At(p(430), p(520))),
            InputStep::Release(MouseButton::Left),
        ])
    );
    assert_eq!(plan("cable", r#"{"to":{}}"#), Err("missing from".to_string()));
    assert_eq!(plan("cable", r#"{"from":{}}"#), Err("missing to".to_string()));
    assert_eq!(
        plan("cable", r#"{"from":{"moduleId":1,"port":"output","portId":5},"to":{}}"#),
        Err("from port not in scene".to_string())
    );
    assert_eq!(
        plan("cable", r#"{"from":{"moduleId":1,"port":"output","portId":0},"to":{"moduleId":2,"port":"output","portId":0}}"#),
        Err("to port not in scene".to_string())
    );
}

#[test]
fn pan_and_zoom_plans() {
    assert_eq!(
        plan("pan", r#"{"dx":40.0,"dy":-20.0}"#),
        Ok(vec![InputStep::Pan { dx: Num::Float(40.0f64.to_bits()), dy: Num::Float((-20.0f64).to_bits()) }])
    );
    assert_eq!(
        plan("pan", r#"{}"#),
        Ok(vec![InputStep::Pan { dx: Num::Float(ZERO_BITS), dy: Num::Float(ZERO_BITS) }])
    );
    assert_eq!(
        plan("zoom", r#"{"factor":1.1,"anchor":{"x":960,"y":540}}"#),
        Ok(vec![InputStep::Zoom { factor: Num::Float(1.1f64.to_bits()), x: p(960), y: p(540) }])
    );
    assert_eq!(
        plan("zoom", r#"{"anchor":{"x":960,"y":540}}"#),
        Ok(vec![InputStep::Zoom { factor: Num::Float(ONE_BITS), x: p(960), y: p(540) }])
    );
    assert_eq!(ONE_BITS, 1.0f64.to_bits());
    assert_eq!(plan("zoom", r#"{"factor":2}"#), Err("missing anchor".to_string()));
    assert_eq!(plan("zoom", r#"{"anchor":{"y":1}}"#), Err("missing x".to_string()));
    assert_eq!(plan("zoom", r#"{"anchor":{"x":1}}"#), Err("missing y".to_string()));
}

#[test]
fn other_kinds_are_refused() {
    assert_eq!(
        plan("set-param", r#"{"moduleId":7,"paramId":2,"value":0.65}"#),
        Err("set-param not yet supported (needs Rack-side hook)".to_string())
    );
    assert_eq!(plan("wiggle", r#"{}"#), Err("unknown intent kind: wiggle".to_string()));
}

#[test]
fn log_injector_accepts_protocol_kinds() {
    let s = SceneCache::new();
    let j = parse("{}");
    for k in ["tap", "knob-drag", "cable", "pan", "zoom", "context", "set-param"] {
        assert_eq!(LogInjector.handle(k, &j, &s), Ok(()));
    }
    assert_eq!(
        LogInjector.handle("module-action", &j, &s),
        Err("unknown intent kind: module-action".to_string())
    );
    assert_eq!(LogInjector.handle("", &j, &s), Err("unknown intent kind: ".to_string()));
}

#[test]
fn field_helpers() {
    let j = parse(r#"{"a": 3, "b": 2.5, "c": "x", "d": 18446744073709551615}"#);
    assert_eq!(i64_field(&j, "a"), Ok(3));
    assert_eq!(i64_field(&j, "b"), Err("missing b".to_string()));
    assert_eq!(i64_field(&j, "d"), Err("missing d".to_string()));
    assert_eq!(f64_field(&j, "b"), Ok(Num::Float(2.5f64.to_bits())));
    assert_eq!(f64_field(&j, "c"), Err("missing c".to_string()));
    assert_eq!(host_input_helper::injector::stringify(42), "42");
    assert_eq!(host_input_helper::injector::stringify("boom"), "boom");
}
