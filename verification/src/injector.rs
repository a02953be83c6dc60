//! Turning intents into input: the injector interface, the logging
//! injector, and the plan of pointer and keyboard steps that carries out an
//! intent on the host.

use vstd::prelude::*;
use vstd::string::*;
use crate::json::{Json, Num, ONE_BITS, ZERO_BITS};
use crate::scene::{law_jack_resolves, law_point_target, module_in, names_jack, point_in, port_location, target_location, Location, ModuleModel, Point, SceneCache};
use crate::text::{push_signed_decimal, same_text, signed_decimal};

verus! {

/// An injector's result, as a mathematical value.
pub open spec fn result_view(result: Result<(), String>) -> Result<(), Seq<char>> {
    match result {
        Ok(()) => Ok(()),
        Err(e) => Err(e@),
    }
}

/// Something that carries out intents on the host.
pub trait Injector {
    /// Whether `result` is an outcome of carrying out the intent `intent` of
    /// kind `kind` against `scene`, as this injector describes its work; an
    /// injector that describes nothing admits every outcome.
    open spec fn outcome(
        &self,
        kind: Seq<char>,
        intent: Json,
        scene: Map<i64, ModuleModel>,
        result: Result<(), Seq<char>>,
    ) -> bool {
        true
    }

    /// Carries out the intent `intent` of kind `kind` against the current
    /// scene; `Err` holds the reason it could not.
    fn handle(&self, kind: &str, intent: &Json, scene: &SceneCache) -> (r: Result<(), String>)
        ensures
            self.outcome(kind@, *intent, scene@, result_view(r)),
    ;
}

/// The intent kinds of the protocol.
pub open spec fn known_intent_kind(kind: Seq<char>) -> bool {
    ||| kind == "tap"@
    ||| kind == "knob-drag"@
    ||| kind == "cable"@
    ||| kind == "pan"@
    ||| kind == "zoom"@
    ||| kind == "context"@
    ||| kind == "set-param"@
}

/// The reason given for an intent kind that the protocol does not have.
pub open spec fn unknown_kind_reason(kind: Seq<char>) -> Seq<char> {
    "unknown intent kind: "@ + kind
}

/// An injector that only accepts the intents (and whose user logs them).
pub struct LogInjector;

impl LogInjector {
    /// Whether `kind` is an intent kind of the protocol.
    pub fn is_known_kind(kind: &str) -> (r: bool)
        ensures
            r == known_intent_kind(kind@),
    {
        same_text(kind, "tap") || same_text(kind, "knob-drag") || same_text(kind, "cable")
            || same_text(kind, "pan") || same_text(kind, "zoom") || same_text(kind, "context")
            || same_text(kind, "set-param")
    }
}

/// What the logging injector does with an intent: accepts every intent
/// kind of the protocol and refuses any other with its reason.
pub open spec fn log_outcome(kind: Seq<char>) -> Result<(), Seq<char>> {
    if known_intent_kind(kind) {
        Ok(())
    } else {
        Err(unknown_kind_reason(kind))
    }
}

impl Injector for LogInjector {
    open spec fn outcome(
        &self,
        kind: Seq<char>,
        intent: Json,
        scene: Map<i64, ModuleModel>,
        result: Result<(), Seq<char>>,
    ) -> bool {
        result == log_outcome(kind)
    }

    /// Accepts every intent kind of the protocol and refuses any other.
    fn handle(&self, kind: &str, intent: &Json, scene: &SceneCache) -> (r: Result<(), String>)
        ensures
            r is Ok <==> known_intent_kind(kind@),
            r matches Err(e) ==> e@ == unknown_kind_reason(kind@),
    {
        if LogInjector::is_known_kind(kind) {
            Ok(())
        } else {
            let mut e = String::from_str("unknown intent kind: ");
            e.append(kind);
            Err(e)
        }
    }
}

/// A mouse button.
#[derive(Clone, Copy, Debug, PartialEq, Eq, Structural)]
pub enum MouseButton {
    Left,
    Right,
}

/// One step of synthesized input.
#[derive(Clone, Copy, Debug, PartialEq, Eq, Structural)]
pub enum InputStep {
    /// Move the pointer to a location (coordinates truncated to whole pixels).
    MoveTo(Location),
    /// Press a mouse button.
    Press(MouseButton),
    /// Release a mouse button.
    Release(MouseButton),
    /// Hold the fine-control modifier (Control).
    ControlDown,
    /// Release the fine-control modifier.
    ControlUp,
    /// Move the pointer up by the given number of pixels (truncated).
    MoveUp(Num),
    /// Pan the rack view by `(dx, dy)` window pixels: one scroll tick per
    /// whole 40 pixels, against the direction of the drag.
    Pan { dx: Num, dy: Num },
    /// Zoom by `factor` about `(x, y)`: Control and one vertical scroll tick
    /// per factor 1.1, rounded, at that point; nothing when that rounds to 0.
    Zoom { factor: Num, x: Num, y: Num },
}

/// A number member of `v`, or the given default.
pub open spec fn num_or(v: Json, key: Seq<char>, default: Num) -> Num {
    match v.num_at(key) {
        Some(n) => n,
        None => default,
    }
}

/// A click with `button` at `loc`.
pub open spec fn click(loc: Location, button: MouseButton) -> Seq<InputStep> {
    seq![InputStep::MoveTo(loc), InputStep::Press(button), InputStep::Release(button)]
}

/// A click on the target of an intent (`tap`, `context`).
pub open spec fn target_click(intent: Json, scene: Map<i64, ModuleModel>, button: MouseButton) -> Result<
    Seq<InputStep>,
    Seq<char>,
> {
    match intent.field("target"@) {
        None => Err("missing target"@),
        Some(target) => match target_location(scene, target) {
            None => Err("target not in scene"@),
            Some(loc) => Ok(click(loc, button)),
        },
    }
}

/// The reason given for a parameter that the scene does not have.
pub open spec fn unknown_param_reason(m: i64, p: i64) -> Seq<char> {
    "unknown param "@ + signed_decimal(m as int) + "/"@ + signed_decimal(p as int)
}

/// A vertical drag on a knob (`knob-drag`).
pub open spec fn knob_drag_plan(intent: Json, scene: Map<i64, ModuleModel>) -> Result<
    Seq<InputStep>,
    Seq<char>,
> {
    match intent.i64_at("moduleId"@) {
        None => Err("missing moduleId"@),
        Some(m) => match intent.i64_at("paramId"@) {
            None => Err("missing paramId"@),
            Some(p) => {
                let delta = num_or(intent, "deltaPx"@, Num::Float(ZERO_BITS));
                let fine = match intent.bool_at("fine"@) {
                    Some(b) => b,
                    None => false,
                };
                let pos = match module_in(scene, Some(m)) {
                    Some(module) => point_in(module.params, Some(p)),
                    None => None,
                };
                match pos {
                    None => Err(unknown_param_reason(m, p)),
                    Some((x, y)) => {
                        let drag = seq![
                            InputStep::MoveTo(Location::At(x, y)),
                            InputStep::Press(MouseButton::Left),
                            InputStep::MoveUp(delta),
                            InputStep::Release(MouseButton::Left),
                        ];
                        if fine {
                            Ok(seq![InputStep::ControlDown] + drag + seq![InputStep::ControlUp])
                        } else {
                            Ok(drag)
                        }
                    },
                }
            },
        },
    }
}

/// A drag from one jack to another (`cable`).
pub open spec fn cable_plan(intent: Json, scene: Map<i64, ModuleModel>) -> Result<
    Seq<InputStep>,
    Seq<char>,
> {
    match intent.field("from"@) {
        None => Err("missing from"@),
        Some(from) => match intent.field("to"@) {
            None => Err("missing to"@),
            Some(to) => match port_location(scene, from) {
                None => Err("from port not in scene"@),
                Some((x1, y1)) => match port_location(scene, to) {
                    None => Err("to port not in scene"@),
                    Some((x2, y2)) => Ok(
                        seq![
                            InputStep::MoveTo(Location::At(x1, y1)),
                            InputStep::Press(MouseButton::Left),
                            InputStep::MoveTo(Location::At(x2, y2)),
                            InputStep::Release(MouseButton::Left),
                        ],
                    ),
                },
            },
        },
    }
}

/// A zoom about an anchor point (`zoom`).
pub open spec fn zoom_plan(intent: Json) -> Result<Seq<InputStep>, Seq<char>> {
    let factor = num_or(intent, "factor"@, Num::Float(ONE_BITS));
    match intent.field("anchor"@) {
        None => Err("missing anchor"@),
        Some(anchor) => match anchor.num_at("x"@) {
            None => Err("missing x"@),
            Some(x) => match anchor.num_at("y"@) {
                None => Err("missing y"@),
                Some(y) => Ok(seq![InputStep::Zoom { factor, x, y }]),
            },
        },
    }
}

/// The input that carries out an intent of kind `kind`, or the reason it
/// cannot be carried out.
pub open spec fn input_plan(kind: Seq<char>, intent: Json, scene: Map<i64, ModuleModel>) -> Result<
    Seq<InputStep>,
    Seq<char>,
> {
    if kind == "tap"@ {
        target_click(intent, scene, MouseButton::Left)
    } else if kind == "knob-drag"@ {
        knob_drag_plan(intent, scene)
    } else if kind == "cable"@ {
        cable_plan(intent, scene)
    } else if kind == "pan"@ {
        Ok(
            seq![
                InputStep::Pan {
                    dx: num_or(intent, "dx"@, Num::Float(ZERO_BITS)),
                    dy: num_or(intent, "dy"@, Num::Float(ZERO_BITS)),
                },
            ],
        )
    } else if kind == "zoom"@ {
        zoom_plan(intent)
    } else if kind == "context"@ {
        target_click(intent, scene, MouseButton::Right)
    } else if kind == "set-param"@ {
        Err("set-param not yet supported (needs Rack-side hook)"@)
    } else {
        Err(unknown_kind_reason(kind))
    }
}

/// A number member of `v`, or the given default.
fn num_field_or(v: &Json, key: &str, default: Num) -> (r: Num)
    ensures
        r == num_or(*v, key@, default),
{
    match v.get_num(key) {
        Some(n) => n,
        None => default,
    }
}

/// The reason given for a missing member.
pub open spec fn missing_reason(key: Seq<char>) -> Seq<char> {
    "missing "@ + key
}

/// The member `key` as an `i64`, or `missing <key>`.
pub fn i64_field(v: &Json, key: &str) -> (r: Result<i64, String>)
    ensures
        match r {
            Ok(n) => v.i64_at(key@) == Some(n),
            Err(e) => v.i64_at(key@).is_none() && e@ == missing_reason(key@),
        },
{
    match v.get_i64(key) {
        Some(n) => Ok(n),
        None => {
            let mut e = String::from_str("missing ");
            e.append(key);
            Err(e)
        },
    }
}

/// The member `key` as a number (the `f64` it stands for), or
/// `missing <key>`.
pub fn f64_field(v: &Json, key: &str) -> (r: Result<Num, String>)
    ensures
        match r {
            Ok(n) => v.num_at(key@) == Some(n),
            Err(e) => v.num_at(key@).is_none() && e@ == missing_reason(key@),
        },
{
    match v.get_num(key) {
        Some(n) => Ok(n),
        None => {
            let mut e = String::from_str("missing ");
            e.append(key);
            Err(e)
        },
    }
}

/// The text of an error of the input backend.
pub fn stringify<E: std::fmt::Display>(e: E) -> (r: String)
    ensures
        to_string_from_display_ensures::<E>(&e, r),
{
    e.to_string()
}

/// `Err` holding the text `s`.
fn fail(s: &str) -> (r: Result<Vec<InputStep>, String>)
    ensures
        r matches Err(e) && e@ == s@,
{
    Err(String::from_str(s))
}

/// A click with `button` at `loc`.
fn click_steps(loc: Location, button: MouseButton) -> (r: Vec<InputStep>)
    ensures
        r@ == click(loc, button),
{
    let mut v: Vec<InputStep> = Vec::new();
    v.push(InputStep::MoveTo(loc));
    v.push(InputStep::Press(button));
    v.push(InputStep::Release(button));
    assert(v@ =~= click(loc, button));
    v
}

fn plan_target_click(intent: &Json, scene: &SceneCache, button: MouseButton) -> (r: Result<
    Vec<InputStep>,
    String,
>)
    ensures
        match r {
            Ok(steps) => target_click(*intent, scene@, button) == Ok::<Seq<InputStep>, Seq<char>>(steps@),
            Err(e) => target_click(*intent, scene@, button) == Err::<Seq<InputStep>, Seq<char>>(e@),
        },
{
    let target = match intent.get("target") {
        Some(t) => t,
        None => {
            return fail("missing target");
        },
    };
    match scene.resolve_target(target) {
        Some(loc) => Ok(click_steps(loc, button)),
        None => fail("target not in scene"),
    }
}

fn plan_knob_drag(intent: &Json, scene: &SceneCache) -> (r: Result<Vec<InputStep>, String>)
    ensures
        match r {
            Ok(steps) => knob_drag_plan(*intent, scene@) == Ok::<Seq<InputStep>, Seq<char>>(steps@),
            Err(e) => knob_drag_plan(*intent, scene@) == Err::<Seq<InputStep>, Seq<char>>(e@),
        },
{
    let m = match i64_field(intent, "moduleId") {
        Ok(m) => m,
        Err(e) => {
            proof {
                reveal_strlit("missing ");
                reveal_strlit("moduleId");
                reveal_strlit("missing moduleId");
                assert(e@ =~= "missing moduleId"@);
            }
            return Err(e);
        },
    };
    let p = match i64_field(intent, "paramId") {
        Ok(p) => p,
        Err(e) => {
            proof {
                reveal_strlit("missing ");
                reveal_strlit("paramId");
                reveal_strlit("missing paramId");
                assert(e@ =~= "missing paramId"@);
            }
            return Err(e);
        },
    };
    let delta = num_field_or(intent, "deltaPx", Num::Float(ZERO_BITS));
    let fine = match intent.get_bool("fine") {
        Some(b) => b,
        None => false,
    };
    let pos = match scene.modules.get(&m) {
        Some(module) => match module.params.get(&p) {
            Some(xy) => Some(*xy),
            None => None,
        },
        None => None,
    };
    assert(pos == match module_in(scene@, Some(m)) {
        Some(module) => point_in(module.params, Some(p)),
        None => None,
    });
    match pos {
        None => {
            let mut e = String::from_str("unknown param ");
            push_signed_decimal(&mut e, m);
            e.append("/");
            push_signed_decimal(&mut e, p);
            Err(e)
        },
        Some((x, y)) => {
            let mut v: Vec<InputStep> = Vec::new();
            if fine {
                v.push(InputStep::ControlDown);
            }
            v.push(InputStep::MoveTo(Location::At(x, y)));
            v.push(InputStep::Press(MouseButton::Left));
            v.push(InputStep::MoveUp(delta));
            v.push(InputStep::Release(MouseButton::Left));
            if fine {
                v.push(InputStep::ControlUp);
            }
            let ghost drag = seq![
                InputStep::MoveTo(Location::At(x, y)),
                InputStep::Press(MouseButton::Left),
                InputStep::MoveUp(delta),
                InputStep::Release(MouseButton::Left),
            ];
            assert(fine ==> v@ =~= seq![InputStep::ControlDown] + drag + seq![InputStep::ControlUp]);
            assert(!fine ==> v@ =~= drag);
            Ok(v)
        },
    }
}

fn plan_cable(intent: &Json, scene: &SceneCache) -> (r: Result<Vec<InputStep>, String>)
    ensures
        match r {
            Ok(steps) => cable_plan(*intent, scene@) == Ok::<Seq<InputStep>, Seq<char>>(steps@),
            Err(e) => cable_plan(*intent, scene@) == Err::<Seq<InputStep>, Seq<char>>(e@),
        },
{
    let from = match intent.get("from") {
        Some(f) => f,
        None => {
            return fail("missing from");
        },
    };
    let to = match intent.get("to") {
        Some(t) => t,
        None => {
            return fail("missing to");
        },
    };
    let (x1, y1) = match scene.resolve_port_ref(from) {
        Some(p) => p,
        None => {
            return fail("from port not in scene");
        },
    };
    let (x2, y2) = match scene.resolve_port_ref(to) {
        Some(p) => p,
        None => {
            return fail("to port not in scene");
        },
    };
    let mut v: Vec<InputStep> = Vec::new();
    v.push(InputStep::MoveTo(Location::At(x1, y1)));
    v.push(InputStep::Press(MouseButton::Left));
    v.push(InputStep::MoveTo(Location::At(x2, y2)));
    v.push(InputStep::Release(MouseButton::Left));
    assert(v@ =~= seq![
        InputStep::MoveTo(Location::At(x1, y1)),
        InputStep::Press(MouseButton::Left),
        InputStep::MoveTo(Location::At(x2, y2)),
        InputStep::Release(MouseButton::Left),
    ]);
    Ok(v)
}

fn plan_zoom(intent: &Json) -> (r: Result<Vec<InputStep>, String>)
    ensures
        match r {
            Ok(steps) => zoom_plan(*intent) == Ok::<Seq<InputStep>, Seq<char>>(steps@),
            Err(e) => zoom_plan(*intent) == Err::<Seq<InputStep>, Seq<char>>(e@),
        },
{
    let factor = num_field_or(intent, "factor", Num::Float(ONE_BITS));
    let anchor = match intent.get("anchor") {
        Some(a) => a,
        None => {
            return fail("missing anchor");
        },
    };
    let x = match f64_field(anchor, "x") {
        Ok(x) => x,
        Err(e) => {
            proof {
                reveal_strlit("missing ");
                reveal_strlit("x");
                reveal_strlit("missing x");
                assert(e@ =~= "missing x"@);
            }
            return Err(e);
        },
    };
    let y = match f64_field(anchor, "y") {
        Ok(y) => y,
        Err(e) => {
            proof {
                reveal_strlit("missing ");
                reveal_strlit("y");
                reveal_strlit("missing y");
                assert(e@ =~= "missing y"@);
            }
            return Err(e);
        },
    };
    let mut v: Vec<InputStep> = Vec::new();
    v.push(InputStep::Zoom { factor, x, y });
    assert(v@ =~= seq![InputStep::Zoom { factor, x, y }]);
    Ok(v)
}

/// The input that carries out the intent `intent` of kind `kind` on the
/// host, against the current scene: a click on the target (`tap` with the
/// left button, `context` with the right), a vertical drag on a parameter
/// (`knob-drag`, inside Control when `fine`), a drag from jack to jack
/// (`cable`), a pan or a zoom; `Err` with the reason when a member is
/// missing, a target is not in the scene, or the kind is not carried out.
pub fn plan_input(kind: &str, intent: &Json, scene: &SceneCache) -> (r: Result<
    Vec<InputStep>,
    String,
>)
    ensures
        match r {
            Ok(steps) => input_plan(kind@, *intent, scene@) == Ok::<Seq<InputStep>, Seq<char>>(steps@),
            Err(e) => input_plan(kind@, *intent, scene@) == Err::<Seq<InputStep>, Seq<char>>(e@),
        },
{
    if same_text(kind, "tap") {
        plan_target_click(intent, scene, MouseButton::Left)
    } else if same_text(kind, "knob-drag") {
        plan_knob_drag(intent, scene)
    } else if same_text(kind, "cable") {
        plan_cable(intent, scene)
    } else if same_text(kind, "pan") {
        let dx = num_field_or(intent, "dx", Num::Float(ZERO_BITS));
        let dy = num_field_or(intent, "dy", Num::Float(ZERO_BITS));
        let mut v: Vec<InputStep> = Vec::new();
        v.push(InputStep::Pan { dx, dy });
        assert(v@ =~= seq![InputStep::Pan { dx, dy }]);
        Ok(v)
    } else if same_text(kind, "zoom") {
        plan_zoom(intent)
    } else if same_text(kind, "context") {
        plan_target_click(intent, scene, MouseButton::Right)
    } else if same_text(kind, "set-param") {
        fail("set-param not yet supported (needs Rack-side hook)")
    } else {
        let mut e = String::from_str("unknown intent kind: ");
        e.append(kind);
        Err(e)
    }
}

/// The intent kinds are told apart.
proof fn lemma_intent_kinds_distinct()
    ensures
        "tap"@ != "knob-drag"@,
        "tap"@ != "cable"@,
        "tap"@ != "pan"@,
        "tap"@ != "zoom"@,
        "knob-drag"@ != "cable"@,
        "knob-drag"@ != "pan"@,
        "knob-drag"@ != "zoom"@,
        "cable"@ != "pan"@,
        "cable"@ != "zoom"@,
        "pan"@ != "zoom"@,
        "tap"@ != "context"@,
        "knob-drag"@ != "context"@,
        "cable"@ != "context"@,
        "pan"@ != "context"@,
        "zoom"@ != "context"@,
{
    reveal_strlit("tap");
    reveal_strlit("knob-drag");
    reveal_strlit("cable");
    reveal_strlit("pan");
    reveal_strlit("zoom");
    reveal_strlit("context");
    assert("tap"@[0] != "pan"@[0]);
    assert("tap"@.len() == 3 && "pan"@.len() == 3 && "zoom"@.len() == 4 && "cable"@.len() == 5);
    assert("context"@.len() == 7 && "knob-drag"@.len() == 9);
}

/// A knob drag on a parameter that the scene has: the pointer goes to the
/// parameter, presses, moves up by `deltaPx` (0 when that is not a number)
/// and releases; Control is held around the drag when `fine` is `true`, and
/// only then (not for `false`, not when `fine` is missing or not a bool).
pub proof fn law_knob_drag_on_param(intent: Json, scene: Map<i64, ModuleModel>, m: i64, p: i64)
    requires
        intent.i64_at("moduleId"@) == Some(m),
        intent.i64_at("paramId"@) == Some(p),
        scene.contains_key(m),
        scene[m].params.contains_key(p),
    ensures
        ({
            let (x, y) = scene[m].params[p];
            let delta = match intent.num_at("deltaPx"@) {
                Some(d) => d,
                None => Num::Float(ZERO_BITS),
            };
            let drag = seq![
                InputStep::MoveTo(Location::At(x, y)),
                InputStep::Press(MouseButton::Left),
                InputStep::MoveUp(delta),
                InputStep::Release(MouseButton::Left),
            ];
            &&& intent.bool_at("fine"@) == Some(true) ==> input_plan("knob-drag"@, intent, scene)
                == Ok::<Seq<InputStep>, Seq<char>>(
                seq![InputStep::ControlDown] + drag + seq![InputStep::ControlUp],
            )
            &&& intent.bool_at("fine"@) != Some(true) ==> input_plan("knob-drag"@, intent, scene)
                == Ok::<Seq<InputStep>, Seq<char>>(drag)
        }),
{
    lemma_intent_kinds_distinct();
}

/// A knob drag on a parameter that the scene does not have is refused and
/// moves nothing.
pub proof fn law_knob_drag_off_scene(intent: Json, scene: Map<i64, ModuleModel>, m: i64, p: i64)
    requires
        intent.i64_at("moduleId"@) == Some(m),
        intent.i64_at("paramId"@) == Some(p),
        !(scene.contains_key(m) && scene[m].params.contains_key(p)),
    ensures
        input_plan("knob-drag"@, intent, scene) == Err::<Seq<InputStep>, Seq<char>>(
            unknown_param_reason(m, p),
        ),
{
    lemma_intent_kinds_distinct();
}

/// A cable between two jacks that the scene has, in either direction
/// (input to output or output to input): the pointer presses on the `from`
/// jack, moves to the `to` jack and releases there.
pub proof fn law_cable_between_jacks(
    intent: Json,
    scene: Map<i64, ModuleModel>,
    from: Json,
    to: Json,
    a: Point,
    b: Point,
)
    requires
        intent.field("from"@) == Some(from),
        intent.field("to"@) == Some(to),
        names_jack(scene, from, a),
        names_jack(scene, to, b),
    ensures
        input_plan("cable"@, intent, scene) == Ok::<Seq<InputStep>, Seq<char>>(
            seq![
                InputStep::MoveTo(Location::At(a.0, a.1)),
                InputStep::Press(MouseButton::Left),
                InputStep::MoveTo(Location::At(b.0, b.1)),
                InputStep::Release(MouseButton::Left),
            ],
        ),
{
    lemma_intent_kinds_distinct();
    law_jack_resolves(scene, from, a);
    law_jack_resolves(scene, to, b);
}

/// A tap or a context click on a `point` target clicks (left or right)
/// exactly at its `x` and `y`, whatever numbers they are.
pub proof fn law_click_on_point(intent: Json, scene: Map<i64, ModuleModel>, target: Json, x: Num, y: Num)
    requires
        intent.field("target"@) == Some(target),
        target.str_at("kind"@) == Some("point"@),
        target.num_at("x"@) == Some(x),
        target.num_at("y"@) == Some(y),
    ensures
        input_plan("tap"@, intent, scene) == Ok::<Seq<InputStep>, Seq<char>>(
            seq![
                InputStep::MoveTo(Location::At(x, y)),
                InputStep::Press(MouseButton::Left),
                InputStep::Release(MouseButton::Left),
            ],
        ),
        input_plan("context"@, intent, scene) == Ok::<Seq<InputStep>, Seq<char>>(
            seq![
                InputStep::MoveTo(Location::At(x, y)),
                InputStep::Press(MouseButton::Right),
                InputStep::Release(MouseButton::Right),
            ],
        ),
{
    lemma_intent_kinds_distinct();
    law_point_target(scene, target);
}

/// A pan moves the view by the intent's `dx` and `dy` exactly as given,
/// whole numbers and fractions alike; only a missing or non-number member
/// counts as 0. It needs nothing of the scene.
pub proof fn law_pan_by_deltas(intent: Json, scene: Map<i64, ModuleModel>)
    ensures
        input_plan("pan"@, intent, scene) == Ok::<Seq<InputStep>, Seq<char>>(
            seq![
                InputStep::Pan {
                    dx: match intent.num_at("dx"@) {
                        Some(n) => n,
                        None => Num::Float(ZERO_BITS),
                    },
                    dy: match intent.num_at("dy"@) {
                        Some(n) => n,
                        None => Num::Float(ZERO_BITS),
                    },
                },
            ],
        ),
{
    lemma_intent_kinds_distinct();
}

/// A zoom about an anchor with numeric `x` and `y` zooms by `factor` (1
/// when that is not a number) about exactly that point, in any scene.
pub proof fn law_zoom_about_anchor(intent: Json, scene: Map<i64, ModuleModel>, anchor: Json, x: Num, y: Num)
    requires
        intent.field("anchor"@) == Some(anchor),
        anchor.num_at("x"@) == Some(x),
        anchor.num_at("y"@) == Some(y),
    ensures
        input_plan("zoom"@, intent, scene) == Ok::<Seq<InputStep>, Seq<char>>(
            seq![
                InputStep::Zoom {
                    factor: match intent.num_at("factor"@) {
                        Some(n) => n,
                        None => Num::Float(ONE_BITS),
                    },
                    x,
                    y,
                },
            ],
        ),
{
    lemma_intent_kinds_distinct();
}

/// An intent kind outside the protocol is refused with its name, and
/// `set-param` is refused as not carried out; neither moves anything.
pub proof fn law_unplanned_kinds_refused(kind: Seq<char>, intent: Json, scene: Map<i64, ModuleModel>)
    ensures
        kind != "tap"@ && kind != "knob-drag"@ && kind != "cable"@ && kind != "pan"@ && kind
            != "zoom"@ && kind != "context"@ && kind != "set-param"@ ==> input_plan(
            kind,
            intent,
            scene,
        ) == Err::<Seq<InputStep>, Seq<char>>("unknown intent kind: "@ + kind),
        input_plan("set-param"@, intent, scene) is Err,
{
    lemma_intent_kinds_distinct();
    reveal_strlit("set-param");
    reveal_strlit("tap");
    reveal_strlit("knob-drag");
    reveal_strlit("cable");
    reveal_strlit("pan");
    reveal_strlit("zoom");
    reveal_strlit("context");
    assert("tap"@.len() == 3 && "pan"@.len() == 3 && "zoom"@.len() == 4 && "cable"@.len() == 5);
    assert("context"@.len() == 7 && "set-param"@.len() == 9);
    assert("set-param"@[0] != "knob-drag"@[0]);
}

} // verus!
