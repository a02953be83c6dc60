//! The scene cache: where every module, parameter and jack of the rack is on
//! the screen, as the latest snapshot describes it, and the resolution of
//! semantic targets to screen positions.

use std::collections::HashMap;
use vstd::prelude::*;
use crate::json::{Json, Num, ZERO_BITS};
use crate::text::same_text;

verus! {

broadcast use vstd::std_specs::hash::group_hash_axioms;

/// A point of the screen: `(x, y)` in window pixels.
pub type Point = (Num, Num);

/// A module's rectangle on the screen: left, top, width, height.
#[derive(Clone, Copy, Debug, PartialEq, Eq, Structural)]
pub struct ScreenBox {
    pub x: Num,
    pub y: Num,
    pub w: Num,
    pub h: Num,
}

/// Where a target is: a point, or the centre of a module's rectangle
/// (`x + w / 2`, `y + h / 2`, which the caller computes in floating point).
#[derive(Clone, Copy, Debug, PartialEq, Eq, Structural)]
pub enum Location {
    At(Num, Num),
    CenterOf(ScreenBox),
}

/// One module of the scene.
#[derive(Debug)]
pub struct ModuleEntry {
    pub box_: ScreenBox,
    pub params: HashMap<i64, Point>,
    pub inputs: HashMap<i64, Point>,
    pub outputs: HashMap<i64, Point>,
}

/// The mathematical content of a [`ModuleEntry`].
pub struct ModuleModel {
    pub box_: ScreenBox,
    pub params: Map<i64, Point>,
    pub inputs: Map<i64, Point>,
    pub outputs: Map<i64, Point>,
}

impl View for ModuleEntry {
    type V = ModuleModel;

    open spec fn view(&self) -> ModuleModel {
        ModuleModel {
            box_: self.box_,
            params: self.params@,
            inputs: self.inputs@,
            outputs: self.outputs@,
        }
    }
}

/// The modules of the rack by id.
#[derive(Debug)]
pub struct SceneCache {
    pub modules: HashMap<i64, ModuleEntry>,
}

impl View for SceneCache {
    type V = Map<i64, ModuleModel>;

    open spec fn view(&self) -> Map<i64, ModuleModel> {
        Map::new(|k: i64| self.modules@.contains_key(k), |k: i64| self.modules@[k]@)
    }
}

/// The floating-point zero that stands in for a missing coordinate.
pub open spec fn zero() -> Num {
    Num::Float(ZERO_BITS)
}

/// A coordinate member of `item`: any number, else `0.0`.
pub open spec fn coord_at(item: Json, key: Seq<char>) -> Num {
    match item.num_at(key) {
        Some(n) => n,
        None => zero(),
    }
}

/// The point that a parameter or jack entry gives.
pub open spec fn point_of(item: Json) -> Point {
    (coord_at(item, "x"@), coord_at(item, "y"@))
}

/// `m` after inserting, in order, every entry of `items` that has an
/// integer id under `id_key`; a later entry with the same id wins.
pub open spec fn collect_points(m: Map<i64, Point>, items: Seq<Json>, id_key: Seq<char>) -> Map<
    i64,
    Point,
>
    decreases items.len(),
{
    if items.len() == 0 {
        m
    } else {
        let before = collect_points(m, items.drop_last(), id_key);
        match items.last().i64_at(id_key) {
            Some(id) => before.insert(id, point_of(items.last())),
            None => before,
        }
    }
}

/// `m` after collecting the entries of `src`, where it is an array.
pub open spec fn collected(m: Map<i64, Point>, src: Option<Json>, id_key: Seq<char>) -> Map<
    i64,
    Point,
> {
    match src {
        Some(Json::Array(items)) => collect_points(m, items@, id_key),
        _ => m,
    }
}

/// Component `i` of the `screenBox` array of a module entry: any number,
/// else `0.0`.
pub open spec fn box_component(module: Json, i: int) -> Num {
    match module.array_at("screenBox"@) {
        Some(a) => if i < a.len() {
            match a[i] {
                Json::Number(n) => n,
                _ => zero(),
            }
        } else {
            zero()
        },
        None => zero(),
    }
}

/// The rectangle of a module entry.
pub open spec fn box_of(module: Json) -> ScreenBox {
    ScreenBox {
        x: box_component(module, 0),
        y: box_component(module, 1),
        w: box_component(module, 2),
        h: box_component(module, 3),
    }
}

/// What the cache holds of one module entry of a snapshot.
pub open spec fn module_model(module: Json) -> ModuleModel {
    ModuleModel {
        box_: box_of(module),
        params: collected(Map::empty(), module.field("params"@), "id"@),
        inputs: collected(Map::empty(), module.field("inputs"@), "id"@),
        outputs: collected(Map::empty(), module.field("outputs"@), "id"@),
    }
}

/// The modules of `items` that have an integer `id`; a later entry with the
/// same id wins.
pub open spec fn modules_of(items: Seq<Json>) -> Map<i64, ModuleModel>
    decreases items.len(),
{
    if items.len() == 0 {
        Map::empty()
    } else {
        let before = modules_of(items.drop_last());
        match items.last().i64_at("id"@) {
            Some(id) => before.insert(id, module_model(items.last())),
            None => before,
        }
    }
}

/// The scene that a snapshot describes.
pub open spec fn scene_of(envelope: Json) -> Map<i64, ModuleModel> {
    match envelope.array_at("modules"@) {
        Some(items) => modules_of(items),
        None => Map::empty(),
    }
}

/// The module named by `id`, if it is in the scene.
pub open spec fn module_in(scene: Map<i64, ModuleModel>, id: Option<i64>) -> Option<ModuleModel> {
    match id {
        Some(m) => if scene.contains_key(m) { Some(scene[m]) } else { None },
        None => None,
    }
}

/// The point named by `id`, if it is in `points`.
pub open spec fn point_in(points: Map<i64, Point>, id: Option<i64>) -> Option<Point> {
    match id {
        Some(p) => if points.contains_key(p) { Some(points[p]) } else { None },
        None => None,
    }
}

/// A point as a location.
pub open spec fn at(p: Option<Point>) -> Option<Location> {
    match p {
        Some((x, y)) => Some(Location::At(x, y)),
        None => None,
    }
}

/// Where a target (`{"kind": .., "moduleId": .., ..}`) is in `scene`.
pub open spec fn target_location(scene: Map<i64, ModuleModel>, target: Json) -> Option<Location> {
    let module = module_in(scene, target.i64_at("moduleId"@));
    match target.str_at("kind"@) {
        Some(kind) => if kind == "param"@ {
            match module {
                Some(m) => at(point_in(m.params, target.i64_at("paramId"@))),
                None => None,
            }
        } else if kind == "input"@ {
            match module {
                Some(m) => at(point_in(m.inputs, target.i64_at("portId"@))),
                None => None,
            }
        } else if kind == "output"@ {
            match module {
                Some(m) => at(point_in(m.outputs, target.i64_at("portId"@))),
                None => None,
            }
        } else if kind == "module"@ {
            match module {
                Some(m) => Some(Location::CenterOf(m.box_)),
                None => None,
            }
        } else if kind == "point"@ {
            match (target.num_at("x"@), target.num_at("y"@)) {
                (Some(x), Some(y)) => Some(Location::At(x, y)),
                _ => None,
            }
        } else {
            None
        },
        None => None,
    }
}

/// Where a jack reference (`{"moduleId": .., "port": "input"|"output",
/// "portId": ..}`) is in `scene`.
pub open spec fn port_location(scene: Map<i64, ModuleModel>, port_ref: Json) -> Option<Point> {
    match module_in(scene, port_ref.i64_at("moduleId"@)) {
        Some(m) => match port_ref.str_at("port"@) {
            Some(port) => if port == "input"@ {
                point_in(m.inputs, port_ref.i64_at("portId"@))
            } else if port == "output"@ {
                point_in(m.outputs, port_ref.i64_at("portId"@))
            } else {
                None
            },
            None => None,
        },
        None => None,
    }
}

/// A coordinate member of `item`: any number, else `0.0`.
fn coord(item: &Json, key: &str) -> (r: Num)
    ensures
        r == coord_at(*item, key@),
{
    match item.get_num(key) {
        Some(n) => n,
        None => Num::Float(ZERO_BITS),
    }
}

/// Inserts into `dst` the point of every entry of the array `src` that has
/// an integer id under `id_key`, in order.
pub fn collect(dst: &mut HashMap<i64, Point>, src: Option<&Json>, id_key: &str)
    ensures
        final(dst)@ == collected(old(dst)@, match src {
            Some(v) => Some(*v),
            None => None,
        }, id_key@),
{
    let arr = match src {
        Some(Json::Array(items)) => items,
        _ => {
            return;
        },
    };
    let ghost start = dst@;
    let mut i: usize = 0;
    while i < arr.len()
        invariant
            0 <= i <= arr.len(),
            dst@ == collect_points(start, arr@.take(i as int), id_key@),
        decreases arr.len() - i,
    {
        let it = &arr[i];
        assert(arr@.take(i + 1).drop_last() =~= arr@.take(i as int));
        assert(arr@.take(i + 1).last() == arr@[i as int]);
        match it.get_i64(id_key) {
            Some(id) => {
                let x = coord(it, "x");
                let y = coord(it, "y");
                dst.insert(id, (x, y));
            },
            None => {},
        }
        i = i + 1;
    }
    assert(arr@.take(arr.len() as int) =~= arr@);
}

/// Component `i` of the `screenBox` array of a module entry.
fn box_part(items: Option<&Vec<Json>>, i: usize) -> (r: Num)
    ensures
        r == match items {
            Some(a) => if i < a@.len() {
                match a@[i as int] {
                    Json::Number(n) => n,
                    _ => zero(),
                }
            } else {
                zero()
            },
            None => zero(),
        },
{
    match items {
        Some(a) => if i < a.len() {
            match &a[i] {
                Json::Number(n) => *n,
                _ => Num::Float(ZERO_BITS),
            }
        } else {
            Num::Float(ZERO_BITS)
        },
        None => Num::Float(ZERO_BITS),
    }
}

impl SceneCache {
    /// An empty scene.
    pub fn new() -> (r: SceneCache)
        ensures
            r@ == Map::<i64, ModuleModel>::empty(),
    {
        let r = SceneCache { modules: HashMap::new() };
        assert(r@ =~= Map::<i64, ModuleModel>::empty());
        r
    }

    /// The scene that a snapshot describes: every module entry with an
    /// integer `id`, its `screenBox` (missing components `0.0`) and its
    /// parameters, inputs and outputs by id.
    pub fn from_envelope(v: &Json) -> (r: SceneCache)
        ensures
            r@ == scene_of(*v),
    {
        let mut cache = SceneCache::new();
        let mods = match v.get_array("modules") {
            Some(m) => m,
            None => {
                return cache;
            },
        };
        let mut i: usize = 0;
        while i < mods.len()
            invariant
                0 <= i <= mods.len(),
                v.array_at("modules"@) == Some(mods@),
                cache@ == modules_of(mods@.take(i as int)),
            decreases mods.len() - i,
        {
            let m = &mods[i];
            assert(mods@.take(i + 1).drop_last() =~= mods@.take(i as int));
            assert(mods@.take(i + 1).last() == mods@[i as int]);
            match m.get_i64("id") {
                Some(id) => {
                    let boxes = m.get_array("screenBox");
                    let b = ScreenBox {
                        x: box_part(boxes, 0),
                        y: box_part(boxes, 1),
                        w: box_part(boxes, 2),
                        h: box_part(boxes, 3),
                    };
                    let mut params: HashMap<i64, Point> = HashMap::new();
                    let mut inputs: HashMap<i64, Point> = HashMap::new();
                    let mut outputs: HashMap<i64, Point> = HashMap::new();
                    collect(&mut params, m.get("params"), "id");
                    collect(&mut inputs, m.get("inputs"), "id");
                    collect(&mut outputs, m.get("outputs"), "id");
                    let entry = ModuleEntry { box_: b, params, inputs, outputs };
                    assert(entry@ == module_model(*m));
                    let ghost before = cache@;
                    cache.modules.insert(id, entry);
                    assert(cache@ =~= before.insert(id, module_model(*m)));
                },
                None => {},
            }
            i = i + 1;
        }
        assert(mods@.take(mods.len() as int) =~= mods@);
        cache
    }
}

impl SceneCache {
    /// The module named by `id`.
    fn module(&self, id: Option<i64>) -> (r: Option<&ModuleEntry>)
        ensures
            match r {
                Some(e) => module_in(self@, id) == Some(e@),
                None => module_in(self@, id).is_none(),
            },
    {
        match id {
            Some(m) => self.modules.get(&m),
            None => None,
        }
    }

    /// Where a target is on the screen: a parameter (`paramId`), an input
    /// or output jack (`portId`) of the module `moduleId`, the centre of
    /// that module, or a `point` given by `x` and `y`; `None` when the
    /// target is malformed or not in the scene.
    pub fn resolve_target(&self, target: &Json) -> (r: Option<Location>)
        ensures
            r == target_location(self@, *target),
    {
        let kind = match target.get_str("kind") {
            Some(k) => k,
            None => {
                return None;
            },
        };
        let module = self.module(target.get_i64("moduleId"));
        if same_text(kind.as_str(), "param") {
            match module {
                Some(m) => located(point(&m.params, target.get_i64("paramId"))),
                None => None,
            }
        } else if same_text(kind.as_str(), "input") {
            match module {
                Some(m) => located(point(&m.inputs, target.get_i64("portId"))),
                None => None,
            }
        } else if same_text(kind.as_str(), "output") {
            match module {
                Some(m) => located(point(&m.outputs, target.get_i64("portId"))),
                None => None,
            }
        } else if same_text(kind.as_str(), "module") {
            match module {
                Some(m) => Some(Location::CenterOf(m.box_)),
                None => None,
            }
        } else if same_text(kind.as_str(), "point") {
            match (target.get_num("x"), target.get_num("y")) {
                (Some(x), Some(y)) => Some(Location::At(x, y)),
                _ => None,
            }
        } else {
            None
        }
    }

    /// Where a jack reference is on the screen: the `input` or `output`
    /// jack `portId` of the module `moduleId`.
    pub fn resolve_port_ref(&self, port_ref: &Json) -> (r: Option<Point>)
        ensures
            r == port_location(self@, *port_ref),
    {
        let m = match self.module(port_ref.get_i64("moduleId")) {
            Some(m) => m,
            None => {
                return None;
            },
        };
        let pid = port_ref.get_i64("portId");
        match port_ref.get_str("port") {
            Some(port) => if same_text(port.as_str(), "input") {
                point(&m.inputs, pid)
            } else if same_text(port.as_str(), "output") {
                point(&m.outputs, pid)
            } else {
                None
            },
            None => None,
        }
    }
}

/// The entry at `j` is the last one of `items` whose id under `key` is `id`.
pub open spec fn last_with_id(items: Seq<Json>, key: Seq<char>, id: i64, j: int) -> bool {
    &&& 0 <= j < items.len()
    &&& items[j].i64_at(key) == Some(id)
    &&& forall|k: int| j < k < items.len() ==> items[k].i64_at(key) != Some(id)
}

/// Some entry of `items` has the id `id` under `key`.
pub open spec fn has_id(items: Seq<Json>, key: Seq<char>, id: i64) -> bool {
    exists|j: int| 0 <= j < items.len() && items[j].i64_at(key) == Some(id)
}

/// Collecting entries gives each id the point of its last entry, keeps
/// what was there for ids that no entry has, and nothing else.
pub proof fn lemma_collect_points(m: Map<i64, Point>, items: Seq<Json>, key: Seq<char>, id: i64)
    ensures
        has_id(items, key, id) ==> collect_points(m, items, key).contains_key(id)
            && exists|j: int| #[trigger] last_with_id(items, key, id, j)
                && collect_points(m, items, key)[id] == point_of(items[j]),
        !has_id(items, key, id) ==> (collect_points(m, items, key).contains_key(id)
            == m.contains_key(id)) && (m.contains_key(id) ==> collect_points(m, items, key)[id]
            == m[id]),
    decreases items.len(),
{
    if items.len() > 0 {
        let init = items.drop_last();
        lemma_collect_points(m, init, key, id);
        let n = items.len() - 1;
        if items.last().i64_at(key) == Some(id) {
            assert(last_with_id(items, key, id, n));
        } else {
            if has_id(items, key, id) {
                let j = choose|j: int| 0 <= j < items.len() && items[j].i64_at(key) == Some(id);
                assert(init[j] == items[j]);
                assert(has_id(init, key, id));
                let j2 = choose|j2: int| #[trigger]
                    last_with_id(init, key, id, j2) && collect_points(m, init, key)[id]
                        == point_of(init[j2]);
                assert forall|k: int| j2 < k < items.len() implies items[k].i64_at(key) != Some(
                    id,
                ) by {
                    if k < n {
                        assert(init[k] == items[k]);
                    }
                }
                assert(last_with_id(items, key, id, j2));
            } else {
                assert forall|j: int| 0 <= j < init.len() implies init[j].i64_at(key) != Some(
                    id,
                ) by {
                    assert(init[j] == items[j]);
                }
            }
        }
    }
}

/// The modules of a snapshot are those with an id, each as its last entry
/// gives it.
pub proof fn lemma_modules_of(items: Seq<Json>, id: i64)
    ensures
        modules_of(items).contains_key(id) == has_id(items, "id"@, id),
        has_id(items, "id"@, id) ==> exists|j: int| #[trigger]
            last_with_id(items, "id"@, id, j) && modules_of(items)[id] == module_model(items[j]),
    decreases items.len(),
{
    if items.len() > 0 {
        let init = items.drop_last();
        lemma_modules_of(init, id);
        let n = items.len() - 1;
        if items.last().i64_at("id"@) == Some(id) {
            assert(last_with_id(items, "id"@, id, n));
        } else {
            if has_id(items, "id"@, id) {
                let j = choose|j: int| 0 <= j < items.len() && items[j].i64_at("id"@) == Some(id);
                assert(init[j] == items[j]);
                let j2 = choose|j2: int| #[trigger]
                    last_with_id(init, "id"@, id, j2) && modules_of(init)[id] == module_model(
                        init[j2],
                    );
                assert forall|k: int| j2 < k < items.len() implies items[k].i64_at("id"@) != Some(
                    id,
                ) by {
                    if k < n {
                        assert(init[k] == items[k]);
                    }
                }
                assert(last_with_id(items, "id"@, id, j2));
            } else {
                assert forall|j: int| 0 <= j < init.len() implies init[j].i64_at("id"@) != Some(
                    id,
                ) by {
                    assert(init[j] == items[j]);
                }
            }
        }
    }
}

/// The words of target kinds and member lists are distinct.
pub proof fn lemma_target_words_distinct()
    ensures
        "param"@ != "input"@,
        "param"@ != "output"@,
        "param"@ != "module"@,
        "param"@ != "point"@,
        "input"@ != "output"@,
        "input"@ != "module"@,
        "input"@ != "point"@,
        "output"@ != "module"@,
        "output"@ != "point"@,
        "module"@ != "point"@,
        "params"@ != "inputs"@,
        "params"@ != "outputs"@,
        "inputs"@ != "outputs"@,
        "paramId"@ != "portId"@,
{
    reveal_strlit("param");
    reveal_strlit("input");
    reveal_strlit("output");
    reveal_strlit("module");
    reveal_strlit("point");
    reveal_strlit("params");
    reveal_strlit("inputs");
    reveal_strlit("outputs");
    reveal_strlit("paramId");
    reveal_strlit("portId");
    assert("param"@[0] != "input"@[0]);
    assert("param"@[0] != "output"@[0]);
    assert("param"@[0] != "module"@[0]);
    assert("param"@[1] != "point"@[1]);
    assert("input"@[0] != "output"@[0]);
    assert("input"@[0] != "module"@[0]);
    assert("input"@[0] != "point"@[0]);
    assert("output"@[0] != "module"@[0]);
    assert("output"@[0] != "point"@[0]);
    assert("module"@[0] != "point"@[0]);
    assert("params"@[0] != "inputs"@[0]);
    assert("params"@[0] != "outputs"@[0]);
    assert("inputs"@[0] != "outputs"@[0]);
    assert("paramId"@[1] != "portId"@[1]);
}

/// Of two entries that are each the last with an id, neither comes later.
proof fn lemma_last_unique(items: Seq<Json>, key: Seq<char>, id: i64, j: int, k: int)
    requires
        last_with_id(items, key, id, j),
        last_with_id(items, key, id, k),
    ensures
        j == k,
{
}

/// The member list, its id key and the target kind that names one of its
/// entries: parameters by `paramId`, input and output jacks by `portId`.
pub open spec fn member_kind(kind: Seq<char>, list: Seq<char>, id_key: Seq<char>) -> bool {
    ||| kind == "param"@ && list == "params"@ && id_key == "paramId"@
    ||| kind == "input"@ && list == "inputs"@ && id_key == "portId"@
    ||| kind == "output"@ && list == "outputs"@ && id_key == "portId"@
}

/// What the cache holds of a module's member list.
pub open spec fn member_points(m: ModuleModel, list: Seq<char>) -> Map<i64, Point> {
    if list == "params"@ {
        m.params
    } else if list == "inputs"@ {
        m.inputs
    } else {
        m.outputs
    }
}

/// A snapshot read back: after a snapshot, a parameter or jack target
/// resolves to the `x`/`y` of the last entry with its id in the last module
/// entry with its module id.
pub proof fn law_snapshot_member_resolves(
    envelope: Json,
    target: Json,
    kind: Seq<char>,
    list: Seq<char>,
    id_key: Seq<char>,
    module_id: i64,
    member_id: i64,
    i: int,
    j: int,
)
    requires
        member_kind(kind, list, id_key),
        envelope.array_at("modules"@) is Some,
        last_with_id(envelope.array_at("modules"@).unwrap(), "id"@, module_id, i),
        envelope.array_at("modules"@).unwrap()[i].array_at(list) is Some,
        last_with_id(
            envelope.array_at("modules"@).unwrap()[i].array_at(list).unwrap(),
            "id"@,
            member_id,
            j,
        ),
        target.str_at("kind"@) == Some(kind),
        target.i64_at("moduleId"@) == Some(module_id),
        target.i64_at(id_key) == Some(member_id),
    ensures
        target_location(scene_of(envelope), target) == Some(
            Location::At(
                point_of(
                    envelope.array_at("modules"@).unwrap()[i].array_at(list).unwrap()[j],
                ).0,
                point_of(
                    envelope.array_at("modules"@).unwrap()[i].array_at(list).unwrap()[j],
                ).1,
            ),
        ),
{
    let items = envelope.array_at("modules"@).unwrap();
    let module = items[i];
    let members = module.array_at(list).unwrap();
    lemma_modules_of(items, module_id);
    assert(has_id(items, "id"@, module_id));
    let i2 = choose|i2: int| #[trigger]
        last_with_id(items, "id"@, module_id, i2) && modules_of(items)[module_id] == module_model(
            items[i2],
        );
    lemma_last_unique(items, "id"@, module_id, i, i2);
    let model = module_model(module);
    assert(member_points(model, list) == collect_points(Map::empty(), members, "id"@));
    lemma_collect_points(Map::empty(), members, "id"@, member_id);
    assert(has_id(members, "id"@, member_id));
    let j2 = choose|j2: int| #[trigger]
        last_with_id(members, "id"@, member_id, j2) && collect_points(
            Map::empty(),
            members,
            "id"@,
        )[member_id] == point_of(members[j2]);
    lemma_last_unique(members, "id"@, member_id, j, j2);
    lemma_target_words_distinct();
}

/// A snapshot read back: after a snapshot, a `module` target resolves to
/// the centre of the rectangle of the last entry with its module id.
pub proof fn law_snapshot_module_resolves(envelope: Json, target: Json, module_id: i64, i: int)
    requires
        envelope.array_at("modules"@) is Some,
        last_with_id(envelope.array_at("modules"@).unwrap(), "id"@, module_id, i),
        target.str_at("kind"@) == Some("module"@),
        target.i64_at("moduleId"@) == Some(module_id),
    ensures
        target_location(scene_of(envelope), target) == Some(
            Location::CenterOf(box_of(envelope.array_at("modules"@).unwrap()[i])),
        ),
{
    let items = envelope.array_at("modules"@).unwrap();
    lemma_modules_of(items, module_id);
    assert(has_id(items, "id"@, module_id));
    let i2 = choose|i2: int| #[trigger]
        last_with_id(items, "id"@, module_id, i2) && modules_of(items)[module_id] == module_model(
            items[i2],
        );
    lemma_last_unique(items, "id"@, module_id, i, i2);
    lemma_target_words_distinct();
}

/// A snapshot replaces the scene: a target on a module that the latest
/// snapshot does not list resolves to nothing.
pub proof fn law_absent_module_unresolved(envelope: Json, target: Json, module_id: i64)
    requires
        match envelope.array_at("modules"@) {
            Some(items) => !has_id(items, "id"@, module_id),
            None => true,
        },
        target.i64_at("moduleId"@) == Some(module_id),
        target.str_at("kind"@) != Some("point"@),
    ensures
        target_location(scene_of(envelope), target).is_none(),
{
    match envelope.array_at("modules"@) {
        Some(items) => lemma_modules_of(items, module_id),
        None => {},
    }
    lemma_target_words_distinct();
}

/// A cable end and a tap on the same jack land on the same point: a jack
/// reference resolves as the target of kind `port` with the same module and
/// port ids.
pub proof fn law_port_ref_matches_target(
    scene: Map<i64, ModuleModel>,
    port_ref: Json,
    target: Json,
)
    requires
        port_ref.str_at("port"@) == Some("input"@) || port_ref.str_at("port"@) == Some(
            "output"@,
        ),
        target.str_at("kind"@) == port_ref.str_at("port"@),
        target.i64_at("moduleId"@) == port_ref.i64_at("moduleId"@),
        target.i64_at("portId"@) == port_ref.i64_at("portId"@),
    ensures
        at(port_location(scene, port_ref)) == target_location(scene, target),
{
    lemma_target_words_distinct();
}

/// A `point` target lands where its `x` and `y` say, whatever numbers they
/// are (integral or fractional, of any sign), in any scene; it resolves to
/// nothing only when `x` or `y` is missing or not a number.
pub proof fn law_point_target(scene: Map<i64, ModuleModel>, target: Json)
    requires
        target.str_at("kind"@) == Some("point"@),
    ensures
        match (target.num_at("x"@), target.num_at("y"@)) {
            (Some(x), Some(y)) => target_location(scene, target) == Some(Location::At(x, y)),
            _ => target_location(scene, target) is None,
        },
{
    lemma_target_words_distinct();
}

/// Whether the jack reference `port_ref` names, in `scene`, a jack at `pt`:
/// the module `moduleId` is in the scene and has, among its inputs (for
/// `"port": "input"`) or its outputs (for `"port": "output"`), a jack with
/// id `portId` at `pt`.
pub open spec fn names_jack(scene: Map<i64, ModuleModel>, port_ref: Json, pt: Point) -> bool {
    exists|m: i64, k: i64|
        {
            &&& port_ref.i64_at("moduleId"@) == Some(m)
            &&& port_ref.i64_at("portId"@) == Some(k)
            &&& scene.contains_key(m)
            &&& {
                ||| port_ref.str_at("port"@) == Some("input"@) && scene[m].inputs.contains_key(k)
                    && scene[m].inputs[k] == pt
                ||| port_ref.str_at("port"@) == Some("output"@) && scene[m].outputs.contains_key(
                    k,
                ) && scene[m].outputs[k] == pt
            }
        }
}

/// A jack reference lands on the jack it names, an input as well as an
/// output.
pub proof fn law_jack_resolves(scene: Map<i64, ModuleModel>, port_ref: Json, pt: Point)
    requires
        names_jack(scene, port_ref, pt),
    ensures
        port_location(scene, port_ref) == Some(pt),
{
    lemma_target_words_distinct();
}

/// The point named by `id` in `points`.
fn point(points: &HashMap<i64, Point>, id: Option<i64>) -> (r: Option<Point>)
    ensures
        r == point_in(points@, id),
{
    match id {
        Some(p) => match points.get(&p) {
            Some(xy) => Some(*xy),
            None => None,
        },
        None => None,
    }
}

/// A point as a location.
fn located(p: Option<Point>) -> (r: Option<Location>)
    ensures
        r == at(p),
{
    match p {
        Some((x, y)) => Some(Location::At(x, y)),
        None => None,
    }
}

} // verus!
