//! The bridge side of the helper: the frames that the rack plugin sends
//! (snapshots, panel assets, answers to module actions), what the helper
//! keeps of them, and the module actions it sends.

use std::collections::HashMap;
use vstd::prelude::*;
use vstd::string::*;
use crate::json::{parse_json, parsed_json, set_member, Json, Num};
use crate::server::{text_or_empty, PROTOCOL_VERSION};
use crate::scene::{scene_of, SceneCache};
use crate::text::{decimal, json_string, lemma_decimal_has_no_line_feed, lemma_json_string_has_no_line_feed, lemma_signed_decimal_has_no_line_feed, push_decimal, push_json_string, push_signed_decimal, same_text, signed_decimal, trim_end, trim_end_of};

verus! {

broadcast use vstd::std_specs::hash::group_hash_axioms;

/// No two entries share a key.
pub open spec fn keys_unique<F>(entries: Seq<(Seq<char>, F)>) -> bool {
    forall|i: int, j: int|
        0 <= i < entries.len() && 0 <= j < entries.len() && i != j ==> entries[i].0 != entries[j].0
}

/// `entries` after storing `frame` under `key`: the entry with that key
/// gets the frame and keeps its place, or a new entry goes last.
pub open spec fn stored<F>(entries: Seq<(Seq<char>, F)>, key: Seq<char>, frame: F) -> Seq<
    (Seq<char>, F),
> {
    if exists|i: int| 0 <= i < entries.len() && entries[i].0 == key {
        let i = choose|i: int| 0 <= i < entries.len() && entries[i].0 == key;
        entries.update(i, (key, frame))
    } else {
        entries.push((key, frame))
    }
}

/// The panel assets seen so far, one per key, in the order in which their
/// keys first appeared; each holds the latest frame sent for its key.
pub struct AssetCache<F> {
    entries: Vec<(String, F)>,
}

impl<F> View for AssetCache<F> {
    type V = Seq<(Seq<char>, F)>;

    closed spec fn view(&self) -> Seq<(Seq<char>, F)> {
        self.entries@.map_values(|e: (String, F)| (e.0@, e.1))
    }
}

impl<F> AssetCache<F> {
    #[verifier::type_invariant]
    closed spec fn unique(&self) -> bool {
        keys_unique(self@)
    }

    /// An empty cache.
    pub fn new() -> (r: AssetCache<F>)
        ensures
            r@ == Seq::<(Seq<char>, F)>::empty(),
    {
        let r = AssetCache { entries: Vec::new() };
        assert(r@ =~= Seq::<(Seq<char>, F)>::empty());
        r
    }

    /// The number of assets.
    pub fn len(&self) -> (r: usize)
        ensures
            r == self@.len(),
            keys_unique(self@),
    {
        proof {
            use_type_invariant(self);
        }
        self.entries.len()
    }

    /// Stores `frame` under `key`: an asset already seen under that key is
    /// replaced in place, a new one goes last.
    pub fn insert(&mut self, key: String, frame: F)
        ensures
            final(self)@ == stored(old(self)@, key@, frame),
            keys_unique(final(self)@),
    {
        proof {
            use_type_invariant(&*self);
        }
        let ghost before = self@;
        let mut entries: Vec<(String, F)> = Vec::new();
        std::mem::swap(&mut entries, &mut self.entries);
        assert(entries@.map_values(|e: (String, F)| (e.0@, e.1)) == before);
        let mut i: usize = 0;
        while i < entries.len()
            invariant
                0 <= i <= entries.len(),
                entries@.map_values(|e: (String, F)| (e.0@, e.1)) == before,
                before == old(self)@,
                keys_unique(before),
                forall|j: int| 0 <= j < i ==> before[j].0 != key@,
            decreases entries.len() - i,
        {
            assert(before[i as int] == (entries@[i as int].0@, entries@[i as int].1));
            if entries[i].0 == key {
                let ghost k = key@;
                assert(before[i as int].0 == k);
                assert forall|j: int| 0 <= j < before.len() && before[j].0 == k implies j == i by {}
                entries.set(i, (key, frame));
                let ghost after = before.update(i as int, (k, frame));
                assert(entries@.map_values(|e: (String, F)| (e.0@, e.1)) =~= after);
                assert(keys_unique(after));
                let ghost c = choose|c: int| 0 <= c < before.len() && before[c].0 == k;
                assert(c == i);
                assert(after == stored(before, k, frame));
                self.entries = entries;
                assert(self@ == after);
                return;
            }
            i = i + 1;
        }
        let ghost k = key@;
        entries.push((key, frame));
        let ghost after = before.push((k, frame));
        assert(entries@.map_values(|e: (String, F)| (e.0@, e.1)) =~= after);
        assert(keys_unique(after));
        assert(after == stored(before, k, frame));
        self.entries = entries;
    }

    /// The frames in the order in which their keys first appeared.
    pub fn ordered_frames(&self) -> (r: Vec<&F>)
        ensures
            r@.len() == self@.len(),
            forall|i: int| 0 <= i < r@.len() ==> *r@[i] == self@[i].1,
    {
        let mut r: Vec<&F> = Vec::new();
        let mut i: usize = 0;
        while i < self.entries.len()
            invariant
                0 <= i <= self.entries.len(),
                r@.len() == i,
                forall|j: int| 0 <= j < i ==> *r@[j] == self@[j].1,
            decreases self.entries.len() - i,
        {
            r.push(&self.entries[i].1);
            i = i + 1;
        }
        r
    }

    /// The frame stored under `key`.
    pub fn get(&self, key: &str) -> (r: Option<&F>)
        ensures
            match r {
                Some(f) => exists|i: int| 0 <= i < self@.len() && self@[i] == (key@, *f),
                None => forall|i: int| 0 <= i < self@.len() ==> self@[i].0 != key@,
            },
    {
        let wanted = String::from_str(key);
        let mut i: usize = 0;
        while i < self.entries.len()
            invariant
                0 <= i <= self.entries.len(),
                wanted@ == key@,
                forall|j: int| 0 <= j < i ==> self@[j].0 != key@,
            decreases self.entries.len() - i,
        {
            assert(self@[i as int] == (self.entries@[i as int].0@, self.entries@[i as int].1));
            if self.entries[i].0 == wanted {
                return Some(&self.entries[i].1);
            }
            i = i + 1;
        }
        None
    }
}

/// Replaying assets: storing a frame keeps every key once and in the order
/// of first appearance, adds a key only when it is new, and leaves the new
/// frame under its key.
pub proof fn law_asset_replay<F>(entries: Seq<(Seq<char>, F)>, key: Seq<char>, frame: F)
    requires
        keys_unique(entries),
    ensures
        keys_unique(stored(entries, key, frame)),
        stored(entries, key, frame).len() == entries.len() + if exists|i: int|
            0 <= i < entries.len() && entries[i].0 == key {
            0int
        } else {
            1int
        },
        forall|i: int| 0 <= i < entries.len() ==> #[trigger] stored(entries, key, frame)[i].0
            == entries[i].0,
        exists|i: int|
            0 <= i < stored(entries, key, frame).len() && stored(entries, key, frame)[i] == (
                key,
                frame,
            ),
{
    let after = stored(entries, key, frame);
    if exists|i: int| 0 <= i < entries.len() && entries[i].0 == key {
        let i = choose|i: int| 0 <= i < entries.len() && entries[i].0 == key;
        assert(after[i] == (key, frame));
    } else {
        assert(after[entries.len() as int] == (key, frame));
    }
}

/// The cache after storing, in order, every `(key, frame)` of `inserts`
/// into an empty one.
pub open spec fn stored_all<F>(inserts: Seq<(Seq<char>, F)>) -> Seq<(Seq<char>, F)>
    decreases inserts.len(),
{
    if inserts.len() == 0 {
        Seq::empty()
    } else {
        stored(stored_all(inserts.drop_last()), inserts.last().0, inserts.last().1)
    }
}

/// Some insert has the key `k`.
pub open spec fn inserted<F>(inserts: Seq<(Seq<char>, F)>, k: Seq<char>) -> bool {
    exists|j: int| 0 <= j < inserts.len() && inserts[j].0 == k
}

/// The keys of `entries` come in the order in which they first occur in
/// `inserts`: every insert of a later entry's key comes after some insert
/// of an earlier entry's key.
pub open spec fn first_seen_order<F>(inserts: Seq<(Seq<char>, F)>, entries: Seq<(Seq<char>, F)>) -> bool {
    forall|i1: int, i2: int, j2: int|
        #![trigger entries[i1], entries[i2], inserts[j2]]
        0 <= i1 < i2 < entries.len() && 0 <= j2 < inserts.len() && inserts[j2].0 == entries[i2].0
            ==> inserted_before(inserts, j2, entries[i1].0)
}

/// Some insert before the `j`-th has the key `k`.
pub open spec fn inserted_before<F>(inserts: Seq<(Seq<char>, F)>, j: int, k: Seq<char>) -> bool {
    exists|j1: int| 0 <= j1 < j && inserts[j1].0 == k
}

/// Replaying assets over any series of inserts: one entry per distinct key,
/// holding the frame of the last insert with that key, in the order in
/// which the keys were first inserted.
pub proof fn law_asset_replay_series<F>(inserts: Seq<(Seq<char>, F)>)
    ensures
        keys_unique(stored_all(inserts)),
        forall|k: Seq<char>| inserted(inserts, k) <==> exists|i: int|
            0 <= i < stored_all(inserts).len() && #[trigger] stored_all(inserts)[i].0 == k,
        forall|i: int| 0 <= i < stored_all(inserts).len() ==> exists|j: int|
            0 <= j < inserts.len() && inserts[j] == #[trigger] stored_all(inserts)[i] && forall|l: int|
                j < l < inserts.len() ==> inserts[l].0 != stored_all(inserts)[i].0,
        first_seen_order(inserts, stored_all(inserts)),
    decreases inserts.len(),
{
    if inserts.len() > 0 {
        let init = inserts.drop_last();
        law_asset_replay_series(init);
        let p = stored_all(init);
        assert(first_seen_order(init, p));
        let n = inserts.len() - 1;
        let (k, f) = inserts.last();
        assert(stored_all(inserts) == stored(p, k, f));
        law_asset_replay(p, k, f);
        assert forall|j: int| 0 <= j < n implies inserts[j] == init[j] by {}
        if exists|x: int| 0 <= x < p.len() && p[x].0 == k {
            let x = choose|x: int| 0 <= x < p.len() && p[x].0 == k;
            assert(stored_all(inserts) == p.update(x, (k, f)));
            assert forall|kk: Seq<char>| inserted(inserts, kk) <==> exists|i: int|
                0 <= i < stored_all(inserts).len() && #[trigger] stored_all(inserts)[i].0 == kk by {
                if inserted(inserts, kk) {
                    let j = choose|j: int| 0 <= j < inserts.len() && inserts[j].0 == kk;
                    if j < n {
                        assert(inserted(init, kk));
                        let i = choose|i: int| 0 <= i < p.len() && #[trigger] p[i].0 == kk;
                        assert(stored_all(inserts)[i].0 == kk);
                    } else {
                        assert(stored_all(inserts)[x].0 == kk);
                    }
                }
                if exists|i: int| 0 <= i < stored_all(inserts).len() && #[trigger] stored_all(inserts)[i].0 == kk {
                    let i = choose|i: int| 0 <= i < stored_all(inserts).len() && #[trigger] stored_all(inserts)[i].0 == kk;
                    assert(p[i].0 == kk);
                    let j = choose|j: int| 0 <= j < init.len() && init[j].0 == kk;
                    assert(inserts[j].0 == kk);
                }
            }
            assert forall|i: int| 0 <= i < stored_all(inserts).len() implies exists|j: int|
                0 <= j < inserts.len() && inserts[j] == #[trigger] stored_all(inserts)[i] && forall|l: int|
                    j < l < inserts.len() ==> inserts[l].0 != stored_all(inserts)[i].0 by {
                if i == x {
                    assert(inserts[n] == stored_all(inserts)[i]);
                } else {
                    let j = choose|j: int|
                        0 <= j < init.len() && init[j] == #[trigger] p[i] && forall|l: int|
                            j < l < init.len() ==> init[l].0 != p[i].0;
                    assert(inserts[j] == stored_all(inserts)[i]);
                    assert(p[i].0 != p[x].0);
                    assert forall|l: int| j < l < inserts.len() implies inserts[l].0 != stored_all(inserts)[i].0 by {
                        if l < n {
                            assert(init[l] == inserts[l]);
                        }
                    }
                }
            }
            let ghost c = stored_all(inserts);
            assert forall|i1: int, i2: int, j2: int|
                #![trigger c[i1], c[i2], inserts[j2]]
                0 <= i1 < i2 < c.len() && 0 <= j2 < inserts.len() && inserts[j2].0
                    == c[i2].0 implies inserted_before(inserts, j2, c[i1].0) by {
                if j2 < n {
                    assert(init[j2].0 == p[i2].0) by {
                        if i2 == x {
                            assert(stored_all(inserts)[i2].0 == p[x].0);
                        }
                    }
                    let j1 = choose|j1: int| 0 <= j1 < j2 && init[j1].0 == p[i1].0;
                    assert(inserts[j1].0 == stored_all(inserts)[i1].0) by {
                        if i1 == x {
                            assert(stored_all(inserts)[i1].0 == p[x].0);
                        }
                    }
                } else {
                    assert(stored_all(inserts)[i2].0 == k);
                    assert(i2 == x) by {
                        if i2 != x {
                            assert(p[i2].0 == k);
                        }
                    }
                    assert(inserted(init, p[i1].0)) by {
                        assert(exists|i: int| 0 <= i < p.len() && #[trigger] p[i].0 == p[i1].0);
                    }
                    let j1 = choose|j1: int| 0 <= j1 < init.len() && init[j1].0 == p[i1].0;
                    assert(inserts[j1].0 == stored_all(inserts)[i1].0);
                }
            }
            assert(first_seen_order(inserts, c));
        } else {
            assert(stored_all(inserts) == p.push((k, f)));
            assert(!inserted(init, k));
            assert forall|kk: Seq<char>| inserted(inserts, kk) <==> exists|i: int|
                0 <= i < stored_all(inserts).len() && #[trigger] stored_all(inserts)[i].0 == kk by {
                if inserted(inserts, kk) {
                    let j = choose|j: int| 0 <= j < inserts.len() && inserts[j].0 == kk;
                    if j < n {
                        assert(inserted(init, kk));
                        let i = choose|i: int| 0 <= i < p.len() && #[trigger] p[i].0 == kk;
                        assert(stored_all(inserts)[i].0 == kk);
                    } else {
                        assert(stored_all(inserts)[p.len() as int].0 == kk);
                    }
                }
                if exists|i: int| 0 <= i < stored_all(inserts).len() && #[trigger] stored_all(inserts)[i].0 == kk {
                    let i = choose|i: int| 0 <= i < stored_all(inserts).len() && #[trigger] stored_all(inserts)[i].0 == kk;
                    if i < p.len() {
                        assert(p[i].0 == kk);
                        let j = choose|j: int| 0 <= j < init.len() && init[j].0 == kk;
                        assert(inserts[j].0 == kk);
                    } else {
                        assert(inserts[n].0 == kk);
                    }
                }
            }
            assert forall|i: int| 0 <= i < stored_all(inserts).len() implies exists|j: int|
                0 <= j < inserts.len() && inserts[j] == #[trigger] stored_all(inserts)[i] && forall|l: int|
                    j < l < inserts.len() ==> inserts[l].0 != stored_all(inserts)[i].0 by {
                if i == p.len() {
                    assert(inserts[n] == stored_all(inserts)[i]);
                } else {
                    let j = choose|j: int|
                        0 <= j < init.len() && init[j] == #[trigger] p[i] && forall|l: int|
                            j < l < init.len() ==> init[l].0 != p[i].0;
                    assert(inserts[j] == stored_all(inserts)[i]);
                    assert(p[i].0 != k);
                    assert forall|l: int| j < l < inserts.len() implies inserts[l].0 != stored_all(inserts)[i].0 by {
                        if l < n {
                            assert(init[l] == inserts[l]);
                        }
                    }
                }
            }
            let ghost c = stored_all(inserts);
            assert forall|i1: int, i2: int, j2: int|
                #![trigger c[i1], c[i2], inserts[j2]]
                0 <= i1 < i2 < c.len() && 0 <= j2 < inserts.len() && inserts[j2].0
                    == c[i2].0 implies inserted_before(inserts, j2, c[i1].0) by {
                assert(stored_all(inserts)[i1] == p[i1]);
                assert(inserted(init, p[i1].0)) by {
                    assert(exists|i: int| 0 <= i < p.len() && #[trigger] p[i].0 == p[i1].0);
                }
                if i2 < p.len() {
                    if j2 < n {
                        assert(init[j2].0 == p[i2].0);
                        let j1 = choose|j1: int| 0 <= j1 < j2 && init[j1].0 == p[i1].0;
                        assert(inserts[j1].0 == stored_all(inserts)[i1].0);
                    } else {
                        assert(p[i2].0 == k);
                    }
                } else {
                    assert(stored_all(inserts)[i2].0 == k);
                    if j2 < n {
                        assert(init[j2].0 == k);
                    } else {
                        let j1 = choose|j1: int| 0 <= j1 < init.len() && init[j1].0 == p[i1].0;
                        assert(inserts[j1].0 == stored_all(inserts)[i1].0);
                    }
                }
            }
        }
        assert(first_seen_order(inserts, stored_all(inserts)));
    } else {
        assert(stored_all(inserts).len() == 0);
    }
}

/// What the helper keeps of the rack's frames, shared with every client:
/// the scene, the latest snapshot frame and the panel assets.
pub struct HelperState {
    pub scene: SceneCache,
    pub last: Option<Json>,
    pub assets: AssetCache<Json>,
}

impl HelperState {
    /// Nothing received yet.
    pub fn new() -> (r: HelperState)
        ensures
            r.scene@ == Map::<i64, crate::scene::ModuleModel>::empty(),
            r.last.is_none(),
            r.assets@ == Seq::<(Seq<char>, Json)>::empty(),
    {
        HelperState { scene: SceneCache::new(), last: None, assets: AssetCache::new() }
    }

    /// What a client that connects now is sent first: every panel asset,
    /// in the order in which they first appeared, then the latest snapshot.
    pub fn greeting_frames(&self) -> (r: Vec<&Json>)
        ensures
            r@.len() == self.assets@.len() + if self.last is Some { 1int } else { 0int },
            forall|i: int| 0 <= i < self.assets@.len() ==> *r@[i] == self.assets@[i].1,
            self.last matches Some(f) ==> *r@.last() == f,
    {
        let mut r = self.assets.ordered_frames();
        match &self.last {
            Some(f) => r.push(f),
            None => {},
        }
        r
    }
}

/// The text of a module-action request to the rack, newline-terminated.
pub open spec fn action_frame(seq: u64, module_id: i64, action: Seq<char>) -> Seq<char> {
    "{\"op\":\"module-action\",\"seq\":"@ + decimal(seq as nat) + ",\"moduleId\":"@
        + signed_decimal(module_id as int) + ",\"action\":"@ + json_string(action) + "}\n"@
}

/// A module-action request is one line: it ends with a line feed and holds
/// no other, whatever the action's text.
pub proof fn law_action_frame_is_one_line(seq: u64, module_id: i64, action: Seq<char>)
    ensures
        action_frame(seq, module_id, action).last() == '\n',
        forall|i: int| 0 <= i < action_frame(seq, module_id, action).len() - 1
            ==> action_frame(seq, module_id, action)[i] != '\n',
{
    let p1 = "{\"op\":\"module-action\",\"seq\":"@;
    let p2 = ",\"moduleId\":"@;
    let p3 = ",\"action\":"@;
    let p4 = "}\n"@;
    reveal_strlit("{\"op\":\"module-action\",\"seq\":");
    reveal_strlit(",\"moduleId\":");
    reveal_strlit(",\"action\":");
    reveal_strlit("}\n");
    let d = decimal(seq as nat);
    let m = signed_decimal(module_id as int);
    let a = json_string(action);
    lemma_decimal_has_no_line_feed(seq as nat);
    lemma_signed_decimal_has_no_line_feed(module_id as int);
    lemma_json_string_has_no_line_feed(action);
    let f = action_frame(seq, module_id, action);
    assert(f == p1 + d + p2 + m + p3 + a + p4);
    let body = p1 + d + p2 + m + p3 + a + seq!['}'];
    assert(f =~= body.push('\n'));
    assert forall|i: int| 0 <= i < body.len() implies body[i] != '\n' by {
        let l1 = p1.len();
        let l2 = l1 + d.len();
        let l3 = l2 + p2.len();
        let l4 = l3 + m.len();
        let l5 = l4 + p3.len();
        let l6 = l5 + a.len();
        if i < l1 {
            assert(body[i] == p1[i]);
        } else if i < l2 {
            assert(body[i] == d[i - l1]);
        } else if i < l3 {
            assert(body[i] == p2[i - l2]);
        } else if i < l4 {
            assert(body[i] == m[i - l3]);
        } else if i < l5 {
            assert(body[i] == p3[i - l4]);
        } else if i < l6 {
            assert(body[i] == a[i - l5]);
        } else {
            assert(body[i] == '}');
        }
    }
}

/// Writes the request for the module action `action` on `module_id`,
/// numbered `seq`.
pub fn encode_action(seq: u64, module_id: i64, action: &str) -> (r: String)
    ensures
        r@ == action_frame(seq, module_id, action@),
{
    let mut out = String::from_str("{\"op\":\"module-action\",\"seq\":");
    push_decimal(&mut out, seq);
    out.append(",\"moduleId\":");
    push_signed_decimal(&mut out, module_id);
    out.append(",\"action\":");
    push_json_string(&mut out, action);
    out.append("}\n");
    out
}

/// The bridge link's own state: the number of the last module action sent
/// and the actions that wait for the rack's answer, by number, each with
/// the handle through which its answer is delivered.
pub struct BridgeLink<R> {
    pub seq_counter: u64,
    pub inflight: HashMap<u64, R>,
}

impl<R> BridgeLink<R> {
    /// No action sent yet.
    pub fn new() -> (r: BridgeLink<R>)
        ensures
            r.seq_counter == 0,
            r.inflight@ == Map::<u64, R>::empty(),
    {
        BridgeLink { seq_counter: 0, inflight: HashMap::new() }
    }

    /// Numbers the next module action (the counter wraps around) and
    /// writes its request.
    pub fn next_action(&mut self, module_id: i64, action: &str) -> (r: (u64, String))
        ensures
            final(self).seq_counter == if old(self).seq_counter == u64::MAX {
                0
            } else {
                (old(self).seq_counter + 1) as u64
            },
            final(self).seq_counter == nth_action(old(self).seq_counter, 1),
            r.0 == final(self).seq_counter,
            r.1@ == action_frame(r.0, module_id, action@),
            final(self).inflight@ == old(self).inflight@,
    {
        proof {
            law_action_numbering(self.seq_counter, 0, 1);
        }
        self.seq_counter = self.seq_counter.wrapping_add(1);
        let seq = self.seq_counter;
        (seq, encode_action(seq, module_id, action))
    }

    /// After the request of the action `seq` was written, or failed to
    /// be: a written request waits for the rack's answer under its number;
    /// one that could not be written is answered `bridge-disconnected` at
    /// once (`Some`), and the link is then to be closed.
    pub fn after_write(&mut self, seq: u64, reply: R, written: bool) -> (r: Option<
        (R, Result<(), String>),
    >)
        ensures
            written ==> r is None && final(self).inflight@ == old(self).inflight@.insert(
                seq,
                reply,
            ),
            !written ==> final(self).inflight@ == old(self).inflight@,
            !written ==> (r matches Some((x, e)) && x == reply && (e matches Err(m) && m@
                == "bridge-disconnected"@)),
            final(self).seq_counter == old(self).seq_counter,
    {
        if written {
            self.inflight.insert(seq, reply);
            None
        } else {
            Some((reply, disconnected()))
        }
    }

    /// The link went down: hands back every action still waiting (each to
    /// be answered `bridge-disconnected`) and waits for none.
    pub fn disconnect(&mut self) -> (r: HashMap<u64, R>)
        ensures
            r@ == old(self).inflight@,
            final(self).inflight@ == Map::<u64, R>::empty(),
            final(self).seq_counter == old(self).seq_counter,
    {
        let mut pending: HashMap<u64, R> = HashMap::new();
        std::mem::swap(&mut pending, &mut self.inflight);
        pending
    }
}

/// The number of the `n`-th module action sent after the counter stood at
/// `c0`: the counter wraps around after `u64::MAX`.
pub open spec fn nth_action(c0: u64, n: nat) -> u64 {
    ((c0 + n) % 0x1_0000_0000_0000_0000int) as u64
}

/// The pending actions after the actions with `replies` were sent and
/// written and waited for in order, the counter having stood at `c0`.
pub open spec fn registered<R>(c0: u64, replies: Seq<R>) -> Map<u64, R>
    decreases replies.len(),
{
    if replies.len() == 0 {
        Map::empty()
    } else {
        registered(c0, replies.drop_last()).insert(nth_action(c0, replies.len()), replies.last())
    }
}

/// Numbering a series of module actions: each step of `next_action` moves
/// to the next number, so the `n`-th action gets `nth_action(c0, n)`, and
/// fewer than 2^64 actions in a row never share a number (reconnecting
/// does not reset the counter: `disconnect` keeps it).
pub proof fn law_action_numbering(c0: u64, i: nat, j: nat)
    ensures
        nth_action(c0, 0) == c0,
        nth_action(nth_action(c0, i), 1) == nth_action(c0, i + 1),
        nth_action(c0, i) == u64::MAX ==> nth_action(c0, i + 1) == 0,
        nth_action(c0, i) < u64::MAX ==> nth_action(c0, i + 1) == nth_action(c0, i) + 1,
        i < j < i + 0x1_0000_0000_0000_0000int ==> nth_action(c0, i) != nth_action(c0, j),
{
    let m = 0x1_0000_0000_0000_0000int;
    assert(nth_action(nth_action(c0, i), 1) == nth_action(c0, i + 1)) by (nonlinear_arith)
        requires
            m == 0x1_0000_0000_0000_0000int,
    {
        let a = c0 + i;
        assert((a % m + 1) % m == (a + 1) % m) by (nonlinear_arith) requires m > 0;
    }
    if i < j < i + m {
        assert(((c0 + i) % m) != ((c0 + j) % m)) by (nonlinear_arith)
            requires
                m == 0x1_0000_0000_0000_0000int,
                i < j < i + m,
                c0 >= 0,
        {
        }
    }
}

/// Every action of a series is settled by the answer with its own number:
/// after writing fewer than 2^64 actions in a row, the answer numbered
/// like the `i`-th settles that action's reply, and no other.
pub proof fn law_answers_settle_their_action<R>(c0: u64, replies: Seq<R>, i: int)
    requires
        0 <= i < replies.len(),
        replies.len() < 0x1_0000_0000_0000_0000int,
    ensures
        registered(c0, replies).contains_key(nth_action(c0, (i + 1) as nat)),
        registered(c0, replies)[nth_action(c0, (i + 1) as nat)] == replies[i],
    decreases replies.len(),
{
    let n = replies.len();
    if i < n - 1 {
        law_answers_settle_their_action(c0, replies.drop_last(), i);
        law_action_numbering(c0, (i + 1) as nat, n as nat);
        assert(replies.drop_last()[i] == replies[i]);
    }
}

/// A frame from the rack without an `op` that is an object: a snapshot as
/// the plugin sends it.
pub open spec fn is_bare_snapshot(raw: Json) -> bool {
    raw.field("op"@) is None && raw is Object
}

/// `after` is the object `before` with `op` set to `"snapshot"` and `v` to
/// the protocol version, every other member unchanged.
pub open spec fn stamped(before: Json, after: Json) -> bool {
    &&& after is Object
    &&& after.str_at("op"@) == Some("snapshot"@)
    &&& after.field("v"@) == Some(Json::Number(Num::PosInt(PROTOCOL_VERSION)))
    &&& forall|k: Seq<char>| k != "op"@ && k != "v"@ ==> #[trigger] after.field(k) == before.field(k)
}

/// `frame` is how the helper keeps and forwards the rack's frame `raw`.
pub open spec fn forwarded(raw: Json, frame: Json) -> bool {
    if is_bare_snapshot(raw) {
        stamped(raw, frame)
    } else {
        frame == raw
    }
}

/// The op of a frame from the rack, a bare snapshot counting as `snapshot`.
pub open spec fn frame_op(raw: Json) -> Seq<char> {
    if is_bare_snapshot(raw) {
        "snapshot"@
    } else {
        text_or_empty(raw, "op"@)
    }
}

/// The outcome that the rack's answer to a module action reports: done
/// when `ok` is true, else failed with its `reason`, or `action-failed`
/// when it gives none.
pub open spec fn ack_result(msg: Json) -> Result<(), Seq<char>> {
    if msg.bool_at("ok"@) == Some(true) {
        Ok(())
    } else if text_or_empty(msg, "reason"@).len() == 0 {
        Err("action-failed"@)
    } else {
        Err(text_or_empty(msg, "reason"@))
    }
}

/// The key of a panel asset: plugin slug, `/`, model slug.
pub open spec fn asset_key(msg: Json) -> Seq<char> {
    text_or_empty(msg, "pluginSlug"@) + "/"@ + text_or_empty(msg, "modelSlug"@)
}

/// Whether a panel asset names both its plugin and its model.
pub open spec fn has_slugs(msg: Json) -> bool {
    text_or_empty(msg, "pluginSlug"@).len() > 0 && text_or_empty(msg, "modelSlug"@).len() > 0
}

/// The pending action that the rack's answer `msg` settles, if any.
pub open spec fn settled_seq<R>(msg: Json, inflight: Map<u64, R>) -> Option<u64> {
    match msg.u64_at("seq"@) {
        Some(s) => if inflight.contains_key(s) { Some(s) } else { None },
        None => None,
    }
}

/// The ops of the rack's frames are distinct words.
proof fn lemma_bridge_ops_distinct()
    ensures
        "snapshot"@ != "module-asset"@,
        "snapshot"@ != "action-ack"@,
        "module-asset"@ != "action-ack"@,
{
    reveal_strlit("snapshot");
    reveal_strlit("module-asset");
    reveal_strlit("action-ack");
    assert("snapshot"@[0] != "module-asset"@[0]);
    assert("snapshot"@[0] != "action-ack"@[0]);
    assert("module-asset"@[0] != "action-ack"@[0]);
}

/// An answer from the rack settles its pending action once: the action is
/// then no longer pending, so the same answer again settles nothing.
pub proof fn law_ack_settles_once<R>(msg: Json, inflight: Map<u64, R>)
    requires
        msg.u64_at("seq"@) is Some,
        inflight.contains_key(msg.u64_at("seq"@).unwrap()),
    ensures
        settled_seq(msg, inflight) == msg.u64_at("seq"@),
        settled_seq(msg, inflight.remove(msg.u64_at("seq"@).unwrap())) is None,
{
}

/// Stamping a bare snapshot with `op` and `v` changes nothing of the scene
/// that it describes.
pub proof fn law_stamp_keeps_scene(raw: Json, frame: Json)
    requires
        stamped(raw, frame),
    ensures
        scene_of(frame) == scene_of(raw),
{
    reveal_strlit("modules");
    reveal_strlit("op");
    reveal_strlit("v");
    assert("modules"@.len() != "op"@.len());
    assert("modules"@.len() != "v"@.len());
    assert(frame.field("modules"@) == raw.field("modules"@));
}

/// What to do after a frame from the rack.
pub enum Inbound<R> {
    /// A snapshot became the scene and the latest frame: send `last` to
    /// every client.
    Snapshot,
    /// A panel asset was stored under this key: send it to every client.
    Asset(String),
    /// The rack answered the pending action whose reply handle this is.
    Settled { reply: R, result: Result<(), String> },
    /// A panel asset without its slugs: dropped.
    MissingSlugs,
    /// An answer to no pending action: dropped.
    Unmatched,
    /// A frame with an op that the helper does not know: dropped.
    UnknownOp(String),
}

/// What handling the rack's frame `raw` does: `before` and `after` are
/// the shared state, `pending` and `pending_after` the actions waiting for
/// an answer, `r` what is left to do.
pub open spec fn inbound_done<R>(
    raw: Json,
    before: HelperState,
    after: HelperState,
    pending: Map<u64, R>,
    pending_after: Map<u64, R>,
    r: Inbound<R>,
) -> bool {
    &&& (frame_op(raw) == "snapshot"@ ==> {
            &&& r is Snapshot
            &&& after.last matches Some(f) && forwarded(raw, f) && after.scene@
                == scene_of(f)
            &&& after.assets@ == before.assets@
            &&& pending_after == pending
        })
    &&& (frame_op(raw) == "module-asset"@ ==> {
            &&& after.last == before.last
            &&& after.scene@ == before.scene@
            &&& pending_after == pending
            &&& if has_slugs(raw) {
                &&& r matches Inbound::Asset(k) && k@ == asset_key(raw)
                &&& after.assets@ == stored(before.assets@, asset_key(raw), raw)
            } else {
                &&& r is MissingSlugs
                &&& after.assets@ == before.assets@
            }
        })
    &&& (frame_op(raw) == "action-ack"@ ==> {
            &&& after.last == before.last
            &&& after.scene@ == before.scene@
            &&& after.assets@ == before.assets@
            &&& match settled_seq(raw, pending) {
                Some(s) => {
                    &&& r matches Inbound::Settled { reply, result } && reply == pending[s]
                        && match result {
                        Ok(()) => ack_result(raw) == Ok::<(), Seq<char>>(()),
                        Err(e) => ack_result(raw) == Err::<(), Seq<char>>(e@),
                    }
                    &&& pending_after =~= pending.remove(s)
                },
                None => {
                    &&& r is Unmatched
                    &&& pending_after =~= pending
                },
            }
        })
    &&& (frame_op(raw) != "snapshot"@ && frame_op(raw) != "module-asset"@ && frame_op(raw)
            != "action-ack"@ ==> {
            &&& r matches Inbound::UnknownOp(o) && o@ == frame_op(raw)
            &&& after.last == before.last
            &&& after.scene@ == before.scene@
            &&& after.assets@ == before.assets@
            &&& pending_after == pending
        })
}

/// Handles one frame from the rack: a snapshot (a bare one gets `op` and
/// `v` first) replaces the scene and the latest frame; a panel asset is
/// cached under `plugin/model`; an answer to a module action settles the
/// pending action with its number; anything else is dropped.
pub fn handle_inbound<R>(raw: Json, state: &mut HelperState, inflight: &mut HashMap<u64, R>) -> (r:
    Inbound<R>)
    ensures
        inbound_done(raw, *old(state), *final(state), old(inflight)@, final(inflight)@, r),
{
    let ghost raw0 = raw;
    proof {
        lemma_bridge_ops_distinct();
    }
    let had_op = raw.get("op").is_some();
    let v = if had_op {
        raw
    } else {
        match raw {
            Json::Object(mut fields) => {
                let ghost before = fields@;
                set_member(&mut fields, "op", Json::Str(String::from_str("snapshot")));
                set_member(&mut fields, "v", Json::Number(Num::PosInt(PROTOCOL_VERSION)));
                let stamped_frame = Json::Object(fields);
                proof {
                    reveal_strlit("op");
                    reveal_strlit("v");
                    assert("op"@.len() != "v"@.len());
                    assert(stamped(raw0, stamped_frame));
                }
                stamped_frame
            },
            other => other,
        }
    };
    assert(forwarded(raw0, v));
    let op = if had_op {
        match v.get_str("op") {
            Some(s) => s.clone(),
            None => String::new(),
        }
    } else {
        match v {
            Json::Object(_) => String::from_str("snapshot"),
            _ => String::new(),
        }
    };
    assert(op@ == frame_op(raw0));
    if same_text(op.as_str(), "snapshot") {
        let scene = SceneCache::from_envelope(&v);
        state.scene = scene;
        state.last = Some(v);
        Inbound::Snapshot
    } else if same_text(op.as_str(), "module-asset") {
        let plugin = match v.get_str("pluginSlug") {
            Some(s) => s.clone(),
            None => String::new(),
        };
        let model = match v.get_str("modelSlug") {
            Some(s) => s.clone(),
            None => String::new(),
        };
        assert(plugin@.len() == 0 ==> plugin@ =~= Seq::<char>::empty());
        assert(model@.len() == 0 ==> model@ =~= Seq::<char>::empty());
        if plugin == String::new() || model == String::new() {
            return Inbound::MissingSlugs;
        }
        let mut key = plugin;
        key.append("/");
        key.append(model.as_str());
        let returned = key.clone();
        assert(v == raw0);
        assert(returned@ == asset_key(raw0));
        state.assets.insert(key, v);
        Inbound::Asset(returned)
    } else if same_text(op.as_str(), "action-ack") {
        let seq = match v.get_u64("seq") {
            Some(s) => s,
            None => {
                return Inbound::Unmatched;
            },
        };
        let ok = match v.get_bool("ok") {
            Some(b) => b,
            None => false,
        };
        let reason = match v.get_str("reason") {
            Some(s) => s.clone(),
            None => String::new(),
        };
        assert(reason@.len() == 0 ==> reason@ =~= Seq::<char>::empty());
        assert(v == raw0);
        match inflight.remove(&seq) {
            Some(reply) => {
                let result = if ok {
                    Ok(())
                } else if reason == String::new() {
                    Err(String::from_str("action-failed"))
                } else {
                    Err(reason)
                };
                Inbound::Settled { reply, result }
            },
            None => Inbound::Unmatched,
        }
    } else {
        Inbound::UnknownOp(op)
    }
}

/// The reason given to a module action whose answer cannot come: the link
/// to the rack is down, or its request could not be written.
pub fn disconnected() -> (r: Result<(), String>)
    ensures
        r matches Err(e) && e@ == "bridge-disconnected"@,
{
    Err(String::from_str("bridge-disconnected"))
}

/// What became of one line from the rack.
pub enum BridgeLine<R> {
    /// Nothing but whitespace: skipped.
    Blank,
    /// Not JSON: dropped.
    Unreadable,
    /// A frame, handled; what is left to do.
    Frame(Inbound<R>),
}

/// Whether the helper's state and the pending actions are as they were.
pub open spec fn untouched<R>(
    before: HelperState,
    after: HelperState,
    pending: Map<u64, R>,
    pending_after: Map<u64, R>,
) -> bool {
    &&& after.last == before.last
    &&& after.scene@ == before.scene@
    &&& after.assets@ == before.assets@
    &&& pending_after == pending
}

/// One line read from the rack: its trailing whitespace is dropped; a line
/// with nothing left is skipped, one that is not JSON is dropped, and the
/// frame it parses to is handled by [`handle_inbound`].
pub fn handle_bridge_line<R>(line: &str, state: &mut HelperState, inflight: &mut HashMap<u64, R>) -> (r:
    BridgeLine<R>)
    ensures
        trim_end_of(line@).len() == 0 ==> r is Blank && untouched(
            *old(state),
            *final(state),
            old(inflight)@,
            final(inflight)@,
        ),
        trim_end_of(line@).len() > 0 ==> match parsed_json(trim_end_of(line@)) {
            Ok(m) => r matches BridgeLine::Frame(x) && inbound_done(
                m,
                *old(state),
                *final(state),
                old(inflight)@,
                final(inflight)@,
                x,
            ),
            Err(_) => r is Unreadable && untouched(
                *old(state),
                *final(state),
                old(inflight)@,
                final(inflight)@,
            ),
        },
{
    let frame = trim_end(line);
    if frame.is_empty() {
        return BridgeLine::Blank;
    }
    match parse_json(frame) {
        Ok(m) => BridgeLine::Frame(handle_inbound(m, state, inflight)),
        Err(_) => BridgeLine::Unreadable,
    }
}

} // verus!
