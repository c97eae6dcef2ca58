use vstd::prelude::*;
use std::collections::HashMap;
use rand::XorShiftRng;
use crate::ball::{Ball, Circle, circle_of, new_ball, updated};
use crate::body::{Body, Placement, ShapeKind, ShapePart, is_drawable};
use crate::color::Rgb;
use crate::palette::{draw_byte, seeded_generator};

verus! {

broadcast use vstd::std_specs::hash::group_hash_axioms;

/// A visual of the scene.
#[derive(Clone, Copy, Debug)]
pub enum SceneNode {
    BallNode(Ball),
}

/// The visuals of one body, in the order of its shape tree.
#[derive(Debug)]
pub struct BodyNodes {
    pub key: u64,
    pub nodes: Vec<SceneNode>,
}

/// A body's shape tree holds a leaf that the scene has no visual for.
#[derive(Clone, Copy, Debug, PartialEq, Eq, Structural)]
pub struct UnsupportedShape {
    pub kind: ShapeKind,
}

/// The map from identity key to visuals that a list of entries with
/// distinct keys stands for.
pub open spec fn entries_map(s: Seq<BodyNodes>) -> Map<u64, Seq<SceneNode>>
    decreases s.len(),
{
    if s.len() == 0 {
        Map::empty()
    } else {
        entries_map(s.drop_last()).insert(s.last().key, s.last().nodes@)
    }
}

/// No two entries share a key.
pub open spec fn distinct_keys(s: Seq<BodyNodes>) -> bool {
    forall|i: int, j: int| 0 <= i < s.len() && 0 <= j < s.len() && i != j ==> s[i].key != s[j].key
}

/// The visual of disc `part` of a body with key `key` and margin `margin`.
pub open spec fn disc_node(key: u64, margin: u64, part: ShapePart, color: Rgb) -> SceneNode {
    SceneNode::BallNode(
        new_ball(key, part.delta, part.shape->Ball_radius + margin, color),
    )
}

/// The visuals of the first `n` leaves of a body, all in colour `color`:
/// one per disc, none for a plane.
pub open spec fn disc_nodes(body: Body, color: Rgb, n: int) -> Seq<SceneNode>
    decreases n,
{
    if n <= 0 {
        Seq::empty()
    } else {
        let prev = disc_nodes(body, color, n - 1);
        if body.parts@[n - 1].shape is Ball {
            prev.push(disc_node(body.key, body.margin, body.parts@[n - 1], color))
        } else {
            prev
        }
    }
}

/// The visuals of a whole body.
pub open spec fn body_nodes(body: Body, color: Rgb) -> Seq<SceneNode> {
    disc_nodes(body, color, body.parts@.len() as int)
}

/// `res` is what `color_for_object` on a manager `old` gives for the body
/// with key `key`, leaving `new`.
pub open spec fn color_resolved(old: GraphicsManager, key: u64, new: GraphicsManager, res: Rgb) -> bool {
    &&& new.wf()
    &&& new.scene() == old.scene()
    &&& if old.colors().contains_key(key) {
        res == old.colors()[key] && new.colors() == old.colors()
    } else {
        new.colors() == old.colors().insert(key, res)
    }
}

/// `res` is what `add` of `body` on a manager `old` gives, leaving `new`.
pub open spec fn body_added(
    old: GraphicsManager,
    body: Body,
    new: GraphicsManager,
    res: Result<(), UnsupportedShape>,
) -> bool {
    &&& new.wf()
    &&& (res is Ok <==> body.all_drawable())
    &&& match res {
        Ok(()) => {
            &&& new.scene() == old.scene().insert(body.key, body_nodes(body, new.colors()[body.key]))
            &&& if old.colors().contains_key(body.key) || !body.has_disc() {
                new.colors() == old.colors()
            } else {
                exists|c: Rgb| new.colors() == old.colors().insert(body.key, c)
            }
        },
        Err(e) => {
            &&& !is_drawable(e.kind)
            &&& new.scene() == old.scene()
            &&& new.colors() == old.colors()
        },
    }
}

/// What the map of a list of entries with distinct keys holds: the
/// entries' keys, each with its entry's visuals.
pub proof fn lemma_entries_map(s: Seq<BodyNodes>)
    requires
        distinct_keys(s),
    ensures
        forall|i: int| 0 <= i < s.len() ==> #[trigger] entries_map(s).contains_key(s[i].key)
            && entries_map(s)[s[i].key] == s[i].nodes@,
        forall|k: u64| #[trigger] entries_map(s).contains_key(k) ==> exists|i: int| 0 <= i < s.len() && s[i].key == k,
    decreases s.len(),
{
    if s.len() > 0 {
        let p = s.drop_last();
        assert(distinct_keys(p));
        lemma_entries_map(p);
        assert(entries_map(s) == entries_map(p).insert(s.last().key, s.last().nodes@));
        assert forall|i: int| 0 <= i < s.len() implies #[trigger] entries_map(s).contains_key(s[i].key)
            && entries_map(s)[s[i].key] == s[i].nodes@ by {
            if i < s.len() - 1 {
                assert(p[i] == s[i]);
                assert(entries_map(p).contains_key(p[i].key));
                assert(s[i].key != s.last().key);
            }
        }
        assert forall|k: u64| #[trigger] entries_map(s).contains_key(k) implies exists|i: int| 0 <= i < s.len() && s[i].key == k by {
            if k != s.last().key {
                assert(entries_map(p).contains_key(k));
                let i = choose|i: int| 0 <= i < p.len() && p[i].key == k;
                assert(s[i].key == k);
            } else {
                assert(s[s.len() - 1].key == k);
            }
        }
    }
}

/// Replacing the entry of a key replaces that key's visuals in the map.
pub proof fn lemma_entries_map_replace(s: Seq<BodyNodes>, i: int, e: BodyNodes)
    requires
        distinct_keys(s),
        0 <= i < s.len(),
        s[i].key == e.key,
    ensures
        distinct_keys(s.update(i, e)),
        entries_map(s.update(i, e)) == entries_map(s).insert(e.key, e.nodes@),
{
    let t = s.update(i, e);
    assert(distinct_keys(t));
    lemma_entries_map(s);
    lemma_entries_map(t);
    let m = entries_map(s).insert(e.key, e.nodes@);
    assert(t[i] == e);
    assert(entries_map(t).contains_key(t[i].key));
    assert forall|k: u64| #[trigger] m.contains_key(k) == entries_map(t).contains_key(k)
        && (m.contains_key(k) ==> entries_map(t)[k] == m[k]) by {
        if k != e.key {
            if m.contains_key(k) {
                let j = choose|j: int| 0 <= j < s.len() && s[j].key == k;
                assert(t[j] == s[j]);
                assert(entries_map(s).contains_key(s[j].key));
                assert(entries_map(t).contains_key(t[j].key));
            }
            if entries_map(t).contains_key(k) {
                let j = choose|j: int| 0 <= j < t.len() && t[j].key == k;
                assert(t[j] == s[j]);
                assert(entries_map(s).contains_key(s[j].key));
            }
        }
    }
    assert(entries_map(t) =~= m);
}

/// A body with no disc among its first `n` leaves has no visual for them,
/// whatever its colour.
pub proof fn lemma_no_disc_no_nodes(body: Body, color: Rgb, n: int)
    requires
        forall|j: int| 0 <= j < n ==> !(#[trigger] body.parts@[j].shape is Ball),
    ensures
        disc_nodes(body, color, n) == Seq::<SceneNode>::empty(),
    decreases n,
{
    if n > 0 {
        lemma_no_disc_no_nodes(body, color, n - 1);
    }
}

/// `new` is `old` refreshed from some pose and activity that `pose_of`
/// may give for the visual's body and offset.
pub open spec fn refreshed<F: Fn(u64, Placement) -> (Placement, bool)>(
    old: SceneNode,
    new: SceneNode,
    pose_of: F,
) -> bool {
    let b = old->BallNode_0;
    exists|pose: Placement, active: bool|
        #[trigger] pose_of.ensures((b.body, b.delta), (pose, active))
        && new == SceneNode::BallNode(updated(b, pose, active))
}

/// Each visual of `new` is the one of `old` at the same place, refreshed.
pub open spec fn all_refreshed<F: Fn(u64, Placement) -> (Placement, bool)>(
    old: Seq<SceneNode>,
    new: Seq<SceneNode>,
    pose_of: F,
) -> bool {
    &&& new.len() == old.len()
    &&& forall|j: int| 0 <= j < old.len() ==> refreshed(old[j], #[trigger] new[j], pose_of)
}

/// The circles of the visuals of a list of entries, entry by entry.
pub open spec fn entries_circles(s: Seq<BodyNodes>) -> Seq<Circle>
    decreases s.len(),
{
    if s.len() == 0 {
        Seq::empty()
    } else {
        entries_circles(s.drop_last()) + s.last().nodes@.map_values(|n: SceneNode| circle_of(n->BallNode_0))
    }
}

/// `new` is what `clear` on `old` leaves.
pub open spec fn scene_cleared(old: GraphicsManager, new: GraphicsManager) -> bool {
    &&& new.wf()
    &&& new.scene() == Map::<u64, Seq<SceneNode>>::empty()
    &&& new.colors() == old.colors()
}

/// The first `n` leaves of a body give a visual exactly when one of them
/// is a disc.
pub proof fn lemma_disc_nodes_nonempty(body: Body, color: Rgb, n: int)
    requires
        0 <= n <= body.parts@.len(),
    ensures
        disc_nodes(body, color, n).len() > 0 <==> exists|j: int| 0 <= j < n && (#[trigger] body.parts@[j]).shape is Ball,
    decreases n,
{
    if n > 0 {
        lemma_disc_nodes_nonempty(body, color, n - 1);
        if body.parts@[n - 1].shape is Ball {
            assert(body.parts@[n - 1].shape is Ball);
        } else {
            if exists|j: int| 0 <= j < n && (#[trigger] body.parts@[j]).shape is Ball {
                let j = choose|j: int| 0 <= j < n && (#[trigger] body.parts@[j]).shape is Ball;
                assert(j < n - 1);
            }
        }
    }
}

/// Once a body has been added, looking it up gives at least one visual
/// exactly when its shape tree has a disc, and none exactly when every leaf
/// is a plane.
pub proof fn lemma_lookup_nonempty_iff_disc(
    old: GraphicsManager,
    body: Body,
    new: GraphicsManager,
    res: Result<(), UnsupportedShape>,
)
    requires
        body_added(old, body, new, res),
        res is Ok,
    ensures
        new.scene().contains_key(body.key),
        new.scene()[body.key].len() > 0 <==> body.has_disc(),
        new.scene()[body.key].len() == 0 <==> forall|i: int| 0 <= i < body.parts@.len() ==> (#[trigger] body.parts@[i]).shape is Plane,
{
    lemma_disc_nodes_nonempty(body, new.colors()[body.key], body.parts@.len() as int);
    if forall|i: int| 0 <= i < body.parts@.len() ==> (#[trigger] body.parts@[i]).shape is Plane {
        assert(!body.has_disc());
    }
    if !body.has_disc() {
        assert forall|i: int| 0 <= i < body.parts@.len() implies (#[trigger] body.parts@[i]).shape is Plane by {
            assert(is_drawable(body.parts@[i].shape));
        }
    }
}

/// A second lookup of a body's colour gives the first one back and changes
/// nothing.
pub proof fn lemma_color_for_object_idempotent(
    m0: GraphicsManager,
    key: u64,
    m1: GraphicsManager,
    c1: Rgb,
    m2: GraphicsManager,
    c2: Rgb,
)
    requires
        color_resolved(m0, key, m1, c1),
        color_resolved(m1, key, m2, c2),
    ensures
        c1 == c2,
        m2.colors() == m1.colors(),
{
}

/// After `clear` no body is in the scene any more, so a lookup gives
/// nothing.
pub proof fn lemma_clear_forgets(old: GraphicsManager, new: GraphicsManager, key: u64)
    requires
        scene_cleared(old, new),
    ensures
        !new.scene().contains_key(key),
{
}

/// The circle of a visual.
pub open spec fn node_circle(n: SceneNode) -> Circle {
    circle_of(n->BallNode_0)
}

/// Some visual of the entries `s` has circle `c`.
pub open spec fn entries_show(s: Seq<BodyNodes>, c: Circle) -> bool {
    exists|i: int, j: int| 0 <= i < s.len() && 0 <= j < s[i].nodes@.len() && c == node_circle(#[trigger] s[i].nodes@[j])
}

/// Some visual of the scene `scene` has circle `c`.
pub open spec fn scene_shows(scene: Map<u64, Seq<SceneNode>>, c: Circle) -> bool {
    exists|k: u64, j: int| scene.contains_key(k) && 0 <= j < scene[k].len() && c == node_circle(#[trigger] scene[k][j])
}

/// The circles of a list of entries are those of its visuals: each visual's
/// circle is among them, and each of them is some visual's circle.
pub proof fn lemma_entries_circles(s: Seq<BodyNodes>)
    ensures
        forall|i: int, j: int| 0 <= i < s.len() && 0 <= j < s[i].nodes@.len()
            ==> entries_circles(s).contains(node_circle(#[trigger] s[i].nodes@[j])),
        forall|n: int| 0 <= n < entries_circles(s).len() ==> entries_show(s, #[trigger] entries_circles(s)[n]),
    decreases s.len(),
{
    if s.len() > 0 {
        let p = s.drop_last();
        lemma_entries_circles(p);
        let ep = entries_circles(p);
        let last = s.last().nodes@;
        let m = last.map_values(|n: SceneNode| circle_of(n->BallNode_0));
        assert(entries_circles(s) == ep + m);
        assert forall|i: int, j: int| 0 <= i < s.len() && 0 <= j < s[i].nodes@.len()
            implies entries_circles(s).contains(node_circle(#[trigger] s[i].nodes@[j])) by {
            if i < s.len() - 1 {
                assert(p[i] == s[i]);
                assert(ep.contains(node_circle(p[i].nodes@[j])));
                let idx = choose|idx: int| 0 <= idx < ep.len() && ep[idx] == node_circle(p[i].nodes@[j]);
                assert((ep + m)[idx] == ep[idx]);
            } else {
                assert((ep + m)[ep.len() + j] == m[j]);
            }
        }
        assert forall|n: int| 0 <= n < entries_circles(s).len() implies entries_show(s, #[trigger] entries_circles(s)[n]) by {
            if n < ep.len() {
                assert((ep + m)[n] == ep[n]);
                assert(entries_show(p, ep[n]));
                let (i, j) = choose|i: int, j: int| 0 <= i < p.len() && 0 <= j < p[i].nodes@.len()
                    && ep[n] == node_circle(#[trigger] p[i].nodes@[j]);
                assert(p[i] == s[i]);
                assert(entries_circles(s)[n] == node_circle(s[i].nodes@[j]));
            } else {
                let j = n - ep.len();
                assert((ep + m)[n] == m[j]);
                assert(entries_circles(s)[n] == node_circle(s[s.len() - 1].nodes@[j]));
            }
        }
    } else {
        assert(entries_circles(s) == Seq::<Circle>::empty());
    }
}

/// The scene: the visuals of every body added since the last `clear`, and
/// the colour of every body that was given one.
pub struct GraphicsManager {
    rand: XorShiftRng,
    rb2sn: Vec<BodyNodes>,
    obj2color: HashMap<u64, Rgb>,
}

impl GraphicsManager {
    /// The visuals of each body in the scene, by identity key.
    pub closed spec fn scene(&self) -> Map<u64, Seq<SceneNode>> {
        entries_map(self.rb2sn@)
    }

    /// The colour of each body that has one, by identity key.
    pub closed spec fn colors(&self) -> Map<u64, Rgb> {
        self.obj2color@
    }

    /// No two entries of the scene share a key.
    pub closed spec fn wf(&self) -> bool {
        distinct_keys(self.rb2sn@)
    }

    /// An empty scene with no colours, whose generator has a fixed seed.
    pub fn new() -> (res: GraphicsManager)
        ensures
            res.wf(),
            res.scene() == Map::<u64, Seq<SceneNode>>::empty(),
            res.colors() == Map::<u64, Rgb>::empty(),
    {
        GraphicsManager {
            rand: seeded_generator(0, 1, 2, 3),
            rb2sn: Vec::new(),
            obj2color: HashMap::new(),
        }
    }

    /// Gives `body` the colour `color` from now on, in place of the one it
    /// had or would have drawn.
    pub fn set_color(&mut self, body: &Body, color: Rgb)
        requires
            old(self).wf(),
        ensures
            final(self).wf(),
            final(self).scene() == old(self).scene(),
            final(self).colors() == old(self).colors().insert(body.key, color),
    {
        let key: u64 = body.key();
        self.obj2color.insert(key, color);
    }

    /// The colour of `body`: the one it has, or else three fresh bytes of
    /// the generator, which it keeps from now on.
    pub fn color_for_object(&mut self, body: &Body) -> (res: Rgb)
        requires
            old(self).wf(),
        ensures
            color_resolved(*old(self), body.key, *final(self), res),
    {
        let key: u64 = body.key();
        match self.obj2color.get(&key) {
            Some(color) => {
                return *color;
            },
            None => {},
        }
        let r: u8 = draw_byte(&mut self.rand);
        let g: u8 = draw_byte(&mut self.rand);
        let b: u8 = draw_byte(&mut self.rand);
        let color = Rgb::new(r, g, b);
        self.obj2color.insert(key, color);
        color
    }

    /// The index of the entry of `key`, if the scene has one.
    fn find(&self, key: u64) -> (res: Option<usize>)
        ensures
            match res {
                Some(i) => i < self.rb2sn@.len() && self.rb2sn@[i as int].key == key,
                None => forall|j: int| 0 <= j < self.rb2sn@.len() ==> self.rb2sn@[j].key != key,
            },
    {
        let mut i: usize = 0;
        while i < self.rb2sn.len()
            invariant
                i <= self.rb2sn@.len(),
                forall|j: int| 0 <= j < i ==> self.rb2sn@[j].key != key,
            decreases self.rb2sn@.len() - i,
        {
            if self.rb2sn[i].key == key {
                return Some(i);
            }
            i = i + 1;
        }
        None
    }

    /// Appends the visual of one drawable leaf of `body` to `out`: one disc
    /// for a disc, nothing for a plane, which is invisible here.
    fn add_shape(&mut self, body: &Body, part: ShapePart, out: &mut Vec<SceneNode>)
        requires
            old(self).wf(),
            is_drawable(part.shape),
        ensures
            part.shape is Ball ==> exists|c: Rgb|
                color_resolved(*old(self), body.key, *final(self), c)
                && final(out)@ == old(out)@.push(disc_node(body.key, body.margin, part, c)),
            !(part.shape is Ball) ==> *final(self) == *old(self) && final(out)@ == old(out)@,
    {
        match part.shape {
            ShapeKind::Ball { radius } => self.add_ball(body, part.delta, radius, out),
            _ => {},
        }
    }

    /// Appends the visual of a disc of `radius` of `body`, in the body's
    /// colour, with the body's margin added to the radius.
    fn add_ball(&mut self, body: &Body, delta: Placement, radius: u64, out: &mut Vec<SceneNode>)
        requires
            old(self).wf(),
        ensures
            exists|c: Rgb|
                color_resolved(*old(self), body.key, *final(self), c)
                && final(out)@ == old(out)@.push(
                    disc_node(body.key, body.margin, ShapePart { delta, shape: ShapeKind::Ball { radius } }, c),
                ),
    {
        let color = self.color_for_object(body);
        let margin: u64 = body.margin;
        let ball = Ball::new(body.key(), delta, radius as u128 + margin as u128, color);
        out.push(SceneNode::BallNode(ball));
    }

    /// Puts `body` in the scene with one visual per disc of its shape tree,
    /// in the order of the tree, replacing what the scene held for its key.
    /// A leaf that is neither a plane nor a disc leaves the scene as it was
    /// and is returned as the error.
    pub fn add(&mut self, body: &Body) -> (res: Result<(), UnsupportedShape>)
        requires
            old(self).wf(),
        ensures
            body_added(*old(self), *body, *final(self), res),
    {
        let n: usize = body.parts.len();
        let mut i: usize = 0;
        while i < n
            invariant
                n == body.parts@.len(),
                i <= n,
                self.wf(),
                forall|j: int| 0 <= j < i ==> is_drawable(#[trigger] body.parts@[j].shape),
            decreases n - i,
        {
            let kind = body.parts[i].shape;
            match kind {
                ShapeKind::Plane => {},
                ShapeKind::Ball { .. } => {},
                _ => {
                    assert(!is_drawable(body.parts@[i as int].shape));
                    return Err(UnsupportedShape { kind });
                },
            }
            i = i + 1;
        }
        let ghost start = *self;
        let mut nodes: Vec<SceneNode> = Vec::new();
        let mut i: usize = 0;
        while i < n
            invariant
                n == body.parts@.len(),
                i <= n,
                body.all_drawable(),
                self.wf(),
                self.scene() == start.scene(),
                (exists|j: int| 0 <= j < i && #[trigger] body.parts@[j].shape is Ball) ==> self.colors().contains_key(body.key),
                nodes@ == disc_nodes(*body, self.colors()[body.key], i as int),
                if start.colors().contains_key(body.key) || !(exists|j: int| 0 <= j < i && #[trigger] body.parts@[j].shape is Ball) {
                    self.colors() == start.colors()
                } else {
                    exists|c: Rgb| self.colors() == start.colors().insert(body.key, c)
                },
            decreases n - i,
        {
            let part = body.parts[i];
            let ghost before = *self;
            let ghost nodes_before = nodes@;
            let ghost had_disc = exists|j: int| 0 <= j < i && #[trigger] body.parts@[j].shape is Ball;
            assert(is_drawable(body.parts@[i as int].shape));
            self.add_shape(body, part, &mut nodes);
            proof {
                if part.shape is Ball {
                    let c = choose|c: Rgb| color_resolved(before, body.key, *self, c)
                        && nodes@ == nodes_before.push(disc_node(body.key, body.margin, part, c));
                    assert(self.colors()[body.key] == c);
                    if !had_disc {
                        assert forall|j: int| 0 <= j < i implies !(#[trigger] body.parts@[j].shape is Ball) by {}
                        lemma_no_disc_no_nodes(*body, c, i as int);
                        lemma_no_disc_no_nodes(*body, before.colors()[body.key], i as int);
                    }
                    assert(body.parts@[i as int].shape is Ball);
                    assert(disc_nodes(*body, c, i + 1) == disc_nodes(*body, c, i as int).push(
                        disc_node(body.key, body.margin, body.parts@[i as int], c)));
                } else {
                    assert(disc_nodes(*body, self.colors()[body.key], i + 1) == disc_nodes(*body, self.colors()[body.key], i as int));
                }
                if (exists|j: int| 0 <= j < i + 1 && #[trigger] body.parts@[j].shape is Ball) && !had_disc {
                    assert(part.shape is Ball);
                }
            }
            i = i + 1;
        }
        let key: u64 = body.key();
        let entry = BodyNodes { key, nodes };
        match self.find(key) {
            Some(j) => {
                proof {
                    lemma_entries_map_replace(self.rb2sn@, j as int, entry);
                }
                self.rb2sn[j] = entry;
            },
            None => {
                proof {
                    assert(self.rb2sn@.push(entry).drop_last() == self.rb2sn@);
                }
                self.rb2sn.push(entry);
            },
        }
        Ok(())
    }

    /// Drops every body from the scene; the colours stay.
    pub fn clear(&mut self)
        requires
            old(self).wf(),
        ensures
            scene_cleared(*old(self), *final(self)),
    {
        self.rb2sn = Vec::new();
    }

    /// The visuals of `body`, or nothing if it is not in the scene.
    pub fn body_to_scene_node(&self, body: &Body) -> (res: Option<&Vec<SceneNode>>)
        requires
            self.wf(),
        ensures
            match res {
                Some(v) => self.scene().contains_key(body.key) && v@ == self.scene()[body.key],
                None => !self.scene().contains_key(body.key),
            },
    {
        proof {
            lemma_entries_map(self.rb2sn@);
        }
        match self.find(body.key()) {
            Some(i) => {
                assert(entries_map(self.rb2sn@).contains_key(self.rb2sn@[i as int].key));
                Some(&self.rb2sn[i].nodes)
            },
            None => None,
        }
    }

    /// The circles of all visuals: those of each body in the order of its
    /// shape tree, the bodies in an order of the scene's choosing.
    pub closed spec fn drawing(&self) -> Seq<Circle> {
        entries_circles(self.rb2sn@)
    }

    /// Refreshes every visual of the scene. `pose_of` gives, for a body key
    /// and the offset of one of its visuals, the body's current pose composed
    /// with that offset, and whether the body is awake. Visuals do not
    /// depend on each other, so the order in which they are refreshed does
    /// not matter.
    pub fn draw_update<F: Fn(u64, Placement) -> (Placement, bool)>(&mut self, pose_of: F)
        requires
            old(self).wf(),
            forall|k: u64, d: Placement| pose_of.requires((k, d)),
        ensures
            final(self).wf(),
            final(self).colors() == old(self).colors(),
            final(self).scene().dom() == old(self).scene().dom(),
            forall|k: u64| #[trigger] old(self).scene().contains_key(k)
                ==> all_refreshed(old(self).scene()[k], final(self).scene()[k], pose_of),
    {
        let mut entries: Vec<BodyNodes> = Vec::new();
        let mut i: usize = 0;
        while i < self.rb2sn.len()
            invariant
                i <= self.rb2sn@.len(),
                entries@.len() == i,
                forall|k: u64, d: Placement| pose_of.requires((k, d)),
                forall|j: int| 0 <= j < i ==> (#[trigger] entries@[j]).key == self.rb2sn@[j].key
                    && all_refreshed(self.rb2sn@[j].nodes@, entries@[j].nodes@, pose_of),
            decreases self.rb2sn@.len() - i,
        {
            let mut nodes: Vec<SceneNode> = Vec::new();
            let mut n: usize = 0;
            while n < self.rb2sn[i].nodes.len()
                invariant
                    i < self.rb2sn@.len(),
                    n <= self.rb2sn@[i as int].nodes@.len(),
                    nodes@.len() == n,
                    forall|k: u64, d: Placement| pose_of.requires((k, d)),
                    forall|j: int| 0 <= j < n ==> refreshed(self.rb2sn@[i as int].nodes@[j], #[trigger] nodes@[j], pose_of),
                decreases self.rb2sn@[i as int].nodes@.len() - n,
            {
                let node: SceneNode = self.rb2sn[i].nodes[n];
                match node {
                    SceneNode::BallNode(b) => {
                        let mut ball = b;
                        let (pose, active) = pose_of(ball.body, ball.delta);
                        ball.update(pose, active);
                        nodes.push(SceneNode::BallNode(ball));
                        assert(refreshed(node, nodes@[n as int], pose_of));
                    },
                }
                n = n + 1;
            }
            entries.push(BodyNodes { key: self.rb2sn[i].key, nodes });
            i = i + 1;
        }
        let ghost before = self.rb2sn@;
        proof {
            assert(distinct_keys(entries@));
            lemma_entries_map(before);
            lemma_entries_map(entries@);
            assert forall|k: u64| #[trigger] entries_map(before).contains_key(k) implies
                entries_map(entries@).contains_key(k)
                && all_refreshed(entries_map(before)[k], entries_map(entries@)[k], pose_of) by {
                let j = choose|j: int| 0 <= j < before.len() && before[j].key == k;
                assert(entries_map(entries@).contains_key(entries@[j].key));
            }
            assert forall|k: u64| entries_map(entries@).contains_key(k) implies
                entries_map(before).contains_key(k) by {
                let j = choose|j: int| 0 <= j < entries@.len() && entries@[j].key == k;
                assert(entries_map(before).contains_key(before[j].key));
            }
            assert(entries_map(entries@).dom() =~= entries_map(before).dom());
        }
        self.rb2sn = entries;
    }

    /// The circles that show the scene, as `drawing` lists them: the circle
    /// of every visual of every body, and no other.
    pub fn new_draw(&self) -> (res: Vec<Circle>)
        requires
            self.wf(),
        ensures
            res@ == self.drawing(),
            forall|k: u64, j: int| self.scene().contains_key(k) && 0 <= j < self.scene()[k].len()
                ==> res@.contains(node_circle(#[trigger] self.scene()[k][j])),
            forall|n: int| 0 <= n < res@.len() ==> scene_shows(self.scene(), #[trigger] res@[n]),
    {
        let mut res: Vec<Circle> = Vec::new();
        let mut i: usize = 0;
        while i < self.rb2sn.len()
            invariant
                i <= self.rb2sn@.len(),
                res@ == entries_circles(self.rb2sn@.take(i as int)),
            decreases self.rb2sn@.len() - i,
        {
            let ghost start = res@;
            let mut n: usize = 0;
            while n < self.rb2sn[i].nodes.len()
                invariant
                    i < self.rb2sn@.len(),
                    n <= self.rb2sn@[i as int].nodes@.len(),
                    res@ == start + self.rb2sn@[i as int].nodes@.take(n as int).map_values(
                        |m: SceneNode| circle_of(m->BallNode_0),
                    ),
                decreases self.rb2sn@[i as int].nodes@.len() - n,
            {
                match &self.rb2sn[i].nodes[n] {
                    SceneNode::BallNode(b) => {
                        res.push(b.draw());
                    },
                }
                proof {
                    let ns = self.rb2sn@[i as int].nodes@;
                    assert(ns.take(n + 1) == ns.take(n as int).push(ns[n as int]));
                    assert(ns.take(n + 1).map_values(|m: SceneNode| circle_of(m->BallNode_0))
                        =~= ns.take(n as int).map_values(|m: SceneNode| circle_of(m->BallNode_0))
                            .push(circle_of(ns[n as int]->BallNode_0)));
                }
                n = n + 1;
            }
            proof {
                let s = self.rb2sn@;
                assert(s.take(i + 1).drop_last() == s.take(i as int));
                assert(s[i as int].nodes@.take(n as int) == s[i as int].nodes@);
            }
            i = i + 1;
        }
        proof {
            let s = self.rb2sn@;
            assert(s.take(s.len() as int) == s);
            lemma_entries_circles(s);
            lemma_entries_map(s);
            assert forall|k: u64, j: int| self.scene().contains_key(k) && 0 <= j < self.scene()[k].len()
                implies res@.contains(node_circle(#[trigger] self.scene()[k][j])) by {
                let i = choose|i: int| 0 <= i < s.len() && s[i].key == k;
                assert(entries_map(s).contains_key(s[i].key));
                assert(res@.contains(node_circle(s[i].nodes@[j])));
            }
            assert forall|n: int| 0 <= n < res@.len() implies scene_shows(self.scene(), #[trigger] res@[n]) by {
                assert(entries_circles(s)[n] == res@[n]);
                assert(entries_show(s, entries_circles(s)[n]));
                let (i, j) = choose|i: int, j: int| 0 <= i < s.len() && 0 <= j < s[i].nodes@.len()
                    && entries_circles(s)[n] == node_circle(#[trigger] s[i].nodes@[j]);
                assert(entries_map(s).contains_key(s[i].key));
                assert(self.scene().contains_key(s[i].key));
                assert(self.scene()[s[i].key][j] == s[i].nodes@[j]);
            }
        }
        res
    }
}

} // verus!
