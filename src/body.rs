use vstd::prelude::*;

verus! {

/// A rigid placement: a translation in micro-units and a rotation in
/// micro-radians.
#[derive(Clone, Copy, Debug, PartialEq, Eq, Structural)]
pub struct Placement {
    pub x: i64,
    pub y: i64,
    pub angle: i64,
}

impl Placement {
    pub fn new(x: i64, y: i64, angle: i64) -> (res: Placement)
        ensures
            res == (Placement { x, y, angle }),
    {
        Placement { x, y, angle }
    }

    /// The placement that leaves everything where it is.
    pub fn identity() -> (res: Placement)
        ensures
            res == (Placement { x: 0, y: 0, angle: 0 }),
    {
        Placement { x: 0, y: 0, angle: 0 }
    }
}

/// The kind of one leaf of a body's shape tree, with what the scene reads
/// of it.
#[derive(Clone, Copy, Debug, PartialEq, Eq, Structural)]
pub enum ShapeKind {
    /// An infinite half-plane; it has no visual.
    Plane,
    /// A disc of the given radius, in micro-units.
    Ball { radius: u64 },
    Convex,
    Cuboid,
    Cylinder,
    Cone,
    Polyline,
    Segment,
    /// Any other kind of shape.
    Other,
}

/// One leaf of a body's shape tree, with its offset from the body's own
/// origin (the identity for a body made of a single shape).
#[derive(Clone, Copy, Debug, PartialEq, Eq, Structural)]
pub struct ShapePart {
    pub delta: Placement,
    pub shape: ShapeKind,
}

/// What the scene reads of a simulated body when it enters the scene: its
/// identity key, its collision margin in micro-units, and the leaves of its
/// shape tree in the order of a depth-first walk.
#[derive(Clone, Debug)]
pub struct Body {
    pub key: u64,
    pub margin: u64,
    pub parts: Vec<ShapePart>,
}

/// Whether the scene can show a leaf of this kind.
pub open spec fn is_drawable(k: ShapeKind) -> bool {
    k is Plane || k is Ball
}

impl Body {
    pub fn new(key: u64, margin: u64, parts: Vec<ShapePart>) -> (res: Body)
        ensures
            res.key == key,
            res.margin == margin,
            res.parts@ == parts@,
    {
        Body { key, margin, parts }
    }

    /// The identity key of the body: stable for as long as the body lives,
    /// distinct from that of every other live body.
    pub fn key(&self) -> (res: u64)
        ensures
            res == self.key,
    {
        self.key
    }

    /// Whether every leaf of the shape tree is a plane or a disc.
    pub open spec fn all_drawable(&self) -> bool {
        forall|i: int| 0 <= i < self.parts@.len() ==> is_drawable(#[trigger] self.parts@[i].shape)
    }

    /// Whether some leaf of the shape tree is a disc.
    pub open spec fn has_disc(&self) -> bool {
        exists|i: int| 0 <= i < self.parts@.len() && #[trigger] self.parts@[i].shape is Ball
    }
}

} // verus!
