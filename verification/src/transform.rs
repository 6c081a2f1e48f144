use vstd::prelude::*;
use crate::vector::Vec3;

verus! {

/// The shape of a perspective projection: the aspect ratio as width over height,
/// the vertical field of view as an angle, and the two clipping distances.
#[derive(Clone, Copy, Debug, PartialEq, Eq, Structural)]
pub struct Perspective {
    pub width: u32,
    pub height: u32,
    pub field_of_view: i64,
    pub near: i64,
    pub far: i64,
}

/// One elementary transform. A transform is a sequence of these and stands for
/// the product of their matrices, the first step leftmost; the empty sequence is
/// the identity.
#[derive(Clone, Copy, Debug, PartialEq, Eq, Structural)]
pub enum TransformStep {
    /// Translation by the vector.
    Translate(Vec3),
    /// Translation by the negative of the vector.
    TranslateBack(Vec3),
    /// Rotation about the Y axis by the angle.
    RotateY(i64),
    /// Rotation about the X axis by the angle.
    RotateX(i64),
    /// Rotation about the Z axis by the angle.
    RotateZ(i64),
    /// Scaling by the three factors.
    Scale(Vec3),
    /// Perspective projection.
    Project(Perspective),
}

/// The placement of a node relative to its parent.
#[derive(Clone, Copy, Debug, PartialEq, Eq, Structural)]
pub struct LocalTransform {
    pub position: Vec3,
    pub rotation: Vec3,
    pub scale: Vec3,
    pub reference_point: Vec3,
}

/// One of the four parts of a placement.
#[derive(Clone, Copy, Debug, PartialEq, Eq, Structural)]
pub enum Placement {
    Position,
    Rotation,
    Scale,
    ReferencePoint,
}

impl LocalTransform {
    /// The placement with one part replaced by `value`.
    pub open spec fn spec_with(self, part: Placement, value: Vec3) -> LocalTransform {
        match part {
            Placement::Position => LocalTransform { position: value, ..self },
            Placement::Rotation => LocalTransform { rotation: value, ..self },
            Placement::Scale => LocalTransform { scale: value, ..self },
            Placement::ReferencePoint => LocalTransform { reference_point: value, ..self },
        }
    }

    /// The placement with one part replaced by `value`.
    pub fn with(&self, part: Placement, value: Vec3) -> (changed: LocalTransform)
        ensures
            changed == self.spec_with(part, value),
    {
        let mut changed = *self;
        match part {
            Placement::Position => {
                changed.position = value;
            },
            Placement::Rotation => {
                changed.rotation = value;
            },
            Placement::Scale => {
                changed.scale = value;
            },
            Placement::ReferencePoint => {
                changed.reference_point = value;
            },
        }
        changed
    }

    /// The angle of the rotation about the Y axis. It is the first component of
    /// `rotation`.
    pub open spec fn spec_yaw_component(self) -> i64 {
        self.rotation.x
    }

    /// The angle of the rotation about the X axis. It is the second component of
    /// `rotation`.
    pub open spec fn spec_pitch_component(self) -> i64 {
        self.rotation.y
    }

    /// The angle of the rotation about the Z axis.
    pub open spec fn spec_roll_component(self) -> i64 {
        self.rotation.z
    }

    /// The local transform as a product: move to the position, move to the pivot,
    /// turn about Y, then X, then Z, scale, and move back from the pivot. Rotation
    /// and scale thus leave the pivot where it is.
    pub open spec fn spec_steps(self) -> Seq<TransformStep> {
        seq![
            TransformStep::Translate(self.position),
            TransformStep::Translate(self.reference_point),
            TransformStep::RotateY(self.spec_yaw_component()),
            TransformStep::RotateX(self.spec_pitch_component()),
            TransformStep::RotateZ(self.spec_roll_component()),
            TransformStep::Scale(self.scale),
            TransformStep::TranslateBack(self.reference_point),
        ]
    }

    /// The placement of a new node: at the origin of its parent, not turned, not
    /// scaled, with the pivot at its own origin.
    pub open spec fn spec_identity() -> LocalTransform {
        LocalTransform {
            position: Vec3::spec_zero(),
            rotation: Vec3::spec_zero(),
            scale: Vec3::spec_one(),
            reference_point: Vec3::spec_zero(),
        }
    }

    pub fn identity() -> (t: LocalTransform)
        ensures
            t == LocalTransform::spec_identity(),
    {
        LocalTransform {
            position: Vec3::zero(),
            rotation: Vec3::zero(),
            scale: Vec3::one(),
            reference_point: Vec3::zero(),
        }
    }

    pub fn yaw_component(&self) -> (a: i64)
        ensures
            a == self.spec_yaw_component(),
    {
        self.rotation.x
    }

    pub fn pitch_component(&self) -> (a: i64)
        ensures
            a == self.spec_pitch_component(),
    {
        self.rotation.y
    }

    pub fn roll_component(&self) -> (a: i64)
        ensures
            a == self.spec_roll_component(),
    {
        self.rotation.z
    }

    /// Appends the steps of this placement to `transform`.
    pub fn append_to(&self, transform: &mut Vec<TransformStep>)
        ensures
            final(transform)@ == old(transform)@ + self.spec_steps(),
    {
        transform.push(TransformStep::Translate(self.position));
        transform.push(TransformStep::Translate(self.reference_point));
        transform.push(TransformStep::RotateY(self.yaw_component()));
        transform.push(TransformStep::RotateX(self.pitch_component()));
        transform.push(TransformStep::RotateZ(self.roll_component()));
        transform.push(TransformStep::Scale(self.scale));
        transform.push(TransformStep::TranslateBack(self.reference_point));
        assert(transform@ =~= old(transform)@ + self.spec_steps());
    }

    /// The local transform alone.
    pub fn steps(&self) -> (s: Vec<TransformStep>)
        ensures
            s@ == self.spec_steps(),
    {
        let mut s: Vec<TransformStep> = Vec::new();
        self.append_to(&mut s);
        assert(Seq::<TransformStep>::empty() + self.spec_steps() =~= self.spec_steps());
        s
    }
}

/// A copy of a transform.
pub fn copy_transform(transform: &Vec<TransformStep>) -> (copy: Vec<TransformStep>)
    ensures
        copy@ == transform@,
{
    let mut copy: Vec<TransformStep> = Vec::new();
    let mut k: usize = 0;
    while k < transform.len()
        invariant
            k <= transform.len(),
            copy@ == transform@.subrange(0, k as int),
        decreases transform.len() - k,
    {
        copy.push(transform[k]);
        k += 1;
    }
    assert(transform@.subrange(0, transform@.len() as int) =~= transform@);
    copy
}

/// Whether two transforms are the same sequence of steps.
pub fn same_transform(first: &Vec<TransformStep>, second: &Vec<TransformStep>) -> (same: bool)
    ensures
        same == (first@ == second@),
{
    if first.len() != second.len() {
        return false;
    }
    let mut k: usize = 0;
    while k < first.len()
        invariant
            k <= first.len(),
            first.len() == second.len(),
            first@.subrange(0, k as int) == second@.subrange(0, k as int),
        decreases first.len() - k,
    {
        if first[k] != second[k] {
            return false;
        }
        assert(first@.subrange(0, k + 1) =~= first@.subrange(0, k as int).push(first@[k as int]));
        assert(second@.subrange(0, k + 1) =~= second@.subrange(0, k as int).push(
            second@[k as int],
        ));
        k += 1;
    }
    assert(first@.subrange(0, first@.len() as int) =~= first@);
    assert(second@.subrange(0, second@.len() as int) =~= second@);
    true
}

/// The product of two transforms: `left` applied outside `right`.
pub fn compose(left: &Vec<TransformStep>, right: &Vec<TransformStep>) -> (product: Vec<
    TransformStep,
>)
    ensures
        product@ == left@ + right@,
{
    let mut product = copy_transform(left);
    let mut k: usize = 0;
    while k < right.len()
        invariant
            k <= right.len(),
            product@ == left@ + right@.subrange(0, k as int),
        decreases right.len() - k,
    {
        product.push(right[k]);
        assert(product@ =~= left@ + right@.subrange(0, k + 1));
        k += 1;
    }
    assert(right@.subrange(0, right@.len() as int) =~= right@);
    product
}

} // verus!
