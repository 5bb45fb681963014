//! Scene data: spheres, the camera, the bounded sphere list, and the
//! per-frame parameter bundle the evaluator consumes.

use vstd::prelude::*;
use crate::math::COORD_MAX;
use crate::math::SCALE;
use crate::vec3::Vec3;
use crate::vec3::in_range;

verus! {

/// Initial viewport width in pixels.
pub const START_WIDTH: i128 = 600;

/// Initial viewport height in pixels.
pub const START_HEIGHT: i128 = 500;

/// Fixed capacity of the scene's sphere list.
pub const MAX_SPHERES: usize = 8;

/// Largest accepted viewport side, in pixels.
pub const VIEW_MAX: i128 = 1000000;

/// A sphere, with its center position and radius in fixed-point units.
#[derive(Clone, Copy, PartialEq, Eq, Structural, Debug)]
pub struct Sphere {
    pub position: Vec3,
    pub radius: i128,
}

/// A sphere the evaluator accepts: center in range and a strictly positive,
/// bounded radius. A zero or negative radius is degenerate geometry and is
/// rejected at the scene boundary.
pub open spec fn wf_sphere(s: Sphere) -> bool {
    &&& in_range(s.position)
    &&& 0 < s.radius <= COORD_MAX
}

/// The viewpoint: ray origin and viewing direction.
#[derive(Clone, Copy, PartialEq, Eq, Structural, Debug)]
pub struct Camera {
    pub position: Vec3,
    pub direction: Vec3,
}

/// A camera the evaluator accepts.
pub open spec fn wf_camera(c: Camera) -> bool {
    &&& in_range(c.position)
    &&& in_range(c.direction)
}

/// Why a scene was rejected.
#[derive(Clone, Copy, PartialEq, Eq, Structural, Debug)]
pub enum SceneError {
    /// More spheres were supplied than the fixed capacity holds.
    TooManySpheres,
    /// A sphere has an out-of-range center or a non-positive radius.
    InvalidSphere,
}

/// The scene's sphere list: a bounded collection with an explicit length and
/// a validated insert that fails closed when the capacity is reached.
pub struct Spheres {
    items: Vec<Sphere>,
}

impl View for Spheres {
    type V = Seq<Sphere>;

    closed spec fn view(&self) -> Seq<Sphere> {
        self.items@
    }
}

impl Spheres {
    /// Within capacity, and every stored sphere accepted.
    pub open spec fn wf(&self) -> bool {
        &&& self@.len() <= MAX_SPHERES
        &&& forall|i: int| 0 <= i < self@.len() ==> wf_sphere(#[trigger] self@[i])
    }

    /// An empty sphere list.
    pub fn new() -> (s: Spheres)
        ensures
            s@ == Seq::<Sphere>::empty(),
            s.wf(),
    {
        Spheres { items: Vec::new() }
    }

    /// Validated insert: rejects a full list and degenerate geometry, and
    /// leaves the list unchanged on rejection.
    pub fn push(&mut self, s: Sphere) -> (r: Result<(), SceneError>)
        requires
            old(self).wf(),
        ensures
            final(self).wf(),
            r is Ok <==> old(self)@.len() < MAX_SPHERES && wf_sphere(s),
            r is Ok ==> final(self)@ == old(self)@.push(s),
            r == Err::<(), SceneError>(SceneError::TooManySpheres) <==> old(self)@.len()
                >= MAX_SPHERES,
            r == Err::<(), SceneError>(SceneError::InvalidSphere) <==> old(self)@.len()
                < MAX_SPHERES && !wf_sphere(s),
            r is Err ==> final(self)@ == old(self)@,
    {
        if self.items.len() >= MAX_SPHERES {
            Err(SceneError::TooManySpheres)
        } else if !(-COORD_MAX <= s.position.x && s.position.x <= COORD_MAX
            && -COORD_MAX <= s.position.y && s.position.y <= COORD_MAX
            && -COORD_MAX <= s.position.z && s.position.z <= COORD_MAX
            && 0 < s.radius && s.radius <= COORD_MAX) {
            Err(SceneError::InvalidSphere)
        } else {
            self.items.push(s);
            Ok(())
        }
    }

    /// Number of spheres held.
    pub fn len(&self) -> (n: usize)
        ensures
            n == self@.len(),
    {
        self.items.len()
    }

    /// The sphere at a position.
    pub fn get(&self, i: usize) -> (s: Sphere)
        requires
            i < self@.len(),
        ensures
            s == self@[i as int],
    {
        self.items[i]
    }
}

/// The row-major transform handed to the vertex stage: the identity, in
/// fixed-point units.
pub open spec fn identity_matrix() -> Seq<i128> {
    seq![
        SCALE, 0, 0, 0,
        0, SCALE, 0, 0,
        0, 0, SCALE, 0,
        0, 0, 0, SCALE,
    ]
}

/// The complete, immutable parameter set one frame's pixel evaluations read:
/// viewport, focal length, transform, camera and sphere list.
pub struct SceneParams {
    pub width: i128,
    pub height: i128,
    pub focal_length: i128,
    pub matrix: Vec<i128>,
    pub camera: Camera,
    pub spheres: Spheres,
}

impl SceneParams {
    /// A parameter set the evaluator accepts: positive, bounded viewport with
    /// a bounded aspect ratio, a positive bounded focal length, an accepted
    /// camera, and an accepted sphere list.
    pub open spec fn wf(&self) -> bool {
        &&& 0 < self.width <= VIEW_MAX
        &&& 0 < self.height <= VIEW_MAX
        &&& self.height <= 800 * self.width
        &&& 0 < self.focal_length <= COORD_MAX
        &&& wf_camera(self.camera)
        &&& self.spheres.wf()
    }
}

/// Assembles the frame's parameter bundle from the caller's sphere list:
/// fixed viewport, unit focal length, identity transform, and a camera at the
/// origin looking down the negative z axis. Fails fast when more spheres are
/// supplied than the capacity holds, or when a sphere is degenerate.
pub fn calculate_uniforms(spheres: &[Sphere]) -> (r: Result<SceneParams, SceneError>)
    ensures
        r is Ok <==> spheres@.len() <= MAX_SPHERES && (forall|i: int|
            0 <= i < spheres@.len() ==> wf_sphere(#[trigger] spheres@[i])),
        r == Err::<SceneParams, SceneError>(SceneError::TooManySpheres) <==> spheres@.len()
            > MAX_SPHERES,
        r matches Ok(p) ==> {
            &&& p.wf()
            &&& p.spheres@ == spheres@
            &&& p.width == START_WIDTH
            &&& p.height == START_HEIGHT
            &&& p.focal_length == SCALE
            &&& p.matrix@ == identity_matrix()
            &&& p.camera == (Camera {
                position: Vec3 { x: 0, y: 0, z: 0 },
                direction: Vec3 { x: 0, y: 0, z: (-SCALE) as i128 },
            })
        },
{
    if spheres.len() > MAX_SPHERES {
        return Err(SceneError::TooManySpheres);
    }
    let mut list = Spheres::new();
    let mut i: usize = 0;
    while i < spheres.len()
        invariant
            i <= spheres@.len() <= MAX_SPHERES,
            list.wf(),
            list@ == spheres@.subrange(0, i as int),
            forall|j: int| 0 <= j < i ==> wf_sphere(#[trigger] spheres@[j]),
        decreases spheres@.len() - i,
    {
        let s = spheres[i];
        match list.push(s) {
            Ok(()) => {},
            Err(e) => {
                return Err(e);
            },
        }
        proof {
            assert(spheres@.subrange(0, i + 1) =~= spheres@.subrange(0, i as int).push(
                spheres@[i as int],
            ));
        }
        i = i + 1;
    }
    proof {
        assert(spheres@.subrange(0, spheres@.len() as int) =~= spheres@);
    }
    let mut matrix: Vec<i128> = Vec::new();
    matrix.push(SCALE);
    matrix.push(0);
    matrix.push(0);
    matrix.push(0);
    matrix.push(0);
    matrix.push(SCALE);
    matrix.push(0);
    matrix.push(0);
    matrix.push(0);
    matrix.push(0);
    matrix.push(SCALE);
    matrix.push(0);
    matrix.push(0);
    matrix.push(0);
    matrix.push(0);
    matrix.push(SCALE);
    proof {
        assert(matrix@ =~= identity_matrix());
    }
    Ok(SceneParams {
        width: START_WIDTH,
        height: START_HEIGHT,
        focal_length: SCALE,
        matrix,
        camera: Camera {
            position: Vec3 { x: 0, y: 0, z: 0 },
            direction: Vec3 { x: 0, y: 0, z: -SCALE },
        },
        spheres: list,
    })
}

} // verus!
