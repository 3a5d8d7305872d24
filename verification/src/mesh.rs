//! The shape that the disc is drawn with: a circle whose rim waves in
//! and out, as a fan of triangles around its centre.

use vstd::prelude::*;
use crate::fixed::{Fixed, SCALE};

verus! {

/// A disc with a wavy rim.
#[derive(Clone, Copy, Debug, PartialEq, Eq, Structural)]
pub struct FidgetSpinner {
    /// Mean radius of the rim.
    pub radius: Fixed,
    /// How far the rim swings in and out of the mean radius.
    pub bump_size: Fixed,
    /// Number of waves around the rim.
    pub bumps: u32,
    /// Number of points on the rim.
    pub vertices: usize,
}

impl Default for FidgetSpinner {
    /// Radius one half, bumps of a sixteenth of the radius, twelve bumps
    /// and twenty-four points.
    fn default() -> (shape: FidgetSpinner)
        ensures
            shape.radius@ == SCALE / 2,
            shape.bump_size@ == SCALE / 32,
            shape.bumps == 12,
            shape.vertices == 24,
    {
        FidgetSpinner {
            radius: Fixed { raw: 8_388_608 },
            bump_size: Fixed { raw: 524_288 },
            bumps: 12,
            vertices: 24,
        }
    }
}

/// The index buffer of a fan of `vertices` triangles around vertex 0,
/// over the rim vertices `1..=vertices`: triangle `j` joins the centre,
/// rim vertex `j + 1` and the next one around, the last triangle closing
/// the fan at rim vertex 1.
pub open spec fn fan_indices(vertices: nat) -> Seq<u32> {
    Seq::new(
        3 * vertices,
        |k: int|
            if k % 3 == 0 {
                0u32
            } else if k % 3 == 1 {
                (k / 3 + 1) as u32
            } else if k / 3 + 1 == vertices {
                1u32
            } else {
                (k / 3 + 2) as u32
            },
    )
}

impl FidgetSpinner {
    /// The default shape scaled to the given radius.
    pub fn new(radius: Fixed) -> (shape: FidgetSpinner)
        ensures
            shape.radius == radius,
            shape.bump_size@ == radius@ / 16,
            shape.bumps == 12,
            shape.vertices == 24,
    {
        let bump: i128 = if radius.raw >= 0 {
            radius.raw / 16
        } else {
            let below: i128 = -(radius.raw + 1);
            -(below / 16) - 1
        };
        FidgetSpinner { radius, bump_size: Fixed { raw: bump }, bumps: 12, vertices: 24 }
    }

    /// Number of vertices of the mesh: the centre and the rim.
    pub fn vertex_count(&self) -> (n: usize)
        requires
            self.vertices < usize::MAX,
        ensures
            n == self.vertices + 1,
    {
        self.vertices + 1
    }

    /// The index buffer of the mesh: three indices for each triangle of
    /// the fan, each a valid vertex of the mesh.
    pub fn indices(&self) -> (list: Vec<u32>)
        requires
            1 <= self.vertices <= u32::MAX,
        ensures
            list@ == fan_indices(self.vertices as nat),
            forall|k: int| 0 <= k < list@.len() ==> list@[k] <= self.vertices,
    {
        let n: u32 = self.vertices as u32;
        let mut list: Vec<u32> = Vec::new();
        let mut i: u32 = 1;
        while i < n
            invariant
                1 <= i <= n,
                n == self.vertices,
                list@.len() == 3 * (i - 1),
                forall|k: int| 0 <= k < list@.len() ==> list@[k] == fan_indices(n as nat)[k],
            decreases n - i,
        {
            list.push(0);
            list.push(i);
            list.push(i + 1);
            i = i + 1;
        }
        list.push(0);
        list.push(n);
        list.push(1);
        assert(list@ =~= fan_indices(n as nat));
        list
    }
}

} // verus!
