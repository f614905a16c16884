use vstd::prelude::*;

verus! {

/// Polygon display modes.
#[derive(Debug, Clone, Copy, PartialEq, Eq, Structural)]
pub enum PolygonMode {
    /// Only render points.
    Point,
    /// Only render edges.
    Line,
    /// Render filled polygons.
    Fill,
}

/// One corner of the tessellation-patch grid, as grid steps along the
/// two plane axes.  A caller scales the steps by the patch size and
/// divides them by the resolution for texture coordinates.
#[derive(Debug, Clone, Copy, PartialEq, Eq, Structural)]
pub struct PatchVertex {
    pub xi: u32,
    pub zi: u32,
}

/// The four corners of grid cell `(i, j)`, in the order a patch
/// expects them: near corner, one step along x, one step along z,
/// the far corner.
pub open spec fn cell_quad(i: int, j: int) -> Seq<PatchVertex> {
    seq![
        PatchVertex { xi: i as u32, zi: j as u32 },
        PatchVertex { xi: (i + 1) as u32, zi: j as u32 },
        PatchVertex { xi: i as u32, zi: (j + 1) as u32 },
        PatchVertex { xi: (i + 1) as u32, zi: (j + 1) as u32 },
    ]
}

/// The first `jcount` cells of grid row `i`, four corners each.
pub open spec fn grid_row(i: int, jcount: int) -> Seq<PatchVertex>
    decreases jcount,
{
    if jcount <= 0 {
        seq![]
    } else {
        grid_row(i, jcount - 1) + cell_quad(i, jcount - 1)
    }
}

/// The first `icount` rows of a grid with `res` cells per row.
pub open spec fn grid_rows(icount: int, res: int) -> Seq<PatchVertex>
    decreases icount,
{
    if icount <= 0 {
        seq![]
    } else {
        grid_rows(icount - 1, res) + grid_row(icount - 1, res)
    }
}

/// Appends the corner grid for a square of `resolution` by
/// `resolution` tessellation patches: every cell in row-major order,
/// four corners each, as `grid_rows` lays them out.
pub fn gen_patches(vertices: &mut Vec<PatchVertex>, resolution: u32)
    ensures
        final(vertices)@ == old(vertices)@ + grid_rows(resolution as int, resolution as int),
{
    let ghost base = vertices@;
    proof {
        assert(base + grid_rows(0, resolution as int) =~= base);
    }
    let mut i: u32 = 0;
    while i < resolution
        invariant
            i <= resolution,
            vertices@ == base + grid_rows(i as int, resolution as int),
        decreases resolution - i,
    {
        let mut j: u32 = 0;
        while j < resolution
            invariant
                i < resolution,
                j <= resolution,
                vertices@ == base + (grid_rows(i as int, resolution as int) + grid_row(
                    i as int,
                    j as int,
                )),
            decreases resolution - j,
        {
            vertices.push(PatchVertex { xi: i, zi: j });
            vertices.push(PatchVertex { xi: i + 1, zi: j });
            vertices.push(PatchVertex { xi: i, zi: j + 1 });
            vertices.push(PatchVertex { xi: i + 1, zi: j + 1 });
            proof {
                assert(vertices@ =~= base + (grid_rows(i as int, resolution as int)
                    + grid_row(i as int, j + 1)));
            }
            j = j + 1;
        }
        proof {
            assert(vertices@ =~= base + grid_rows(i + 1, resolution as int));
        }
        i = i + 1;
    }
}

} // verus!
