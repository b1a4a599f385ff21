//! The vertex data of the three kinds of scene object: a flat rectangle drawn
//! as a triangle strip, a mesh read from decoded words, and a square terrain
//! plane tessellated into triangles.

use vstd::prelude::*;
use vstd::arithmetic::div_mod::lemma_fundamental_div_mod_converse;
use crate::vertex_types::{Vertex3D, Vertex3DNormal3D, ZERO};

verus! {

/// Words per mesh vertex: three of position, then three of normal.
pub const WORDS_PER_VERTEX: usize = 6;

/// The four corners of a `w` by `h` rectangle in the plane `z = 0`, with one
/// corner at the origin, in triangle-strip order.
pub fn rectangle_vertices(w: u32, h: u32) -> (out: Vec<Vertex3D>)
    ensures
        out@.len() == 4,
        out@[0].position@ == seq![ZERO, ZERO, ZERO],
        out@[1].position@ == seq![ZERO, h, ZERO],
        out@[2].position@ == seq![w, ZERO, ZERO],
        out@[3].position@ == seq![w, h, ZERO],
{
    let mut out: Vec<Vertex3D> = Vec::new();
    out.push(Vertex3D { position: [ZERO, ZERO, ZERO] });
    out.push(Vertex3D { position: [ZERO, h, ZERO] });
    out.push(Vertex3D { position: [w, ZERO, ZERO] });
    out.push(Vertex3D { position: [w, h, ZERO] });
    out
}

/// Groups decoded words into mesh vertices, six words to a vertex: the
/// position first, then the normal.
pub fn mesh_vertices(words: &[u32]) -> (out: Vec<Vertex3DNormal3D>)
    requires
        words@.len() % 6 == 0,
    ensures
        out@.len() * 6 == words@.len(),
        forall|k: int|
            #![trigger out@[k]]
            0 <= k < out@.len() ==> {
                &&& out@[k].position@ == words@.subrange(6 * k, 6 * k + 3)
                &&& out@[k].normal@ == words@.subrange(6 * k + 3, 6 * k + 6)
            },
{
    let mut out: Vec<Vertex3DNormal3D> = Vec::new();
    let mut at: usize = 0;
    while at < words.len()
        invariant
            at <= words@.len(),
            at % 6 == 0,
            words@.len() % 6 == 0,
            out@.len() * 6 == at,
            forall|k: int|
                #![trigger out@[k]]
                0 <= k < out@.len() ==> {
                    &&& out@[k].position@ == words@.subrange(6 * k, 6 * k + 3)
                    &&& out@[k].normal@ == words@.subrange(6 * k + 3, 6 * k + 6)
                },
        decreases words@.len() - at,
    {
        let vertex = Vertex3DNormal3D {
            position: [words[at], words[at + 1], words[at + 2]],
            normal: [words[at + 3], words[at + 4], words[at + 5]],
        };
        assert(vertex.position@ =~= words@.subrange(at as int, at + 3));
        assert(vertex.normal@ =~= words@.subrange(at + 3, at + 6));
        out.push(vertex);
        at = at + WORDS_PER_VERTEX;
    }
    out
}

/// A corner of a terrain cell, seen from above with the cell's origin at the
/// bottom left.
#[derive(Debug, Clone, Copy, PartialEq, Eq)]
pub enum Corner {
    LeftBottom,
    LeftTop,
    RightBottom,
    RightTop,
}

/// One vertex of the terrain plane: the cell it belongs to and which corner
/// of that cell it is.
#[derive(Debug, Clone, Copy, PartialEq, Eq)]
pub struct GridVertex {
    pub column: u32,
    pub row: u32,
    pub corner: Corner,
}

/// The corner that the `n`-th vertex of a cell sits on. A cell is the two
/// triangles left-bottom, left-top, right-bottom and left-top, right-bottom,
/// right-top.
pub open spec fn cell_corner(n: int) -> Corner
    recommends
        0 <= n < 6,
{
    if n == 0 {
        Corner::LeftBottom
    } else if n == 1 || n == 3 {
        Corner::LeftTop
    } else if n == 2 || n == 4 {
        Corner::RightBottom
    } else {
        Corner::RightTop
    }
}

/// How many vertices a plane of dimension `dim` has: six for each of its
/// `(dim + 1) * (dim + 1)` cells.
pub open spec fn plane_vertex_count(dim: u32) -> int {
    6 * ((dim + 1) * (dim + 1))
}

/// The `n`-th vertex of a plane of dimension `dim`. Cells come column by
/// column, and within a column row by row.
pub open spec fn plane_vertex(dim: u32, n: int) -> GridVertex {
    GridVertex {
        column: ((n / 6) / (dim + 1)) as u32,
        row: ((n / 6) % (dim + 1)) as u32,
        corner: cell_corner(n % 6),
    }
}

/// The six vertices of the cell at `column`, `row`, appended to `out`.
fn push_cell(out: &mut Vec<GridVertex>, column: u32, row: u32)
    ensures
        final(out)@.len() == old(out)@.len() + 6,
        final(out)@.take(old(out)@.len() as int) == old(out)@,
        forall|c: int|
            0 <= c < 6 ==> #[trigger] final(out)@[old(out)@.len() + c] == (GridVertex {
                column,
                row,
                corner: cell_corner(c),
            }),
{
    out.push(GridVertex { column, row, corner: Corner::LeftBottom });
    out.push(GridVertex { column, row, corner: Corner::LeftTop });
    out.push(GridVertex { column, row, corner: Corner::RightBottom });
    out.push(GridVertex { column, row, corner: Corner::LeftTop });
    out.push(GridVertex { column, row, corner: Corner::RightBottom });
    out.push(GridVertex { column, row, corner: Corner::RightTop });
    assert(final(out)@.take(old(out)@.len() as int) =~= old(out)@);
}

/// Vertex `6 * (column * side + row) + c` lies in cell `column`, `row` and is
/// its `c`-th vertex.
proof fn lemma_vertex_index(side: int, column: int, row: int, c: int)
    requires
        0 <= column,
        0 <= row < side,
        0 <= c < 6,
    ensures
        (6 * (column * side + row) + c) / 6 == column * side + row,
        (6 * (column * side + row) + c) % 6 == c,
        (column * side + row) / side == column,
        (column * side + row) % side == row,
{
    lemma_fundamental_div_mod_converse(6 * (column * side + row) + c, 6, column * side + row, c);
    lemma_fundamental_div_mod_converse(column * side + row, side, column, row);
}

/// Tessellates the square terrain plane of dimension `dim`: for every column
/// from 0 to `dim` and every row from 0 to `dim`, the six vertices of that
/// cell.
pub fn plane_square_vertices(dim: u32) -> (out: Vec<GridVertex>)
    requires
        plane_vertex_count(dim) <= usize::MAX,
    ensures
        out@ == Seq::new(plane_vertex_count(dim) as nat, |n: int| plane_vertex(dim, n)),
{
    assert(dim < u32::MAX) by (nonlinear_arith)
        requires
            6 * ((dim + 1) * (dim + 1)) <= usize::MAX,
            usize::MAX <= 0xffff_ffff_ffff_ffff,
    ;
    let side: u32 = dim + 1;
    let mut out: Vec<GridVertex> = Vec::new();
    let mut column: u32 = 0;
    while column < side
        invariant
            side == dim + 1,
            column <= side,
            out@.len() == 6 * (column * side),
            forall|n: int| 0 <= n < out@.len() ==> out@[n] == plane_vertex(dim, n),
        decreases side - column,
    {
        let mut row: u32 = 0;
        while row < side
            invariant
                side == dim + 1,
                column < side,
                row <= side,
                out@.len() == 6 * (column * side + row),
                forall|n: int| 0 <= n < out@.len() ==> out@[n] == plane_vertex(dim, n),
            decreases side - row,
        {
            let ghost before = out@;
            push_cell(&mut out, column, row);
            assert forall|n: int| 0 <= n < out@.len() implies out@[n] == plane_vertex(dim, n) by {
                if n < before.len() {
                    assert(out@[n] == out@.take(before.len() as int)[n]);
                } else {
                    let c = n - before.len();
                    lemma_vertex_index(side as int, column as int, row as int, c);
                    assert(out@[before.len() + c] == (GridVertex {
                        column,
                        row,
                        corner: cell_corner(c),
                    }));
                }
            }
            row = row + 1;
        }
        assert(6 * (column * side + side) == 6 * ((column + 1) * side)) by (nonlinear_arith);
        column = column + 1;
    }
    assert(out@ =~= Seq::new(plane_vertex_count(dim) as nat, |n: int| plane_vertex(dim, n)));
    out
}

} // verus!
