use vstd::prelude::*;

use crate::scalar::Scalar;

verus! {

/// Linear position of coordinate (x, y) in a row-major grid of the given
/// width: x + y * width.
pub open spec fn index_of(x: nat, y: nat, width: nat) -> nat {
    x + y * width
}

/// Number of coordinates in the inclusive rectangle from (x1, y1) to
/// (x2, y2): zero unless (x1, y1) is componentwise at most (x2, y2).
pub open spec fn area_len(x1: int, y1: int, x2: int, y2: int) -> int {
    if x1 <= x2 && y1 <= y2 {
        (x2 - x1 + 1) * (y2 - y1 + 1)
    } else {
        0
    }
}

/// The coordinates of the inclusive rectangle from (x1, y1) to (x2, y2)
/// in row-major order: y ascends in the outer place, x in the inner, so
/// position k holds (x1 + k % cols, y1 + k / cols) for cols columns.
pub open spec fn area_coords(x1: int, y1: int, x2: int, y2: int) -> Seq<(int, int)> {
    Seq::new(
        area_len(x1, y1, x2, y2) as nat,
        |k: int| (x1 + k % (x2 - x1 + 1), y1 + k / (x2 - x1 + 1)),
    )
}

/// A two-dimensional grid storing elements of type `T` in a flat,
/// row-major sequence, addressed by a linear index or by (x, y)
/// coordinates of scalar type `U`.
///
/// The grid is created empty with fixed dimensions and grows by
/// appending; the declared capacity `width * height` is never enforced,
/// so a caller may under-fill or over-fill it.
pub struct TileMap<T, U: Scalar> {
    tiles: Vec<T>,
    pub width: U,
    pub height: U,
}

impl<T, U: Scalar> View for TileMap<T, U> {
    type V = Seq<T>;

    closed spec fn view(&self) -> Seq<T> {
        self.tiles@
    }
}

impl<T, U: Scalar> TileMap<T, U> {
    /// The grid's width, as a specification value.
    pub closed spec fn spec_width(&self) -> U {
        self.width
    }

    /// The grid's height, as a specification value.
    pub closed spec fn spec_height(&self) -> U {
        self.height
    }

    /// Creates an empty grid with the given dimensions, reserving room
    /// for `width * height` elements.
    pub fn new(width: U, height: U) -> (r: Self)
        requires
            width.as_nat() * height.as_nat() <= usize::MAX as nat,
        ensures
            r@ == Seq::<T>::empty(),
            r.spec_width() == width,
            r.spec_height() == height,
    {
        let w: usize = width.to_usize();
        let h: usize = height.to_usize();
        Self { tiles: Vec::with_capacity(w * h), width, height }
    }

    /// Row-major linear index of coordinate `p`: `p.0 + p.1 * width`.
    /// Pure in its inputs and the width; the stored element count plays
    /// no part.
    pub fn to_index(&self, p: (U, U)) -> (r: U)
        requires
            index_of(p.0.as_nat(), p.1.as_nat(), self.spec_width().as_nat()) <= U::max_nat(),
        ensures
            r.as_nat() == index_of(p.0.as_nat(), p.1.as_nat(), self.spec_width().as_nat()),
    {
        proof {
            p.0.lemma_bounds();
        }
        let x: usize = p.0.to_usize();
        let y: usize = p.1.to_usize();
        let w: usize = self.width.to_usize();
        U::from_usize(x + y * w)
    }

    /// Appends one element at the end of the backing sequence. The
    /// declared capacity `width * height` is not enforced: the grid
    /// grows past it without complaint.
    pub fn push(&mut self, tile: T)
        ensures
            final(self)@ == old(self)@.push(tile),
            final(self).spec_width() == old(self).spec_width(),
            final(self).spec_height() == old(self).spec_height(),
    {
        self.tiles.push(tile);
    }

    /// Appends every element of the given vector at the end of the
    /// backing sequence, keeping their order and draining the source.
    /// As with `push`, the declared capacity is not enforced.
    pub fn append(&mut self, tiles: Vec<T>)
        ensures
            final(self)@ == old(self)@ + tiles@,
            final(self).spec_width() == old(self).spec_width(),
            final(self).spec_height() == old(self).spec_height(),
    {
        let mut rest = tiles;
        self.tiles.append(&mut rest);
    }

    /// Borrows the element at the given linear index. An index at or
    /// past the stored element count is a programmer error, ruled out
    /// here by the precondition.
    pub fn get(&self, index: U) -> (r: &T)
        requires
            index.as_nat() < self@.len(),
        ensures
            *r == self@[index.as_nat() as int],
    {
        let i: usize = index.to_usize();
        &self.tiles[i]
    }

    /// Looks up the element at coordinate `p`. Returns `None` exactly
    /// when the computed linear index lies at or past the stored
    /// element count, so the lookup itself never faults.
    pub fn by_coords(&self, p: (U, U)) -> (r: Option<&T>)
        requires
            index_of(p.0.as_nat(), p.1.as_nat(), self.spec_width().as_nat()) <= U::max_nat(),
        ensures
            ({
                let i = index_of(p.0.as_nat(), p.1.as_nat(), self.spec_width().as_nat());
                match r {
                    Some(t) => i < self@.len() && *t == self@[i as int],
                    None => i >= self@.len(),
                }
            }),
    {
        let index = self.to_index(p);
        let i: usize = index.to_usize();
        if i >= self.tiles.len() {
            None
        } else {
            Some(self.get(index))
        }
    }

    /// Lists the coordinates of the inclusive rectangle from `p1` to
    /// `p2` in row-major order: for each y from `p1.1` to `p2.1`
    /// ascending, each x from `p1.0` to `p2.0` ascending. When `p1` is
    /// not componentwise at most `p2` the rectangle is empty and so is
    /// the result.
    pub fn coords_in_area(&self, p1: (U, U), p2: (U, U)) -> (r: Vec<(U, U)>)
        requires
            p1.0.as_nat() <= p2.0.as_nat() ==> p2.0.as_nat() - p1.0.as_nat() < usize::MAX,
            p1.1.as_nat() <= p2.1.as_nat() ==> p2.1.as_nat() - p1.1.as_nat() < usize::MAX,
        ensures
            ({
                let cs = area_coords(
                    p1.0.as_nat() as int,
                    p1.1.as_nat() as int,
                    p2.0.as_nat() as int,
                    p2.1.as_nat() as int,
                );
                r@.len() == cs.len() && forall|k: int|
                    0 <= k < cs.len() ==> ((#[trigger] r@[k]).0.as_nat() as int,
                    r@[k].1.as_nat() as int) == cs[k]
            }),
    {
        proof {
            p2.0.lemma_bounds();
            p2.1.lemma_bounds();
        }
        let x1: usize = p1.0.to_usize();
        let y1: usize = p1.1.to_usize();
        let x2: usize = p2.0.to_usize();
        let y2: usize = p2.1.to_usize();
        let mut out: Vec<(U, U)> = Vec::new();
        if x1 <= x2 && y1 <= y2 {
            let cols: usize = x2 - x1 + 1;
            let rows: usize = y2 - y1 + 1;
            let mut dy: usize = 0;
            while dy < rows
                invariant
                    x1 <= x2,
                    y1 <= y2,
                    cols == x2 - x1 + 1,
                    rows == y2 - y1 + 1,
                    dy <= rows,
                    out@.len() == dy * cols,
                    x2 as nat <= U::max_nat(),
                    y2 as nat <= U::max_nat(),
                    forall|k: int|
                        0 <= k < out@.len() ==> ((#[trigger] out@[k]).0.as_nat() == x1 + k % (
                        cols as int) && out@[k].1.as_nat() == y1 + k / (cols as int)),
                decreases rows - dy,
            {
                let mut dx: usize = 0;
                while dx < cols
                    invariant
                        x1 <= x2,
                        y1 <= y2,
                        cols == x2 - x1 + 1,
                        rows == y2 - y1 + 1,
                        dy < rows,
                        dx <= cols,
                        out@.len() == dy * cols + dx,
                        x2 as nat <= U::max_nat(),
                        y2 as nat <= U::max_nat(),
                        forall|k: int|
                            0 <= k < out@.len() ==> ((#[trigger] out@[k]).0.as_nat() == x1 + k % (
                            cols as int) && out@[k].1.as_nat() == y1 + k / (cols as int)),
                    decreases cols - dx,
                {
                    let cx = U::from_usize(x1 + dx);
                    let cy = U::from_usize(y1 + dy);
                    proof {
                        vstd::arithmetic::div_mod::lemma_fundamental_div_mod_converse(
                            dy * cols + dx,
                            cols as int,
                            dy as int,
                            dx as int,
                        );
                    }
                    out.push((cx, cy));
                    dx += 1;
                }
                proof {
                    assert((dy + 1) * cols == dy * cols + cols) by (nonlinear_arith);
                }
                dy += 1;
            }
            proof {
                assert(rows * cols == cols * rows) by (nonlinear_arith);
            }
        }
        out
    }
}

/// Law: a coordinate inside the grid's bounds maps to a linear index
/// inside a fully populated grid's element range, so looking that index
/// up returns the element stored at position x + y * width.
pub proof fn lemma_index_in_bounds(x: nat, y: nat, w: nat, h: nat)
    requires
        x < w,
        y < h,
    ensures
        index_of(x, y, w) < w * h,
{
    assert(x + y * w < w * h) by (nonlinear_arith)
        requires
            x < w,
            y < h,
    ;
}

/// Law (round trip): the row-major index map is injective on in-bounds
/// coordinates — distinct coordinates address distinct storage
/// positions, so each stored element is found again at its own index.
pub proof fn lemma_index_injective(xa: nat, ya: nat, xb: nat, yb: nat, w: nat)
    requires
        xa < w,
        xb < w,
        (xa, ya) != (xb, yb),
    ensures
        index_of(xa, ya, w) != index_of(xb, yb, w),
{
    assert(xa + ya * w != xb + yb * w) by (nonlinear_arith)
        requires
            xa < w,
            xb < w,
            (xa, ya) != (xb, yb),
    ;
}

/// Law (row-major read-back): a sequence appended to an empty grid is
/// stored unchanged, element i standing at linear index i, so reading
/// indices 0 .. s.len() back yields the appended sequence in order.
pub proof fn lemma_append_to_empty<T>(before: Seq<T>, s: Seq<T>)
    requires
        before.len() == 0,
    ensures
        (before + s).len() == s.len(),
        forall|i: int| 0 <= i < s.len() ==> (before + s)[i] == s[i],
{
}

/// Law (degenerate area): the inclusive rectangle from (x, y) to itself
/// holds exactly the one coordinate (x, y).
pub proof fn lemma_area_degenerate(x: int, y: int)
    ensures
        area_coords(x, y, x, y) =~= seq![(x, y)],
{
    assert((x - x + 1) * (y - y + 1) == 1) by (nonlinear_arith);
    assert(area_coords(x, y, x, y)[0] == (x, y));
}

} // verus!
