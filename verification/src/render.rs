//! Color bucketing and draw-command emission.
//!
//! Each escape count falls into a named color bucket; the table of ranges is
//! read top to bottom and the first matching range wins, so the overlapping
//! edges (2, 5, 10 and 30 each close one range and open the next) go to the
//! earlier bucket.  Rendering walks the field in row-major order and emits
//! one unit-cell fill command per cell; as the field is walked, the row index
//! becomes the horizontal draw coordinate and the column index the vertical
//! one, so the image comes out transposed.  That transposition is part of the
//! contract, not corrected here.

use vstd::prelude::*;

verus! {

/// One color bucket of the fixed table.
#[derive(Clone, Copy, Debug, PartialEq, Eq, Structural)]
pub enum Color {
    Red,
    Green,
    Blue,
    Orange,
    Pink,
    Purple,
    White,
    Silver,
    Black,
}

/// The bucket of an escape count: first match over the ranges
/// `0..=2`, `2..=5`, `5..=10`, `11..=30`, `30..=100`, `100..=200`,
/// `200..=400`, `400..=700`, anything else black.
pub open spec fn bucket_spec(v: int) -> Color {
    if v <= 2 {
        Color::Red
    } else if v <= 5 {
        Color::Green
    } else if v <= 10 {
        Color::Blue
    } else if v <= 30 {
        Color::Orange
    } else if v <= 100 {
        Color::Pink
    } else if v <= 200 {
        Color::Purple
    } else if v <= 400 {
        Color::White
    } else if v <= 700 {
        Color::Silver
    } else {
        Color::Black
    }
}

/// The name of a color bucket, as handed to the drawing surface.
pub open spec fn color_name_spec(c: Color) -> Seq<char> {
    match c {
        Color::Red => "red"@,
        Color::Green => "green"@,
        Color::Blue => "blue"@,
        Color::Orange => "orange"@,
        Color::Pink => "pink"@,
        Color::Purple => "purple"@,
        Color::White => "white"@,
        Color::Silver => "silver"@,
        Color::Black => "black"@,
    }
}

/// Pick the color bucket of one escape count, first match first.
pub fn color_for(v: usize) -> (c: Color)
    ensures
        c == bucket_spec(v as int),
{
    if v <= 2 {
        Color::Red
    } else if v <= 5 {
        Color::Green
    } else if v <= 10 {
        Color::Blue
    } else if v <= 30 {
        Color::Orange
    } else if v <= 100 {
        Color::Pink
    } else if v <= 200 {
        Color::Purple
    } else if v <= 400 {
        Color::White
    } else if v <= 700 {
        Color::Silver
    } else {
        Color::Black
    }
}

/// The name of a color bucket.
pub fn color_name(c: Color) -> (s: &'static str)
    ensures
        s@ == color_name_spec(c),
{
    match c {
        Color::Red => "red",
        Color::Green => "green",
        Color::Blue => "blue",
        Color::Orange => "orange",
        Color::Pink => "pink",
        Color::Purple => "purple",
        Color::White => "white",
        Color::Silver => "silver",
        Color::Black => "black",
    }
}

/// One fill command for the drawing surface: paint the unit cell whose
/// corner is at `(x, y)`, in surface coordinates, with `color`.
#[derive(Clone, Copy, Debug, PartialEq, Eq, Structural)]
pub struct FillCmd {
    pub x: usize,
    pub y: usize,
    pub color: Color,
}

/// The width every row of the field is expected to have: the width of the
/// first row, or zero for an empty field.
pub open spec fn row_width(f: Seq<Vec<usize>>) -> int {
    if f.len() == 0 {
        0
    } else {
        f[0]@.len() as int
    }
}

/// Every row of the field has the same width: the shape invariant of an
/// escape-time field.
pub open spec fn is_rect(f: Seq<Vec<usize>>) -> bool {
    forall|iy: int| 0 <= iy < f.len() ==> f[iy]@.len() == row_width(f)
}

/// Turn an escape-time field into the row-major sequence of fill commands
/// that paints it, one per cell: the cell at row `iy`, column `ix` is drawn
/// at surface position `(iy, ix)` (row index horizontal — the transposition
/// described in the module documentation) in the color of its bucket.
pub fn render_mandelbrot(escape_vals: &Vec<Vec<usize>>) -> (cmds: Vec<FillCmd>)
    requires
        is_rect(escape_vals@),
    ensures
        cmds@.len() == escape_vals@.len() * row_width(escape_vals@),
        forall|iy: int, ix: int|
            0 <= iy < escape_vals@.len() && 0 <= ix < row_width(escape_vals@)
                ==> cmds@[iy * row_width(escape_vals@) + ix] == (FillCmd {
                x: iy as usize,
                y: ix as usize,
                color: bucket_spec(escape_vals@[iy]@[ix] as int),
            }),
{
    let ghost w: int = row_width(escape_vals@);
    let mut cmds: Vec<FillCmd> = Vec::new();
    let mut i: usize = 0;
    while i < escape_vals.len()
        invariant
            is_rect(escape_vals@),
            w == row_width(escape_vals@),
            i <= escape_vals@.len(),
            cmds@.len() == i * w,
            forall|iy: int, ix: int|
                0 <= iy < i && 0 <= ix < w ==> cmds@[iy * w + ix] == (FillCmd {
                    x: iy as usize,
                    y: ix as usize,
                    color: bucket_spec(escape_vals@[iy]@[ix] as int),
                }),
        decreases escape_vals@.len() - i,
    {
        let row = &escape_vals[i];
        let mut j: usize = 0;
        while j < row.len()
            invariant
                is_rect(escape_vals@),
                w == row_width(escape_vals@),
                i < escape_vals@.len(),
                row == escape_vals@[i as int],
                row@.len() == w,
                j <= w,
                cmds@.len() == i * w + j,
                forall|iy: int, ix: int|
                    0 <= iy < i && 0 <= ix < w ==> cmds@[iy * w + ix] == (FillCmd {
                        x: iy as usize,
                        y: ix as usize,
                        color: bucket_spec(escape_vals@[iy]@[ix] as int),
                    }),
                forall|ix: int|
                    0 <= ix < j ==> cmds@[i as int * w + ix] == (FillCmd {
                        x: i,
                        y: ix as usize,
                        color: bucket_spec(escape_vals@[i as int]@[ix] as int),
                    }),
            decreases w - j,
        {
            let color = color_for(row[j]);
            cmds.push(FillCmd { x: i, y: j, color });
            proof {
                assert forall|iy: int, ix: int|
                    0 <= iy < i && 0 <= ix < w implies #[trigger] (iy * w + ix) < i as int
                    * w by {
                    assert(iy * w + ix < i as int * w) by (nonlinear_arith)
                        requires
                            0 <= iy,
                            iy + 1 <= i as int,
                            0 <= ix,
                            ix < w,
                    ;
                }
            }
            j = j + 1;
        }
        proof {
            assert((i + 1) * w == i * w + w) by (nonlinear_arith);
        }
        i = i + 1;
    }
    cmds
}

} // verus!
