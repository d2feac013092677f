//! Final assembly: transposes the ordered columns (one per sampled frame,
//! column-major by construction) into a single row-major pixel buffer, rows
//! outer and columns inner, three channel bytes per pixel.

use vstd::prelude::*;
use crate::colour::Colour;
use crate::error::PipelineError;

verus! {

/// Every column has height `height`. Columns of unequal height cannot form a
/// rectangular image; assembly checks this defensively.
pub open spec fn uniform_columns(cols: Seq<Vec<Colour>>, height: int) -> bool {
    forall|j: int| 0 <= j < cols.len() ==> (#[trigger] cols[j])@.len() == height
}

/// `frame` is the row-major transposition of `cols`: the pixel at row `i`,
/// column `j` occupies bytes `3 * (i * width + j) ..+ 3`, channels in RGB
/// order, and is the `i`-th colour of the `j`-th column.
pub open spec fn assembled(frame: Seq<u8>, cols: Seq<Vec<Colour>>, width: int, height: int) -> bool {
    &&& frame.len() == 3 * width * height
    &&& forall|i: int, j: int|
        #![trigger cols[j]@[i]]
        0 <= i < height && 0 <= j < width ==> {
            &&& frame[3 * (i * width + j)] == cols[j]@[i].r
            &&& frame[3 * (i * width + j) + 1] == cols[j]@[i].g
            &&& frame[3 * (i * width + j) + 2] == cols[j]@[i].b
        }
}

/// A finished image: the row-major pixel buffer and its dimensions.
pub struct Image {
    pub data: Vec<u8>,
    pub width: usize,
    pub height: usize,
}

impl Image {
    /// The buffer holds exactly `width * height` RGB pixels.
    pub open spec fn wf(self) -> bool {
        self.data@.len() == 3 * self.width * self.height
    }
}

/// Transposes the ordered columns into one row-major pixel buffer. The
/// columns must form a rectangle: at least one column, all of the height of
/// the first. The buffer is written rows outer, columns inner — the inverse
/// of how the columns are indexed.
pub fn get_final_frame(column_colours: &Vec<Vec<Colour>>) -> (frame: Vec<u8>)
    requires
        column_colours@.len() >= 1,
        uniform_columns(column_colours@, column_colours@[0]@.len() as int),
    ensures
        assembled(
            frame@,
            column_colours@,
            column_colours@.len() as int,
            column_colours@[0]@.len() as int,
        ),
{
    let width = column_colours.len();
    let height = column_colours[0].len();
    let mut frame: Vec<u8> = Vec::new();
    let mut i: usize = 0;
    while i < height
        invariant
            width == column_colours@.len(),
            height == column_colours@[0]@.len(),
            width >= 1,
            uniform_columns(column_colours@, height as int),
            i <= height,
            frame@.len() == 3 * ((i as int) * width),
            forall|a: int, b: int|
                #![trigger column_colours@[b]@[a]]
                0 <= a < i && 0 <= b < width ==> {
                    &&& frame@[3 * (a * width + b)] == column_colours@[b]@[a].r
                    &&& frame@[3 * (a * width + b) + 1] == column_colours@[b]@[a].g
                    &&& frame@[3 * (a * width + b) + 2] == column_colours@[b]@[a].b
                },
        decreases height - i,
    {
        let mut j: usize = 0;
        while j < width
            invariant
                width == column_colours@.len(),
                height == column_colours@[0]@.len(),
                width >= 1,
                uniform_columns(column_colours@, height as int),
                i < height,
                j <= width,
                frame@.len() == 3 * ((i as int) * width) + 3 * j,
                forall|a: int, b: int|
                    #![trigger column_colours@[b]@[a]]
                    0 <= a < i && 0 <= b < width ==> {
                        &&& frame@[3 * (a * width + b)] == column_colours@[b]@[a].r
                        &&& frame@[3 * (a * width + b) + 1] == column_colours@[b]@[a].g
                        &&& frame@[3 * (a * width + b) + 2] == column_colours@[b]@[a].b
                    },
                forall|b: int|
                    #![trigger column_colours@[b]@[i as int]]
                    0 <= b < j ==> {
                        &&& frame@[3 * (i as int * width + b)] == column_colours@[b]@[i as int].r
                        &&& frame@[3 * (i as int * width + b) + 1] == column_colours@[b]@[
                            i as int].g
                        &&& frame@[3 * (i as int * width + b) + 2] == column_colours@[b]@[
                            i as int].b
                    },
            decreases width - j,
        {
            proof {
                assert forall|a: int, b: int|
                    #![trigger column_colours@[b]@[a]]
                    0 <= a < i && 0 <= b < width implies 3 * (a * width + b) + 2 < 3 * (
                (i as int) * width) by {
                    assert(3 * (a * width + b) + 2 < 3 * ((i as int) * width))
                        by (nonlinear_arith)
                        requires
                            0 <= a && a < i as int,
                            0 <= b && b < width as int,
                    ;
                }
            }
            let col = &column_colours[j];
            let c = col[i];
            frame.push(c.r);
            frame.push(c.g);
            frame.push(c.b);
            j = j + 1;
        }
        i = i + 1;
        proof {
            assert(frame@.len() == 3 * ((i as int) * width)) by (nonlinear_arith)
                requires
                    frame@.len() == 3 * (((i as int) - 1) * width) + 3 * width,
            ;
        }
    }
    proof {
        assert(frame@.len() == 3 * width * height) by (nonlinear_arith)
            requires
                frame@.len() == 3 * ((height as int) * width),
        ;
    }
    frame
}

/// Validates the column set and assembles the final image: the width is the
/// number of columns, the height the first column's height. Fails on an
/// empty column set, and on any column whose height differs from the first —
/// the last point where an upstream bug is cheaply detectable.
pub fn assemble(columns: &Vec<Vec<Colour>>) -> (r: Result<Image, PipelineError>)
    ensures
        match r {
            Ok(img) => {
                &&& columns@.len() >= 1
                &&& uniform_columns(columns@, columns@[0]@.len() as int)
                &&& img.width == columns@.len()
                &&& img.height == columns@[0]@.len()
                &&& img.wf()
                &&& assembled(img.data@, columns@, img.width as int, img.height as int)
            },
            Err(e) => {
                ||| (e == PipelineError::EmptyColumnSet && columns@.len() == 0)
                ||| (e == PipelineError::ColumnHeightMismatch && columns@.len() >= 1
                    && !uniform_columns(columns@, columns@[0]@.len() as int))
            },
        },
{
    if columns.len() == 0 {
        return Err(PipelineError::EmptyColumnSet);
    }
    let height = columns[0].len();
    let mut j: usize = 1;
    while j < columns.len()
        invariant
            1 <= j <= columns@.len(),
            height == columns@[0]@.len(),
            forall|k: int| 0 <= k < j ==> (#[trigger] columns@[k])@.len() == height,
        decreases columns@.len() - j,
    {
        if columns[j].len() != height {
            return Err(PipelineError::ColumnHeightMismatch);
        }
        j = j + 1;
    }
    let data = get_final_frame(columns);
    let width = columns.len();
    proof {
        assert(data@.len() == 3 * width * height);
    }
    Ok(Image { data, width, height })
}

} // verus!
