//! The sampling driver's bookkeeping: the settings of a render, and the image
//! that its rows make up.

use crate::vec3::Vec3;
use vstd::prelude::*;

verus! {

/// Why a render cannot be set up.
#[derive(Clone, Copy, Debug, PartialEq, Eq, Structural)]
pub enum ConfigError {
    /// No sample per pixel was asked for: the average of none is undefined.
    NoSamples,
}

/// The size of the image, the number of samples averaged for each pixel and
/// the depth at which paths are cut off.
#[derive(Clone, Copy, Debug, PartialEq, Eq, Structural)]
pub struct Settings {
    pub width: u32,
    pub height: u32,
    pub samples_per_pixel: u32,
    pub depth: u32,
}

impl Settings {
    /// Whether a render can be made with these settings.
    pub open spec fn valid(self) -> bool {
        self.samples_per_pixel > 0
    }

    /// The settings, unless they ask for no samples.
    pub fn new(width: u32, height: u32, samples_per_pixel: u32, depth: u32) -> (r: Result<
        Settings,
        ConfigError,
    >)
        ensures
            samples_per_pixel == 0 ==> r == Err::<Settings, ConfigError>(ConfigError::NoSamples),
            samples_per_pixel > 0 ==> r == Ok::<Settings, ConfigError>(
                Settings { width, height, samples_per_pixel, depth },
            ),
            r matches Ok(s) ==> s.valid(),
    {
        if samples_per_pixel == 0 {
            Err(ConfigError::NoSamples)
        } else {
            Ok(Settings { width, height, samples_per_pixel, depth })
        }
    }
}

/// The pixels of the first `n` rows, row after row.
pub open spec fn row_major(rows: Seq<Vec<Vec3>>, n: int) -> Seq<Vec3>
    decreases n,
{
    if n <= 0 {
        Seq::empty()
    } else {
        row_major(rows, n - 1) + rows[n - 1]@
    }
}

/// Puts the rows of an image together, in their order: the image in
/// row-major order. In what order the rows were computed has no part in it.
pub fn assemble(rows: &Vec<Vec<Vec3>>) -> (pixels: Vec<Vec3>)
    ensures
        pixels@ == row_major(rows@, rows.len() as int),
{
    let mut pixels: Vec<Vec3> = Vec::new();
    let mut y: usize = 0;
    while y < rows.len()
        invariant
            y <= rows.len(),
            pixels@ == row_major(rows@, y as int),
        decreases rows.len() - y,
    {
        let row = &rows[y];
        let ghost before = pixels@;
        let mut x: usize = 0;
        while x < row.len()
            invariant
                x <= row.len(),
                pixels@ == before + row@.subrange(0, x as int),
            decreases row.len() - x,
        {
            pixels.push(row[x]);
            x += 1;
        }
        assert(row@.subrange(0, row.len() as int) == row@);
        y += 1;
    }
    pixels
}

/// In an image whose rows all have `width` pixels, the pixel in column `x` of
/// row `y` stands at index `y * width + x`.
pub proof fn lemma_row_major_index(rows: Seq<Vec<Vec3>>, width: nat, x: int, y: int)
    requires
        forall|i: int| 0 <= i < rows.len() ==> (#[trigger] rows[i]).len() == width,
        0 <= y < rows.len(),
        0 <= x < width,
    ensures
        row_major(rows, rows.len() as int).len() == rows.len() * width,
        0 <= y * width + x < rows.len() * width,
        row_major(rows, rows.len() as int)[y * width + x] == rows[y]@[x],
{
    lemma_row_major_prefix(rows, width, rows.len() as int, x, y);
}

/// The same of the first `n` rows.
proof fn lemma_row_major_prefix(rows: Seq<Vec<Vec3>>, width: nat, n: int, x: int, y: int)
    requires
        forall|i: int| 0 <= i < rows.len() ==> (#[trigger] rows[i]).len() == width,
        0 <= n <= rows.len(),
        0 <= x < width,
    ensures
        row_major(rows, n).len() == n * width,
        0 <= y < n ==> 0 <= y * width + x < n * width && row_major(rows, n)[y * width + x]
            == rows[y]@[x],
    decreases n,
{
    if n > 0 {
        lemma_row_major_prefix(rows, width, n - 1, x, y);
        assert(rows[n - 1]@.len() == width);
        assert((n - 1) * width + width == n * width) by (nonlinear_arith);
        if 0 <= y < n {
            assert(y * width + x < n * width && 0 <= y * width + x) by (nonlinear_arith)
                requires
                    0 <= y < n,
                    0 <= x < width,
            ;
            if y == n - 1 {
            } else {
                assert(y * width + x < (n - 1) * width) by (nonlinear_arith)
                    requires
                        0 <= y < n - 1,
                        0 <= x < width,
                ;
            }
        }
    } else {
        assert(0 * width == 0) by (nonlinear_arith);
    }
}

} // verus!
