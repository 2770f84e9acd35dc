//! Validation of the sizes that a grid or a frame is made with.

use vstd::prelude::*;

verus! {

/// Why a configuration is refused.
#[derive(Clone, Copy, Debug, PartialEq, Eq, Structural)]
pub enum ConfigError {
    /// The width or the height is zero.
    ZeroDimension,
    /// The iteration cap is zero.
    ZeroIterations,
    /// Four bytes per cell do not fit the address space.
    TooLarge,
}

/// Bytes that one pixel takes in a frame: red, green, blue, alpha.
pub const CHANNELS: usize = 4;

/// The error that a `width` by `height` surface is refused with, if any.
/// A zero dimension is reported before an oversized surface.
pub open spec fn dimension_error(width: int, height: int) -> Option<ConfigError> {
    if width <= 0 || height <= 0 {
        Some(ConfigError::ZeroDimension)
    } else if width * height * 4 > usize::MAX {
        Some(ConfigError::TooLarge)
    } else {
        None
    }
}

/// The error that an iteration cap is refused with, if any.
pub open spec fn iteration_error(max_iter: int) -> Option<ConfigError> {
    if max_iter <= 0 {
        Some(ConfigError::ZeroIterations)
    } else {
        None
    }
}

/// Checks the dimensions of a surface and returns its number of cells.
pub fn check_dimensions(width: usize, height: usize) -> (r: Result<usize, ConfigError>)
    ensures
        match r {
            Ok(n) => dimension_error(width as int, height as int).is_none() && n == width * height,
            Err(e) => dimension_error(width as int, height as int) == Some(e),
        },
{
    if width == 0 || height == 0 {
        return Err(ConfigError::ZeroDimension);
    }
    match width.checked_mul(height) {
        None => Err(ConfigError::TooLarge),
        Some(n) => match n.checked_mul(CHANNELS) {
            None => Err(ConfigError::TooLarge),
            Some(_) => Ok(n),
        },
    }
}

/// Checks the configuration of an escape-time rendering: the surface first,
/// then the iteration cap. Returns the number of pixels.
pub fn check_escape_config(width: usize, height: usize, max_iter: usize) -> (r: Result<
    usize,
    ConfigError,
>)
    ensures
        match r {
            Ok(n) => dimension_error(width as int, height as int).is_none() && iteration_error(
                max_iter as int,
            ).is_none() && n == width * height,
            Err(e) => if dimension_error(width as int, height as int).is_some() {
                dimension_error(width as int, height as int) == Some(e)
            } else {
                iteration_error(max_iter as int) == Some(e)
            },
        },
{
    let n: usize = match check_dimensions(width, height) {
        Ok(n) => n,
        Err(e) => { return Err(e); },
    };
    if max_iter == 0 {
        Err(ConfigError::ZeroIterations)
    } else {
        Ok(n)
    }
}

/// Where the cell in column `x` of row `y` lies in a row-major surface.
pub open spec fn cell_index(width: int, x: int, y: int) -> int {
    y * width + x
}

/// A cell inside a surface has its index inside the surface, and the index
/// gives the column and the row back.
pub proof fn lemma_cell_index(width: int, height: int, x: int, y: int)
    requires
        0 <= x < width,
        0 <= y < height,
    ensures
        0 <= cell_index(width, x, y) < width * height,
        cell_index(width, x, y) % width == x,
        cell_index(width, x, y) / width == y,
{
    assert(y * width + width <= height * width) by (nonlinear_arith)
        requires
            0 <= y < height,
            0 <= width,
    ;
    assert(height * width == width * height) by (nonlinear_arith);
    assert(0 <= y * width) by (nonlinear_arith)
        requires
            0 <= y,
            0 <= width,
    ;
    vstd::arithmetic::div_mod::lemma_fundamental_div_mod_converse(y * width + x, width, y, x);
}

} // verus!
