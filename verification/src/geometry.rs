//! The grid geometry resolver: a pure function from a cell's grid
//! coordinates, its layer's grid dimensions, and the surface size to the
//! pixel rectangle the cell occupies.
//!
//! One grid unit is `surface_width / grid_cols` pixels wide and
//! `surface_height / grid_rows` pixels tall (integer division, truncating);
//! a column maps to the horizontal axis and a row to the vertical axis.
//! Coordinates are 1-based; an out-of-convention coordinate of 0 is clamped
//! and treated as 1. The resolver never clips: a rectangle that a spanning
//! cell pushes past the surface is returned as computed.

use vstd::arithmetic::div_mod::{lemma_div_pos_is_pos, lemma_fundamental_div_mod,
    lemma_mod_division_less_than_divisor};
use vstd::arithmetic::mul::{lemma_mul_inequality, lemma_mul_upper_bound};
use vstd::prelude::*;

use crate::scene::degenerate;

verus! {

/// An axis-aligned pixel rectangle: top-left corner plus width and height.
///
/// The fields are wide enough to hold any product of two `u32` values, so
/// resolving a cell can never overflow, whatever grid coordinates a scene
/// document declares.
#[derive(Clone, Copy, Debug, PartialEq, Eq, Structural)]
pub struct Rect {
    pub x: u64,
    pub y: u64,
    pub w: u64,
    pub h: u64,
}

/// A layer declared zero grid rows or zero grid columns, so no cell
/// rectangle can be resolved for it.
#[derive(Clone, Copy, Debug, PartialEq, Eq, Structural)]
pub struct DegenerateGridError;

/// Whether the pixel at (`px`, `py`) lies inside the rectangle.
pub open spec fn rect_covers(r: Rect, px: int, py: int) -> bool {
    &&& r.x <= px < r.x + r.w
    &&& r.y <= py < r.y + r.h
}

/// Width in pixels of one grid unit. Truncating division: columns that do
/// not divide the surface width evenly leave a residual strip at the right
/// edge that no cell rectangle reaches.
pub open spec fn spec_cell_width(surface_width: u32, grid_cols: u32) -> int
    recommends
        grid_cols > 0,
{
    surface_width as int / grid_cols as int
}

/// Height in pixels of one grid unit, with the same truncation policy.
pub open spec fn spec_cell_height(surface_height: u32, grid_rows: u32) -> int
    recommends
        grid_rows > 0,
{
    surface_height as int / grid_rows as int
}

/// A 1-based grid coordinate turned into a 0-based offset, clamping 0 so
/// that a cell declared at row or column 0 is treated as row or column 1.
pub open spec fn spec_grid_offset(coord: u32) -> int {
    if coord >= 1 {
        coord - 1
    } else {
        0
    }
}

/// The rectangle of a cell: the column picks the horizontal position, the
/// row the vertical one, and the spans scale the grid unit.
pub open spec fn spec_resolve(
    surface_width: u32,
    surface_height: u32,
    grid_rows: u32,
    grid_cols: u32,
    row: u32,
    col: u32,
    span_rows: u32,
    span_cols: u32,
) -> Rect
    recommends
        !degenerate(grid_rows, grid_cols),
{
    let cw = spec_cell_width(surface_width, grid_cols);
    let ch = spec_cell_height(surface_height, grid_rows);
    Rect {
        x: (spec_grid_offset(col) * cw) as u64,
        y: (spec_grid_offset(row) * ch) as u64,
        w: (span_cols * cw) as u64,
        h: (span_rows * ch) as u64,
    }
}

/// The products in `spec_resolve` are products of values below `u32::MAX`,
/// so they fit in the `u64` fields and the casts there change nothing.
proof fn lemma_u32_product_fits(a: int, b: int)
    requires
        0 <= a <= u32::MAX,
        0 <= b <= u32::MAX,
    ensures
        0 <= a * b <= u32::MAX * u32::MAX,
        u32::MAX * u32::MAX < u64::MAX,
{
    lemma_mul_upper_bound(a, u32::MAX as int, b, u32::MAX as int);
    assert((u32::MAX as int) * (u32::MAX as int) < u64::MAX) by (nonlinear_arith);
}

/// One grid unit is at most the whole extent long: the unit size fits in
/// `u32`, and all `divisions` units together stay within the extent.
proof fn lemma_grid_unit_bounds(extent: u32, divisions: u32)
    requires
        divisions > 0,
    ensures
        0 <= extent as int / divisions as int <= u32::MAX,
        divisions * (extent as int / divisions as int) <= extent,
{
    let unit = extent as int / divisions as int;
    lemma_div_pos_is_pos(extent as int, divisions as int);
    lemma_fundamental_div_mod(extent as int, divisions as int);
    lemma_mod_division_less_than_divisor(extent as int, divisions as int);
    lemma_mul_inequality(1, divisions as int, unit);
}

/// Resolve the pixel rectangle of the cell at 1-based (`row`, `col`)
/// spanning `span_rows` x `span_cols` grid units of a
/// `grid_rows` x `grid_cols` grid laid over the whole surface.
///
/// Fails exactly when the grid is degenerate (zero rows or zero columns):
/// the error is reported instead of a division fault.
pub fn resolve_cell_rect(
    surface_width: u32,
    surface_height: u32,
    grid_rows: u32,
    grid_cols: u32,
    row: u32,
    col: u32,
    span_rows: u32,
    span_cols: u32,
) -> (r: Result<Rect, DegenerateGridError>)
    ensures
        r is Err <==> degenerate(grid_rows, grid_cols),
        r is Ok ==> r->Ok_0 == spec_resolve(
            surface_width, surface_height, grid_rows, grid_cols,
            row, col, span_rows, span_cols,
        ),
{
    if grid_rows == 0 || grid_cols == 0 {
        return Err(DegenerateGridError);
    }
    let cell_width: u32 = surface_width / grid_cols;
    let cell_height: u32 = surface_height / grid_rows;
    let col_offset: u64 = if col >= 1 { (col - 1) as u64 } else { 0 };
    let row_offset: u64 = if row >= 1 { (row - 1) as u64 } else { 0 };
    proof {
        lemma_u32_product_fits(col_offset as int, cell_width as int);
        lemma_u32_product_fits(row_offset as int, cell_height as int);
        lemma_u32_product_fits(span_cols as int, cell_width as int);
        lemma_u32_product_fits(span_rows as int, cell_height as int);
    }
    let x: u64 = col_offset * (cell_width as u64);
    let y: u64 = row_offset * (cell_height as u64);
    let w: u64 = (span_cols as u64) * (cell_width as u64);
    let h: u64 = (span_rows as u64) * (cell_height as u64);
    Ok(Rect { x, y, w, h })
}

/// The resolver is a pure function of its inputs: two rectangles resolved
/// from identical inputs are identical, however often it is called.
pub proof fn lemma_resolver_deterministic(
    surface_width: u32,
    surface_height: u32,
    grid_rows: u32,
    grid_cols: u32,
    row: u32,
    col: u32,
    span_rows: u32,
    span_cols: u32,
    r1: Rect,
    r2: Rect,
)
    requires
        r1 == spec_resolve(
            surface_width, surface_height, grid_rows, grid_cols,
            row, col, span_rows, span_cols,
        ),
        r2 == spec_resolve(
            surface_width, surface_height, grid_rows, grid_cols,
            row, col, span_rows, span_cols,
        ),
    ensures
        r1 == r2,
{
}

/// A cell whose span stays inside the grid resolves to a rectangle inside
/// the surface: its right edge stays at or left of
/// `grid_cols * cell_width` (so the residual strip that truncating
/// division leaves is never covered), hence within the surface width, and
/// likewise vertically. Every pixel the rectangle covers therefore lies in
/// `[0, surface_width) x [0, surface_height)`.
pub proof fn lemma_resolved_rect_in_surface(
    surface_width: u32,
    surface_height: u32,
    grid_rows: u32,
    grid_cols: u32,
    row: u32,
    col: u32,
    span_rows: u32,
    span_cols: u32,
)
    requires
        !degenerate(grid_rows, grid_cols),
        1 <= row,
        1 <= col,
        col - 1 + span_cols <= grid_cols,
        row - 1 + span_rows <= grid_rows,
    ensures
        ({
            let r = spec_resolve(
                surface_width, surface_height, grid_rows, grid_cols,
                row, col, span_rows, span_cols,
            );
            &&& r.x + r.w <= grid_cols * spec_cell_width(surface_width, grid_cols)
            &&& r.x + r.w <= surface_width
            &&& r.y + r.h <= grid_rows * spec_cell_height(surface_height, grid_rows)
            &&& r.y + r.h <= surface_height
            &&& forall|px: int, py: int|
                rect_covers(r, px, py) ==> 0 <= px < surface_width && 0 <= py < surface_height
        }),
{
    let cw = spec_cell_width(surface_width, grid_cols);
    let ch = spec_cell_height(surface_height, grid_rows);
    lemma_grid_unit_bounds(surface_width, grid_cols);
    lemma_grid_unit_bounds(surface_height, grid_rows);
    lemma_u32_product_fits(col - 1, cw);
    lemma_u32_product_fits(row - 1, ch);
    lemma_u32_product_fits(span_cols as int, cw);
    lemma_u32_product_fits(span_rows as int, ch);
    assert((col - 1) * cw + span_cols * cw == (col - 1 + span_cols) * cw) by (nonlinear_arith);
    assert((row - 1) * ch + span_rows * ch == (row - 1 + span_rows) * ch) by (nonlinear_arith);
    lemma_mul_inequality(col - 1 + span_cols, grid_cols as int, cw);
    lemma_mul_inequality(row - 1 + span_rows, grid_rows as int, ch);
}

/// Every field of a resolved rectangle is a product of two values that fit
/// in `u32`, so it stays below `u32::MAX * u32::MAX` — strictly under
/// `u64::MAX`, leaving room above it for the text inset.
pub proof fn lemma_resolve_bounded(
    surface_width: u32,
    surface_height: u32,
    grid_rows: u32,
    grid_cols: u32,
    row: u32,
    col: u32,
    span_rows: u32,
    span_cols: u32,
)
    requires
        !degenerate(grid_rows, grid_cols),
    ensures
        ({
            let r = spec_resolve(
                surface_width, surface_height, grid_rows, grid_cols,
                row, col, span_rows, span_cols,
            );
            &&& r.x <= u32::MAX * u32::MAX < u64::MAX
            &&& r.y <= u32::MAX * u32::MAX < u64::MAX
            &&& r.w <= u32::MAX * u32::MAX < u64::MAX
            &&& r.h <= u32::MAX * u32::MAX < u64::MAX
        }),
{
    let cw = spec_cell_width(surface_width, grid_cols);
    let ch = spec_cell_height(surface_height, grid_rows);
    lemma_grid_unit_bounds(surface_width, grid_cols);
    lemma_grid_unit_bounds(surface_height, grid_rows);
    lemma_u32_product_fits(spec_grid_offset(col), cw);
    lemma_u32_product_fits(spec_grid_offset(row), ch);
    lemma_u32_product_fits(span_cols as int, cw);
    lemma_u32_product_fits(span_rows as int, ch);
}

} // verus!
