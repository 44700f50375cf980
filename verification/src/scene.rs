//! The scene data model: a scene owns layers, a layer owns cells.
//!
//! A layer lays a uniform `grid_rows` x `grid_cols` grid over the whole
//! output surface; a cell occupies `span_rows` x `span_cols` grid units
//! starting at the 1-based coordinates (`row`, `col`). Layer order and cell
//! order are paint order: later entries paint over earlier ones.

use vstd::prelude::*;

verus! {

/// One rectangular region of a layer's grid, with its optional contents.
#[derive(Clone, Debug, PartialEq)]
pub struct Cell {
    /// 1-based row of the cell's top-left grid unit.
    pub row: u32,
    /// 1-based column of the cell's top-left grid unit.
    pub col: u32,
    /// How many grid rows the cell occupies.
    pub span_rows: u32,
    /// How many grid columns the cell occupies.
    pub span_cols: u32,
    /// Text to overlay, if any.
    pub content: Option<String>,
    /// Filesystem path of an image to blit as the cell's body, if any.
    pub image: Option<String>,
}

/// A uniform grid over the whole output surface with an ordered run of cells.
#[derive(Clone, Debug, PartialEq)]
pub struct Layer {
    pub grid_rows: u32,
    pub grid_cols: u32,
    /// Cells in paint order within the layer.
    pub cells: Vec<Cell>,
}

/// The top-level renderable description: surface dimensions plus layers.
#[derive(Clone, Debug, PartialEq)]
pub struct Scene {
    /// Output surface width in pixels.
    pub width: u32,
    /// Output surface height in pixels.
    pub height: u32,
    /// Layers in paint order: later layers paint over earlier ones.
    pub layers: Vec<Layer>,
}

/// A layer whose grid has zero rows or zero columns cannot be resolved:
/// cell dimensions would divide by zero.
pub open spec fn degenerate(grid_rows: u32, grid_cols: u32) -> bool {
    grid_rows == 0 || grid_cols == 0
}

/// The mathematical value of a layer: its grid dimensions and its cells
/// in paint order.
#[verifier::ext_equal]
pub ghost struct LayerV {
    pub grid_rows: u32,
    pub grid_cols: u32,
    pub cells: Seq<Cell>,
}

impl View for Layer {
    type V = LayerV;

    open spec fn view(&self) -> LayerV {
        LayerV { grid_rows: self.grid_rows, grid_cols: self.grid_cols, cells: self.cells@ }
    }
}

/// The mathematical value of a scene: its dimensions and its layers in
/// paint order.
#[verifier::ext_equal]
pub ghost struct SceneV {
    pub width: u32,
    pub height: u32,
    pub layers: Seq<LayerV>,
}

impl View for Scene {
    type V = SceneV;

    open spec fn view(&self) -> SceneV {
        SceneV {
            width: self.width,
            height: self.height,
            layers: self.layers@.map_values(|l: Layer| l@),
        }
    }
}

} // verus!
