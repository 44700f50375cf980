//! The draw planner: from a scene to an ordered list of draw commands.
//!
//! Rendering is split in two. The verified planner decides *what* to draw:
//! it resolves every cell of every layer to its rectangle, in paint order,
//! and turns each cell into its fixed pipeline of commands (background
//! fill, then the image if one was loaded, then the text overlay). The
//! caller owns the canvas and executes the commands in order with its
//! drawing capabilities; loading images and measuring text are its work
//! too, and their outcomes are handed to the planner as plain values.
//!
//! Paint order is the correctness requirement here: a later command
//! overwrites an earlier one wherever their rectangles overlap. The module
//! states that semantics as a pixel model ([`last_painter`]) and proves the
//! paint-order and image-fallback laws against it.

use vstd::prelude::*;

use crate::geometry::{
    lemma_resolve_bounded, rect_covers, resolve_cell_rect, spec_resolve, DegenerateGridError,
    Rect,
};
use crate::scene::{degenerate, Cell, Scene};

verus! {

/// A solid color, one byte per channel.
#[derive(Clone, Copy, Debug, PartialEq, Eq, Structural)]
pub struct Rgb {
    pub r: u8,
    pub g: u8,
    pub b: u8,
}

/// The color every frame is cleared to before any cell is painted.
pub open spec fn spec_background_color() -> Rgb {
    Rgb { r: 20, g: 20, b: 20 }
}

/// The fixed neutral color every cell's body is filled with.
pub open spec fn spec_cell_fill_color() -> Rgb {
    Rgb { r: 200, g: 200, b: 200 }
}

/// The fixed color text overlays are drawn in.
pub open spec fn spec_text_color() -> Rgb {
    Rgb { r: 255, g: 255, b: 255 }
}

/// The color every frame is cleared to before any cell is painted.
pub fn background_color() -> (c: Rgb)
    ensures
        c == spec_background_color(),
{
    Rgb { r: 20, g: 20, b: 20 }
}

/// The fixed color text overlays are drawn in.
pub fn text_color() -> (c: Rgb)
    ensures
        c == spec_text_color(),
{
    Rgb { r: 255, g: 255, b: 255 }
}

/// How far, in pixels, a cell's text is inset right and down from the top-left
/// corner of the cell's rectangle.
pub const TEXT_INSET: u64 = 10;

/// One instruction to the drawing capability. Commands are executed
/// strictly in sequence; at a pixel that several commands touch, the last
/// one wins.
#[derive(Clone, Copy, Debug, PartialEq, Eq, Structural)]
pub enum DrawCmd {
    /// Fill the rectangle with a solid color.
    Fill { rect: Rect, color: Rgb },
    /// Blit the cell's image stretched to exactly the rectangle.
    Image { rect: Rect },
    /// Draw the cell's text at its natural (unscaled) size, its top-left
    /// corner at (`x`, `y`), in the fixed text color.
    Text { x: u64, y: u64, width: u32, height: u32 },
}

/// What the caller's capabilities reported for one cell before planning:
/// whether the cell's image (if it names one) could be loaded and decoded,
/// and the natural pixel size the font capability measured for the cell's
/// text (meaningful only when the cell has text).
#[derive(Clone, Copy, Debug, PartialEq, Eq, Structural)]
pub struct CellOutcome {
    pub image_loaded: bool,
    pub text_width: u32,
    pub text_height: u32,
}

/// The area of the canvas a command paints.
pub open spec fn cmd_rect(cmd: DrawCmd) -> Rect {
    match cmd {
        DrawCmd::Fill { rect, .. } => rect,
        DrawCmd::Image { rect } => rect,
        DrawCmd::Text { x, y, width, height } => Rect {
            x,
            y,
            w: width as u64,
            h: height as u64,
        },
    }
}

/// The commands that paint one cell, in the fixed pipeline order:
/// the body fill always; the image exactly when the cell names one and it
/// was loaded (a failed load is skipped, never fatal); the text overlay
/// last, so it stays legible over the image, inset [`TEXT_INSET`] pixels
/// from the rectangle's top-left corner at its natural size.
pub open spec fn spec_plan_cell(cell: Cell, rect: Rect, outcome: CellOutcome) -> Seq<DrawCmd> {
    seq![DrawCmd::Fill { rect, color: spec_cell_fill_color() }] + (if cell.image is Some
        && outcome.image_loaded {
        seq![DrawCmd::Image { rect }]
    } else {
        Seq::empty()
    }) + (if cell.content is Some {
        seq![
            DrawCmd::Text {
                x: (rect.x + TEXT_INSET) as u64,
                y: (rect.y + TEXT_INSET) as u64,
                width: outcome.text_width,
                height: outcome.text_height,
            },
        ]
    } else {
        Seq::empty()
    })
}

/// Plan one cell whose resolved rectangle is `rect`.
pub fn plan_cell(cell: &Cell, rect: Rect, outcome: CellOutcome) -> (cmds: Vec<DrawCmd>)
    requires
        rect.x + TEXT_INSET <= u64::MAX,
        rect.y + TEXT_INSET <= u64::MAX,
    ensures
        cmds@ == spec_plan_cell(*cell, rect, outcome),
{
    let mut cmds: Vec<DrawCmd> = Vec::new();
    cmds.push(DrawCmd::Fill { rect, color: Rgb { r: 200, g: 200, b: 200 } });
    if cell.image.is_some() && outcome.image_loaded {
        cmds.push(DrawCmd::Image { rect });
    }
    if cell.content.is_some() {
        cmds.push(
            DrawCmd::Text {
                x: rect.x + TEXT_INSET,
                y: rect.y + TEXT_INSET,
                width: outcome.text_width,
                height: outcome.text_height,
            },
        );
    }
    proof {
        assert(cmds@ =~= spec_plan_cell(*cell, rect, outcome));
    }
    cmds
}

/// A cell whose image could not be loaded paints exactly as the same cell
/// with no image at all: the failed load is skipped and nothing else of
/// the cell's plan changes.
pub proof fn lemma_failed_image_paints_like_none(cell: Cell, rect: Rect, outcome: CellOutcome)
    requires
        !outcome.image_loaded,
    ensures
        spec_plan_cell(cell, rect, outcome) == spec_plan_cell(
            Cell {
                row: cell.row,
                col: cell.col,
                span_rows: cell.span_rows,
                span_cols: cell.span_cols,
                content: cell.content,
                image: None,
            },
            rect,
            outcome,
        ),
{
    assert(spec_plan_cell(cell, rect, outcome) =~= spec_plan_cell(
        Cell {
            row: cell.row,
            col: cell.col,
            span_rows: cell.span_rows,
            span_cols: cell.span_cols,
            content: cell.content,
            image: None,
        },
        rect,
        outcome,
    ));
}

/// The pixel model: the index of the command that determines the pixel at
/// (`px`, `py`) once a command sequence has been executed in order — the
/// last command whose rectangle covers the pixel — or `None` when no
/// command touches that pixel.
pub open spec fn last_painter(cmds: Seq<DrawCmd>, px: int, py: int) -> Option<int>
    decreases cmds.len(),
{
    if cmds.len() == 0 {
        None
    } else if rect_covers(cmd_rect(cmds.last()), px, py) {
        Some(cmds.len() - 1)
    } else {
        last_painter(cmds.drop_last(), px, py)
    }
}

/// Whether any command of the sequence paints the pixel at (`px`, `py`).
pub open spec fn covers_point(cmds: Seq<DrawCmd>, px: int, py: int) -> bool {
    exists|i: int| 0 <= i < cmds.len() && rect_covers(cmd_rect(cmds[i]), px, py)
}

/// `last_painter` finds a command exactly when one covers the pixel, the
/// command it finds covers the pixel, and no later command does.
pub proof fn lemma_last_painter_covers(cmds: Seq<DrawCmd>, px: int, py: int)
    ensures
        last_painter(cmds, px, py) is Some <==> covers_point(cmds, px, py),
        last_painter(cmds, px, py) matches Some(i) ==> {
            &&& 0 <= i < cmds.len()
            &&& rect_covers(cmd_rect(cmds[i]), px, py)
            &&& forall|j: int| i < j < cmds.len() ==> !rect_covers(cmd_rect(cmds[j]), px, py)
        },
    decreases cmds.len(),
{
    if cmds.len() == 0 {
    } else if rect_covers(cmd_rect(cmds.last()), px, py) {
    } else {
        lemma_last_painter_covers(cmds.drop_last(), px, py);
        assert(forall|i: int| 0 <= i < cmds.len() - 1 ==> cmds.drop_last()[i] == cmds[i]);
        if covers_point(cmds, px, py) {
            let i = choose|i: int| 0 <= i < cmds.len() && rect_covers(cmd_rect(cmds[i]), px, py);
            assert(i < cmds.len() - 1);
            assert(rect_covers(cmd_rect(cmds.drop_last()[i]), px, py));
        }
    }
}

/// Appending commands: whatever `b` paints, it paints over `a`; a pixel
/// `b` does not touch keeps `a`'s outcome.
pub proof fn lemma_last_painter_append(a: Seq<DrawCmd>, b: Seq<DrawCmd>, px: int, py: int)
    ensures
        last_painter(a + b, px, py) == match last_painter(b, px, py) {
            Some(i) => Some(a.len() + i),
            None => last_painter(a, px, py),
        },
    decreases b.len(),
{
    if b.len() == 0 {
        assert(a + b =~= a);
    } else {
        assert((a + b).drop_last() =~= a + b.drop_last());
        assert((a + b).last() == b.last());
        lemma_last_painter_append(a, b.drop_last(), px, py);
    }
}

/// Whether a command paints the pixel at (`px`, `py`).
pub fn cmd_covers(cmd: DrawCmd, px: u64, py: u64) -> (b: bool)
    ensures
        b == rect_covers(cmd_rect(cmd), px as int, py as int),
{
    let r = match cmd {
        DrawCmd::Fill { rect, .. } => rect,
        DrawCmd::Image { rect } => rect,
        DrawCmd::Text { x, y, width, height } => Rect { x, y, w: width as u64, h: height as u64 },
    };
    px >= r.x && px - r.x < r.w && py >= r.y && py - r.y < r.h
}

/// Which command of a plan determines the pixel at (`px`, `py`), as an
/// index into the plan: the pixel model's `last_painter`, executable.
pub fn pixel_owner(cmds: &Vec<DrawCmd>, px: u64, py: u64) -> (r: Option<usize>)
    ensures
        match r {
            Some(i) => i < cmds@.len() && last_painter(cmds@, px as int, py as int) == Some(
                i as int,
            ),
            None => last_painter(cmds@, px as int, py as int) is None,
        },
{
    proof {
        assert(cmds@.take(cmds@.len() as int) =~= cmds@);
    }
    let mut k: usize = cmds.len();
    while k > 0
        invariant
            k <= cmds@.len(),
            last_painter(cmds@, px as int, py as int) == last_painter(
                cmds@.take(k as int),
                px as int,
                py as int,
            ),
        decreases k,
    {
        k = k - 1;
        if cmd_covers(cmds[k], px, py) {
            proof {
                assert(cmds@.take(k + 1).last() == cmds@[k as int]);
            }
            return Some(k);
        }
        proof {
            assert(cmds@.take(k + 1).drop_last() =~= cmds@.take(k as int));
            assert(cmds@.take(k + 1).last() == cmds@[k as int]);
        }
    }
    None
}

/// A cell paired with its position in the scene — the index of its layer
/// and its index within that layer — and its resolved rectangle. The
/// sequence of placed cells of a scene is its paint order.
#[derive(Clone, Copy, Debug, PartialEq, Eq, Structural)]
pub struct PlacedCell {
    pub layer: usize,
    pub cell: usize,
    pub rect: Rect,
}

/// The placed cell at layer `li`, cell `ci` of the scene.
pub open spec fn spec_place_cell(scene: Scene, li: int, ci: int) -> PlacedCell
    recommends
        0 <= li < scene.layers@.len(),
        0 <= ci < scene.layers@[li].cells@.len(),
        !degenerate(scene.layers@[li].grid_rows, scene.layers@[li].grid_cols),
{
    let layer = scene.layers@[li];
    let cell = layer.cells@[ci];
    PlacedCell {
        layer: li as usize,
        cell: ci as usize,
        rect: spec_resolve(
            scene.width,
            scene.height,
            layer.grid_rows,
            layer.grid_cols,
            cell.row,
            cell.col,
            cell.span_rows,
            cell.span_cols,
        ),
    }
}

/// The paint order of one layer: its cells in declaration order.
pub open spec fn spec_place_layer(scene: Scene, li: int) -> Seq<PlacedCell>
    recommends
        0 <= li < scene.layers@.len(),
{
    Seq::new(scene.layers@[li].cells@.len(), |ci: int| spec_place_cell(scene, li, ci))
}

/// The paint order of the first `n` layers of the scene.
pub open spec fn spec_place_layers_up_to(scene: Scene, n: int) -> Seq<PlacedCell>
    recommends
        0 <= n <= scene.layers@.len(),
    decreases n,
{
    if n <= 0 {
        Seq::empty()
    } else {
        spec_place_layers_up_to(scene, n - 1) + spec_place_layer(scene, n - 1)
    }
}

/// The scene's paint order: every cell of every layer, layers in order,
/// cells in declaration order within their layer, each with its resolved
/// rectangle.
pub open spec fn spec_place_scene(scene: Scene) -> Seq<PlacedCell> {
    spec_place_layers_up_to(scene, scene.layers@.len() as int)
}

/// Resolve every cell of every layer of the scene to a placed cell, in
/// paint order. Fails exactly when some layer declares a degenerate grid
/// (zero rows or zero columns); the first such layer stops the resolve.
pub fn resolve_scene(scene: &Scene) -> (r: Result<Vec<PlacedCell>, DegenerateGridError>)
    ensures
        r is Err <==> exists|li: int|
            0 <= li < scene.layers@.len() && degenerate(
                scene.layers@[li].grid_rows,
                scene.layers@[li].grid_cols,
            ),
        r is Ok ==> r->Ok_0@ == spec_place_scene(*scene),
{
    let mut placed: Vec<PlacedCell> = Vec::new();
    let mut li: usize = 0;
    while li < scene.layers.len()
        invariant
            li <= scene.layers@.len(),
            forall|k: int|
                0 <= k < li ==> !degenerate(
                    scene.layers@[k].grid_rows,
                    scene.layers@[k].grid_cols,
                ),
            placed@ == spec_place_layers_up_to(*scene, li as int),
        decreases scene.layers@.len() - li,
    {
        let layer = &scene.layers[li];
        if layer.grid_rows == 0 || layer.grid_cols == 0 {
            return Err(DegenerateGridError);
        }
        let mut ci: usize = 0;
        while ci < layer.cells.len()
            invariant
                li < scene.layers@.len(),
                *layer == scene.layers@[li as int],
                !degenerate(layer.grid_rows, layer.grid_cols),
                forall|k: int|
                    0 <= k < li ==> !degenerate(
                        scene.layers@[k].grid_rows,
                        scene.layers@[k].grid_cols,
                    ),
                ci <= layer.cells@.len(),
                placed@ == spec_place_layers_up_to(*scene, li as int) + spec_place_layer(
                    *scene,
                    li as int,
                ).take(ci as int),
            decreases layer.cells@.len() - ci,
        {
            let cell = &layer.cells[ci];
            let rect = match resolve_cell_rect(
                scene.width,
                scene.height,
                layer.grid_rows,
                layer.grid_cols,
                cell.row,
                cell.col,
                cell.span_rows,
                cell.span_cols,
            ) {
                Ok(rect) => rect,
                Err(e) => {
                    proof {
                        assert(false);
                    }
                    return Err(e);
                },
            };
            placed.push(PlacedCell { layer: li, cell: ci, rect });
            proof {
                assert(spec_place_layer(*scene, li as int).take(ci + 1) =~= spec_place_layer(
                    *scene,
                    li as int,
                ).take(ci as int).push(spec_place_cell(*scene, li as int, ci as int)));
                assert(placed@ =~= spec_place_layers_up_to(*scene, li as int) + spec_place_layer(
                    *scene,
                    li as int,
                ).take(ci + 1));
            }
            ci = ci + 1;
        }
        proof {
            assert(spec_place_layer(*scene, li as int).take(ci as int) =~= spec_place_layer(
                *scene,
                li as int,
            ));
        }
        li = li + 1;
    }
    Ok(placed)
}

/// How many cells the layers before layer `li` contribute to the scene's
/// paint order.
pub open spec fn cells_before(scene: Scene, li: int) -> int
    recommends
        0 <= li <= scene.layers@.len(),
{
    spec_place_layers_up_to(scene, li).len() as int
}

/// Where a cell stands in the scene's paint order: cell `ci` of layer `li`
/// is entry `cells_before(scene, li) + ci`. A cell later in its layer, or
/// in any later layer, therefore stands later in paint order and wins
/// every overlap under the paint-order law.
pub proof fn lemma_paint_order_position(scene: Scene, li: int, ci: int)
    requires
        0 <= li < scene.layers@.len(),
        0 <= ci < scene.layers@[li].cells@.len(),
    ensures
        cells_before(scene, li) + ci < spec_place_scene(scene).len(),
        spec_place_scene(scene)[cells_before(scene, li) + ci] == spec_place_cell(scene, li, ci),
        cells_before(scene, li + 1) == cells_before(scene, li)
            + scene.layers@[li].cells@.len(),
{
    lemma_up_to_position(scene, li, ci, scene.layers@.len() as int);
}

/// Induction step for `lemma_paint_order_position`: once the prefix holds
/// layer `li`, the cell's entry never moves as later layers are appended.
proof fn lemma_up_to_position(scene: Scene, li: int, ci: int, n: int)
    requires
        0 <= li < n <= scene.layers@.len(),
        0 <= ci < scene.layers@[li].cells@.len(),
    ensures
        cells_before(scene, li) + ci < spec_place_layers_up_to(scene, n).len(),
        spec_place_layers_up_to(scene, n)[cells_before(scene, li) + ci] == spec_place_cell(
            scene,
            li,
            ci,
        ),
    decreases n,
{
    if n == li + 1 {
        assert(spec_place_layer(scene, li)[ci] == spec_place_cell(scene, li, ci));
    } else {
        lemma_up_to_position(scene, li, ci, n - 1);
    }
}

/// The cell of the scene a placed cell names.
pub open spec fn spec_cell_of(scene: Scene, p: PlacedCell) -> Cell
    recommends
        placed_indices_valid(scene, p),
{
    scene.layers@[p.layer as int].cells@[p.cell as int]
}

/// The placed cell names a layer and a cell that exist in the scene.
pub open spec fn placed_indices_valid(scene: Scene, p: PlacedCell) -> bool {
    &&& (p.layer as int) < scene.layers@.len()
    &&& (p.cell as int) < scene.layers@[p.layer as int].cells@.len()
}

/// A placed cell the planner accepts: it names a cell of the scene and its
/// rectangle leaves room for the text inset.
pub open spec fn placed_wf(scene: Scene, p: PlacedCell) -> bool {
    &&& placed_indices_valid(scene, p)
    &&& p.rect.x + TEXT_INSET <= u64::MAX
    &&& p.rect.y + TEXT_INSET <= u64::MAX
}

/// The planned command sequence of each placed cell, in paint order.
pub open spec fn spec_cell_plans(
    scene: Scene,
    placed: Seq<PlacedCell>,
    outcomes: Seq<CellOutcome>,
) -> Seq<Seq<DrawCmd>>
    recommends
        placed.len() == outcomes.len(),
{
    Seq::new(
        placed.len(),
        |k: int| spec_plan_cell(spec_cell_of(scene, placed[k]), placed[k].rect, outcomes[k]),
    )
}

/// All commands of a run of per-cell plans, in order.
pub open spec fn concat_plans(plans: Seq<Seq<DrawCmd>>) -> Seq<DrawCmd>
    decreases plans.len(),
{
    if plans.len() == 0 {
        Seq::empty()
    } else {
        concat_plans(plans.drop_last()) + plans.last()
    }
}

/// Where plan `j`'s commands start within the concatenation of the plans.
pub open spec fn plan_offset(plans: Seq<Seq<DrawCmd>>, j: int) -> int
    recommends
        0 <= j <= plans.len(),
{
    concat_plans(plans.take(j)).len() as int
}

/// The rectangle filling the whole output surface.
pub open spec fn spec_surface_rect(scene: Scene) -> Rect {
    Rect { x: 0, y: 0, w: scene.width as u64, h: scene.height as u64 }
}

/// The command that clears the whole surface to the background color.
pub open spec fn spec_clear_cmd(scene: Scene) -> DrawCmd {
    DrawCmd::Fill { rect: spec_surface_rect(scene), color: spec_background_color() }
}

/// A whole frame's commands: clear the surface to the background color,
/// then every cell's pipeline in paint order.
pub open spec fn spec_plan_frame(
    scene: Scene,
    placed: Seq<PlacedCell>,
    outcomes: Seq<CellOutcome>,
) -> Seq<DrawCmd>
    recommends
        placed.len() == outcomes.len(),
{
    seq![spec_clear_cmd(scene)] + concat_plans(spec_cell_plans(scene, placed, outcomes))
}

/// Plan a whole frame from the scene's placed cells and the per-cell
/// outcomes the caller's capabilities reported, pairing entries of the two
/// runs positionally. Returns `None` exactly when the inputs are
/// inconsistent: the runs differ in length, a placed cell names no cell of
/// the scene, or a rectangle leaves no room for the text inset.
pub fn plan_frame(
    scene: &Scene,
    placed: &Vec<PlacedCell>,
    outcomes: &Vec<CellOutcome>,
) -> (r: Option<Vec<DrawCmd>>)
    ensures
        r is Some <==> placed@.len() == outcomes@.len() && (forall|k: int|
            0 <= k < placed@.len() ==> placed_wf(*scene, #[trigger] placed@[k])),
        r matches Some(cmds) ==> cmds@ == spec_plan_frame(*scene, placed@, outcomes@),
{
    if placed.len() != outcomes.len() {
        return None;
    }
    let mut k: usize = 0;
    while k < placed.len()
        invariant
            k <= placed@.len(),
            forall|j: int| 0 <= j < k ==> placed_wf(*scene, #[trigger] placed@[j]),
        decreases placed@.len() - k,
    {
        let p = placed[k];
        if p.layer >= scene.layers.len() {
            return None;
        }
        if p.cell >= scene.layers[p.layer].cells.len() {
            return None;
        }
        if p.rect.x > u64::MAX - TEXT_INSET || p.rect.y > u64::MAX - TEXT_INSET {
            return None;
        }
        k = k + 1;
    }
    let ghost plans = spec_cell_plans(*scene, placed@, outcomes@);
    let mut cmds: Vec<DrawCmd> = Vec::new();
    cmds.push(
        DrawCmd::Fill {
            rect: Rect { x: 0, y: 0, w: scene.width as u64, h: scene.height as u64 },
            color: Rgb { r: 20, g: 20, b: 20 },
        },
    );
    proof {
        assert(cmds@ =~= seq![spec_clear_cmd(*scene)] + concat_plans(plans.take(0)));
    }
    let mut k: usize = 0;
    while k < placed.len()
        invariant
            placed@.len() == outcomes@.len(),
            forall|j: int| 0 <= j < placed@.len() ==> placed_wf(*scene, #[trigger] placed@[j]),
            k <= placed@.len(),
            plans == spec_cell_plans(*scene, placed@, outcomes@),
            cmds@ == seq![spec_clear_cmd(*scene)] + concat_plans(plans.take(k as int)),
        decreases placed@.len() - k,
    {
        let p = placed[k];
        let mut cell_cmds = plan_cell(
            &scene.layers[p.layer].cells[p.cell],
            p.rect,
            outcomes[k],
        );
        cmds.append(&mut cell_cmds);
        proof {
            assert(plans.take(k + 1).drop_last() =~= plans.take(k as int));
            assert(plans.take(k + 1).last() == plans[k as int]);
            assert(cmds@ =~= seq![spec_clear_cmd(*scene)] + concat_plans(plans.take(k + 1)));
        }
        k = k + 1;
    }
    proof {
        assert(plans.take(placed@.len() as int) =~= plans);
    }
    Some(cmds)
}

/// A run of plans none of which touches a pixel leaves that pixel alone.
proof fn lemma_concat_no_cover(plans: Seq<Seq<DrawCmd>>, px: int, py: int)
    requires
        forall|k: int| 0 <= k < plans.len() ==> !covers_point(#[trigger] plans[k], px, py),
    ensures
        last_painter(concat_plans(plans), px, py) is None,
    decreases plans.len(),
{
    if plans.len() > 0 {
        assert(forall|k: int|
            0 <= k < plans.len() - 1 ==> plans.drop_last()[k] == plans[k]);
        lemma_concat_no_cover(plans.drop_last(), px, py);
        lemma_last_painter_covers(plans.last(), px, py);
        lemma_last_painter_append(concat_plans(plans.drop_last()), plans.last(), px, py);
    }
}

/// The concatenation of a run of plans splits around any one of them.
proof fn lemma_concat_split(plans: Seq<Seq<DrawCmd>>, j: int)
    requires
        0 <= j < plans.len(),
    ensures
        concat_plans(plans) == concat_plans(plans.take(j)) + plans[j] + concat_plans(
            plans.skip(j + 1),
        ),
    decreases plans.len(),
{
    if j == plans.len() - 1 {
        assert(plans.drop_last() =~= plans.take(j));
        assert(plans.skip(j + 1) =~= Seq::<Seq<DrawCmd>>::empty());
        assert(concat_plans(plans) =~= concat_plans(plans.take(j)) + plans[j] + concat_plans(
            plans.skip(j + 1),
        ));
    } else {
        let sub = plans.drop_last();
        lemma_concat_split(sub, j);
        assert(sub.take(j) =~= plans.take(j));
        assert(plans.skip(j + 1).drop_last() =~= sub.skip(j + 1));
        assert(plans.skip(j + 1).last() == plans.last());
        assert(concat_plans(plans) =~= concat_plans(plans.take(j)) + plans[j] + concat_plans(
            plans.skip(j + 1),
        ));
    }
}

/// The paint-order law over a run of per-cell plans: when plan `j` touches
/// a pixel and no later plan does, the command that determines the pixel
/// in the concatenation of all plans is exactly the command that
/// determines it in plan `j` alone — later entries of the paint order win
/// at every overlap, and an earlier entry never shows through.
pub proof fn lemma_paint_order(plans: Seq<Seq<DrawCmd>>, j: int, px: int, py: int)
    requires
        0 <= j < plans.len(),
        covers_point(plans[j], px, py),
        forall|k: int| j < k < plans.len() ==> !covers_point(#[trigger] plans[k], px, py),
    ensures
        last_painter(plans[j], px, py) is Some,
        last_painter(concat_plans(plans), px, py) == Some(
            plan_offset(plans, j) + last_painter(plans[j], px, py)->Some_0,
        ),
        concat_plans(plans)[plan_offset(plans, j) + last_painter(plans[j], px, py)->Some_0]
            == plans[j][last_painter(plans[j], px, py)->Some_0],
{
    lemma_last_painter_covers(plans[j], px, py);
    let a = concat_plans(plans.take(j));
    let b = concat_plans(plans.skip(j + 1));
    lemma_concat_split(plans, j);
    assert(forall|k: int|
        0 <= k < plans.skip(j + 1).len() ==> #[trigger] plans.skip(j + 1)[k] == plans[k + j + 1]);
    lemma_concat_no_cover(plans.skip(j + 1), px, py);
    lemma_last_painter_covers(concat_plans(plans.skip(j + 1)), px, py);
    lemma_last_painter_append(a + plans[j], b, px, py);
    lemma_last_painter_append(a, plans[j], px, py);
    assert(concat_plans(plans) == (a + plans[j]) + b);
    let wj = last_painter(plans[j], px, py)->Some_0;
    assert((a + plans[j])[a.len() + wj] == plans[j][wj]);
}

/// The paint-order law over a whole frame: when the cell at position `j`
/// of the paint order touches a pixel and no later cell does, the frame's
/// pixel is determined by cell `j`'s own plan — never by the background
/// clear or by an earlier cell, whatever their overlaps.
pub proof fn lemma_frame_paint_order(
    scene: Scene,
    placed: Seq<PlacedCell>,
    outcomes: Seq<CellOutcome>,
    j: int,
    px: int,
    py: int,
)
    requires
        placed.len() == outcomes.len(),
        0 <= j < placed.len(),
        covers_point(spec_plan_cell(spec_cell_of(scene, placed[j]), placed[j].rect, outcomes[j]), px, py),
        forall|k: int|
            j < k < placed.len() ==> !covers_point(
                #[trigger] spec_plan_cell(spec_cell_of(scene, placed[k]), placed[k].rect, outcomes[k]),
                px,
                py,
            ),
    ensures
        ({
            let plans = spec_cell_plans(scene, placed, outcomes);
            let frame = spec_plan_frame(scene, placed, outcomes);
            let wj = last_painter(plans[j], px, py);
            &&& wj is Some
            &&& last_painter(frame, px, py) == Some(1 + plan_offset(plans, j) + wj->Some_0)
            &&& frame[1 + plan_offset(plans, j) + wj->Some_0] == plans[j][wj->Some_0]
        }),
{
    let plans = spec_cell_plans(scene, placed, outcomes);
    assert(plans[j] == spec_plan_cell(spec_cell_of(scene, placed[j]), placed[j].rect, outcomes[j]));
    assert(forall|k: int|
        j < k < plans.len() ==> !covers_point(#[trigger] plans[k], px, py));
    lemma_paint_order(plans, j, px, py);
    lemma_last_painter_append(seq![spec_clear_cmd(scene)], concat_plans(plans), px, py);
    lemma_last_painter_covers(concat_plans(plans), px, py);
    let wj = last_painter(plans[j], px, py)->Some_0;
    let frame = spec_plan_frame(scene, placed, outcomes);
    assert(0 <= plan_offset(plans, j) + wj < concat_plans(plans).len());
    assert(frame == seq![spec_clear_cmd(scene)] + concat_plans(plans));
    assert(frame[1 + plan_offset(plans, j) + wj] == concat_plans(plans)[plan_offset(plans, j) + wj]);
}

/// In a scene with no degenerate layer, every entry of the paint order is
/// well formed: it names a cell of the scene, and its resolved rectangle
/// leaves room for the text inset. This carries a successful
/// `resolve_scene` straight into `plan_frame`.
pub proof fn lemma_place_scene_wf(scene: Scene)
    requires
        forall|li: int|
            0 <= li < scene.layers@.len() ==> !degenerate(
                scene.layers@[li].grid_rows,
                scene.layers@[li].grid_cols,
            ),
    ensures
        forall|k: int|
            0 <= k < spec_place_scene(scene).len() ==> placed_wf(
                scene,
                #[trigger] spec_place_scene(scene)[k],
            ),
{
    lemma_place_up_to_wf(scene, scene.layers@.len() as int);
}

/// Induction step for `lemma_place_scene_wf` over the layer prefix.
proof fn lemma_place_up_to_wf(scene: Scene, n: int)
    requires
        0 <= n <= scene.layers@.len(),
        forall|li: int|
            0 <= li < scene.layers@.len() ==> !degenerate(
                scene.layers@[li].grid_rows,
                scene.layers@[li].grid_cols,
            ),
    ensures
        forall|k: int|
            0 <= k < spec_place_layers_up_to(scene, n).len() ==> placed_wf(
                scene,
                #[trigger] spec_place_layers_up_to(scene, n)[k],
            ),
    decreases n,
{
    if n > 0 {
        lemma_place_up_to_wf(scene, n - 1);
        let prefix = spec_place_layers_up_to(scene, n - 1);
        let layer_run = spec_place_layer(scene, n - 1);
        assert(u32::MAX * u32::MAX + TEXT_INSET <= u64::MAX) by (nonlinear_arith);
        assert forall|k: int|
            0 <= k < spec_place_layers_up_to(scene, n).len() implies placed_wf(
            scene,
            spec_place_layers_up_to(scene, n)[k],
        ) by {
            if k >= prefix.len() {
                let ci = k - prefix.len();
                let layer = scene.layers@[n - 1];
                let cell = layer.cells@[ci];
                assert(scene.layers@.len() == vstd::std_specs::vec::spec_vec_len(&scene.layers));
                assert(layer.cells@.len() == vstd::std_specs::vec::spec_vec_len(&layer.cells));
                assert(0 <= ci < layer_run.len());
                assert(spec_place_layers_up_to(scene, n) == prefix + layer_run);
                assert(spec_place_layers_up_to(scene, n)[k] == layer_run[ci]);
                assert(spec_place_layers_up_to(scene, n)[k] == spec_place_cell(scene, n - 1, ci));
                lemma_resolve_bounded(
                    scene.width,
                    scene.height,
                    layer.grid_rows,
                    layer.grid_cols,
                    cell.row,
                    cell.col,
                    cell.span_rows,
                    cell.span_cols,
                );
            }
        }
    }
}

} // verus!
