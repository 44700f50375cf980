use intentglyph::geometry::{resolve_cell_rect, DegenerateGridError, Rect};
use intentglyph::plan::{
    background_color, cmd_covers, pixel_owner, plan_cell, plan_frame, resolve_scene, text_color,
    CellOutcome, DrawCmd, PlacedCell, Rgb, TEXT_INSET,
};
use intentglyph::scene::{Cell, Layer, Scene};

fn cell(row: u32, col: u32, span_rows: u32, span_cols: u32) -> Cell {
    Cell { row, col, span_rows, span_cols, content: None, image: None }
}

fn no_outcome() -> CellOutcome {
    CellOutcome { image_loaded: false, text_width: 0, text_height: 0 }
}

#[test]
fn unit_cells_lie_within_surface() {
    // every 1x1 cell of a 5x7 grid on a 643x401 surface stays inside it
    for row in 1..=5u32 {
        for col in 1..=7u32 {
            let r = resolve_cell_rect(643, 401, 5, 7, row, col, 1, 1).unwrap();
            assert!(r.x + r.w <= 643);
            assert!(r.y + r.h <= 401);
        }
    }
}

#[test]
fn resolver_is_idempotent() {
    let a = resolve_cell_rect(800, 600, 4, 4, 2, 3, 2, 1).unwrap();
    let b = resolve_cell_rect(800, 600, 4, 4, 2, 3, 2, 1).unwrap();
    assert_eq!(a, b);
}

#[test]
fn degenerate_rows_yield_error() {
    assert_eq!(resolve_cell_rect(800, 600, 0, 4, 1, 1, 1, 1), Err(DegenerateGridError));
}

#[test]
fn degenerate_cols_yield_error() {
    assert_eq!(resolve_cell_rect(800, 600, 4, 0, 1, 1, 1, 1), Err(DegenerateGridError));
}

#[test]
fn degenerate_layer_fails_scene_resolve() {
    let scene = Scene {
        width: 800,
        height: 600,
        layers: vec![
            Layer { grid_rows: 2, grid_cols: 2, cells: vec![cell(1, 1, 1, 1)] },
            Layer { grid_rows: 0, grid_cols: 3, cells: vec![cell(1, 1, 1, 1)] },
        ],
    };
    assert_eq!(resolve_scene(&scene), Err(DegenerateGridError));
}

#[test]
fn zero_coordinates_are_clamped_to_one() {
    let at_zero = resolve_cell_rect(800, 600, 4, 4, 0, 0, 1, 1).unwrap();
    let at_one = resolve_cell_rect(800, 600, 4, 4, 1, 1, 1, 1).unwrap();
    assert_eq!(at_zero, at_one);
    assert_eq!(at_zero, Rect { x: 0, y: 0, w: 200, h: 150 });
}

#[test]
fn column_moves_horizontally_row_moves_vertically() {
    let r = resolve_cell_rect(800, 600, 4, 4, 3, 2, 1, 1).unwrap();
    // col = 2 -> x = 1 * 200; row = 3 -> y = 2 * 150
    assert_eq!(r, Rect { x: 200, y: 300, w: 200, h: 150 });
}

#[test]
fn failed_image_load_plans_like_no_image() {
    let rect = Rect { x: 40, y: 30, w: 100, h: 80 };
    let with_image = Cell {
        row: 1,
        col: 1,
        span_rows: 1,
        span_cols: 1,
        content: Some(String::from("hello")),
        image: Some(String::from("missing.png")),
    };
    let mut without_image = with_image.clone();
    without_image.image = None;
    let outcome = CellOutcome { image_loaded: false, text_width: 50, text_height: 20 };
    assert_eq!(plan_cell(&with_image, rect, outcome), plan_cell(&without_image, rect, outcome));
}

#[test]
fn loaded_image_is_painted_between_fill_and_text() {
    let rect = Rect { x: 40, y: 30, w: 100, h: 80 };
    let c = Cell {
        row: 1,
        col: 1,
        span_rows: 1,
        span_cols: 1,
        content: Some(String::from("hello")),
        image: Some(String::from("art.png")),
    };
    let outcome = CellOutcome { image_loaded: true, text_width: 50, text_height: 20 };
    let cmds = plan_cell(&c, rect, outcome);
    assert_eq!(
        cmds,
        vec![
            DrawCmd::Fill { rect, color: Rgb { r: 200, g: 200, b: 200 } },
            DrawCmd::Image { rect },
            DrawCmd::Text { x: 40 + TEXT_INSET, y: 30 + TEXT_INSET, width: 50, height: 20 },
        ]
    );
}

#[test]
fn later_cell_wins_overlap_in_same_layer() {
    // two cells of one layer overlap on the top-left quarter of the surface
    let scene = Scene {
        width: 400,
        height: 400,
        layers: vec![Layer {
            grid_rows: 2,
            grid_cols: 2,
            cells: vec![cell(1, 1, 2, 2), cell(1, 1, 1, 1)],
        }],
    };
    let placed = resolve_scene(&scene).unwrap();
    let outcomes = vec![no_outcome(); placed.len()];
    let cmds = plan_frame(&scene, &placed, &outcomes).unwrap();
    // commands: clear, fill of the spanning cell, fill of the later cell
    assert_eq!(cmds.len(), 3);
    // in the overlap (the top-left 200x200 square) the later cell's fill wins
    assert_eq!(pixel_owner(&cmds, 10, 10), Some(2));
    assert_eq!(pixel_owner(&cmds, 199, 199), Some(2));
    // outside the overlap the earlier, spanning cell still owns the pixel
    assert_eq!(pixel_owner(&cmds, 200, 200), Some(1));
    assert_eq!(pixel_owner(&cmds, 399, 10), Some(1));
}

#[test]
fn scenario_single_cell_with_text() {
    // one 4x4 layer on 800x600, a 2x2-span cell at (1, 1) saying "Hi"
    let scene = Scene {
        width: 800,
        height: 600,
        layers: vec![Layer {
            grid_rows: 4,
            grid_cols: 4,
            cells: vec![Cell {
                row: 1,
                col: 1,
                span_rows: 2,
                span_cols: 2,
                content: Some(String::from("Hi")),
                image: None,
            }],
        }],
    };
    let placed = resolve_scene(&scene).unwrap();
    assert_eq!(
        placed,
        vec![PlacedCell { layer: 0, cell: 0, rect: Rect { x: 0, y: 0, w: 400, h: 300 } }]
    );
    let outcomes = vec![CellOutcome { image_loaded: false, text_width: 24, text_height: 16 }];
    let cmds = plan_frame(&scene, &placed, &outcomes).unwrap();
    assert_eq!(
        cmds,
        vec![
            DrawCmd::Fill {
                rect: Rect { x: 0, y: 0, w: 800, h: 600 },
                color: Rgb { r: 20, g: 20, b: 20 },
            },
            DrawCmd::Fill {
                rect: Rect { x: 0, y: 0, w: 400, h: 300 },
                color: Rgb { r: 200, g: 200, b: 200 },
            },
            DrawCmd::Text { x: 10, y: 10, width: 24, height: 16 },
        ]
    );
}

#[test]
fn scenario_second_layer_covers_first() {
    // layer 2 holds one cell fully overlapping the cell of layer 1
    let scene = Scene {
        width: 600,
        height: 600,
        layers: vec![
            Layer { grid_rows: 2, grid_cols: 2, cells: vec![cell(1, 1, 1, 1)] },
            Layer { grid_rows: 1, grid_cols: 1, cells: vec![cell(1, 1, 1, 1)] },
        ],
    };
    let placed = resolve_scene(&scene).unwrap();
    let outcomes = vec![no_outcome(); placed.len()];
    let cmds = plan_frame(&scene, &placed, &outcomes).unwrap();
    // commands: clear, layer-1 fill (300x300), layer-2 fill (600x600)
    assert_eq!(cmds.len(), 3);
    // everywhere in layer 1's cell, layer 2's cell owns the final pixel
    for &(px, py) in &[(0u64, 0u64), (150, 150), (299, 299)] {
        assert_eq!(pixel_owner(&cmds, px, py), Some(2));
    }
    // and beyond it as well: layer 2's cell spans the whole surface
    assert_eq!(pixel_owner(&cmds, 599, 599), Some(2));
}

#[test]
fn scenario_truncated_cell_width_leaves_right_strip() {
    // 3 columns on 800 pixels: each cell is 266 wide, 798 in all
    let r = resolve_cell_rect(800, 600, 1, 3, 1, 1, 1, 3).unwrap();
    assert_eq!(r.w, 3 * 266);
    assert_eq!(r.x + r.w, 798);
    // even a cell spanning every column never reaches the last two pixels
    let scene = Scene {
        width: 800,
        height: 600,
        layers: vec![Layer {
            grid_rows: 1,
            grid_cols: 3,
            cells: vec![cell(1, 1, 1, 1), cell(1, 2, 1, 1), cell(1, 3, 1, 1), cell(1, 1, 1, 3)],
        }],
    };
    let placed = resolve_scene(&scene).unwrap();
    for p in &placed {
        assert!(p.rect.x + p.rect.w <= 798);
    }
    let outcomes = vec![no_outcome(); placed.len()];
    let cmds = plan_frame(&scene, &placed, &outcomes).unwrap();
    for py in [0u64, 300, 599] {
        for px in [798u64, 799] {
            // only the background clear (command 0) paints the strip
            assert_eq!(pixel_owner(&cmds, px, py), Some(0));
        }
    }
}

#[test]
fn planner_rejects_inconsistent_input() {
    let scene = Scene {
        width: 100,
        height: 100,
        layers: vec![Layer { grid_rows: 1, grid_cols: 1, cells: vec![cell(1, 1, 1, 1)] }],
    };
    let placed = resolve_scene(&scene).unwrap();
    // mismatched outcome count
    assert_eq!(plan_frame(&scene, &placed, &vec![]), None);
    // a placed cell naming a layer the scene does not have
    let bogus = vec![PlacedCell { layer: 3, cell: 0, rect: Rect { x: 0, y: 0, w: 1, h: 1 } }];
    assert_eq!(plan_frame(&scene, &bogus, &vec![no_outcome()]), None);
}

#[test]
fn command_coverage_matches_rectangles() {
    let fill = DrawCmd::Fill {
        rect: Rect { x: 10, y: 20, w: 5, h: 5 },
        color: background_color(),
    };
    assert!(cmd_covers(fill, 10, 20));
    assert!(cmd_covers(fill, 14, 24));
    assert!(!cmd_covers(fill, 15, 20));
    assert!(!cmd_covers(fill, 9, 20));
    let text = DrawCmd::Text { x: 0, y: 0, width: 2, height: 1 };
    assert!(cmd_covers(text, 1, 0));
    assert!(!cmd_covers(text, 1, 1));
}

#[test]
fn empty_plan_owns_no_pixel() {
    let cmds: Vec<DrawCmd> = Vec::new();
    assert_eq!(pixel_owner(&cmds, 0, 0), None);
}

#[test]
fn fixed_colors() {
    assert_eq!(background_color(), Rgb { r: 20, g: 20, b: 20 });
    assert_eq!(text_color(), Rgb { r: 255, g: 255, b: 255 });
}
