use intentglyph::config::{scene_from_doc, ConfigurationError, Doc};
use intentglyph::scene::{Cell, Layer, Scene};

fn field(name: &str, value: Doc) -> (String, Doc) {
    (String::from(name), value)
}

fn cell_doc(row: i64, col: i64, span_rows: i64, span_cols: i64) -> Doc {
    Doc::Obj(vec![
        field("row", Doc::Int(row)),
        field("col", Doc::Int(col)),
        field("span_rows", Doc::Int(span_rows)),
        field("span_cols", Doc::Int(span_cols)),
    ])
}

fn scene_doc(width: i64, height: i64, layers: Vec<Doc>) -> Doc {
    Doc::Obj(vec![
        field("width", Doc::Int(width)),
        field("height", Doc::Int(height)),
        field("layers", Doc::Arr(layers)),
    ])
}

#[test]
fn valid_document_builds_the_scene() {
    let doc = scene_doc(
        800,
        600,
        vec![Doc::Obj(vec![
            field("grid_rows", Doc::Int(4)),
            field("grid_cols", Doc::Int(4)),
            field(
                "cells",
                Doc::Arr(vec![Doc::Obj(vec![
                    field("row", Doc::Int(1)),
                    field("col", Doc::Int(1)),
                    field("span_rows", Doc::Int(2)),
                    field("span_cols", Doc::Int(2)),
                    field("content", Doc::Str(String::from("Hi"))),
                    field("image", Doc::Null),
                ])]),
            ),
        ])],
    );
    let scene = scene_from_doc(&doc).unwrap();
    assert_eq!(
        scene,
        Scene {
            width: 800,
            height: 600,
            layers: vec![Layer {
                grid_rows: 4,
                grid_cols: 4,
                cells: vec![Cell {
                    row: 1,
                    col: 1,
                    span_rows: 2,
                    span_cols: 2,
                    content: Some(String::from("Hi")),
                    image: None,
                }],
            }],
        }
    );
}

#[test]
fn missing_required_field_is_reported() {
    // no height
    let doc = Doc::Obj(vec![
        field("width", Doc::Int(800)),
        field("layers", Doc::Arr(vec![])),
    ]);
    assert_eq!(scene_from_doc(&doc), Err(ConfigurationError::MissingField));
}

#[test]
fn missing_cells_array_is_reported() {
    let doc = scene_doc(
        100,
        100,
        vec![Doc::Obj(vec![
            field("grid_rows", Doc::Int(1)),
            field("grid_cols", Doc::Int(1)),
        ])],
    );
    assert_eq!(scene_from_doc(&doc), Err(ConfigurationError::MissingField));
}

#[test]
fn wrong_field_type_is_reported() {
    let doc = Doc::Obj(vec![
        field("width", Doc::Str(String::from("wide"))),
        field("height", Doc::Int(600)),
        field("layers", Doc::Arr(vec![])),
    ]);
    assert_eq!(scene_from_doc(&doc), Err(ConfigurationError::WrongType));
}

#[test]
fn negative_or_oversized_numbers_are_wrong_type() {
    let negative = scene_doc(-1, 600, vec![]);
    assert_eq!(scene_from_doc(&negative), Err(ConfigurationError::WrongType));
    let oversized = scene_doc(1 << 40, 600, vec![]);
    assert_eq!(scene_from_doc(&oversized), Err(ConfigurationError::WrongType));
}

#[test]
fn fractional_number_is_wrong_type() {
    let doc = Doc::Obj(vec![
        field("width", Doc::OtherNumber),
        field("height", Doc::Int(600)),
        field("layers", Doc::Arr(vec![])),
    ]);
    assert_eq!(scene_from_doc(&doc), Err(ConfigurationError::WrongType));
}

#[test]
fn non_object_document_is_wrong_type() {
    assert_eq!(scene_from_doc(&Doc::Arr(vec![])), Err(ConfigurationError::WrongType));
    assert_eq!(scene_from_doc(&Doc::Bool(true)), Err(ConfigurationError::WrongType));
}

#[test]
fn invalid_cell_fails_the_whole_scene() {
    let doc = scene_doc(
        100,
        100,
        vec![Doc::Obj(vec![
            field("grid_rows", Doc::Int(1)),
            field("grid_cols", Doc::Int(1)),
            field(
                "cells",
                Doc::Arr(vec![Doc::Obj(vec![
                    field("row", Doc::Int(1)),
                    field("col", Doc::Int(1)),
                    field("span_rows", Doc::Int(1)),
                    // span_cols missing
                ])]),
            ),
        ])],
    );
    assert_eq!(scene_from_doc(&doc), Err(ConfigurationError::MissingField));
}

#[test]
fn content_as_number_is_wrong_type() {
    let mut cell_fields = match cell_doc(1, 1, 1, 1) {
        Doc::Obj(f) => f,
        _ => unreachable!(),
    };
    cell_fields.push(field("content", Doc::Int(5)));
    let doc = scene_doc(
        100,
        100,
        vec![Doc::Obj(vec![
            field("grid_rows", Doc::Int(1)),
            field("grid_cols", Doc::Int(1)),
            field("cells", Doc::Arr(vec![Doc::Obj(cell_fields)])),
        ])],
    );
    assert_eq!(scene_from_doc(&doc), Err(ConfigurationError::WrongType));
}

#[test]
fn unknown_fields_are_ignored_and_null_content_is_none() {
    let doc = scene_doc(
        100,
        100,
        vec![Doc::Obj(vec![
            field("grid_rows", Doc::Int(2)),
            field("grid_cols", Doc::Int(2)),
            field("note", Doc::Str(String::from("ignored"))),
            field(
                "cells",
                Doc::Arr(vec![Doc::Obj(vec![
                    field("row", Doc::Int(1)),
                    field("col", Doc::Int(2)),
                    field("span_rows", Doc::Int(1)),
                    field("span_cols", Doc::Int(1)),
                    field("content", Doc::Null),
                ])]),
            ),
        ])],
    );
    let scene = scene_from_doc(&doc).unwrap();
    assert_eq!(scene.layers.len(), 1);
    let cell = &scene.layers[0].cells[0];
    assert_eq!(cell.content, None);
    assert_eq!(cell.image, None);
    assert_eq!((cell.row, cell.col), (1, 2));
}

#[test]
fn empty_layers_build_an_empty_scene() {
    let scene = scene_from_doc(&scene_doc(640, 480, vec![])).unwrap();
    assert_eq!(scene, Scene { width: 640, height: 480, layers: vec![] });
}
