//! Building a scene from a configuration document.
//!
//! The document arrives as a generic tree of nulls, booleans, numbers,
//! strings, arrays and objects — whatever format the caller read it from.
//! This module walks that tree and builds the scene value, reporting a
//! [`ConfigurationError`] when the document is structurally invalid: a
//! required field is missing, or a node has the wrong type. Unknown fields
//! are ignored; `content` and `image` may be absent or null.

use vstd::prelude::*;
use vstd::string::StringExecFns;

use crate::scene::{Cell, Layer, LayerV, Scene, SceneV};

verus! {

/// A node of the configuration document tree.
pub enum Doc {
    Null,
    Bool(bool),
    Int(i64),
    /// A number with no signed 64-bit integer value (fractional, or out of
    /// range). No field of a scene can hold it, so it only ever has the
    /// wrong type.
    OtherNumber,
    Str(String),
    Arr(Vec<Doc>),
    Obj(Vec<(String, Doc)>),
}

/// The configuration document cannot be a scene. Fatal: no partial scene
/// is built.
#[derive(Clone, Copy, Debug, PartialEq, Eq, Structural)]
pub enum ConfigurationError {
    /// A required field is absent from an object.
    MissingField,
    /// A node has the wrong type, or a number is out of its field's range.
    WrongType,
}

/// The value of the first field with the given name, if any.
pub open spec fn spec_find_field(fields: Seq<(String, Doc)>, name: Seq<char>) -> Option<Doc>
    decreases fields.len(),
{
    if fields.len() == 0 {
        None
    } else if fields[0].0@ == name {
        Some(fields[0].1)
    } else {
        spec_find_field(fields.drop_first(), name)
    }
}

/// A required field holding an unsigned 32-bit integer.
pub open spec fn spec_get_u32(fields: Seq<(String, Doc)>, name: Seq<char>) -> Result<
    u32,
    ConfigurationError,
> {
    match spec_find_field(fields, name) {
        Option::None => Result::Err(ConfigurationError::MissingField),
        Option::Some(d) => match d {
            Doc::Int(i) => if 0 <= i <= u32::MAX {
                Result::Ok(i as u32)
            } else {
                Result::Err(ConfigurationError::WrongType)
            },
            _ => Result::Err(ConfigurationError::WrongType),
        },
    }
}

/// An optional string field: absent and null both mean "none".
pub open spec fn spec_get_opt_string(fields: Seq<(String, Doc)>, name: Seq<char>) -> Result<
    Option<String>,
    ConfigurationError,
> {
    match spec_find_field(fields, name) {
        Option::None => Result::Ok(Option::None),
        Option::Some(d) => match d {
            Doc::Null => Result::Ok(Option::None),
            Doc::Str(s) => Result::Ok(Option::Some(s)),
            _ => Result::Err(ConfigurationError::WrongType),
        },
    }
}

/// Find the first field with the given name.
fn find_field<'a>(fields: &'a Vec<(String, Doc)>, name: &String) -> (r: Option<&'a Doc>)
    ensures
        match r {
            Some(d) => spec_find_field(fields@, name@) == Some(*d),
            None => spec_find_field(fields@, name@) is None,
        },
{
    proof {
        assert(fields@.skip(0) =~= fields@);
    }
    let mut i: usize = 0;
    while i < fields.len()
        invariant
            i <= fields@.len(),
            spec_find_field(fields@, name@) == spec_find_field(fields@.skip(i as int), name@),
        decreases fields@.len() - i,
    {
        if fields[i].0 == *name {
            proof {
                assert(fields@.skip(i as int)[0] == fields@[i as int]);
            }
            return Some(&fields[i].1);
        }
        proof {
            assert(fields@.skip(i as int)[0] == fields@[i as int]);
            assert(fields@.skip(i as int).drop_first() =~= fields@.skip(i + 1));
        }
        i = i + 1;
    }
    None
}

/// Read a required unsigned 32-bit integer field.
fn get_u32_field(fields: &Vec<(String, Doc)>, name: &String) -> (r: Result<
    u32,
    ConfigurationError,
>)
    ensures
        r == spec_get_u32(fields@, name@),
{
    match find_field(fields, name) {
        None => Err(ConfigurationError::MissingField),
        Some(d) => match d {
            Doc::Int(i) => if 0 <= *i && *i <= u32::MAX as i64 {
                Ok(*i as u32)
            } else {
                Err(ConfigurationError::WrongType)
            },
            _ => Err(ConfigurationError::WrongType),
        },
    }
}

/// Read an optional string field; absent and null both yield `None`.
fn get_opt_string_field(fields: &Vec<(String, Doc)>, name: &String) -> (r: Result<
    Option<String>,
    ConfigurationError,
>)
    ensures
        r == spec_get_opt_string(fields@, name@),
{
    match find_field(fields, name) {
        None => Ok(None),
        Some(d) => match d {
            Doc::Null => Ok(None),
            Doc::Str(s) => Ok(Some(s.clone())),
            _ => Err(ConfigurationError::WrongType),
        },
    }
}

/// The cell an object node describes: `row`, `col`, `span_rows` and
/// `span_cols` are required integers, `content` and `image` optional
/// strings. The first invalid field, in that order, decides the error.
pub open spec fn spec_parse_cell_fields(fields: Seq<(String, Doc)>) -> Result<
    Cell,
    ConfigurationError,
> {
    match spec_get_u32(fields, "row"@) {
        Result::Err(e) => Result::Err(e),
        Result::Ok(row) => match spec_get_u32(fields, "col"@) {
            Result::Err(e) => Result::Err(e),
            Result::Ok(col) => match spec_get_u32(fields, "span_rows"@) {
                Result::Err(e) => Result::Err(e),
                Result::Ok(span_rows) => match spec_get_u32(fields, "span_cols"@) {
                    Result::Err(e) => Result::Err(e),
                    Result::Ok(span_cols) => match spec_get_opt_string(fields, "content"@) {
                        Result::Err(e) => Result::Err(e),
                        Result::Ok(content) => match spec_get_opt_string(fields, "image"@) {
                            Result::Err(e) => Result::Err(e),
                            Result::Ok(image) => Result::Ok(
                                Cell { row, col, span_rows, span_cols, content, image },
                            ),
                        },
                    },
                },
            },
        },
    }
}

/// The cell a document node describes; anything but an object is of the
/// wrong type.
pub open spec fn spec_parse_cell(d: Doc) -> Result<Cell, ConfigurationError> {
    match d {
        Doc::Obj(fields) => spec_parse_cell_fields(fields@),
        _ => Result::Err(ConfigurationError::WrongType),
    }
}

/// Build one cell from a document node.
pub fn cell_from_doc(d: &Doc) -> (r: Result<Cell, ConfigurationError>)
    ensures
        r == spec_parse_cell(*d),
{
    let fields = match d {
        Doc::Obj(fields) => fields,
        _ => {
            return Err(ConfigurationError::WrongType);
        },
    };
    let row = match get_u32_field(fields, &String::from_str("row")) {
        Ok(v) => v,
        Err(e) => {
            return Err(e);
        },
    };
    let col = match get_u32_field(fields, &String::from_str("col")) {
        Ok(v) => v,
        Err(e) => {
            return Err(e);
        },
    };
    let span_rows = match get_u32_field(fields, &String::from_str("span_rows")) {
        Ok(v) => v,
        Err(e) => {
            return Err(e);
        },
    };
    let span_cols = match get_u32_field(fields, &String::from_str("span_cols")) {
        Ok(v) => v,
        Err(e) => {
            return Err(e);
        },
    };
    let content = match get_opt_string_field(fields, &String::from_str("content")) {
        Ok(v) => v,
        Err(e) => {
            return Err(e);
        },
    };
    let image = match get_opt_string_field(fields, &String::from_str("image")) {
        Ok(v) => v,
        Err(e) => {
            return Err(e);
        },
    };
    Ok(Cell { row, col, span_rows, span_cols, content, image })
}

/// The cells an array's elements describe, in order; the first invalid
/// element decides the error.
pub open spec fn spec_parse_cells(items: Seq<Doc>) -> Result<Seq<Cell>, ConfigurationError>
    decreases items.len(),
{
    if items.len() == 0 {
        Result::Ok(Seq::empty())
    } else {
        match spec_parse_cell(items[0]) {
            Result::Err(e) => Result::Err(e),
            Result::Ok(c) => match spec_parse_cells(items.drop_first()) {
                Result::Err(e) => Result::Err(e),
                Result::Ok(rest) => Result::Ok(seq![c] + rest),
            },
        }
    }
}

/// `spec_parse_cells` with the already-parsed prefix in front.
spec fn spec_parse_cells_with_prefix(done: Seq<Cell>, rest: Seq<Doc>) -> Result<
    Seq<Cell>,
    ConfigurationError,
> {
    match spec_parse_cells(rest) {
        Result::Err(e) => Result::Err(e),
        Result::Ok(cells) => Result::Ok(done + cells),
    }
}

/// Build the cells of a layer from the elements of an array node.
fn cells_from_docs(items: &Vec<Doc>) -> (r: Result<Vec<Cell>, ConfigurationError>)
    ensures
        ({
            let s = spec_parse_cells(items@);
            match r {
                Ok(cells) => s is Ok && cells@ == s->Ok_0,
                Err(e) => s is Err && e == s->Err_0,
            }
        }),
{
    let mut cells: Vec<Cell> = Vec::new();
    proof {
        assert(items@.skip(0) =~= items@);
        if spec_parse_cells(items@) is Ok {
            assert(Seq::<Cell>::empty() + spec_parse_cells(items@)->Ok_0 =~= spec_parse_cells(
                items@,
            )->Ok_0);
        }
    }
    let mut i: usize = 0;
    while i < items.len()
        invariant
            i <= items@.len(),
            spec_parse_cells(items@) == spec_parse_cells_with_prefix(
                cells@,
                items@.skip(i as int),
            ),
        decreases items@.len() - i,
    {
        proof {
            assert(items@.skip(i as int)[0] == items@[i as int]);
            assert(items@.skip(i as int).drop_first() =~= items@.skip(i + 1));
        }
        let c = match cell_from_doc(&items[i]) {
            Ok(c) => c,
            Err(e) => {
                return Err(e);
            },
        };
        let ghost prev = cells@;
        cells.push(c);
        proof {
            assert(cells@ =~= prev + seq![c]);
            if spec_parse_cells(items@.skip(i + 1)) is Ok {
                let rest = spec_parse_cells(items@.skip(i + 1))->Ok_0;
                assert(prev + (seq![c] + rest) =~= (prev + seq![c]) + rest);
            }
        }
        i = i + 1;
    }
    proof {
        assert(items@.skip(items@.len() as int) =~= Seq::<Doc>::empty());
        assert(cells@ + Seq::<Cell>::empty() =~= cells@);
    }
    Ok(cells)
}

/// The layer an object node describes: required `grid_rows` and
/// `grid_cols` integers and a required `cells` array.
pub open spec fn spec_parse_layer_fields(fields: Seq<(String, Doc)>) -> Result<
    LayerV,
    ConfigurationError,
> {
    match spec_get_u32(fields, "grid_rows"@) {
        Result::Err(e) => Result::Err(e),
        Result::Ok(grid_rows) => match spec_get_u32(fields, "grid_cols"@) {
            Result::Err(e) => Result::Err(e),
            Result::Ok(grid_cols) => match spec_find_field(fields, "cells"@) {
                Option::None => Result::Err(ConfigurationError::MissingField),
                Option::Some(Doc::Arr(items)) => match spec_parse_cells(items@) {
                    Result::Err(e) => Result::Err(e),
                    Result::Ok(cells) => Result::Ok(LayerV { grid_rows, grid_cols, cells }),
                },
                Option::Some(_) => Result::Err(ConfigurationError::WrongType),
            },
        },
    }
}

/// The layer a document node describes; anything but an object is of the
/// wrong type.
pub open spec fn spec_parse_layer(d: Doc) -> Result<LayerV, ConfigurationError> {
    match d {
        Doc::Obj(fields) => spec_parse_layer_fields(fields@),
        _ => Result::Err(ConfigurationError::WrongType),
    }
}

/// Build one layer from a document node.
pub fn layer_from_doc(d: &Doc) -> (r: Result<Layer, ConfigurationError>)
    ensures
        ({
            let s = spec_parse_layer(*d);
            match r {
                Ok(layer) => s is Ok && layer@ == s->Ok_0,
                Err(e) => s is Err && e == s->Err_0,
            }
        }),
{
    let fields = match d {
        Doc::Obj(fields) => fields,
        _ => {
            return Err(ConfigurationError::WrongType);
        },
    };
    let grid_rows = match get_u32_field(fields, &String::from_str("grid_rows")) {
        Ok(v) => v,
        Err(e) => {
            return Err(e);
        },
    };
    let grid_cols = match get_u32_field(fields, &String::from_str("grid_cols")) {
        Ok(v) => v,
        Err(e) => {
            return Err(e);
        },
    };
    let cells_doc = match find_field(fields, &String::from_str("cells")) {
        Some(dd) => dd,
        None => {
            return Err(ConfigurationError::MissingField);
        },
    };
    let items = match cells_doc {
        Doc::Arr(items) => items,
        _ => {
            return Err(ConfigurationError::WrongType);
        },
    };
    let cells = match cells_from_docs(items) {
        Ok(v) => v,
        Err(e) => {
            return Err(e);
        },
    };
    Ok(Layer { grid_rows, grid_cols, cells })
}

/// The layers an array's elements describe, in order; the first invalid
/// element decides the error.
pub open spec fn spec_parse_layers(items: Seq<Doc>) -> Result<Seq<LayerV>, ConfigurationError>
    decreases items.len(),
{
    if items.len() == 0 {
        Result::Ok(Seq::empty())
    } else {
        match spec_parse_layer(items[0]) {
            Result::Err(e) => Result::Err(e),
            Result::Ok(l) => match spec_parse_layers(items.drop_first()) {
                Result::Err(e) => Result::Err(e),
                Result::Ok(rest) => Result::Ok(seq![l] + rest),
            },
        }
    }
}

/// `spec_parse_layers` with the already-parsed prefix in front.
spec fn spec_parse_layers_with_prefix(done: Seq<LayerV>, rest: Seq<Doc>) -> Result<
    Seq<LayerV>,
    ConfigurationError,
> {
    match spec_parse_layers(rest) {
        Result::Err(e) => Result::Err(e),
        Result::Ok(layers) => Result::Ok(done + layers),
    }
}

/// Build the layers of a scene from the elements of an array node.
fn layers_from_docs(items: &Vec<Doc>) -> (r: Result<Vec<Layer>, ConfigurationError>)
    ensures
        ({
            let s = spec_parse_layers(items@);
            match r {
                Ok(layers) => s is Ok && layers@.map_values(|l: Layer| l@) == s->Ok_0,
                Err(e) => s is Err && e == s->Err_0,
            }
        }),
{
    let mut layers: Vec<Layer> = Vec::new();
    proof {
        assert(items@.skip(0) =~= items@);
        assert(layers@.map_values(|l: Layer| l@) =~= Seq::<LayerV>::empty());
        if spec_parse_layers(items@) is Ok {
            assert(Seq::<LayerV>::empty() + spec_parse_layers(items@)->Ok_0 =~= spec_parse_layers(
                items@,
            )->Ok_0);
        }
    }
    let mut i: usize = 0;
    while i < items.len()
        invariant
            i <= items@.len(),
            spec_parse_layers(items@) == spec_parse_layers_with_prefix(
                layers@.map_values(|l: Layer| l@),
                items@.skip(i as int),
            ),
        decreases items@.len() - i,
    {
        proof {
            assert(items@.skip(i as int)[0] == items@[i as int]);
            assert(items@.skip(i as int).drop_first() =~= items@.skip(i + 1));
        }
        let l = match layer_from_doc(&items[i]) {
            Ok(l) => l,
            Err(e) => {
                return Err(e);
            },
        };
        let ghost prev = layers@.map_values(|l: Layer| l@);
        let ghost lv = l@;
        layers.push(l);
        proof {
            assert(layers@.map_values(|l: Layer| l@) =~= prev + seq![lv]);
            if spec_parse_layers(items@.skip(i + 1)) is Ok {
                let rest = spec_parse_layers(items@.skip(i + 1))->Ok_0;
                assert(prev + (seq![lv] + rest) =~= (prev + seq![lv]) + rest);
            }
        }
        i = i + 1;
    }
    proof {
        assert(items@.skip(items@.len() as int) =~= Seq::<Doc>::empty());
        assert(layers@.map_values(|l: Layer| l@) + Seq::<LayerV>::empty() =~= layers@.map_values(
            |l: Layer| l@,
        ));
    }
    Ok(layers)
}

/// The scene an object node describes: required `width` and `height`
/// integers and a required `layers` array.
pub open spec fn spec_parse_scene_fields(fields: Seq<(String, Doc)>) -> Result<
    SceneV,
    ConfigurationError,
> {
    match spec_get_u32(fields, "width"@) {
        Result::Err(e) => Result::Err(e),
        Result::Ok(width) => match spec_get_u32(fields, "height"@) {
            Result::Err(e) => Result::Err(e),
            Result::Ok(height) => match spec_find_field(fields, "layers"@) {
                Option::None => Result::Err(ConfigurationError::MissingField),
                Option::Some(Doc::Arr(items)) => match spec_parse_layers(items@) {
                    Result::Err(e) => Result::Err(e),
                    Result::Ok(layers) => Result::Ok(SceneV { width, height, layers }),
                },
                Option::Some(_) => Result::Err(ConfigurationError::WrongType),
            },
        },
    }
}

/// The scene a document describes; anything but an object is of the wrong
/// type.
pub open spec fn spec_parse_scene(d: Doc) -> Result<SceneV, ConfigurationError> {
    match d {
        Doc::Obj(fields) => spec_parse_scene_fields(fields@),
        _ => Result::Err(ConfigurationError::WrongType),
    }
}

/// Build the scene a configuration document describes. Succeeds exactly
/// when the document is structurally valid, and then yields precisely the
/// scene the document spells out; otherwise reports the first structural
/// fault.
pub fn scene_from_doc(d: &Doc) -> (r: Result<Scene, ConfigurationError>)
    ensures
        ({
            let s = spec_parse_scene(*d);
            match r {
                Ok(scene) => s is Ok && scene@ == s->Ok_0,
                Err(e) => s is Err && e == s->Err_0,
            }
        }),
{
    let fields = match d {
        Doc::Obj(fields) => fields,
        _ => {
            return Err(ConfigurationError::WrongType);
        },
    };
    let width = match get_u32_field(fields, &String::from_str("width")) {
        Ok(v) => v,
        Err(e) => {
            return Err(e);
        },
    };
    let height = match get_u32_field(fields, &String::from_str("height")) {
        Ok(v) => v,
        Err(e) => {
            return Err(e);
        },
    };
    let layers_doc = match find_field(fields, &String::from_str("layers")) {
        Some(dd) => dd,
        None => {
            return Err(ConfigurationError::MissingField);
        },
    };
    let items = match layers_doc {
        Doc::Arr(items) => items,
        _ => {
            return Err(ConfigurationError::WrongType);
        },
    };
    let layers = match layers_from_docs(items) {
        Ok(v) => v,
        Err(e) => {
            return Err(e);
        },
    };
    Ok(Scene { width, height, layers })
}

} // verus!
