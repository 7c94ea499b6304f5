//! Decisions taken while running a subcommand.

use vstd::prelude::*;
use crate::json::{deref_json, field, json_field, json_get, spec_json_get, JsonValue};
use crate::text::{chars_of, decimal, ends_with, has_suffix, push_decimal, str_is};

verus! {

/// How an embedding is written to an `--output` file.
#[derive(Clone, Copy, Debug, PartialEq, Eq, Structural)]
pub enum OutputFormat {
    /// Raw little-endian `f32` values, for a path ending in `.f32`.
    RawF32,
    /// A JSON object with the image path and the embedding.
    Json,
}

/// Why a subcommand's arguments were refused.
#[derive(Clone, Copy, Debug, PartialEq, Eq, Structural)]
pub enum CommandError {
    /// `-k` was 0.
    TopKNotPositive,
    /// The selected output is not `[1, classes]` with at least one class.
    NotLogits,
}

/// Raw `f32` output for a path ending in `.f32`, JSON otherwise.
pub open spec fn spec_output_format(path: Seq<char>) -> OutputFormat {
    if ends_with(path, ".f32"@) {
        OutputFormat::RawF32
    } else {
        OutputFormat::Json
    }
}

/// Chooses how to write an embedding to `path`.
pub fn output_format(path: &str) -> (r: OutputFormat)
    ensures
        r == spec_output_format(path@),
{
    let p = chars_of(path);
    if has_suffix(&p, ".f32") {
        OutputFormat::RawF32
    } else {
        OutputFormat::Json
    }
}

/// `-k` must be positive for `nearest` and `classify`.
pub fn check_top_k(top_k: usize) -> (r: Result<(), CommandError>)
    ensures
        r is Ok <==> top_k > 0,
        r matches Err(e) ==> e == CommandError::TopKNotPositive,
{
    if top_k > 0 {
        Ok(())
    } else {
        Err(CommandError::TopKNotPositive)
    }
}

/// Classification reads `[1, classes]` logits with at least one class.
pub fn check_logits(shape: &Vec<i64>, len: usize) -> (r: Result<(), CommandError>)
    ensures
        r is Ok <==> (shape@.len() == 2 && shape@[0] == 1 && len > 0),
        r matches Err(e) ==> e == CommandError::NotLogits,
{
    if shape.len() == 2 && shape[0] == 1 && len > 0 {
        Ok(())
    } else {
        Err(CommandError::NotLogits)
    }
}

/// The label of class `index` in a model's `config.json`: the member named by
/// the index in decimal of its `id2label` object.
pub open spec fn spec_class_label(config: JsonValue, index: nat) -> Option<JsonValue> {
    json_field(spec_json_get(config, "id2label"@), decimal(index))
}

/// Looks up the label of class `index` in a parsed `config.json`.
pub fn class_label<'a>(config: &'a JsonValue, index: usize) -> (r: Option<&'a JsonValue>)
    ensures
        deref_json(r) == spec_class_label(*config, index as nat),
{
    let mut key = String::new();
    push_decimal(&mut key, index);
    assert(key@ =~= decimal(index as nat));
    field(json_get(config, "id2label"), key.as_str())
}

/// `-hf` is accepted as a spelling of `--hf`.
pub fn expand_hf_flag(arg: &str) -> (r: String)
    ensures
        r@ == (if arg@ == "-hf"@ { "--hf"@ } else { arg@ }),
{
    if str_is(arg, "-hf") {
        "--hf".to_string()
    } else {
        arg.to_string()
    }
}

} // verus!
