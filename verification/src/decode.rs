//! Reading the members of a JSON object.
//!
//! Each reader has a spec function that says which documents it accepts and
//! what it reads from them. `None` stands for a document that is refused.

use crate::json::{Json, JsonView, Number, NumberView};
use crate::view::opt_text;
use vstd::prelude::*;

verus! {

/// A member that must be a text.
pub open spec fn text_member(v: JsonView, key: Seq<char>) -> Option<Seq<char>> {
    match v.member(key) {
        Some(JsonView::Str(s)) => Some(s),
        _ => None,
    }
}

/// A member that is a text, or is missing and then stands for `default`.
pub open spec fn text_member_or(v: JsonView, key: Seq<char>, default: Seq<char>) -> Option<
    Seq<char>,
> {
    match v.member(key) {
        None => Some(default),
        Some(JsonView::Str(s)) => Some(s),
        Some(_) => None,
    }
}

/// A member that is a text, or is missing or `null` and then stands for the
/// empty text.
pub open spec fn text_member_or_empty(v: JsonView, key: Seq<char>) -> Option<Seq<char>> {
    match v.present(key) {
        None => Some(Seq::empty()),
        Some(JsonView::Str(s)) => Some(s),
        Some(_) => None,
    }
}

/// A member that is a text, or is missing or `null`.
pub open spec fn optional_text_member(v: JsonView, key: Seq<char>) -> Option<Option<Seq<char>>> {
    match v.present(key) {
        None => Some(None),
        Some(JsonView::Str(s)) => Some(Some(s)),
        Some(_) => None,
    }
}

/// A member that is a boolean, or is missing and then stands for `default`.
pub open spec fn bool_member_or(v: JsonView, key: Seq<char>, default: bool) -> Option<bool> {
    match v.member(key) {
        None => Some(default),
        Some(JsonView::Bool(b)) => Some(b),
        Some(_) => None,
    }
}

/// A document that is a non-negative integer.
pub open spec fn as_u64(v: JsonView) -> Option<u64> {
    match v {
        JsonView::Number(NumberView::Unsigned(n)) => Some(n),
        _ => None,
    }
}

/// A member that must be a non-negative integer of 64 bits.
pub open spec fn u64_member(v: JsonView, key: Seq<char>) -> Option<u64> {
    match v.member(key) {
        Some(m) => as_u64(m),
        None => None,
    }
}

/// A member that must be a non-negative integer of 32 bits.
pub open spec fn u32_member(v: JsonView, key: Seq<char>) -> Option<u32> {
    match u64_member(v, key) {
        Some(n) => if n <= u32::MAX {
            Some(n as u32)
        } else {
            None
        },
        None => None,
    }
}

/// Reads a member as [`text_member`] says.
pub fn read_text(v: &Json, key: &str) -> (r: Option<String>)
    ensures
        opt_text(r) == text_member(v@, key@),
{
    match v.get(key) {
        Some(Json::Str(s)) => Some(s.clone()),
        _ => None,
    }
}

/// Reads a member as [`text_member_or`] says.
pub fn read_text_or(v: &Json, key: &str, default: &str) -> (r: Option<String>)
    ensures
        opt_text(r) == text_member_or(v@, key@, default@),
{
    match v.get(key) {
        None => Some(default.to_owned()),
        Some(Json::Str(s)) => Some(s.clone()),
        Some(_) => None,
    }
}

/// Reads a member as [`text_member_or_empty`] says.
pub fn read_text_or_empty(v: &Json, key: &str) -> (r: Option<String>)
    ensures
        opt_text(r) == text_member_or_empty(v@, key@),
{
    match v.get_present(key) {
        None => Some(String::new()),
        Some(Json::Str(s)) => Some(s.clone()),
        Some(_) => None,
    }
}

/// The model of an optional text that may have been refused.
pub open spec fn opt_opt_text(t: Option<Option<String>>) -> Option<Option<Seq<char>>> {
    match t {
        Some(inner) => Some(opt_text(inner)),
        None => None,
    }
}

/// Reads a member as [`optional_text_member`] says.
pub fn read_optional_text(v: &Json, key: &str) -> (r: Option<Option<String>>)
    ensures
        opt_opt_text(r) == optional_text_member(v@, key@),
{
    match v.get_present(key) {
        None => Some(None),
        Some(Json::Str(s)) => Some(Some(s.clone())),
        Some(_) => None,
    }
}

/// Reads a member as [`bool_member_or`] says.
pub fn read_bool_or(v: &Json, key: &str, default: bool) -> (r: Option<bool>)
    ensures
        r == bool_member_or(v@, key@, default),
{
    match v.get(key) {
        None => Some(default),
        Some(Json::Bool(b)) => Some(*b),
        Some(_) => None,
    }
}

/// Reads a member as [`u64_member`] says.
pub fn read_u64(v: &Json, key: &str) -> (r: Option<u64>)
    ensures
        r == u64_member(v@, key@),
{
    match v.get(key) {
        Some(Json::Number(Number::Unsigned(n))) => Some(*n),
        _ => None,
    }
}

/// Reads a member as [`u32_member`] says.
pub fn read_u32(v: &Json, key: &str) -> (r: Option<u32>)
    ensures
        r == u32_member(v@, key@),
{
    match read_u64(v, key) {
        Some(n) => if n <= 0xFFFF_FFFF {
            Some(n as u32)
        } else {
            None
        },
        None => None,
    }
}

} // verus!
