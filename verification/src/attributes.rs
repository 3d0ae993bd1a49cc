//! Reading attributes and relationships as the values that they stand for.

use crate::ieee::Single;
use crate::path::is_property;
use crate::stage::{StageData, StageError, StageView};
use crate::text::{text_of, texts};
use crate::value::{Value, ValueView};
use vstd::prelude::*;

verus! {

/// A number, narrowed where it is a double.
pub open spec fn to_scalar(v: Option<ValueView>) -> Option<Single> {
    match v {
        Some(ValueView::Float(x)) => Some(x),
        Some(ValueView::Double(x)) => Some(x.nearest()),
        _ => None,
    }
}

/// A vector of three, narrowed where its entries are doubles.
pub open spec fn to_vec3(v: Option<ValueView>) -> Option<[Single; 3]> {
    match v {
        Some(ValueView::Vec3f(a)) => Some(a),
        Some(ValueView::Vec3d(a)) => Some([a[0].nearest(), a[1].nearest(), a[2].nearest()]),
        _ => None,
    }
}

/// A quaternion, narrowed where its entries are doubles.
pub open spec fn to_quat(v: Option<ValueView>) -> Option<[Single; 4]> {
    match v {
        Some(ValueView::Quatf(a)) => Some(a),
        Some(ValueView::Quatd(a)) => Some(
            [a[0].nearest(), a[1].nearest(), a[2].nearest(), a[3].nearest()],
        ),
        _ => None,
    }
}

/// A token or a string.
pub open spec fn to_text(v: Option<ValueView>) -> Option<Seq<char>> {
    match v {
        Some(ValueView::Token(s)) => Some(s),
        Some(ValueView::String(s)) => Some(s),
        _ => None,
    }
}

/// A truth value.
pub open spec fn to_bool(v: Option<ValueView>) -> Option<bool> {
    match v {
        Some(ValueView::Bool(b)) => Some(b),
        _ => None,
    }
}

/// The first entry of a list.
pub open spec fn first(list: Seq<Seq<char>>) -> Option<Seq<char>> {
    if list.len() > 0 {
        Some(list[0])
    } else {
        None
    }
}

/// What becomes of reading a property of a prim, where it fails.
pub open spec fn property_error(prim: Seq<char>) -> StageError {
    if is_property(prim) {
        StageError::InvalidPath
    } else {
        StageError::Unreadable
    }
}

/// The value of an attribute that can be read.
pub open spec fn attribute(s: StageView, prim: Seq<char>, name: Seq<char>) -> Option<ValueView> {
    s.attribute(prim, name)->Ok_0
}

/// The targets of a relationship that can be read.
pub open spec fn targets(s: StageView, prim: Seq<char>, name: Seq<char>) -> Seq<Seq<char>> {
    s.targets(prim, name)->Ok_0
}

/// A vector of three, narrowed where its entries are doubles.
pub fn value_to_vec3(v: Option<&Value>) -> (r: Option<[Single; 3]>)
    ensures
        r == to_vec3(value_view(v)),
{
    match v {
        Some(Value::Vec3f(a)) => Some(*a),
        Some(Value::Vec3d(a)) => {
            let narrow: [Single; 3] = [a[0].narrow(), a[1].narrow(), a[2].narrow()];
            Some(narrow)
        },
        _ => None,
    }
}

/// The model of an optional value.
pub open spec fn value_view(v: Option<&Value>) -> Option<ValueView> {
    match v {
        Some(v) => Some(v@),
        None => None,
    }
}

/// A quaternion, narrowed where its entries are doubles.
pub fn value_to_quat(v: Option<&Value>) -> (r: Option<[Single; 4]>)
    ensures
        r == to_quat(value_view(v)),
{
    match v {
        Some(Value::Quatf(a)) => Some(*a),
        Some(Value::Quatd(a)) => {
            let narrow: [Single; 4] = [
                a[0].narrow(),
                a[1].narrow(),
                a[2].narrow(),
                a[3].narrow(),
            ];
            Some(narrow)
        },
        _ => None,
    }
}

/// A failed read of a property, with the error that it gives for every name of
/// two characters or more.
pub open spec fn fails_as<T>(
    read: Result<T, StageError>,
    prim: Seq<char>,
    name: Seq<char>,
    e: StageError,
) -> bool {
    read == Err::<T, StageError>(e) && (name.len() > 1 ==> e == property_error(prim))
}

/// Reads an attribute that holds a number.
pub fn read_scalar(stage: &StageData, prim: &str, name: &str) -> (r: Result<
    Option<Single>,
    StageError,
>)
    ensures
        match r {
            Ok(x) => stage@.attribute(prim@, name@) is Ok && x == to_scalar(
                attribute(stage@, prim@, name@),
            ),
            Err(e) => fails_as(stage@.attribute(prim@, name@), prim@, name@, e),
        },
{
    match stage.attribute(prim, name)? {
        Some(Value::Float(x)) => Ok(Some(*x)),
        Some(Value::Double(x)) => Ok(Some(x.narrow())),
        _ => Ok(None),
    }
}

/// Reads an attribute that holds a vector of three.
pub fn read_vec3(stage: &StageData, prim: &str, name: &str) -> (r: Result<
    Option<[Single; 3]>,
    StageError,
>)
    ensures
        match r {
            Ok(x) => stage@.attribute(prim@, name@) is Ok && x == to_vec3(
                attribute(stage@, prim@, name@),
            ),
            Err(e) => fails_as(stage@.attribute(prim@, name@), prim@, name@, e),
        },
{
    Ok(value_to_vec3(stage.attribute(prim, name)?))
}

/// Reads an attribute that holds a quaternion.
pub fn read_quat(stage: &StageData, prim: &str, name: &str) -> (r: Result<
    Option<[Single; 4]>,
    StageError,
>)
    ensures
        match r {
            Ok(x) => stage@.attribute(prim@, name@) is Ok && x == to_quat(
                attribute(stage@, prim@, name@),
            ),
            Err(e) => fails_as(stage@.attribute(prim@, name@), prim@, name@, e),
        },
{
    Ok(value_to_quat(stage.attribute(prim, name)?))
}

/// Reads an attribute that holds a token or a string.
pub fn read_token(stage: &StageData, prim: &str, name: &str) -> (r: Result<
    Option<String>,
    StageError,
>)
    ensures
        match r {
            Ok(x) => stage@.attribute(prim@, name@) is Ok && text_of(x) == to_text(
                attribute(stage@, prim@, name@),
            ),
            Err(e) => fails_as(stage@.attribute(prim@, name@), prim@, name@, e),
        },
{
    match stage.attribute(prim, name)? {
        Some(Value::Token(s)) => Ok(Some(s.as_str().to_owned())),
        Some(Value::String(s)) => Ok(Some(s.as_str().to_owned())),
        _ => Ok(None),
    }
}

/// Reads an attribute that holds a truth value.
pub fn read_bool(stage: &StageData, prim: &str, name: &str) -> (r: Result<Option<bool>, StageError>)
    ensures
        match r {
            Ok(x) => stage@.attribute(prim@, name@) is Ok && x == to_bool(
                attribute(stage@, prim@, name@),
            ),
            Err(e) => fails_as(stage@.attribute(prim@, name@), prim@, name@, e),
        },
{
    match stage.attribute(prim, name)? {
        Some(Value::Bool(b)) => Ok(Some(*b)),
        _ => Ok(None),
    }
}

/// Reads all targets of a relationship.
pub fn read_targets(stage: &StageData, prim: &str, name: &str) -> (r: Result<
    Vec<String>,
    StageError,
>)
    ensures
        match r {
            Ok(x) => stage@.targets(prim@, name@) is Ok && texts(x@) == targets(
                stage@,
                prim@,
                name@,
            ),
            Err(e) => fails_as(stage@.targets(prim@, name@), prim@, name@, e),
        },
{
    stage.targets(prim, name)
}

/// Reads the first target of a relationship.
pub fn read_first_target(stage: &StageData, prim: &str, name: &str) -> (r: Result<
    Option<String>,
    StageError,
>)
    ensures
        match r {
            Ok(x) => stage@.targets(prim@, name@) is Ok && text_of(x) == first(
                targets(stage@, prim@, name@),
            ),
            Err(e) => fails_as(stage@.targets(prim@, name@), prim@, name@, e),
        },
{
    let list: Vec<String> = stage.targets(prim, name)?;
    if list.len() > 0 {
        Ok(Some(list[0].as_str().to_owned()))
    } else {
        Ok(None)
    }
}

} // verus!
