//! Scene paths, which are strings such as `/Robot/Arm.physics:mass`.
//!
//! Joining paths is the work of `openusd::sdf::Path`; the functions of this
//! file hand it strings and take strings back.

use vstd::prelude::*;

verus! {

/// The error of the scene description crate.
#[verifier::external_type_specification]
#[verifier::external_body]
pub struct ExUsdError(anyhow::Error);

/// Whether `char::is_alphanumeric` holds of a character beyond ASCII, which the
/// tables of Unicode decide.
pub uninterp spec fn is_alphanumeric(c: char) -> bool;

/// Whether a character can stand in the name of a property.
pub open spec fn is_name_char(c: char) -> bool {
    ||| '0' <= c <= '9'
    ||| 'A' <= c <= 'Z'
    ||| 'a' <= c <= 'z'
    ||| c == '_'
    ||| c == ':'
    ||| c as u32 >= 128 && is_alphanumeric(c)
}

/// Whether a path is one of a property: what follows its last `.` is a name.
pub open spec fn is_property(path: Seq<char>) -> bool {
    exists|dot: int|
        0 <= dot < path.len() - 1 && #[trigger] path[dot] == '.' && (forall|i: int|
            dot < i < path.len() ==> is_name_char(#[trigger] path[i]))
}

/// The path of the property `name` of a prim.
pub open spec fn property_of(prim: Seq<char>, name: Seq<char>) -> Seq<char> {
    prim + seq!['.'] + name
}

/// Whether a property can be named below `prim`.
pub open spec fn names_property(prim: Seq<char>, name: Seq<char>) -> bool {
    name.len() > 0 && name != seq!['.'] && !is_property(prim)
}

/// The path of `name` below `parent`.
pub open spec fn child_of(parent: Seq<char>, name: Seq<char>) -> Seq<char> {
    if name == seq!['.'] {
        parent
    } else if parent == seq!['/'] {
        seq!['/'] + name
    } else {
        parent + seq!['/'] + name
    }
}

pub open spec fn is_absolute(path: Seq<char>) -> bool {
    path.len() > 0 && path[0] == '/'
}

/// Whether a path can be joined below `parent`.
pub open spec fn names_child(parent: Seq<char>, name: Seq<char>) -> bool {
    !(is_absolute(parent) && is_absolute(name)) && !is_property(parent)
}

/// Calls `openusd::sdf::Path::is_property_path`. It holds where the path has a
/// `.`, and what follows the last one is not empty and made of letters, digits,
/// `_` and `:` alone. Which characters beyond ASCII are letters or digits is
/// left to `char::is_alphanumeric`.
#[verifier::external_body]
pub(crate) fn is_property_path(path: &str) -> (r: bool)
    ensures
        r == is_property(path@),
        r && path@.last() as u32 >= 128 ==> is_alphanumeric(path@.last()),
{
    openusd::sdf::Path::from(path).is_property_path()
}

/// Calls `openusd::sdf::Path::append_property`. It refuses an empty name, the
/// name `.` and a path that is one of a property already; otherwise it joins
/// the two with a `.`.
#[verifier::external_body]
pub(crate) fn append_property(prim: &str, name: &str) -> (r: Result<String, anyhow::Error>)
    ensures
        r is Ok <==> names_property(prim@, name@),
        r matches Ok(path) ==> path@ == property_of(prim@, name@),
{
    Ok(openusd::sdf::Path::from(prim).append_property(name)?.as_str().to_owned())
}

/// Calls `openusd::sdf::Path::append_path`. It refuses to join two absolute
/// paths, and to go below a property; the name `.` stands for the parent, and
/// otherwise the two are joined with a `/`, which the root already ends in.
#[verifier::external_body]
pub(crate) fn append_path(parent: &str, name: &str) -> (r: Result<String, anyhow::Error>)
    ensures
        r is Ok <==> names_child(parent@, name@),
        r matches Ok(path) ==> path@ == child_of(parent@, name@),
{
    Ok(openusd::sdf::Path::from(parent).append_path(name)?.as_str().to_owned())
}

/// Two properties of one prim share a path only where they share a name, and
/// no property has the path of its prim.
pub broadcast proof fn property_paths_differ(prim: Seq<char>, a: Seq<char>, b: Seq<char>)
    ensures
        #![trigger property_of(prim, a), property_of(prim, b)]
        property_of(prim, a) == property_of(prim, b) ==> a == b,
        property_of(prim, a) != prim,
{
    let n = prim.len() as int + 1;
    assert(property_of(prim, a).skip(n) =~= a);
    assert(property_of(prim, b).skip(n) =~= b);
    assert(property_of(prim, a).len() > prim.len());
}

} // verus!
