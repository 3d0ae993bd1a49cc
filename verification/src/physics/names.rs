//! The names of schemas and attributes that are about one degree of freedom.

use crate::physics::types::Dof;
use crate::text::{after_prefix, join2, join3, strip_prefix};
use vstd::prelude::*;

verus! {

/// The name of a schema applied to one degree of freedom, such as
/// `PhysicsLimitAPI:rotX`.
pub open spec fn applied_schema(schema: Seq<char>, token: Seq<char>) -> Seq<char> {
    schema + seq![':'] + token
}

/// The degree of freedom that an applied schema is about: the one named behind
/// the schema's name and a colon.
pub open spec fn schema_dof(applied: Seq<char>, schema: Seq<char>) -> Option<Dof> {
    match after_prefix(applied, schema + seq![':']) {
        Some(token) => Dof::named(token),
        None => None,
    }
}

/// The name of an attribute of a limit or a drive, such as
/// `limit:rotX:physics:low`.
pub open spec fn dof_attribute(family: Seq<char>, token: Seq<char>, part: Seq<char>) -> Seq<char> {
    family + token + ":physics:"@ + part
}

/// The name of a schema applied to one degree of freedom.
pub fn applied_schema_name(schema: &str, token: &str) -> (r: String)
    ensures
        r@ == applied_schema(schema@, token@),
{
    proof {
        reveal_strlit(":");
        assert(":"@ =~= seq![':']);
    }
    join3(schema, ":", token)
}

/// The degree of freedom that an applied schema is about.
pub fn read_schema_dof(applied: &str, schema: &str) -> (r: Option<Dof>)
    ensures
        r == schema_dof(applied@, schema@),
{
    let prefix: String = join2(schema, ":");
    proof {
        reveal_strlit(":");
        assert(prefix@ =~= schema@ + seq![':']);
    }
    match strip_prefix(applied, prefix.as_str()) {
        Some(token) => Dof::from_token(token),
        None => None,
    }
}

/// The name of an attribute of a limit or a drive.
pub fn dof_attribute_name(family: &str, token: &str, part: &str) -> (r: String)
    ensures
        r@ == dof_attribute(family@, token@, part@),
{
    let front: String = join3(family, token, ":physics:");
    join2(front.as_str(), part)
}

/// A schema applied to a degree of freedom is about that one.
pub proof fn applied_schema_names_its_dof(schema: Seq<char>, dof: Dof)
    ensures
        schema_dof(applied_schema(schema, dof.token()), schema) == Some(dof),
{
    let applied = applied_schema(schema, dof.token());
    let prefix = schema + seq![':'];
    assert(prefix.is_prefix_of(applied));
    assert(applied.skip(prefix.len() as int) =~= dof.token());
    Dof::tokens_are_distinct(dof, dof);
}

} // verus!
