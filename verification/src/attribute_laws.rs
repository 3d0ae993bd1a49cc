//! What reading a value as something gives, said of the value.

use crate::attributes::{
    fails_as, first, property_error, to_bool, to_quat, to_scalar, to_text, to_vec3, value_view,
};
use crate::ieee::{Double, Single};
use crate::path::{child_of, is_property, names_property, property_of};
use crate::stage::{
    defines_prim, list_reads_as, reads_as, str_texts, Content, StageError, StageView,
};
use crate::text::{after_prefix, text_of, texts, until};
use crate::value::{ListOp, ListOpView, Value, ValueView};
use vstd::prelude::*;

verus! {

/// A number is read as the single that it is, or the one nearest to the double that
/// it is; no other value is a number.
pub proof fn numbers_are_singles_or_narrowed(x: Single, d: Double, v: ValueView)
    ensures
        to_scalar(Some(ValueView::Float(x))) == Some(x),
        to_scalar(Some(ValueView::Double(d))) == Some(d.nearest()),
        to_scalar(None) is None,
        to_scalar(Some(v)) is Some <==> v is Float || v is Double,
{
}

/// A vector is read entry by entry, each where it stood and narrowed where it is a
/// double; no other value is a vector.
pub proof fn vectors_are_read_entry_by_entry(a: [Single; 3], b: [Double; 3], v: ValueView, i: int)
    requires
        0 <= i < 3,
    ensures
        to_vec3(Some(ValueView::Vec3f(a))) matches Some(r) && r[i] == a[i],
        to_vec3(Some(ValueView::Vec3d(b))) matches Some(r) && r[i] == b[i].nearest(),
        to_vec3(None) is None,
        to_vec3(Some(v)) is Some <==> v is Vec3f || v is Vec3d,
{
    assert(i == 0 || i == 1 || i == 2);
}

/// A quaternion is read part by part, each where it stood and narrowed where it is a
/// double; no other value is a quaternion.
pub proof fn quaternions_are_read_part_by_part(
    a: [Single; 4],
    b: [Double; 4],
    v: ValueView,
    i: int,
)
    requires
        0 <= i < 4,
    ensures
        to_quat(Some(ValueView::Quatf(a))) matches Some(r) && r[i] == a[i],
        to_quat(Some(ValueView::Quatd(b))) matches Some(r) && r[i] == b[i].nearest(),
        to_quat(None) is None,
        to_quat(Some(v)) is Some <==> v is Quatf || v is Quatd,
{
    assert(i == 0 || i == 1 || i == 2 || i == 3);
}

/// A text is read as the token or the string that it is, and a truth value as what
/// it is; no other value is either.
pub proof fn texts_and_truths_are_read_as_they_are(s: Seq<char>, b: bool, v: ValueView)
    ensures
        to_text(Some(ValueView::Token(s))) == Some(s),
        to_text(Some(ValueView::String(s))) == Some(s),
        to_text(None) is None,
        to_text(Some(v)) is Some <==> v is Token || v is String,
        to_bool(Some(ValueView::Bool(b))) == Some(b),
        to_bool(None) is None,
        to_bool(Some(v)) is Some <==> v is Bool,
{
}

/// The target of a relationship is the first one listed, whatever follows.
pub proof fn first_targets_go_before_the_rest(target: Seq<char>, rest: Seq<Seq<char>>)
    ensures
        first(seq![target] + rest) == Some(target),
        first(seq![]) is None,
{
}

/// A property that is not there to be read is an invalid path exactly where the prim
/// is itself a property, and unreadable otherwise.
pub proof fn failed_reads_blame_the_path_of_a_property(prim: Seq<char>)
    ensures
        property_error(prim) == StageError::InvalidPath <==> is_property(prim),
        property_error(prim) == StageError::Unreadable <==> !is_property(prim),
{
}

/// A field reads as the value it holds; as nothing where it is not there; and fails
/// where it could not be read.
pub proof fn fields_read_as_they_are(s: StageView, path: Seq<char>, field: Seq<char>)
    ensures
        !s.fields.dom().contains((path, field)) ==> s.field(path, field) == Ok::<
            Option<ValueView>,
            StageError,
        >(None),
        s.fields.dom().contains((path, field)) ==> match s.fields[(path, field)] {
            Content::Holds(v) => s.field(path, field) == Ok::<
                Option<ValueView>,
                StageError,
            >(Some(v)),
            Content::Unreadable => s.field(path, field) == Err::<
                Option<ValueView>,
                StageError,
            >(StageError::Unreadable),
        },
{
}

/// An attribute of a prim is the default of its property, and its targets are the
/// target paths of its property. Neither can be read of a property, or under a name
/// that is empty or a dot; and neither can where the properties of the prim could
/// not be listed.
pub proof fn properties_are_read_below_their_prim(
    s: StageView,
    prim: Seq<char>,
    name: Seq<char>,
    list: Seq<Seq<char>>,
)
    ensures
        is_property(prim) || name.len() == 0 || name == seq!['.'] ==> s.attribute(prim, name)
            == Err::<Option<ValueView>, StageError>(StageError::InvalidPath) && s.targets(
            prim,
            name,
        ) == Err::<Seq<Seq<char>>, StageError>(StageError::InvalidPath),
        names_property(prim, name) && s.field(prim, "properties"@) is Err ==> s.attribute(
            prim,
            name,
        ) == Err::<Option<ValueView>, StageError>(StageError::Unreadable) && s.targets(prim, name)
            == Err::<Seq<Seq<char>>, StageError>(StageError::Unreadable),
        names_property(prim, name) && s.field(prim, "properties"@) is Ok ==> {
            let path = prim + seq!['.'] + name;
            &&& s.attribute(prim, name) == s.field(path, "default"@)
            &&& s.field(path, "targetPaths"@) matches Err(e) ==> s.targets(prim, name) == Err::<
                Seq<Seq<char>>,
                StageError,
            >(e)
            &&& s.field(path, "targetPaths"@) == Ok::<Option<ValueView>, StageError>(
                Some(ValueView::PathVec(list)),
            ) ==> s.targets(prim, name) == Ok::<Seq<Seq<char>>, StageError>(list)
            &&& s.field(path, "targetPaths"@) == Ok::<Option<ValueView>, StageError>(None)
                ==> (s.targets(prim, name) matches Ok(none) && none.len() == 0)
        },
{
}

/// The type of a prim is the text of its type name, and none where it has none; one
/// that is no text is an error. Its schemas are the list that is authored, and none
/// where there is none.
pub proof fn prims_are_read_from_their_fields(
    s: StageView,
    prim: Seq<char>,
    text: Seq<char>,
    list: Seq<Seq<char>>,
)
    ensures
        s.field(prim, "typeName"@) == Ok::<Option<ValueView>, StageError>(
            Some(ValueView::Token(text)),
        ) ==> s.prim_type(prim) == Ok::<Option<Seq<char>>, StageError>(Some(text)),
        s.field(prim, "typeName"@) == Ok::<Option<ValueView>, StageError>(
            Some(ValueView::String(text)),
        ) ==> s.prim_type(prim) == Ok::<Option<Seq<char>>, StageError>(Some(text)),
        s.field(prim, "typeName"@) == Ok::<Option<ValueView>, StageError>(None) ==> s.prim_type(
            prim,
        ) == Ok::<Option<Seq<char>>, StageError>(None),
        s.field(prim, "typeName"@) matches Ok(Some(v)) ==> (!(v is Token) && !(v is String)
            ==> s.prim_type(prim) == Err::<Option<Seq<char>>, StageError>(StageError::NotText)),
        s.field(prim, "typeName"@) matches Err(e) ==> s.prim_type(prim) == Err::<
            Option<Seq<char>>,
            StageError,
        >(e),
        s.field(prim, "apiSchemas"@) == Ok::<Option<ValueView>, StageError>(
            Some(ValueView::TokenVec(list)),
        ) ==> s.api_schemas(prim) == Ok::<Seq<Seq<char>>, StageError>(list),
        s.field(prim, "apiSchemas"@) == Ok::<Option<ValueView>, StageError>(
            Some(ValueView::TokenListOp(ListOpView::prepend(list))),
        ) ==> s.api_schemas(prim) == Ok::<Seq<Seq<char>>, StageError>(list),
        s.field(prim, "apiSchemas"@) == Ok::<Option<ValueView>, StageError>(None)
            ==> (s.api_schemas(prim) matches Ok(none) && none.len() == 0),
        s.field(prim, "apiSchemas"@) matches Err(e) ==> s.api_schemas(prim) == Err::<
            Seq<Seq<char>>,
            StageError,
        >(e),
{
    crate::stage_laws::prepended_list_flattens(list);
}

/// The list of an edit that replaces is what it was given, and so is that of one
/// that puts items in front of nothing; but only the first is explicit.
pub proof fn edits_list_what_they_were_given(items: Seq<Seq<char>>)
    ensures
        ListOpView::replace(items).flattened() == items,
        ListOpView::replace(items).explicit,
        ListOpView::replace(items).explicit_items == items,
        ListOpView::prepend(items).flattened() == items,
        !ListOpView::prepend(items).explicit,
        ListOpView::prepend(items).prepended_items == items,
{
    crate::stage_laws::prepended_list_flattens(items);
}

/// A prim can be defined below a prim, though not below a property, and not where it
/// would be one itself; and no absolute path can be put below another.
pub proof fn prims_are_defined_below_prims(parent: Seq<char>, name: Seq<char>)
    ensures
        is_property(parent) ==> !defines_prim(parent, name),
        is_property(child_of(parent, name)) ==> !defines_prim(parent, name),
        parent.len() > 0 && parent[0] == '/' && name.len() > 0 && name[0] == '/' ==> !defines_prim(
            parent,
            name,
        ),
        !is_property(parent) && !is_property(child_of(parent, name)) && (name.len() == 0 || name[0]
            != '/') ==> defines_prim(parent, name),
{
}

/// The path of a child begins with that of its parent and ends with its name, with
/// one separator between; the root is one itself. The path of a property has a dot
/// there.
pub proof fn paths_are_joined_by_one_mark(parent: Seq<char>, name: Seq<char>)
    requires
        name != seq!['.'],
    ensures
        parent != seq!['/'] ==> child_of(parent, name).len() == parent.len() + 1 + name.len()
            && child_of(parent, name).take(parent.len() as int) == parent && child_of(
            parent,
            name,
        )[parent.len() as int] == '/' && child_of(parent, name).skip(parent.len() as int + 1)
            == name,
        child_of(seq!['/'], name) == seq!['/'] + name,
        property_of(parent, name).take(parent.len() as int) == parent,
        property_of(parent, name)[parent.len() as int] == '.',
        property_of(parent, name).skip(parent.len() as int + 1) == name,
{
    let n = parent.len() as int;
    if parent != seq!['/'] {
        assert(child_of(parent, name).take(n) =~= parent);
        assert(child_of(parent, name).skip(n + 1) =~= name);
    }
    assert(property_of(parent, name).take(n) =~= parent);
    assert(property_of(parent, name).skip(n + 1) =~= name);
}

/// What stands before the first mark of a text has no mark in it, and is followed by
/// one, or is all of the text.
pub proof fn segments_end_at_the_first_mark(s: Seq<char>, mark: char)
    ensures
        until(s, mark).is_prefix_of(s),
        !until(s, mark).contains(mark),
        until(s, mark).len() < s.len() ==> s[until(s, mark).len() as int] == mark,
{
    s.index_of_first_ensures(mark);
    let head = until(s, mark);
    if head.contains(mark) {
        let k = choose|k: int| 0 <= k < head.len() && head[k] == mark;
        assert(s[k] == mark);
        assert(s.contains(mark));
    }
    assert(head =~= s.take(head.len() as int));
}

/// What follows a prefix is what the prefix was put in front of; a text that does
/// not begin with it has nothing behind it.
pub proof fn prefixes_are_taken_off(s: Seq<char>, prefix: Seq<char>, rest: Seq<char>)
    ensures
        after_prefix(prefix + rest, prefix) == Some(rest),
        after_prefix(s, prefix) is Some <==> prefix.is_prefix_of(s),
        after_prefix(s, prefix) matches Some(r) ==> prefix + r == s,
{
    assert(prefix.is_prefix_of(prefix + rest));
    assert((prefix + rest).skip(prefix.len() as int) =~= rest);
    if prefix.is_prefix_of(s) {
        assert(prefix + s.skip(prefix.len() as int) =~= s);
    }
}

/// The texts of a list are those of its strings, one for one and in their order.
pub proof fn texts_are_those_of_the_strings(list: Seq<String>, i: int)
    requires
        0 <= i < list.len(),
    ensures
        texts(list).len() == list.len(),
        texts(list)[i] == list[i]@,
{
}

/// The texts of an optional string are those of the string, where there is one.
pub proof fn optional_texts_are_those_of_the_string(s: String)
    ensures
        text_of(Some(s)) == Some(s@),
        text_of(None) is None,
{
}

/// A number, a vector, a quaternion or a matrix is modelled by itself, entry by
/// entry and in its own kind, and so is a truth value.
pub proof fn numbers_are_modelled_by_themselves(
    b: bool,
    i: i32,
    j: i64,
    x: Single,
    d: Double,
    f3: [Single; 3],
    d3: [Double; 3],
    f4: [Single; 4],
    d4: [Double; 4],
    m: [Double; 16],
)
    ensures
        Value::Bool(b)@ == ValueView::Bool(b),
        Value::Int(i)@ == ValueView::Int(i),
        Value::Int64(j)@ == ValueView::Int64(j),
        Value::Float(x)@ == ValueView::Float(x),
        Value::Double(d)@ == ValueView::Double(d),
        Value::Vec3f(f3)@ == ValueView::Vec3f(f3),
        Value::Vec3d(d3)@ == ValueView::Vec3d(d3),
        Value::Quatf(f4)@ == ValueView::Quatf(f4),
        Value::Quatd(d4)@ == ValueView::Quatd(d4),
        Value::Matrix4d(m)@ == ValueView::Matrix4d(m),
{
}

/// A text or a list of texts is modelled by its characters, in its own kind.
pub proof fn texts_are_modelled_by_their_characters(s: String, v: Vec<String>, op: ListOp)
    ensures
        Value::Token(s)@ == ValueView::Token(s@),
        Value::String(s)@ == ValueView::String(s@),
        Value::TokenVec(v)@ == ValueView::TokenVec(texts(v@)),
        Value::StringVec(v)@ == ValueView::StringVec(texts(v@)),
        Value::PathVec(v)@ == ValueView::PathVec(texts(v@)),
        Value::TokenListOp(op)@ == ValueView::TokenListOp(op@),
        Value::PathListOp(op)@ == ValueView::PathListOp(op@),
        op@.explicit == op.explicit,
        op@.explicit_items == texts(op.explicit_items@),
        op@.prepended_items == texts(op.prepended_items@),
        op@.appended_items == texts(op.appended_items@),
        op@.added_items == texts(op.added_items@),
{
}

/// A read of a field comes out as the model says in one way only: with the value
/// that it says, with nothing where it says so, and with the error that it says.
pub proof fn reads_come_out_as_the_model_says(
    r: Result<Option<&Value>, StageError>,
    expected: Result<Option<ValueView>, StageError>,
)
    requires
        reads_as(r, expected),
    ensures
        expected matches Ok(Some(v)) ==> (r matches Ok(Some(found)) && found@ == v),
        expected matches Ok(None) ==> (r matches Ok(found) && found is None),
        expected matches Err(e) ==> (r matches Err(found) && found == e),
{
}

/// So does a read of a list: with the texts that the model says, in their order, or
/// with the error that it says.
pub proof fn lists_come_out_as_the_model_says(
    r: Result<Vec<String>, StageError>,
    expected: Result<Seq<Seq<char>>, StageError>,
    i: int,
)
    requires
        list_reads_as(r, expected),
    ensures
        expected matches Ok(list) ==> (r matches Ok(found) && found@.len() == list.len() && (0 <= i
            < list.len() ==> found@[i]@ == list[i])),
        expected matches Err(e) ==> (r matches Err(found) && found == e),
{
}

/// A read that fails is one that the model says fails, with that error; for a name of
/// two characters or more that is the one that blames the prim.
pub proof fn failed_reads_are_failures<T>(
    read: Result<T, StageError>,
    prim: Seq<char>,
    name: Seq<char>,
    e: StageError,
)
    requires
        fails_as(read, prim, name, e),
    ensures
        read matches Err(found) && found == e,
        name.len() > 1 ==> (e == StageError::InvalidPath <==> is_property(prim)),
{
}

/// A value that is handed over by reference is modelled as the value is.
pub proof fn values_are_modelled_through_references(v: &Value)
    ensures
        value_view(Some(v)) == Some(v@),
        value_view(None) is None,
{
}

/// Schemas are applied as they are named, one for one and in their order.
pub proof fn names_are_those_of_the_strings(list: Seq<&str>, i: int)
    requires
        0 <= i < list.len(),
    ensures
        str_texts(list).len() == list.len(),
        str_texts(list)[i] == list[i]@,
{
}

/// A stage that nothing has been authored on has no prims, all of which are there,
/// and every field of it reads as nothing.
pub proof fn new_stages_are_empty(path: Seq<char>, field: Seq<char>)
    ensures
        StageView::empty().prims.len() == 0,
        StageView::empty().complete,
        StageView::empty().field(path, field) == Ok::<Option<ValueView>, StageError>(None),
{
}

/// A field that has been written reads as what was written, and all others read as
/// before.
pub proof fn written_fields_read_back(
    s: StageView,
    path: Seq<char>,
    field: Seq<char>,
    value: ValueView,
    other: (Seq<char>, Seq<char>),
)
    ensures
        s.with_field(path, field, value).field(path, field) == Ok::<Option<ValueView>, StageError>(
            Some(value),
        ),
        other != (path, field) ==> s.with_field(path, field, value).field(other.0, other.1)
            == s.field(other.0, other.1),
        s.with_field(path, field, value).prims == s.prims,
        s.with_field(path, field, value).complete == s.complete,
{
}

} // verus!
