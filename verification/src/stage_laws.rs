//! What writing a stage does to reading it.

use crate::path::{names_property, property_of, property_paths_differ};
use crate::stage::{fields_of, merged, Content, FieldRead, StageError, StageView};
use crate::value::{ListOpView, ValueView};
use vstd::prelude::*;

verus! {

/// Whether the property list of a prim could be read, as it can unless a
/// capture failed to.
pub open spec fn lists_properties(s: StageView, prim: Seq<char>) -> bool {
    s.field(prim, "properties"@) is Ok
}

/// Whether nothing is known of a prim yet.
pub open spec fn fresh(s: StageView, prim: Seq<char>) -> bool {
    &&& forall|name: Seq<char>, field: Seq<char>|
        !#[trigger] s.fields.dom().contains((property_of(prim, name), field))
    &&& forall|field: Seq<char>| !#[trigger] s.fields.dom().contains((prim, field))
}

/// No two of the fields that readers look at share a name.
proof fn lemma_field_names()
    ensures
        "typeName"@.len() == 8,
        "default"@.len() == 7,
        "variability"@.len() == 11,
        "variability"@[0] == 'v',
        "targetPaths"@.len() == 11,
        "targetPaths"@[0] == 't',
        "apiSchemas"@.len() == 10,
        "apiSchemas"@[0] == 'a',
        "properties"@.len() == 10,
        "properties"@[0] == 'p',
{
    reveal_strlit("typeName");
    reveal_strlit("default");
    reveal_strlit("variability");
    reveal_strlit("targetPaths");
    reveal_strlit("apiSchemas");
    reveal_strlit("properties");
}

/// Whether reading a prim gives the same in two stages, but for its attributes.
pub open spec fn same_but_attributes(a: StageView, b: StageView, prim: Seq<char>) -> bool {
    &&& a.prim_type(prim) == b.prim_type(prim)
    &&& a.api_schemas(prim) == b.api_schemas(prim)
    &&& lists_properties(a, prim) == lists_properties(b, prim)
    &&& forall|name: Seq<char>| #[trigger] a.targets(prim, name) == b.targets(prim, name)
}

/// An attribute that has been defined reads back, and nothing else about the
/// prim changes.
pub proof fn attribute_reads_back(
    s: StageView,
    prim: Seq<char>,
    name: Seq<char>,
    kind: Seq<char>,
    value: ValueView,
    uniform: bool,
)
    requires
        names_property(prim, name),
        lists_properties(s, prim),
    ensures
        ({
            let t = s.with_attribute(prim, name, kind, value, uniform);
            &&& t.attribute(prim, name) == Ok::<Option<ValueView>, StageError>(Some(value))
            &&& forall|other: Seq<char>|
                other != name ==> #[trigger] t.attribute(prim, other) == s.attribute(prim, other)
            &&& same_but_attributes(t, s, prim)
        }),
{
    lemma_field_names();
    let t = s.with_attribute(prim, name, kind, value, uniform);
    let path = property_of(prim, name);
    assert(path != prim) by {
        property_paths_differ(prim, name, name);
    }
    assert(t.field(prim, "properties"@) == s.field(prim, "properties"@));
    assert forall|other: Seq<char>| other != name implies #[trigger] t.attribute(prim, other)
        == s.attribute(prim, other) by {
        property_paths_differ(prim, name, other);
    }
    assert forall|other: Seq<char>| #[trigger]
        t.targets(prim, other) == s.targets(prim, other) by {
        property_paths_differ(prim, name, other);
    }
}

/// A relationship that has been defined reads back, and nothing else about the
/// prim changes.
pub proof fn relationship_reads_back(
    s: StageView,
    prim: Seq<char>,
    name: Seq<char>,
    list: Seq<Seq<char>>,
)
    requires
        names_property(prim, name),
        lists_properties(s, prim),
    ensures
        ({
            let t = s.with_relationship(prim, name, list);
            &&& t.targets(prim, name) == Ok::<Seq<Seq<char>>, StageError>(list)
            &&& forall|other: Seq<char>|
                other != name ==> #[trigger] t.targets(prim, other) == s.targets(prim, other)
            &&& forall|other: Seq<char>| #[trigger]
                t.attribute(prim, other) == s.attribute(prim, other)
            &&& t.prim_type(prim) == s.prim_type(prim)
            &&& t.api_schemas(prim) == s.api_schemas(prim)
            &&& lists_properties(t, prim)
        }),
{
    lemma_field_names();
    let t = s.with_relationship(prim, name, list);
    assert(property_of(prim, name) != prim) by {
        property_paths_differ(prim, name, name);
    }
    assert(t.field(prim, "properties"@) == s.field(prim, "properties"@));
    assert forall|other: Seq<char>| other != name implies #[trigger] t.targets(prim, other)
        == s.targets(prim, other) by {
        property_paths_differ(prim, name, other);
    }
    assert forall|other: Seq<char>| #[trigger]
        t.attribute(prim, other) == s.attribute(prim, other) by {
        property_paths_differ(prim, name, other);
    }
}

/// A filter that keeps everything changes nothing.
proof fn lemma_filter_all(list: Seq<Seq<char>>, keep: spec_fn(Seq<char>) -> bool)
    requires
        forall|e: Seq<char>| #[trigger] keep(e),
    ensures
        list.filter(keep) == list,
    decreases list.len(),
{
    reveal(Seq::filter);
    if list.len() > 0 {
        lemma_filter_all(list.drop_last(), keep);
        assert(list.drop_last().push(list.last()) =~= list);
    }
}

/// A list that is put in front of nothing is what is listed.
pub proof fn prepended_list_flattens(items: Seq<Seq<char>>)
    ensures
        ListOpView::prepend(items).flattened() == items,
{
    let op = ListOpView::prepend(items);
    let keep = |e: Seq<char>| !op.appended_items.contains(e) && !op.added_items.contains(e);
    let keep_added = |e: Seq<char>|
        !op.prepended_items.contains(e) && !op.appended_items.contains(e);
    lemma_filter_all(items, keep);
    reveal(Seq::filter);
    assert(op.added_items.filter(keep_added) =~= seq![]);
    assert(items + op.appended_items + seq![] =~= items);
}

/// Merging keeps what was listed and lists what is new.
pub proof fn merged_holds_both(list: Seq<Seq<char>>, names: Seq<Seq<char>>)
    ensures
        list.is_prefix_of(merged(list, names)),
        forall|e: Seq<char>| #[trigger]
            merged(list, names).contains(e) <==> list.contains(e) || names.contains(e),
    decreases names.len(),
{
    if names.len() > 0 {
        let front = merged(list, names.drop_last());
        merged_holds_both(list, names.drop_last());
        assert forall|e: Seq<char>| #[trigger]
            merged(list, names).contains(e) <==> list.contains(e) || names.contains(e) by {
            if front.contains(e) {
                let i = choose|i: int| 0 <= i < front.len() && front[i] == e;
                assert(merged(list, names)[i] == e);
            }
            if names.contains(e) {
                let i = choose|i: int| 0 <= i < names.len() && names[i] == e;
                if i < names.len() - 1 {
                    assert(names.drop_last()[i] == e);
                }
                if !front.contains(names.last()) {
                    assert(merged(list, names).last() == names.last());
                }
            }
            if names.drop_last().contains(e) {
                let i = choose|i: int|
                    0 <= i < names.drop_last().len() && names.drop_last()[i] == e;
                assert(names[i] == e);
            }
            if e == names.last() {
                assert(names[names.len() - 1] == e);
            }
        }
    }
}

/// Merging what is listed already changes nothing.
pub proof fn merging_twice_changes_nothing(list: Seq<Seq<char>>, names: Seq<Seq<char>>)
    requires
        forall|i: int| 0 <= i < names.len() ==> #[trigger] list.contains(names[i]),
    ensures
        merged(list, names) == list,
    decreases names.len(),
{
    if names.len() > 0 {
        assert forall|i: int| 0 <= i < names.drop_last().len() implies #[trigger] list.contains(
            names.drop_last()[i],
        ) by {
            assert(list.contains(names[i]));
        }
        merging_twice_changes_nothing(list, names.drop_last());
        assert(list.contains(names[names.len() - 1]));
    }
}

/// Schemas that have been applied read back behind those applied before, each
/// once, and nothing else about the prim changes.
pub proof fn schemas_read_back(s: StageView, prim: Seq<char>, names: Seq<Seq<char>>)
    requires
        s.api_schemas(prim) is Ok,
    ensures
        ({
            let t = s.with_schemas(prim, names);
            &&& t.api_schemas(prim) == Ok::<Seq<Seq<char>>, StageError>(
                merged(s.api_schemas(prim)->Ok_0, names),
            )
            &&& forall|name: Seq<char>| #[trigger]
                t.attribute(prim, name) == s.attribute(prim, name)
            &&& forall|name: Seq<char>| #[trigger] t.targets(prim, name) == s.targets(prim, name)
            &&& t.prim_type(prim) == s.prim_type(prim)
            &&& lists_properties(t, prim) == lists_properties(s, prim)
        }),
{
    lemma_field_names();
    let t = s.with_schemas(prim, names);
    prepended_list_flattens(merged(s.api_schemas(prim)->Ok_0, names));
    assert(t.field(prim, "properties"@) == s.field(prim, "properties"@));
    assert forall|name: Seq<char>| #[trigger]
        t.attribute(prim, name) == s.attribute(prim, name) by {
        property_paths_differ(prim, name, name);
    }
    assert forall|name: Seq<char>| #[trigger] t.targets(prim, name) == s.targets(prim, name) by {
        property_paths_differ(prim, name, name);
    }
}

/// Applying schemas that are applied already changes no list.
pub proof fn applying_twice_changes_nothing(s: StageView, prim: Seq<char>, names: Seq<Seq<char>>)
    requires
        s.api_schemas(prim) is Ok,
    ensures
        s.with_schemas(prim, names).with_schemas(prim, names).api_schemas(prim)
            == s.with_schemas(prim, names).api_schemas(prim),
{
    let once = merged(s.api_schemas(prim)->Ok_0, names);
    schemas_read_back(s, prim, names);
    schemas_read_back(s.with_schemas(prim, names), prim, names);
    merged_holds_both(s.api_schemas(prim)->Ok_0, names);
    assert forall|i: int| 0 <= i < names.len() implies #[trigger] once.contains(names[i]) by {}
    merging_twice_changes_nothing(once, names);
}

/// A prim that has been defined is listed and has its type, and nothing else
/// about it changes.
pub proof fn prim_reads_back(s: StageView, path: Seq<char>, kind: Seq<char>)
    ensures
        ({
            let t = s.with_prim(path, kind);
            &&& t.prims.contains(path)
            &&& t.prim_type(path) == Ok::<Option<Seq<char>>, StageError>(Some(kind))
            &&& t.api_schemas(path) == s.api_schemas(path)
            &&& forall|name: Seq<char>| #[trigger]
                t.attribute(path, name) == s.attribute(path, name)
            &&& forall|name: Seq<char>| #[trigger] t.targets(path, name) == s.targets(path, name)
            &&& lists_properties(t, path) == lists_properties(s, path)
        }),
{
    lemma_field_names();
    let t = s.with_prim(path, kind);
    if !s.prims.contains(path) {
        assert(t.prims.last() == path);
    }
    assert(t.field(path, "properties"@) == s.field(path, "properties"@));
    assert forall|name: Seq<char>| #[trigger]
        t.attribute(path, name) == s.attribute(path, name) by {
        property_paths_differ(path, name, name);
    }
    assert forall|name: Seq<char>| #[trigger] t.targets(path, name) == s.targets(path, name) by {
        property_paths_differ(path, name, name);
    }
}

/// Defining an attribute writes its type, whether it is uniform or varies, and its
/// value, on its own property and nowhere else: every other field of the stage, the
/// prims and whether they are all there stay as they were.
pub proof fn attributes_are_written_on_their_property(
    s: StageView,
    prim: Seq<char>,
    name: Seq<char>,
    kind: Seq<char>,
    value: ValueView,
    uniform: bool,
    path: Seq<char>,
    field: Seq<char>,
)
    ensures
        ({
            let t = s.with_attribute(prim, name, kind, value, uniform);
            let own = property_of(prim, name);
            &&& t.field(own, "typeName"@) == Ok::<Option<ValueView>, StageError>(
                Some(ValueView::Token(kind)),
            )
            &&& t.field(own, "default"@) == Ok::<Option<ValueView>, StageError>(Some(value))
            &&& uniform ==> t.field(own, "variability"@) == Ok::<Option<ValueView>, StageError>(
                Some(ValueView::Token("uniform"@)),
            )
            &&& !uniform ==> t.field(own, "variability"@) == Ok::<Option<ValueView>, StageError>(
                Some(ValueView::Token("varying"@)),
            )
            &&& path != own || (field != "typeName"@ && field != "default"@ && field
                != "variability"@) ==> t.field(path, field) == s.field(path, field)
            &&& t.prims == s.prims
            &&& t.complete == s.complete
        }),
{
    lemma_field_names();
}

/// Defining a relationship writes its targets, as the whole list, on its own
/// property and nowhere else.
pub proof fn relationships_are_written_on_their_property(
    s: StageView,
    prim: Seq<char>,
    name: Seq<char>,
    list: Seq<Seq<char>>,
    path: Seq<char>,
    field: Seq<char>,
)
    ensures
        ({
            let t = s.with_relationship(prim, name, list);
            let own = property_of(prim, name);
            &&& t.field(own, "targetPaths"@) matches Ok(Some(ValueView::PathListOp(op)))
            &&& op.explicit
            &&& op.explicit_items == list
            &&& path != own || field != "targetPaths"@ ==> t.field(path, field) == s.field(
                path,
                field,
            )
            &&& t.prims == s.prims
            &&& t.complete == s.complete
        }),
{
}

/// Defining a prim writes its type, and lists it behind all others unless it is
/// listed; nothing else of the stage changes.
pub proof fn prims_are_listed_once(
    s: StageView,
    prim: Seq<char>,
    kind: Seq<char>,
    path: Seq<char>,
    field: Seq<char>,
)
    ensures
        ({
            let t = s.with_prim(prim, kind);
            &&& t.field(prim, "typeName"@) == Ok::<Option<ValueView>, StageError>(
                Some(ValueView::Token(kind)),
            )
            &&& path != prim || field != "typeName"@ ==> t.field(path, field) == s.field(
                path,
                field,
            )
            &&& s.prims.contains(prim) ==> t.prims == s.prims
            &&& !s.prims.contains(prim) ==> t.prims == s.prims + seq![prim]
            &&& t.complete == s.complete
        }),
{
    let t = s.with_prim(prim, kind);
    if !s.prims.contains(prim) {
        assert(t.prims =~= s.prims + seq![prim]);
    }
}

/// Applying schemas writes the list of schemas of the prim and nothing else.
pub proof fn schemas_are_written_on_their_prim(
    s: StageView,
    prim: Seq<char>,
    names: Seq<Seq<char>>,
    path: Seq<char>,
    field: Seq<char>,
)
    ensures
        ({
            let t = s.with_schemas(prim, names);
            &&& path != prim || field != "apiSchemas"@ ==> t.field(path, field) == s.field(
                path,
                field,
            )
            &&& t.prims == s.prims
            &&& t.complete == s.complete
        }),
{
}

/// Names are listed in the order in which they come: merging two lists of them is
/// merging the first and then the second, a single name goes to the end, unless it
/// is listed, and no name changes nothing.
pub proof fn names_are_merged_one_by_one(
    list: Seq<Seq<char>>,
    a: Seq<Seq<char>>,
    b: Seq<Seq<char>>,
    name: Seq<char>,
)
    ensures
        merged(list, a + b) == merged(merged(list, a), b),
        merged(list, seq![]) == list,
        list.contains(name) ==> merged(list, seq![name]) == list,
        !list.contains(name) ==> merged(list, seq![name]) == list + seq![name],
    decreases b.len(),
{
    reveal_with_fuel(merged, 2);
    assert(seq![name].drop_last() =~= seq![]);
    if !list.contains(name) {
        assert(merged(list, seq![name]) =~= list + seq![name]);
    }
    if b.len() == 0 {
        assert(a + b =~= a);
    } else {
        names_are_merged_one_by_one(list, a, b.drop_last(), name);
        assert((a + b).drop_last() =~= a + b.drop_last());
        assert((a + b).last() == b.last());
    }
}

/// What a list of reads leaves of a field is what the last read of it found, and
/// nothing where it was not read.
pub proof fn the_last_read_of_a_field_counts(
    reads: Seq<FieldRead>,
    path: Seq<char>,
    field: Seq<char>,
    i: int,
)
    requires
        0 <= i <= reads.len(),
        forall|k: int|
            i <= k < reads.len() ==> (#[trigger] reads[k]).path@ != path || reads[k].field@
                != field,
        i > 0 ==> reads[i - 1].path@ == path && reads[i - 1].field@ == field,
    ensures
        i == 0 ==> !fields_of(reads).dom().contains((path, field)),
        i > 0 ==> fields_of(reads).dom().contains((path, field)),
        i > 0 ==> (reads[i - 1].content matches Some(v) ==> fields_of(reads)[(path, field)]
            == Content::Holds(v@)),
        i > 0 ==> (reads[i - 1].content is None ==> fields_of(reads)[(path, field)]
            == Content::Unreadable),
    decreases reads.len(),
{
    if reads.len() > 0 {
        let last = reads.len() - 1;
        assert(reads[last] == reads.last());
        if i < reads.len() {
            let front = reads.drop_last();
            assert forall|k: int| i <= k < front.len() implies (#[trigger] front[k]).path@ != path
                || front[k].field@ != field by {
                assert(front[k] == reads[k]);
            }
            the_last_read_of_a_field_counts(front, path, field, i);
            assert((reads[last].path@, reads[last].field@) != (path, field));
        }
    }
}

} // verus!
