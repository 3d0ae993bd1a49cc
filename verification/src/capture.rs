//! Capturing a stage that `openusd` composed.
//!
//! What an `openusd` stage answers depends on more than the question: it
//! composes a prim when the prim is first asked about, out of what it has
//! composed by then, and hands errors to a closure that its owner chose. So no
//! answer is taken for the only one. Its answers are recorded once, prims before
//! their children, and all readers work on the record, which holds an answer to
//! each question that was asked and nothing else.

use crate::ieee::{Double, Single};
use crate::path::{append_property, child_of, is_absolute, names_child, names_property, property_of};
use crate::stage::{fields_of, Content, FieldRead, StageData, StageError, StageView};
use crate::text::texts;
use crate::value::{ListOp, Value, ValueView};
use openusd::sdf::Value as UsdValue;
use vstd::prelude::*;

verus! {

/// A composed stage of `openusd`.
#[verifier::external_type_specification]
#[verifier::external_body]
pub struct ExUsdStage(openusd::Stage);

/// A value of a field of such a stage.
#[verifier::external_type_specification]
#[verifier::external_body]
pub struct ExUsdValue(UsdValue);

/// Whether a list of paths is one of prims that a walk came to: each is below
/// the root or below an earlier one.
pub open spec fn is_walk(prims: Seq<Seq<char>>) -> bool {
    forall|i: int| 0 <= i < prims.len() ==> #[trigger] comes_below(prims.take(i), prims[i])
}

/// Whether a path is one below the root, or below one of these prims.
pub open spec fn comes_below(prims: Seq<Seq<char>>, path: Seq<char>) -> bool {
    &&& is_absolute(path)
    &&& path != seq!['/']
    &&& exists|parent: Seq<char>, name: Seq<char>|
        {
            &&& parent == seq!['/'] || prims.contains(parent)
            &&& names_child(parent, name)
            &&& path == #[trigger] child_of(parent, name)
        }
}

/// Whether walking a stage down from a prim returns, and so does asking about
/// any prim on the way, or about a property of it. Composing a prim that inherits
/// or specializes itself does not, nor does a walk that comes to a child named `.`,
/// which stands for its parent, or to one at the root that has no name.
pub uninterp spec fn returns_below(stage: openusd::Stage, prim: Seq<char>) -> bool;

/// Whether walking a stage may list these prims, and come to its end or not.
pub uninterp spec fn may_walk(stage: openusd::Stage, prims: Seq<Seq<char>>, complete: bool) -> bool;

/// Whether a stage may list these properties of a prim; nothing is a failure to.
pub uninterp spec fn may_list(
    stage: openusd::Stage,
    prim: Seq<char>,
    names: Option<Seq<Seq<char>>>,
) -> bool;

/// Whether a stage may answer a question about a field of a prim or a property
/// with this; nothing is the answer that there is no such field.
pub uninterp spec fn may_answer(
    stage: openusd::Stage,
    path: Seq<char>,
    field: Seq<char>,
    answer: Option<Content>,
) -> bool;

/// What a value of `openusd` holds, where readers look at values of its kind;
/// any other is [`ValueView::Other`].
pub uninterp spec fn value_of(value: UsdValue) -> ValueView;

/// Whether a path is one of a prim that may be asked about, or of a property of
/// one.
pub open spec fn may_ask(stage: openusd::Stage, path: Seq<char>) -> bool {
    ||| returns_below(stage, path)
    ||| exists|prim: Seq<char>, name: Seq<char>|
        returns_below(stage, prim) && path == #[trigger] property_of(prim, name)
}

/// Calls `openusd::Stage::traverse`, which walks the composed prims depth-first,
/// and lists the paths it came to; also, whether it came to its end. A path is
/// made by joining a name to that of a prim it came to before, or to the root,
/// which it does not list. Which names those are depends on how the stage
/// composes.
#[verifier::external_body]
fn walk(stage: &openusd::Stage) -> (r: (Vec<String>, bool))
    requires
        returns_below(*stage, seq!['/']),
    ensures
        may_walk(*stage, texts(r.0@), r.1),
        is_walk(texts(r.0@)),
        forall|i: int| 0 <= i < r.0@.len() ==> returns_below(*stage, #[trigger] r.0@[i]@),
{
    let mut paths = Vec::new();
    let end = stage.traverse(|path| paths.push(path.as_str().to_owned())).is_ok();
    (paths, end)
}

/// The characters of the strings of an optional list.
pub open spec fn optional_texts(list: Option<Vec<String>>) -> Option<Seq<Seq<char>>> {
    match list {
        Some(list) => Some(texts(list@)),
        None => None,
    }
}

/// Calls `openusd::Stage::prim_properties`, which lists the names of a prim's
/// properties; nothing where that fails. Which those are depends on how the stage
/// composes.
#[verifier::external_body]
fn property_names(stage: &openusd::Stage, prim: &str) -> (r: Option<Vec<String>>)
    requires
        returns_below(*stage, prim@),
    ensures
        may_list(*stage, prim@, optional_texts(r)),
{
    stage.prim_properties(prim).ok()
}

/// An answer of `openusd`, as it is recorded.
pub open spec fn raw_reply(answer: Result<Option<UsdValue>, anyhow::Error>) -> Option<
    Content,
> {
    match answer {
        Ok(Some(value)) => Some(Content::Holds(value_of(value))),
        Ok(None) => None,
        Err(_) => Some(Content::Unreadable),
    }
}

/// Calls `openusd::Stage::field`, which resolves a field of a prim or a
/// property. What that gives depends on how the stage composes.
#[verifier::external_body]
fn ask(stage: &openusd::Stage, path: &str, field: &str) -> (r: Result<
    Option<UsdValue>,
    anyhow::Error,
>)
    requires
        may_ask(*stage, path@),
    ensures
        may_answer(*stage, path@, field@, raw_reply(r)),
{
    stage.field::<UsdValue>(path, field)
}

/// A truth value, a number or a text; any other value is another one.
pub open spec fn scalar_part(v: ValueView) -> ValueView {
    match v {
        ValueView::Bool(_) | ValueView::Int(_) | ValueView::Int64(_) => v,
        ValueView::Float(_) | ValueView::Double(_) => v,
        ValueView::Token(_) | ValueView::String(_) => v,
        _ => ValueView::Other,
    }
}

/// A vector, a quaternion or a matrix; any other value is another one.
pub open spec fn vector_part(v: ValueView) -> ValueView {
    match v {
        ValueView::Vec3f(_) | ValueView::Vec3d(_) => v,
        ValueView::Quatf(_) | ValueView::Quatd(_) => v,
        ValueView::Matrix4d(_) => v,
        _ => ValueView::Other,
    }
}

/// A list of tokens, strings or paths, or a list edit of tokens; any other value
/// is another one.
pub open spec fn list_part(v: ValueView) -> ValueView {
    match v {
        ValueView::TokenVec(_) | ValueView::StringVec(_) | ValueView::PathVec(_) => v,
        ValueView::TokenListOp(_) => v,
        _ => ValueView::Other,
    }
}

/// A list edit of paths; any other value is another one.
pub open spec fn path_list_part(v: ValueView) -> ValueView {
    match v {
        ValueView::PathListOp(_) => v,
        _ => ValueView::Other,
    }
}

/// Takes a truth value, a number or a text out of an `openusd::sdf::Value`,
/// variant by variant.
#[verifier::external_body]
fn convert_scalar(value: &UsdValue) -> (r: Value)
    ensures
        r@ == scalar_part(value_of(*value)),
{
    match value {
        UsdValue::Bool(b) => Value::Bool(*b),
        UsdValue::Int(i) => Value::Int(*i),
        UsdValue::Int64(i) => Value::Int64(*i),
        UsdValue::Float(x) => Value::Float(Single { bits: x.to_bits() }),
        UsdValue::Double(x) => Value::Double(Double { bits: x.to_bits() }),
        UsdValue::Token(s) => Value::Token(s.clone()),
        UsdValue::String(s) => Value::String(s.clone()),
        _ => Value::Other,
    }
}

/// Takes a vector, a quaternion or a matrix out of an `openusd::sdf::Value`,
/// variant by variant.
#[verifier::external_body]
fn convert_vector(value: &UsdValue) -> (r: Value)
    ensures
        r@ == vector_part(value_of(*value)),
{
    match value {
        UsdValue::Vec3f(a) => Value::Vec3f(a.map(|x| Single { bits: x.to_bits() })),
        UsdValue::Vec3d(a) => Value::Vec3d(a.map(|x| Double { bits: x.to_bits() })),
        UsdValue::Quatf(a) => Value::Quatf(a.map(|x| Single { bits: x.to_bits() })),
        UsdValue::Quatd(a) => Value::Quatd(a.map(|x| Double { bits: x.to_bits() })),
        UsdValue::Matrix4d(a) => Value::Matrix4d(a.map(|x| Double { bits: x.to_bits() })),
        _ => Value::Other,
    }
}

/// Takes a list of tokens, strings or paths, or a list edit of tokens, out of an
/// `openusd::sdf::Value`, variant by variant.
#[verifier::external_body]
fn convert_list(value: &UsdValue) -> (r: Value)
    ensures
        r@ == list_part(value_of(*value)),
{
    match value {
        UsdValue::TokenVec(v) => Value::TokenVec(v.clone()),
        UsdValue::StringVec(v) => Value::StringVec(v.clone()),
        UsdValue::PathVec(v) => Value::PathVec(v.iter().map(|p| p.to_string()).collect()),
        UsdValue::TokenListOp(op) => Value::TokenListOp(ListOp {
            explicit: op.explicit,
            explicit_items: op.explicit_items.clone(),
            prepended_items: op.prepended_items.clone(),
            appended_items: op.appended_items.clone(),
            added_items: op.added_items.clone(),
        }),
        _ => Value::Other,
    }
}

/// Takes a list edit of paths out of an `openusd::sdf::Value`.
#[verifier::external_body]
fn convert_path_list(value: &UsdValue) -> (r: Value)
    ensures
        r@ == path_list_part(value_of(*value)),
{
    match value {
        UsdValue::PathListOp(op) => Value::PathListOp(ListOp {
            explicit: op.explicit,
            explicit_items: op.explicit_items.iter().map(|p| p.to_string()).collect(),
            prepended_items: op.prepended_items.iter().map(|p| p.to_string()).collect(),
            appended_items: op.appended_items.iter().map(|p| p.to_string()).collect(),
            added_items: op.added_items.iter().map(|p| p.to_string()).collect(),
        }),
        _ => Value::Other,
    }
}

/// Takes a value out of an `openusd::sdf::Value`, whatever its kind.
pub fn convert(value: &UsdValue) -> (r: Value)
    ensures
        r@ == value_of(*value),
{
    match convert_scalar(value) {
        Value::Other => {},
        found => return found,
    }
    match convert_vector(value) {
        Value::Other => {},
        found => return found,
    }
    match convert_list(value) {
        Value::Other => {},
        found => return found,
    }
    convert_path_list(value)
}

/// An answer, as it is recorded.
pub open spec fn reply(answer: Result<Option<Value>, StageError>) -> Option<Content> {
    match answer {
        Ok(Some(v)) => Some(Content::Holds(v@)),
        Ok(None) => None,
        Err(_) => Some(Content::Unreadable),
    }
}

/// Asks for a field.
fn fetch(stage: &openusd::Stage, path: &str, field: &str) -> (r: Result<Option<Value>, StageError>)
    requires
        may_ask(*stage, path@),
    ensures
        may_answer(*stage, path@, field@, reply(r)),
        r matches Err(e) ==> e == StageError::Unreadable,
{
    match ask(stage, path, field) {
        Ok(Some(value)) => Ok(Some(convert(&value))),
        Ok(None) => Ok(None),
        Err(_) => Err(StageError::Unreadable),
    }
}

/// The reads after the answer to one more question: a field that is not there
/// leaves none.
pub open spec fn recorded(
    fields: Map<(Seq<char>, Seq<char>), Content>,
    path: Seq<char>,
    field: Seq<char>,
    answer: Result<Option<Value>, StageError>,
) -> Map<(Seq<char>, Seq<char>), Content> {
    match answer {
        Ok(Some(v)) => fields.insert((path, field), Content::Holds(v@)),
        Ok(None) => fields,
        Err(_) => fields.insert((path, field), Content::Unreadable),
    }
}

/// Records the answer to a question about one field.
pub fn record(
    reads: &mut Vec<FieldRead>,
    path: &str,
    field: &str,
    answer: Result<Option<Value>, StageError>,
)
    ensures
        fields_of(final(reads)@) == recorded(fields_of(old(reads)@), path@, field@, answer),
{
    let content: Option<Value> = match answer {
        Ok(None) => return,
        Ok(Some(v)) => Some(v),
        Err(_) => None,
    };
    let read: FieldRead = FieldRead { path: path.to_owned(), field: field.to_owned(), content };
    let ghost before = reads@;
    reads.push(read);
    assert(reads@.drop_last() =~= before);
}

/// What a composed stage answered about a property.
pub struct PropertyAnswers {
    pub name: String,
    pub value: Result<Option<Value>, StageError>,
    pub targets: Result<Option<Value>, StageError>,
}

/// What a composed stage answered about a prim.
pub struct PrimAnswers {
    pub path: String,
    pub kind: Result<Option<Value>, StageError>,
    pub schemas: Result<Option<Value>, StageError>,
    /// Nothing where the properties could not be listed.
    pub properties: Option<Vec<PropertyAnswers>>,
}

/// The paths of the prims that were asked about.
pub open spec fn paths_of(answers: Seq<PrimAnswers>) -> Seq<Seq<char>> {
    answers.map_values(|a: PrimAnswers| a.path@)
}

/// The reads after the answers about some properties of a prim. What no property
/// can be named is left out.
pub open spec fn with_properties(
    fields: Map<(Seq<char>, Seq<char>), Content>,
    prim: Seq<char>,
    answers: Seq<PropertyAnswers>,
) -> Map<(Seq<char>, Seq<char>), Content>
    decreases answers.len(),
{
    if answers.len() == 0 {
        fields
    } else {
        let before = with_properties(fields, prim, answers.drop_last());
        let last = answers.last();
        if names_property(prim, last.name@) {
            let path = property_of(prim, last.name@);
            recorded(
                recorded(before, path, "default"@, last.value),
                path,
                "targetPaths"@,
                last.targets,
            )
        } else {
            before
        }
    }
}

/// The reads after the answers about a prim.
pub open spec fn with_prim_answers(
    fields: Map<(Seq<char>, Seq<char>), Content>,
    a: PrimAnswers,
) -> Map<(Seq<char>, Seq<char>), Content> {
    let named = recorded(
        recorded(fields, a.path@, "typeName"@, a.kind),
        a.path@,
        "apiSchemas"@,
        a.schemas,
    );
    match a.properties {
        None => named.insert((a.path@, "properties"@), Content::Unreadable),
        Some(properties) => with_properties(named, a.path@, properties@),
    }
}

/// The reads that the answers about all prims leave.
pub open spec fn with_answers(answers: Seq<PrimAnswers>) -> Map<(Seq<char>, Seq<char>), Content>
    decreases answers.len(),
{
    if answers.len() == 0 {
        Map::empty()
    } else {
        with_prim_answers(with_answers(answers.drop_last()), answers.last())
    }
}

/// The stage that a composed one is recorded as.
pub open spec fn assembled(answers: Seq<PrimAnswers>, complete: bool) -> StageView {
    StageView { prims: paths_of(answers), complete, fields: with_answers(answers) }
}

/// Records the answers about the properties of a prim.
fn record_properties(reads: &mut Vec<FieldRead>, prim: &str, answers: Vec<PropertyAnswers>)
    ensures
        fields_of(final(reads)@) == with_properties(fields_of(old(reads)@), prim@, answers@),
{
    let ghost all = answers@;
    assert(all.take(0) =~= seq![]);
    for a in it: answers
        invariant
            it.seq() == all,
            fields_of(reads@) == with_properties(fields_of(old(reads)@), prim@, all.take(it.index())),
    {
        let ghost n = it.index();
        proof {
            assert(all.take(n + 1).drop_last() =~= all.take(n));
            assert(all.take(n + 1).last() == a);
        }
        if let Ok(path) = append_property(prim, a.name.as_str()) {
            record(reads, path.as_str(), "default", a.value);
            record(reads, path.as_str(), "targetPaths", a.targets);
        }
    }
    assert(all.take(all.len() as int) =~= all);
}

/// Records what a composed stage answered about its prims, in the order of a
/// walk, and whether the walk came to its end.
pub fn assemble(answers: Vec<PrimAnswers>, complete: bool) -> (r: StageData)
    ensures
        r@ == assembled(answers@, complete),
{
    let ghost all = answers@;
    let mut prims: Vec<String> = Vec::new();
    let mut reads: Vec<FieldRead> = Vec::new();
    proof {
        assert(all.take(0) =~= seq![]);
        assert(texts(prims@) =~= paths_of(all.take(0)));
    }
    for a in it: answers
        invariant
            it.seq() == all,
            texts(prims@) == paths_of(all.take(it.index())),
            fields_of(reads@) == with_answers(all.take(it.index())),
    {
        let ghost n = it.index();
        proof {
            assert(all.take(n + 1).drop_last() =~= all.take(n));
            assert(all.take(n + 1).last() == a);
        }
        record(&mut reads, a.path.as_str(), "typeName", a.kind);
        record(&mut reads, a.path.as_str(), "apiSchemas", a.schemas);
        match a.properties {
            None => record(
                &mut reads,
                a.path.as_str(),
                "properties",
                Err(StageError::Unreadable),
            ),
            Some(properties) => record_properties(&mut reads, a.path.as_str(), properties),
        }
        let ghost before = prims@;
        prims.push(a.path);
        proof {
            assert(texts(prims@) =~= texts(before).push(a.path@));
            assert(paths_of(all.take(n + 1)) =~= paths_of(all.take(n)).push(a.path@));
        }
    }
    assert(all.take(all.len() as int) =~= all);
    StageData::from_reads(prims, complete, reads)
}

/// The names of the properties that were asked about.
pub open spec fn names_of(answers: Seq<PropertyAnswers>) -> Seq<Seq<char>> {
    answers.map_values(|a: PropertyAnswers| a.name@)
}

/// Whether a stage may have answered this about a property: its value, and its
/// targets. What no property can be named is not asked about.
pub open spec fn answered_property(
    stage: openusd::Stage,
    prim: Seq<char>,
    a: PropertyAnswers,
) -> bool {
    names_property(prim, a.name@) ==> {
        &&& may_answer(stage, property_of(prim, a.name@), "default"@, reply(a.value))
        &&& may_answer(stage, property_of(prim, a.name@), "targetPaths"@, reply(a.targets))
    }
}

/// Whether a stage may have answered this about a prim: its type, its schemas,
/// and each property that it lists.
pub open spec fn answered_prim(stage: openusd::Stage, a: PrimAnswers) -> bool {
    &&& may_answer(stage, a.path@, "typeName"@, reply(a.kind))
    &&& may_answer(stage, a.path@, "apiSchemas"@, reply(a.schemas))
    &&& match a.properties {
        None => may_list(stage, a.path@, None),
        Some(properties) => {
            &&& may_list(stage, a.path@, Some(names_of(properties@)))
            &&& forall|k: int|
                0 <= k < properties@.len() ==> answered_property(
                    stage,
                    a.path@,
                    #[trigger] properties@[k],
                )
        },
    }
}

/// Whether a stage may have answered all this.
pub open spec fn answered(stage: openusd::Stage, answers: Seq<PrimAnswers>) -> bool {
    forall|i: int| 0 <= i < answers.len() ==> answered_prim(stage, #[trigger] answers[i])
}

/// Asks about the value and the targets of each of some properties.
fn ask_properties(stage: &openusd::Stage, prim: &str, names: Vec<String>) -> (r: Vec<
    PropertyAnswers,
>)
    requires
        returns_below(*stage, prim@),
    ensures
        names_of(r@) == texts(names@),
        forall|k: int| 0 <= k < r.len() ==> answered_property(*stage, prim@, #[trigger] r@[k]),
{
    let mut out: Vec<PropertyAnswers> = Vec::new();
    let mut i: usize = 0;
    while i < names.len()
        invariant
            i <= names.len(),
            out.len() == i,
            returns_below(*stage, prim@),
            forall|k: int| 0 <= k < i ==> #[trigger] out@[k].name@ == names@[k]@,
            forall|k: int| 0 <= k < i ==> answered_property(*stage, prim@, #[trigger] out@[k]),
        decreases names.len() - i,
    {
        let name: &str = names[i].as_str();
        let (value, targets): (
            Result<Option<Value>, StageError>,
            Result<Option<Value>, StageError>,
        ) = match append_property(prim, name) {
            Ok(path) => (
                fetch(stage, path.as_str(), "default"),
                fetch(stage, path.as_str(), "targetPaths"),
            ),
            Err(_) => (Ok(None), Ok(None)),
        };
        out.push(PropertyAnswers { name: name.to_owned(), value, targets });
        i = i + 1;
    }
    assert(names_of(out@) =~= texts(names@));
    out
}

/// Records what `openusd` composed: the prims in the order of its walk, the
/// type and the schemas of each, and the value and the targets of each of its
/// properties.
pub fn capture(stage: &openusd::Stage) -> (r: StageData)
    requires
        returns_below(*stage, seq!['/']),
    ensures
        may_walk(*stage, r@.prims, r@.complete),
        is_walk(r@.prims),
        exists|answers: Seq<PrimAnswers>|
            r@ == #[trigger] assembled(answers, r@.complete) && answered(*stage, answers),
{
    let (prims, complete) = walk(stage);
    let mut answers: Vec<PrimAnswers> = Vec::new();
    let mut i: usize = 0;
    while i < prims.len()
        invariant
            i <= prims.len(),
            answers.len() == i,
            forall|k: int|
                0 <= k < prims@.len() ==> returns_below(*stage, #[trigger] prims@[k]@),
            forall|k: int| 0 <= k < i ==> #[trigger] answers@[k].path@ == prims@[k]@,
            answered(*stage, answers@),
        decreases prims.len() - i,
    {
        let prim: &str = prims[i].as_str();
        let kind: Result<Option<Value>, StageError> = fetch(stage, prim, "typeName");
        let schemas: Result<Option<Value>, StageError> = fetch(stage, prim, "apiSchemas");
        let properties: Option<Vec<PropertyAnswers>> = match property_names(stage, prim) {
            None => None,
            Some(names) => Some(ask_properties(stage, prim, names)),
        };
        answers.push(PrimAnswers { path: prim.to_owned(), kind, schemas, properties });
        i = i + 1;
    }
    assert(paths_of(answers@) =~= texts(prims@));
    let ghost all = answers@;
    let r: StageData = assemble(answers, complete);
    assert(r@ == assembled(all, r@.complete) && answered(*stage, all));
    r
}

/// Whether a record of these prims may hold a field: the type, the schemas and
/// the property list of each prim, and the value and the targets of each
/// property.
pub open spec fn asked(prims: Seq<Seq<char>>, key: (Seq<char>, Seq<char>)) -> bool {
    ||| prims.contains(key.0) && (key.1 == "typeName"@ || key.1 == "apiSchemas"@ || key.1
        == "properties"@)
    ||| asked_of_property(prims, key.0) && (key.1 == "default"@ || key.1 == "targetPaths"@)
}

/// Whether a path is one of a property of one of these prims.
pub open spec fn asked_of_property(prims: Seq<Seq<char>>, path: Seq<char>) -> bool {
    exists|prim: Seq<char>, name: Seq<char>|
        prims.contains(prim) && names_property(prim, name) && path == #[trigger] property_of(
            prim,
            name,
        )
}

/// A record holds fields only of the prims that it lists, and of their
/// properties.
pub proof fn records_hold_what_was_asked(
    answers: Seq<PrimAnswers>,
    complete: bool,
    key: (Seq<char>, Seq<char>),
)
    requires
        assembled(answers, complete).fields.dom().contains(key),
    ensures
        asked(assembled(answers, complete).prims, key),
    decreases answers.len(),
{
    if answers.len() > 0 {
        let front = answers.drop_last();
        let a = answers.last();
        let prims = paths_of(answers);
        assert(prims =~= paths_of(front).push(a.path@));
        assert(prims[answers.len() - 1] == a.path@);
        if with_answers(front).dom().contains(key) {
            records_hold_what_was_asked(front, complete, key);
            asked_of_more(paths_of(front), a.path@, key);
        } else if a.properties is Some {
            let named = recorded(
                recorded(with_answers(front), a.path@, "typeName"@, a.kind),
                a.path@,
                "apiSchemas"@,
                a.schemas,
            );
            if !named.dom().contains(key) {
                properties_hold_what_was_asked(named, a.path@, a.properties->0@, prims, key);
            }
        }
    }
}

/// What was asked about some prims was asked about them and one more.
proof fn asked_of_more(prims: Seq<Seq<char>>, prim: Seq<char>, key: (Seq<char>, Seq<char>))
    requires
        asked(prims, key),
    ensures
        asked(prims.push(prim), key),
{
    assert forall|p: Seq<char>| prims.contains(p) implies #[trigger] prims.push(prim).contains(
        p,
    ) by {
        let i = choose|i: int| 0 <= i < prims.len() && prims[i] == p;
        assert(prims.push(prim)[i] == p);
    }
    if asked_of_property(prims, key.0) {
        let (p, name) = choose|p: Seq<char>, name: Seq<char>|
            prims.contains(p) && names_property(p, name) && key.0 == #[trigger] property_of(
                p,
                name,
            );
        assert(prims.push(prim).contains(p));
        assert(asked_of_property(prims.push(prim), key.0));
    }
}

/// What the answers about the properties of a prim add was asked about them.
proof fn properties_hold_what_was_asked(
    fields: Map<(Seq<char>, Seq<char>), Content>,
    prim: Seq<char>,
    answers: Seq<PropertyAnswers>,
    prims: Seq<Seq<char>>,
    key: (Seq<char>, Seq<char>),
)
    requires
        prims.contains(prim),
        !fields.dom().contains(key),
        with_properties(fields, prim, answers).dom().contains(key),
    ensures
        asked(prims, key),
    decreases answers.len(),
{
    if answers.len() > 0 {
        if with_properties(fields, prim, answers.drop_last()).dom().contains(key) {
            properties_hold_what_was_asked(fields, prim, answers.drop_last(), prims, key);
        } else {
            assert(asked_of_property(prims, property_of(prim, answers.last().name@)));
        }
    }
}

/// What a record holds of a field.
pub open spec fn held(s: StageView, path: Seq<char>, field: Seq<char>) -> Option<Content> {
    if s.fields.dom().contains((path, field)) {
        Some(s.fields[(path, field)])
    } else {
        None
    }
}

/// Whether what a record holds of a field is an answer to the question for it.
pub open spec fn holds_answer(
    stage: openusd::Stage,
    s: StageView,
    path: Seq<char>,
    field: Seq<char>,
) -> bool {
    may_answer(stage, path, field, held(s, path, field))
}

/// Whether what a record holds of a prim are answers: to the questions for its
/// type, its schemas, and the value and the targets of each of its properties. A
/// prim whose properties were not listed has a list that cannot be read.
pub open spec fn holds_prim(stage: openusd::Stage, s: StageView, a: PrimAnswers) -> bool {
    &&& holds_answer(stage, s, a.path@, "typeName"@)
    &&& holds_answer(stage, s, a.path@, "apiSchemas"@)
    &&& match a.properties {
        None => held(s, a.path@, "properties"@) == Some(Content::Unreadable),
        Some(properties) => forall|k: int|
            0 <= k < properties@.len() && names_property(a.path@, (#[trigger] properties@[k]).name@)
                ==> {
                let path = property_of(a.path@, properties@[k].name@);
                holds_answer(stage, s, path, "default"@) && holds_answer(
                    stage,
                    s,
                    path,
                    "targetPaths"@,
                )
            },
    }
}

/// Whether every field that is there is an answer, or a list that could not be
/// read.
spec fn are_answers(
    stage: openusd::Stage,
    fields: Map<(Seq<char>, Seq<char>), Content>,
) -> bool {
    forall|k: (Seq<char>, Seq<char>)| #[trigger]
        fields.dom().contains(k) ==> if k.1 == "properties"@ {
            fields[k] == Content::Unreadable
        } else {
            may_answer(stage, k.0, k.1, Some(fields[k]))
        }
}

/// Whether a field is there, or may be missing.
spec fn is_covered(
    stage: openusd::Stage,
    fields: Map<(Seq<char>, Seq<char>), Content>,
    path: Seq<char>,
    field: Seq<char>,
) -> bool {
    fields.dom().contains((path, field)) || may_answer(stage, path, field, None)
}

/// One more answer leaves answers.
proof fn lemma_recorded(
    stage: openusd::Stage,
    fields: Map<(Seq<char>, Seq<char>), Content>,
    path: Seq<char>,
    field: Seq<char>,
    answer: Result<Option<Value>, StageError>,
)
    requires
        are_answers(stage, fields),
        field != "properties"@,
        may_answer(stage, path, field, reply(answer)),
    ensures
        are_answers(stage, recorded(fields, path, field, answer)),
        is_covered(stage, recorded(fields, path, field, answer), path, field),
        fields.dom().subset_of(recorded(fields, path, field, answer).dom()),
{
}

/// The fields that are asked for are not the list of the properties.
proof fn lemma_asked_fields()
    ensures
        "typeName"@ != "properties"@,
        "apiSchemas"@ != "properties"@,
        "default"@ != "properties"@,
        "targetPaths"@ != "properties"@,
{
    reveal_strlit("typeName");
    reveal_strlit("apiSchemas");
    reveal_strlit("default");
    reveal_strlit("targetPaths");
    reveal_strlit("properties");
    assert("apiSchemas"@[0] != "properties"@[0]);
}

/// The answers about the properties of a prim leave answers.
proof fn lemma_properties(
    stage: openusd::Stage,
    fields: Map<(Seq<char>, Seq<char>), Content>,
    prim: Seq<char>,
    answers: Seq<PropertyAnswers>,
)
    requires
        are_answers(stage, fields),
        forall|k: int| 0 <= k < answers.len() ==> answered_property(stage, prim, #[trigger] answers[k]),
    ensures
        ({
            let after = with_properties(fields, prim, answers);
            &&& are_answers(stage, after)
            &&& fields.dom().subset_of(after.dom())
            &&& forall|k: int|
                0 <= k < answers.len() && names_property(prim, (#[trigger] answers[k]).name@) ==> {
                    let path = property_of(prim, answers[k].name@);
                    is_covered(stage, after, path, "default"@) && is_covered(
                        stage,
                        after,
                        path,
                        "targetPaths"@,
                    )
                }
        }),
    decreases answers.len(),
{
    lemma_asked_fields();
    if answers.len() > 0 {
        let front = answers.drop_last();
        let last = answers.last();
        assert forall|k: int| 0 <= k < front.len() implies answered_property(
            stage,
            prim,
            #[trigger] front[k],
        ) by {
            assert(front[k] == answers[k]);
        }
        lemma_properties(stage, fields, prim, front);
        let before = with_properties(fields, prim, front);
        let after = with_properties(fields, prim, answers);
        assert(answered_property(stage, prim, answers[answers.len() - 1]));
        if names_property(prim, last.name@) {
            let path = property_of(prim, last.name@);
            let half = recorded(before, path, "default"@, last.value);
            lemma_recorded(stage, before, path, "default"@, last.value);
            lemma_recorded(stage, half, path, "targetPaths"@, last.targets);
        }
        assert forall|k: int|
            0 <= k < answers.len() && names_property(prim, (#[trigger] answers[k]).name@) implies ({
            let path = property_of(prim, answers[k].name@);
            is_covered(stage, after, path, "default"@) && is_covered(
                stage,
                after,
                path,
                "targetPaths"@,
            )
        }) by {
            if k < front.len() {
                assert(front[k] == answers[k]);
            }
        }
    }
}

/// What a record holds of each prim that was asked about are answers to those
/// very questions.
pub proof fn records_hold_the_answers(
    stage: openusd::Stage,
    answers: Seq<PrimAnswers>,
    complete: bool,
)
    requires
        answered(stage, answers),
    ensures
        forall|i: int|
            0 <= i < answers.len() ==> holds_prim(
                stage,
                assembled(answers, complete),
                #[trigger] answers[i],
            ),
{
    lemma_answers(stage, answers, complete);
}

/// The answers about all prims leave answers.
proof fn lemma_answers(stage: openusd::Stage, answers: Seq<PrimAnswers>, complete: bool)
    requires
        answered(stage, answers),
    ensures
        are_answers(stage, with_answers(answers)),
        forall|i: int|
            0 <= i < answers.len() ==> holds_prim(
                stage,
                assembled(answers, complete),
                #[trigger] answers[i],
            ),
    decreases answers.len(),
{
    lemma_asked_fields();
    if answers.len() > 0 {
        let front = answers.drop_last();
        let a = answers.last();
        assert forall|i: int| 0 <= i < front.len() implies answered_prim(
            stage,
            #[trigger] front[i],
        ) by {
            assert(front[i] == answers[i]);
        }
        lemma_answers(stage, front, complete);
        assert(answered_prim(stage, answers[answers.len() - 1]));
        let before = with_answers(front);
        let typed = recorded(before, a.path@, "typeName"@, a.kind);
        let named = recorded(typed, a.path@, "apiSchemas"@, a.schemas);
        let after = with_answers(answers);
        lemma_recorded(stage, before, a.path@, "typeName"@, a.kind);
        lemma_recorded(stage, typed, a.path@, "apiSchemas"@, a.schemas);
        if let Some(properties) = a.properties {
            lemma_properties(stage, named, a.path@, properties@);
        }
        assert(before.dom().subset_of(after.dom()));
        assert(named.dom().subset_of(after.dom()));
        assert(are_answers(stage, after));
        let s = assembled(answers, complete);
        let t = assembled(front, complete);
        assert forall|path: Seq<char>, field: Seq<char>|
            field != "properties"@ && holds_answer(stage, t, path, field) implies #[trigger]
            holds_answer(stage, s, path, field) by {}
        assert forall|i: int| 0 <= i < answers.len() implies holds_prim(
            stage,
            s,
            #[trigger] answers[i],
        ) by {
            if i < front.len() {
                assert(front[i] == answers[i]);
                assert(holds_prim(stage, t, front[i]));
                assert(t.fields.dom().subset_of(s.fields.dom()));
            }
        }
    }
}

/// Recording an answer leaves what it holds under the field that was asked for, or
/// that it could not be read; an answer that there is nothing leaves what was there,
/// and no other field changes.
pub proof fn answers_are_recorded_under_their_field(
    fields: Map<(Seq<char>, Seq<char>), Content>,
    path: Seq<char>,
    field: Seq<char>,
    answer: Result<Option<Value>, StageError>,
    other: (Seq<char>, Seq<char>),
)
    ensures
        ({
            let after = recorded(fields, path, field, answer);
            &&& answer matches Ok(Some(v)) ==> after.dom().contains((path, field)) && after[(
                path,
                field,
            )] == Content::Holds(v@)
            &&& answer is Err ==> after.dom().contains((path, field)) && after[(path, field)]
                == Content::Unreadable
            &&& answer == Ok::<Option<Value>, StageError>(None) ==> after == fields
            &&& other != (path, field) ==> after.dom().contains(other) == fields.dom().contains(
                other,
            ) && after[other] == fields[other]
        }),
{
}

/// The answers about properties leave every field alone that is not the value or the
/// targets of one of them.
proof fn lemma_properties_stay_apart(
    fields: Map<(Seq<char>, Seq<char>), Content>,
    prim: Seq<char>,
    answers: Seq<PropertyAnswers>,
    key: (Seq<char>, Seq<char>),
)
    requires
        forall|k: int|
            0 <= k < answers.len() ==> key.0 != property_of(prim, (#[trigger] answers[k]).name@) || (
            key.1 != "default"@ && key.1 != "targetPaths"@),
    ensures
        with_properties(fields, prim, answers).dom().contains(key) == fields.dom().contains(key),
        with_properties(fields, prim, answers)[key] == fields[key],
    decreases answers.len(),
{
    if answers.len() > 0 {
        let front = answers.drop_last();
        assert forall|k: int| 0 <= k < front.len() implies key.0 != property_of(
            prim,
            (#[trigger] front[k]).name@,
        ) || (key.1 != "default"@ && key.1 != "targetPaths"@) by {
            assert(front[k] == answers[k]);
        }
        assert(answers[answers.len() - 1] == answers.last());
        lemma_properties_stay_apart(fields, prim, front, key);
    }
}

/// What is recorded of a prim is what was answered about it: its type under its type
/// name and its schemas under its schemas. A list of properties that failed leaves
/// it unreadable, and one that did not leaves it as it was.
pub proof fn prims_are_recorded_as_answered(
    fields: Map<(Seq<char>, Seq<char>), Content>,
    a: PrimAnswers,
)
    ensures
        ({
            let after = with_prim_answers(fields, a);
            let kind = (a.path@, "typeName"@);
            let schemas = (a.path@, "apiSchemas"@);
            let list = (a.path@, "properties"@);
            &&& a.kind matches Ok(Some(v)) ==> after.dom().contains(kind) && after[kind]
                == Content::Holds(v@)
            &&& a.kind is Err ==> after.dom().contains(kind) && after[kind] == Content::Unreadable
            &&& a.kind == Ok::<Option<Value>, StageError>(None) ==> after.dom().contains(kind)
                == fields.dom().contains(kind)
            &&& a.schemas matches Ok(Some(v)) ==> after.dom().contains(schemas) && after[schemas]
                == Content::Holds(v@)
            &&& a.schemas is Err ==> after.dom().contains(schemas) && after[schemas]
                == Content::Unreadable
            &&& a.schemas == Ok::<Option<Value>, StageError>(None) ==> after.dom().contains(schemas)
                == fields.dom().contains(schemas)
            &&& a.properties is None ==> after.dom().contains(list) && after[list]
                == Content::Unreadable
            &&& a.properties is Some ==> after.dom().contains(list) == fields.dom().contains(list)
        }),
{
    lemma_asked_fields();
    reveal_strlit("typeName");
    reveal_strlit("apiSchemas");
    assert("typeName"@.len() == 8 && "apiSchemas"@.len() == 10);
    if let Some(properties) = a.properties {
        let named = recorded(
            recorded(fields, a.path@, "typeName"@, a.kind),
            a.path@,
            "apiSchemas"@,
            a.schemas,
        );
        assert forall|k: int| 0 <= k < properties@.len() implies a.path@ != property_of(
            a.path@,
            (#[trigger] properties@[k]).name@,
        ) by {
            crate::path::property_paths_differ(
                a.path@,
                properties@[k].name@,
                properties@[k].name@,
            );
        }
        lemma_properties_stay_apart(named, a.path@, properties@, (a.path@, "typeName"@));
        lemma_properties_stay_apart(named, a.path@, properties@, (a.path@, "apiSchemas"@));
        lemma_properties_stay_apart(named, a.path@, properties@, (a.path@, "properties"@));
    }
}

/// What is recorded of a property is what was last answered about it: its value under
/// its default, and its targets under its target paths.
pub proof fn properties_are_recorded_as_answered(
    fields: Map<(Seq<char>, Seq<char>), Content>,
    prim: Seq<char>,
    answers: Seq<PropertyAnswers>,
    i: int,
)
    requires
        0 <= i < answers.len(),
        names_property(prim, answers[i].name@),
        forall|k: int| i < k < answers.len() ==> (#[trigger] answers[k]).name@ != answers[i].name@,
    ensures
        ({
            let after = with_properties(fields, prim, answers);
            let value = (property_of(prim, answers[i].name@), "default"@);
            let targets = (property_of(prim, answers[i].name@), "targetPaths"@);
            &&& answers[i].value matches Ok(Some(v)) ==> after.dom().contains(value)
                && after[value] == Content::Holds(v@)
            &&& answers[i].value is Err ==> after.dom().contains(value) && after[value]
                == Content::Unreadable
            &&& answers[i].targets matches Ok(Some(v)) ==> after.dom().contains(targets)
                && after[targets] == Content::Holds(v@)
            &&& answers[i].targets is Err ==> after.dom().contains(targets) && after[targets]
                == Content::Unreadable
        }),
    decreases answers.len(),
{
    reveal_strlit("default");
    reveal_strlit("targetPaths");
    assert("default"@.len() == 7 && "targetPaths"@.len() == 11);
    let last = answers.len() - 1;
    assert(answers[last] == answers.last());
    if i < last {
        let front = answers.drop_last();
        assert forall|k: int| i < k < front.len() implies (#[trigger] front[k]).name@
            != front[i].name@ by {
            assert(front[k] == answers[k]);
        }
        properties_are_recorded_as_answered(fields, prim, front, i);
        crate::path::property_paths_differ(prim, answers[i].name@, answers[last].name@);
    }
}

/// The record of a stage lists the prims that were asked about, in their order, and
/// says whether the walk came to its end; it holds what each prim adds to what the
/// earlier ones left.
pub proof fn records_list_the_prims_in_order(
    answers: Seq<PrimAnswers>,
    complete: bool,
    a: PrimAnswers,
    i: int,
)
    ensures
        assembled(answers, complete).prims.len() == answers.len(),
        0 <= i < answers.len() ==> assembled(answers, complete).prims[i] == answers[i].path@,
        assembled(answers, complete).complete == complete,
        assembled(answers.push(a), complete).fields == with_prim_answers(
            assembled(answers, complete).fields,
            a,
        ),
{
    assert(answers.push(a).drop_last() =~= answers);
}

} // verus!
