//! A stage: prims, and the fields that they and their properties hold.
//!
//! A stage is either authored, prim by prim and attribute by attribute, or
//! captured from one that `openusd` composed. Its model is the list of its
//! prims and a map from the path of a prim or property and the name of a field
//! to what the field holds.

use crate::path::{append_path, append_property, is_property_path};
use crate::text::{copy_texts, holds_text, same_text, texts};
use crate::value::{ListOp, ListOpView, Value, ValueView};
use vstd::prelude::*;

verus! {

/// Why a stage could not be read or written.
#[derive(Debug, Clone, Copy, PartialEq, Eq, Structural)]
pub enum StageError {
    /// A path or a name cannot be joined to another.
    InvalidPath,
    /// A field could not be read when the stage was captured.
    Unreadable,
    /// A field that names something holds no text.
    NotText,
}

/// What a field holds.
pub ghost enum Content {
    Holds(ValueView),
    Unreadable,
}

/// The model of a stage.
#[verifier::ext_equal]
pub ghost struct StageView {
    /// The paths of the prims, in the order of a walk.
    pub prims: Seq<Seq<char>>,
    /// Whether the walk that listed them came to its end.
    pub complete: bool,
    /// What each field holds, by the path and the field's name.
    pub fields: Map<(Seq<char>, Seq<char>), Content>,
}

/// One field as it was read: nothing where it could not be.
pub struct FieldRead {
    pub path: String,
    pub field: String,
    pub content: Option<Value>,
}

impl FieldRead {
    pub open spec fn key(self) -> (Seq<char>, Seq<char>) {
        (self.path@, self.field@)
    }

    pub open spec fn holds(self) -> Content {
        match self.content {
            Some(v) => Content::Holds(v@),
            None => Content::Unreadable,
        }
    }
}

/// The fields that a list of reads leaves, a later read replacing an earlier
/// one of the same field.
pub open spec fn fields_of(reads: Seq<FieldRead>) -> Map<(Seq<char>, Seq<char>), Content>
    decreases reads.len(),
{
    if reads.len() == 0 {
        Map::empty()
    } else {
        fields_of(reads.drop_last()).insert(reads.last().key(), reads.last().holds())
    }
}

/// `names` added behind `list`, each unless it is listed already.
pub open spec fn merged(list: Seq<Seq<char>>, names: Seq<Seq<char>>) -> Seq<Seq<char>>
    decreases names.len(),
{
    if names.len() == 0 {
        list
    } else {
        let front = merged(list, names.drop_last());
        if front.contains(names.last()) {
            front
        } else {
            front.push(names.last())
        }
    }
}

impl StageView {
    pub open spec fn empty() -> StageView {
        StageView { prims: seq![], complete: true, fields: Map::empty() }
    }

    /// What reading a field gives.
    pub open spec fn field(self, path: Seq<char>, field: Seq<char>) -> Result<
        Option<ValueView>,
        StageError,
    > {
        if !self.fields.dom().contains((path, field)) {
            Ok(None)
        } else {
            match self.fields[(path, field)] {
                Content::Holds(v) => Ok(Some(v)),
                Content::Unreadable => Err(StageError::Unreadable),
            }
        }
    }

    /// What reading a field of the property `name` gives. A prim whose properties
    /// could not be listed could not be composed, so none of them can be read.
    pub open spec fn property_field(
        self,
        prim: Seq<char>,
        name: Seq<char>,
        field: Seq<char>,
    ) -> Result<Option<ValueView>, StageError> {
        if !crate::path::names_property(prim, name) {
            Err(StageError::InvalidPath)
        } else if self.field(prim, "properties"@) is Err {
            Err(StageError::Unreadable)
        } else {
            self.field(crate::path::property_of(prim, name), field)
        }
    }

    /// The value of an attribute.
    pub open spec fn attribute(self, prim: Seq<char>, name: Seq<char>) -> Result<
        Option<ValueView>,
        StageError,
    > {
        self.property_field(prim, name, "default"@)
    }

    /// The text of a prim's field that names something, such as its type.
    pub open spec fn text_field(self, prim: Seq<char>, field: Seq<char>) -> Result<
        Option<Seq<char>>,
        StageError,
    > {
        match self.field(prim, field) {
            Err(e) => Err(e),
            Ok(None) => Ok(None),
            Ok(Some(ValueView::Token(s))) => Ok(Some(s)),
            Ok(Some(ValueView::String(s))) => Ok(Some(s)),
            Ok(Some(_)) => Err(StageError::NotText),
        }
    }

    pub open spec fn prim_type(self, prim: Seq<char>) -> Result<Option<Seq<char>>, StageError> {
        self.text_field(prim, "typeName"@)
    }

    /// The schemas applied to a prim.
    pub open spec fn api_schemas(self, prim: Seq<char>) -> Result<Seq<Seq<char>>, StageError> {
        match self.field(prim, "apiSchemas"@) {
            Err(e) => Err(e),
            Ok(Some(ValueView::TokenListOp(op))) => Ok(op.flattened()),
            Ok(Some(ValueView::TokenVec(v))) => Ok(v),
            Ok(_) => Ok(seq![]),
        }
    }

    /// The targets of a relationship.
    pub open spec fn targets(self, prim: Seq<char>, name: Seq<char>) -> Result<
        Seq<Seq<char>>,
        StageError,
    > {
        match self.property_field(prim, name, "targetPaths"@) {
            Err(e) => Err(e),
            Ok(Some(ValueView::PathListOp(op))) => Ok(op.flattened()),
            Ok(Some(ValueView::PathVec(v))) => Ok(v),
            Ok(_) => Ok(seq![]),
        }
    }

    /// The stage after a field has been written.
    pub open spec fn with_field(
        self,
        path: Seq<char>,
        field: Seq<char>,
        value: ValueView,
    ) -> StageView {
        StageView { fields: self.fields.insert((path, field), Content::Holds(value)), ..self }
    }

    /// The stage after a prim has been defined.
    pub open spec fn with_prim(self, path: Seq<char>, kind: Seq<char>) -> StageView {
        StageView {
            prims: if self.prims.contains(path) {
                self.prims
            } else {
                self.prims.push(path)
            },
            ..self.with_field(path, "typeName"@, ValueView::Token(kind))
        }
    }

    /// The stage after schemas have been applied to a prim whose schemas can
    /// be read.
    pub open spec fn with_schemas(self, prim: Seq<char>, names: Seq<Seq<char>>) -> StageView {
        self.with_field(
            prim,
            "apiSchemas"@,
            ValueView::TokenListOp(ListOpView::prepend(merged(self.api_schemas(prim)->Ok_0, names))),
        )
    }

    /// The stage after an attribute has been defined.
    pub open spec fn with_attribute(
        self,
        prim: Seq<char>,
        name: Seq<char>,
        kind: Seq<char>,
        value: ValueView,
        uniform: bool,
    ) -> StageView {
        let path = crate::path::property_of(prim, name);
        self.with_field(path, "typeName"@, ValueView::Token(kind)).with_field(
            path,
            "variability"@,
            ValueView::Token(if uniform { "uniform"@ } else { "varying"@ }),
        ).with_field(path, "default"@, value)
    }

    /// The stage after a relationship has been defined.
    pub open spec fn with_relationship(
        self,
        prim: Seq<char>,
        name: Seq<char>,
        targets: Seq<Seq<char>>,
    ) -> StageView {
        self.with_field(
            crate::path::property_of(prim, name),
            "targetPaths"@,
            ValueView::PathListOp(ListOpView::replace(targets)),
        )
    }
}

/// A stage.
pub struct StageData {
    prims: Vec<String>,
    complete: bool,
    reads: Vec<FieldRead>,
}

impl View for StageData {
    type V = StageView;

    closed spec fn view(&self) -> StageView {
        StageView {
            prims: texts(self.prims@),
            complete: self.complete,
            fields: fields_of(self.reads@),
        }
    }
}

/// Whether a read of a value came out as the model says.
pub open spec fn reads_as(
    r: Result<Option<&Value>, StageError>,
    expected: Result<Option<ValueView>, StageError>,
) -> bool {
    match r {
        Ok(Some(v)) => expected == Ok::<Option<ValueView>, StageError>(Some(v@)),
        Ok(None) => expected == Ok::<Option<ValueView>, StageError>(None),
        Err(e) => expected == Err::<Option<ValueView>, StageError>(e),
    }
}

/// Whether a read of a list came out as the model says.
pub open spec fn list_reads_as(
    r: Result<Vec<String>, StageError>,
    expected: Result<Seq<Seq<char>>, StageError>,
) -> bool {
    match r {
        Ok(v) => expected == Ok::<Seq<Seq<char>>, StageError>(texts(v@)),
        Err(e) => expected == Err::<Seq<Seq<char>>, StageError>(e),
    }
}

/// The characters of each string of a list.
pub open spec fn str_texts(list: Seq<&str>) -> Seq<Seq<char>> {
    list.map_values(|s: &str| s@)
}

/// Whether a prim can be defined by that name below `parent`.
pub open spec fn defines_prim(parent: Seq<char>, name: Seq<char>) -> bool {
    crate::path::names_child(parent, name) && !crate::path::is_property(
        crate::path::child_of(parent, name),
    )
}

impl StageData {
    /// A stage without prims.
    pub fn new() -> (r: StageData)
        ensures
            r@ == StageView::empty(),
    {
        let r: StageData = StageData { prims: Vec::new(), complete: true, reads: Vec::new() };
        assert(r@ =~= StageView::empty());
        r
    }

    /// The stage that a walk over another one found: the prims that it came
    /// to, whether it came to its end, and what it read.
    pub fn from_reads(prims: Vec<String>, complete: bool, reads: Vec<FieldRead>) -> (r: StageData)
        ensures
            r@ == (StageView { prims: texts(prims@), complete, fields: fields_of(reads@) }),
    {
        StageData { prims, complete, reads }
    }

    /// The paths of the prims, in the order of a walk.
    pub fn prims(&self) -> (r: &Vec<String>)
        ensures
            texts(r@) == self@.prims,
    {
        &self.prims
    }

    /// Whether the walk that listed the prims came to its end.
    pub fn is_complete(&self) -> (r: bool)
        ensures
            r == self@.complete,
    {
        self.complete
    }

    /// Reads a field.
    pub fn field(&self, path: &str, field: &str) -> (r: Result<Option<&Value>, StageError>)
        ensures
            reads_as(r, self@.field(path@, field@)),
    {
        let mut i: usize = self.reads.len();
        proof {
            assert(self.reads@.take(i as int) =~= self.reads@);
        }
        while i > 0
            invariant
                i <= self.reads.len(),
                fields_of(self.reads@).dom().contains((path@, field@)) == fields_of(
                    self.reads@.take(i as int),
                ).dom().contains((path@, field@)),
                fields_of(self.reads@)[(path@, field@)] == fields_of(
                    self.reads@.take(i as int),
                )[(path@, field@)],
            decreases i,
        {
            i = i - 1;
            let read: &FieldRead = &self.reads[i];
            proof {
                let before = self.reads@.take(i + 1);
                assert(before.drop_last() =~= self.reads@.take(i as int));
                assert(before.last() == self.reads@[i as int]);
            }
            if same_text(read.path.as_str(), path) && same_text(read.field.as_str(), field) {
                return match &read.content {
                    Some(v) => Ok(Some(v)),
                    None => Err(StageError::Unreadable),
                };
            }
        }
        Ok(None)
    }

    /// Reads a field of the property `name` of a prim.
    pub fn property_field(&self, prim: &str, name: &str, field: &str) -> (r: Result<
        Option<&Value>,
        StageError,
    >)
        ensures
            reads_as(r, self@.property_field(prim@, name@, field@)),
    {
        let path: String = match append_property(prim, name) {
            Ok(path) => path,
            Err(_) => return Err(StageError::InvalidPath),
        };
        if self.field(prim, "properties").is_err() {
            return Err(StageError::Unreadable);
        }
        self.field(path.as_str(), field)
    }

    /// Reads the value of an attribute.
    pub fn attribute(&self, prim: &str, name: &str) -> (r: Result<Option<&Value>, StageError>)
        ensures
            reads_as(r, self@.attribute(prim@, name@)),
    {
        self.property_field(prim, name, "default")
    }

    /// Reads a prim's type.
    pub fn prim_type(&self, prim: &str) -> (r: Result<Option<&str>, StageError>)
        ensures
            match r {
                Ok(Some(s)) => self@.prim_type(prim@) == Ok::<_, StageError>(Some(s@)),
                Ok(None) => self@.prim_type(prim@) == Ok::<_, StageError>(None::<Seq<char>>),
                Err(e) => self@.prim_type(prim@) == Err::<Option<Seq<char>>, _>(e),
            },
    {
        match self.field(prim, "typeName") {
            Err(e) => Err(e),
            Ok(None) => Ok(None),
            Ok(Some(Value::Token(s))) => Ok(Some(s.as_str())),
            Ok(Some(Value::String(s))) => Ok(Some(s.as_str())),
            Ok(Some(_)) => Err(StageError::NotText),
        }
    }

    /// Reads the schemas applied to a prim.
    pub fn api_schemas(&self, prim: &str) -> (r: Result<Vec<String>, StageError>)
        ensures
            list_reads_as(r, self@.api_schemas(prim@)),
    {
        match self.field(prim, "apiSchemas") {
            Err(e) => Err(e),
            Ok(Some(Value::TokenListOp(op))) => Ok(op.flatten()),
            Ok(Some(Value::TokenVec(v))) => Ok(copy_texts(v)),
            Ok(_) => {
                let none: Vec<String> = Vec::new();
                assert(texts(none@) =~= seq![]);
                Ok(none)
            },
        }
    }

    /// Reads the targets of a relationship.
    pub fn targets(&self, prim: &str, name: &str) -> (r: Result<Vec<String>, StageError>)
        ensures
            list_reads_as(r, self@.targets(prim@, name@)),
    {
        match self.property_field(prim, name, "targetPaths") {
            Err(e) => Err(e),
            Ok(Some(Value::PathListOp(op))) => Ok(op.flatten()),
            Ok(Some(Value::PathVec(v))) => Ok(copy_texts(v)),
            Ok(_) => {
                let none: Vec<String> = Vec::new();
                assert(texts(none@) =~= seq![]);
                Ok(none)
            },
        }
    }

    fn write_field(&mut self, path: &str, field: &str, value: Value)
        ensures
            final(self)@ == old(self)@.with_field(path@, field@, value@),
    {
        let read: FieldRead = FieldRead {
            path: path.to_owned(),
            field: field.to_owned(),
            content: Some(value),
        };
        let ghost before = self.reads@;
        self.reads.push(read);
        proof {
            assert(self.reads@.drop_last() =~= before);
            assert(self@ =~= old(self)@.with_field(path@, field@, value@));
        }
    }

    /// Defines a prim of a given type below `parent`, and returns its path.
    ///
    /// A prim cannot stand where a property would.
    pub fn define_prim(&mut self, parent: &str, name: &str, kind: &str) -> (r: Result<
        String,
        StageError,
    >)
        ensures
            r is Ok <==> defines_prim(parent@, name@),
            match r {
                Ok(path) => {
                    &&& path@ == crate::path::child_of(parent@, name@)
                    &&& final(self)@ == old(self)@.with_prim(path@, kind@)
                },
                Err(e) => e == StageError::InvalidPath && final(self)@ == old(self)@,
            },
    {
        let path: String = match append_path(parent, name) {
            Ok(path) => path,
            Err(_) => return Err(StageError::InvalidPath),
        };
        if is_property_path(path.as_str()) {
            return Err(StageError::InvalidPath);
        }
        self.write_field(path.as_str(), "typeName", Value::Token(kind.to_owned()));
        let ghost prims = self.prims@;
        if !holds_text(&self.prims, path.as_str()) {
            self.prims.push(path.as_str().to_owned());
            proof {
                assert(texts(self.prims@) =~= texts(prims).push(path@));
            }
        }
        assert(self@ =~= old(self)@.with_prim(path@, kind@));
        Ok(path)
    }

    /// Applies schemas to a prim, each unless it is applied already.
    pub fn apply_api_schemas(&mut self, prim: &str, names: &[&str]) -> (r: Result<(), StageError>)
        ensures
            match r {
                Ok(()) => {
                    &&& !crate::path::is_property(prim@)
                    &&& old(self)@.api_schemas(prim@) is Ok
                    &&& final(self)@ == old(self)@.with_schemas(prim@, str_texts(names@))
                },
                Err(e) => {
                    &&& final(self)@ == old(self)@
                    &&& if crate::path::is_property(prim@) {
                        e == StageError::InvalidPath
                    } else {
                        old(self)@.api_schemas(prim@) == Err::<Seq<Seq<char>>, _>(e)
                    }
                },
            },
    {
        if is_property_path(prim) {
            return Err(StageError::InvalidPath);
        }
        let mut list: Vec<String> = match self.api_schemas(prim) {
            Ok(list) => list,
            Err(e) => return Err(e),
        };
        let ghost start = texts(list@);
        let mut i: usize = 0;
        while i < names.len()
            invariant
                i <= names.len(),
                texts(list@) == merged(start, str_texts(names@).take(i as int)),
            decreases names.len() - i,
        {
            proof {
                let next = str_texts(names@).take(i + 1);
                assert(next.drop_last() =~= str_texts(names@).take(i as int));
                assert(next.last() == names@[i as int]@);
            }
            if !holds_text(&list, names[i]) {
                let ghost front = list@;
                list.push(names[i].to_owned());
                assert(texts(list@) =~= texts(front).push(names@[i as int]@));
            }
            i = i + 1;
        }
        assert(str_texts(names@).take(i as int) =~= str_texts(names@));
        self.write_field(prim, "apiSchemas", Value::TokenListOp(ListOp::prepend(list)));
        Ok(())
    }

    /// Defines an attribute of a prim, with its type and its value.
    pub fn define_attribute(
        &mut self,
        prim: &str,
        name: &str,
        kind: &str,
        value: Value,
        uniform: bool,
    ) -> (r: Result<(), StageError>)
        ensures
            r is Ok <==> crate::path::names_property(prim@, name@),
            match r {
                Ok(()) => final(self)@ == old(self)@.with_attribute(
                    prim@,
                    name@,
                    kind@,
                    value@,
                    uniform,
                ),
                Err(e) => e == StageError::InvalidPath && final(self)@ == old(self)@,
            },
    {
        let path: String = match append_property(prim, name) {
            Ok(path) => path,
            Err(_) => return Err(StageError::InvalidPath),
        };
        let variability: &str = if uniform { "uniform" } else { "varying" };
        self.write_field(path.as_str(), "typeName", Value::Token(kind.to_owned()));
        self.write_field(path.as_str(), "variability", Value::Token(variability.to_owned()));
        self.write_field(path.as_str(), "default", value);
        Ok(())
    }

    /// Defines a relationship of a prim, with its targets.
    pub fn define_relationship(&mut self, prim: &str, name: &str, targets: Vec<String>) -> (r:
        Result<(), StageError>)
        ensures
            r is Ok <==> crate::path::names_property(prim@, name@),
            match r {
                Ok(()) => final(self)@ == old(self)@.with_relationship(
                    prim@,
                    name@,
                    texts(targets@),
                ),
                Err(e) => e == StageError::InvalidPath && final(self)@ == old(self)@,
            },
    {
        let path: String = match append_property(prim, name) {
            Ok(path) => path,
            Err(_) => return Err(StageError::InvalidPath),
        };
        self.write_field(path.as_str(), "targetPaths", Value::PathListOp(ListOp::replace(targets)));
        Ok(())
    }
}

} // verus!
