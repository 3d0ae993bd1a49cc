use bevy_openusd::attributes::{
    read_bool, read_first_target, read_quat, read_scalar, read_targets, read_token, read_vec3,
    value_to_quat, value_to_vec3,
};
use bevy_openusd::capture::{assemble, PrimAnswers, PropertyAnswers};
use bevy_openusd::ieee::{Double, Single};
use bevy_openusd::stage::{FieldRead, StageData, StageError};
use bevy_openusd::value::{ListOp, Value};

fn single(x: f32) -> Single {
    Single { bits: x.to_bits() }
}

fn double(x: f64) -> Double {
    Double { bits: x.to_bits() }
}

fn text(s: &str) -> String {
    s.to_string()
}

fn token(s: &str) -> Option<Value> {
    Some(Value::Token(text(s)))
}

fn read(path: &str, field: &str, content: Option<Value>) -> FieldRead {
    FieldRead { path: text(path), field: text(field), content }
}

#[test]
fn a_new_stage_is_empty() {
    let s = StageData::new();
    assert!(s.prims().is_empty());
    assert!(s.is_complete());
    assert!(matches!(s.field("/A", "typeName"), Ok(None)));
    assert_eq!(s.prim_type("/A"), Ok(None));
    assert_eq!(s.api_schemas("/A"), Ok(vec![]));
    assert_eq!(s.targets("/A", "rel"), Ok(vec![]));
}

#[test]
fn a_prim_reads_back() {
    let mut s = StageData::new();
    assert_eq!(s.define_prim("/", "World", "Xform"), Ok(text("/World")));
    assert_eq!(s.define_prim("/World", "Arm", "Mesh"), Ok(text("/World/Arm")));
    assert_eq!(s.prim_type("/World"), Ok(Some("Xform")));
    assert_eq!(s.prim_type("/World/Arm"), Ok(Some("Mesh")));
    assert_eq!(s.prims(), &vec![text("/World"), text("/World/Arm")]);
    // Defining a prim again gives it another type and lists it once.
    assert_eq!(s.define_prim("/", "World", "Scope"), Ok(text("/World")));
    assert_eq!(s.prim_type("/World"), Ok(Some("Scope")));
    assert_eq!(s.prims().len(), 2);
}

#[test]
fn the_name_dot_stands_for_the_parent() {
    let mut s = StageData::new();
    assert_eq!(s.define_prim("/World", ".", "Xform"), Ok(text("/World")));
}

#[test]
fn prims_that_have_no_path_are_refused() {
    let mut s = StageData::new();
    assert_eq!(s.define_prim("/World", "/Arm", "Xform"), Err(StageError::InvalidPath));
    assert_eq!(s.define_prim("/World.size", "Arm", "Xform"), Err(StageError::InvalidPath));
    assert_eq!(s.define_prim("/World", "Arm.size", "Xform"), Err(StageError::InvalidPath));
    assert!(s.prims().is_empty());
    assert_eq!(s.prim_type("/World/Arm.size"), Ok(None));
}

#[test]
fn paths_end_in_a_property_by_their_last_name() {
    let mut s = StageData::new();
    for property in ["/A.size", "/A.physics:mass", "/A.b.c_2", "/A.gr\u{f6}\u{df}e", "/A-.b"] {
        assert_eq!(s.apply_api_schemas(property, &["Z"]), Err(StageError::InvalidPath));
    }
    for prim in ["/A", "/A.", "/A.b-c", "/A.size/B", "/A.b c", "/A.\u{2192}", ""] {
        assert_eq!(s.apply_api_schemas(prim, &["Z"]), Ok(()));
    }
}

#[test]
fn an_attribute_reads_back() {
    let mut s = StageData::new();
    assert_eq!(s.define_attribute("/A", "size", "float", Value::Float(single(2.0)), false), Ok(()));
    assert_eq!(read_scalar(&s, "/A", "size"), Ok(Some(single(2.0))));
    assert!(matches!(s.field("/A.size", "typeName"), Ok(Some(Value::Token(t))) if t == "float"));
    assert!(matches!(s.field("/A.size", "variability"), Ok(Some(Value::Token(t))) if t == "varying"));
    assert_eq!(s.define_attribute("/A", "size", "double", Value::Double(double(0.5)), true), Ok(()));
    assert_eq!(read_scalar(&s, "/A", "size"), Ok(Some(single(0.5))));
    assert!(matches!(s.field("/A.size", "variability"), Ok(Some(Value::Token(t))) if t == "uniform"));
    assert!(matches!(s.attribute("/A", "other"), Ok(None)));
    assert!(matches!(s.attribute("/B", "size"), Ok(None)));
}

#[test]
fn attributes_that_have_no_path_are_refused() {
    let mut s = StageData::new();
    for (prim, name) in [("/A", ""), ("/A", "."), ("/A.size", "more")] {
        let done = s.define_attribute(prim, name, "bool", Value::Bool(true), false);
        assert_eq!(done, Err(StageError::InvalidPath));
        assert!(matches!(s.attribute(prim, name), Err(StageError::InvalidPath)));
        assert_eq!(s.define_relationship(prim, name, vec![]), Err(StageError::InvalidPath));
        assert_eq!(s.targets(prim, name), Err(StageError::InvalidPath));
    }
    assert_eq!(read_scalar(&s, "/A.size", "more"), Err(StageError::InvalidPath));
}

#[test]
fn a_relationship_reads_back() {
    let mut s = StageData::new();
    let targets = vec![text("/B"), text("/C"), text("/B")];
    assert_eq!(s.define_relationship("/A", "rel", targets.clone()), Ok(()));
    assert_eq!(read_targets(&s, "/A", "rel"), Ok(targets));
    assert_eq!(read_first_target(&s, "/A", "rel"), Ok(Some(text("/B"))));
    assert_eq!(read_first_target(&s, "/A", "other"), Ok(None));
}

#[test]
fn schemas_are_applied_once_each() {
    let mut s = StageData::new();
    assert_eq!(s.apply_api_schemas("/A", &["X", "Y", "X"]), Ok(()));
    assert_eq!(s.api_schemas("/A"), Ok(vec![text("X"), text("Y")]));
    assert_eq!(s.apply_api_schemas("/A", &["Z", "Y"]), Ok(()));
    assert_eq!(s.api_schemas("/A"), Ok(vec![text("X"), text("Y"), text("Z")]));
    assert_eq!(s.apply_api_schemas("/A", &["Z", "Y"]), Ok(()));
    assert_eq!(s.api_schemas("/A"), Ok(vec![text("X"), text("Y"), text("Z")]));
    assert_eq!(s.apply_api_schemas("/A.size", &["Z"]), Err(StageError::InvalidPath));
    assert_eq!(s.api_schemas("/A.size"), Ok(vec![]));
}

#[test]
fn schemas_that_cannot_be_read_are_not_replaced() {
    let reads = vec![read("/A", "apiSchemas", None)];
    let mut s = StageData::from_reads(vec![text("/A")], true, reads);
    assert_eq!(s.api_schemas("/A"), Err(StageError::Unreadable));
    assert_eq!(s.apply_api_schemas("/A", &["X"]), Err(StageError::Unreadable));
    assert_eq!(s.api_schemas("/A"), Err(StageError::Unreadable));
}

#[test]
fn list_edits_flatten() {
    let edit = |explicit: bool, e: &[&str], p: &[&str], a: &[&str], d: &[&str]| ListOp {
        explicit,
        explicit_items: e.iter().map(|s| text(s)).collect(),
        prepended_items: p.iter().map(|s| text(s)).collect(),
        appended_items: a.iter().map(|s| text(s)).collect(),
        added_items: d.iter().map(|s| text(s)).collect(),
    };
    let cases = vec![
        (edit(true, &["E"], &["P"], &["A"], &["D"]), vec![text("E")]),
        (edit(false, &["E"], &["P"], &["A"], &["D"]), vec![text("P"), text("A"), text("D")]),
        (edit(false, &[], &["P", "A", "Q"], &["A"], &["P", "D"]), vec![text("Q"), text("A"), text("D")]),
        (edit(false, &[], &["P"], &["A", "A"], &["A", "P"]), vec![text("A"), text("A")]),
    ];
    for (op, expected) in cases {
        let reads = vec![read("/A", "apiSchemas", Some(Value::TokenListOp(op.clone())))];
        let s = StageData::from_reads(vec![], true, reads);
        assert_eq!(s.api_schemas("/A"), Ok(expected.clone()));
        let reads = vec![read("/A.rel", "targetPaths", Some(Value::PathListOp(op)))];
        let s = StageData::from_reads(vec![], true, reads);
        assert_eq!(s.targets("/A", "rel"), Ok(expected));
    }
}

#[test]
fn plain_lists_are_read_too() {
    let reads = vec![
        read("/A", "apiSchemas", Some(Value::TokenVec(vec![text("X"), text("X")]))),
        read("/A.rel", "targetPaths", Some(Value::PathVec(vec![text("/B")]))),
        read("/B", "apiSchemas", Some(Value::Bool(true))),
        read("/B.rel", "targetPaths", Some(Value::Other)),
    ];
    let s = StageData::from_reads(vec![], true, reads);
    assert_eq!(s.api_schemas("/A"), Ok(vec![text("X"), text("X")]));
    assert_eq!(s.targets("/A", "rel"), Ok(vec![text("/B")]));
    assert_eq!(s.api_schemas("/B"), Ok(vec![]));
    assert_eq!(s.targets("/B", "rel"), Ok(vec![]));
}

#[test]
fn values_are_read_as_what_they_stand_for() {
    let one = single(1.0);
    let mut s = StageData::new();
    s.define_attribute("/A", "b", "bool", Value::Bool(false), false).unwrap();
    s.define_attribute("/A", "t", "token", Value::Token(text("x")), false).unwrap();
    s.define_attribute("/A", "s", "string", Value::String(text("y")), false).unwrap();
    s.define_attribute("/A", "v", "float3", Value::Vec3f([one; 3]), false).unwrap();
    s.define_attribute("/A", "vd", "double3", Value::Vec3d([double(1.0); 3]), false).unwrap();
    s.define_attribute("/A", "q", "quatf", Value::Quatf([one; 4]), false).unwrap();
    s.define_attribute("/A", "qd", "quatd", Value::Quatd([double(1.0); 4]), false).unwrap();
    s.define_attribute("/A", "i", "int", Value::Int(3), false).unwrap();
    assert_eq!(read_bool(&s, "/A", "b"), Ok(Some(false)));
    assert_eq!(read_bool(&s, "/A", "t"), Ok(None));
    assert_eq!(read_token(&s, "/A", "t"), Ok(Some(text("x"))));
    assert_eq!(read_token(&s, "/A", "s"), Ok(Some(text("y"))));
    assert_eq!(read_token(&s, "/A", "b"), Ok(None));
    assert_eq!(read_vec3(&s, "/A", "v"), Ok(Some([one; 3])));
    assert_eq!(read_vec3(&s, "/A", "vd"), Ok(Some([one; 3])));
    assert_eq!(read_vec3(&s, "/A", "q"), Ok(None));
    assert_eq!(read_quat(&s, "/A", "q"), Ok(Some([one; 4])));
    assert_eq!(read_quat(&s, "/A", "qd"), Ok(Some([one; 4])));
    assert_eq!(read_quat(&s, "/A", "v"), Ok(None));
    assert_eq!(read_scalar(&s, "/A", "i"), Ok(None));
    assert_eq!(value_to_vec3(None), None);
    assert_eq!(value_to_quat(Some(&Value::Bool(true))), None);
}

#[test]
fn answers_are_assembled_prim_by_prim() {
    let property = |name: &str| PropertyAnswers {
        name: text(name),
        value: Ok(token(name)),
        targets: Err(StageError::Unreadable),
    };
    let answers = vec![
        PrimAnswers {
            path: text("/A"),
            kind: Ok(token("Xform")),
            schemas: Ok(None),
            properties: Some(vec![property("p"), property(""), property("q")]),
        },
        PrimAnswers {
            path: text("/B"),
            kind: Ok(Some(Value::Int(1))),
            schemas: Err(StageError::Unreadable),
            properties: None,
        },
    ];
    let s = assemble(answers, false);
    assert!(!s.is_complete());
    assert_eq!(s.prims(), &vec![text("/A"), text("/B")]);
    assert_eq!(s.prim_type("/A"), Ok(Some("Xform")));
    assert_eq!(s.prim_type("/B"), Err(StageError::NotText));
    assert_eq!(s.api_schemas("/A"), Ok(vec![]));
    assert_eq!(s.api_schemas("/B"), Err(StageError::Unreadable));
    assert_eq!(read_token(&s, "/A", "p"), Ok(Some(text("p"))));
    assert_eq!(read_token(&s, "/A", "q"), Ok(Some(text("q"))));
    assert_eq!(s.targets("/A", "p"), Err(StageError::Unreadable));
    assert!(matches!(s.field("/A.", "default"), Ok(None)));
    assert_eq!(read_token(&s, "/B", "p"), Err(StageError::Unreadable));
    assert!(matches!(s.property_field("/A", "p", "default"), Ok(Some(_))));
}
