use bevy_openusd::attributes::read_quat;
use bevy_openusd::ieee::{Double, Single};
use bevy_openusd::stage::{StageData, StageError};
use bevy_openusd::value::Value;
use bevy_openusd::xform::{
    build_op_matrix, decode_op, define_xform, read_transform, set_pose, set_trs, Axis, OpMatrix,
    OpStep, Pose, Transform3,
};

fn single(x: f32) -> Single {
    Single { bits: x.to_bits() }
}

fn double(x: f64) -> Double {
    Double { bits: x.to_bits() }
}

fn triple(x: f64, y: f64, z: f64) -> [Double; 3] {
    [double(x), double(y), double(z)]
}

fn upright() -> [Single; 4] {
    [single(1.0), single(0.0), single(0.0), single(0.0)]
}

fn text(s: &str) -> String {
    s.to_string()
}

#[test]
fn a_pose_that_does_nothing_leaves_no_stack() {
    let mut s = StageData::new();
    assert_eq!(set_pose(&mut s, "/A", &Pose::identity(), upright()), Ok(()));
    assert_eq!(read_transform(&s, "/A"), Ok(None));
    let still = Pose::new(triple(0.0, -0.0, 0.0), triple(-0.0, 0.0, 0.0));
    assert_eq!(set_trs(&mut s, "/A", &still, upright(), Some(triple(1.0, 1.0, 1.0))), Ok(()));
    assert_eq!(read_transform(&s, "/A"), Ok(None));
    // Nothing is authored, so nothing is refused.
    assert_eq!(set_pose(&mut s, "/A.x", &Pose::identity(), upright()), Ok(()));
}

#[test]
fn a_pose_reads_back() {
    let mut s = StageData::new();
    let turn = [single(0.5), single(0.5), single(-0.5), single(0.5)];
    let pose = Pose::new(triple(1.0, 2.0, 3.0), triple(0.0, 0.0, 1.0));
    assert_eq!(define_xform(&mut s, "/", "A", &pose, turn), Ok(text("/A")));
    assert_eq!(s.prim_type("/A"), Ok(Some("Xform")));
    let step = |matrix: OpMatrix| OpStep { matrix, inverted: false };
    let moved = step(OpMatrix::Translate([single(1.0), single(2.0), single(3.0)]));
    let turned = step(OpMatrix::Orient([single(0.5), single(-0.5), single(0.5), single(0.5)]));
    assert_eq!(read_transform(&s, "/A"), Ok(Some(vec![moved, turned])));
    let scale = Some(triple(2.0, 1.0, 1.0));
    assert_eq!(set_trs(&mut s, "/B", &Pose::identity(), turn, scale), Ok(()));
    let scaled = step(OpMatrix::Scale([single(2.0), single(1.0), single(1.0)]));
    assert_eq!(read_transform(&s, "/B"), Ok(Some(vec![scaled])));
    assert_eq!(read_quat(&s, "/B", "xformOp:orient"), Ok(None));
    assert_eq!(set_pose(&mut s, "/A.x", &pose, turn), Err(StageError::InvalidPath));
    assert_eq!(define_xform(&mut s, "/A.x", "B", &pose, turn), Err(StageError::InvalidPath));
}

#[test]
fn the_default_transform_changes_nothing() {
    let t = Transform3::default();
    assert_eq!(t.translate, [single(0.0); 3]);
    assert_eq!(t.rotate, [single(0.0), single(0.0), single(0.0), single(1.0)]);
    assert_eq!(t.scale, [single(1.0); 3]);
}

#[test]
fn operations_are_told_apart_by_their_kind() {
    let v = Value::Vec3f([single(1.0), single(2.0), single(3.0)]);
    let a = [single(1.0), single(2.0), single(3.0)];
    assert_eq!(decode_op("translate", &v), OpMatrix::Translate(a));
    assert_eq!(decode_op("scale", &v), OpMatrix::Scale(a));
    let euler = [
        ("rotateXYZ", [Axis::Z, Axis::Y, Axis::X]),
        ("rotateYXZ", [Axis::Z, Axis::X, Axis::Y]),
        ("rotateZXY", [Axis::Y, Axis::X, Axis::Z]),
        ("rotateXZY", [Axis::Y, Axis::Z, Axis::X]),
        ("rotateYZX", [Axis::X, Axis::Z, Axis::Y]),
        ("rotateZYX", [Axis::X, Axis::Y, Axis::Z]),
    ];
    for (kind, product) in euler {
        assert_eq!(decode_op(kind, &v), OpMatrix::Euler(a, product));
    }
    let numbers = [
        Value::Float(single(90.0)),
        Value::Double(double(90.0)),
        Value::Int(90),
        Value::Int64(90),
    ];
    for x in numbers {
        assert_eq!(decode_op("rotateX", &x), OpMatrix::Rotate(Axis::X, single(90.0)));
        assert_eq!(decode_op("rotateY", &x), OpMatrix::Rotate(Axis::Y, single(90.0)));
        assert_eq!(decode_op("rotateZ", &x), OpMatrix::Rotate(Axis::Z, single(90.0)));
    }
    let q = Value::Quatd([double(1.0), double(2.0), double(3.0), double(4.0)]);
    assert_eq!(
        decode_op("orient", &q),
        OpMatrix::Orient([single(2.0), single(3.0), single(4.0), single(1.0)])
    );
    let mut m = [double(0.0); 16];
    m[12] = double(0.1);
    let mut n = [single(0.0); 16];
    n[12] = single(0.1);
    assert_eq!(decode_op("transform", &Value::Matrix4d(m)), OpMatrix::Transform(n));
    assert_eq!(decode_op("shear", &v), OpMatrix::Identity);
}

#[test]
fn values_of_the_wrong_type_change_nothing() {
    let v = Value::Bool(true);
    assert_eq!(decode_op("translate", &v), OpMatrix::Translate([single(0.0); 3]));
    assert_eq!(decode_op("scale", &v), OpMatrix::Scale([single(1.0); 3]));
    assert_eq!(decode_op("rotateX", &v), OpMatrix::Rotate(Axis::X, single(0.0)));
    assert_eq!(
        decode_op("orient", &v),
        OpMatrix::Orient([single(0.0), single(0.0), single(0.0), single(1.0)])
    );
    assert_eq!(decode_op("transform", &v), OpMatrix::Identity);
}

#[test]
fn suffixes_and_inversion_are_read_off_the_token() {
    let mut s = StageData::new();
    let v = Value::Vec3d(triple(0.0, 1.0, 0.0));
    s.define_attribute("/A", "xformOp:translate:pivot", "double3", v, false).unwrap();
    let moved = OpMatrix::Translate([single(0.0), single(1.0), single(0.0)]);
    assert_eq!(
        build_op_matrix(&s, "/A", "xformOp:translate:pivot"),
        Ok(OpStep { matrix: moved, inverted: false })
    );
    assert_eq!(
        build_op_matrix(&s, "/A", "!invert!xformOp:translate:pivot"),
        Ok(OpStep { matrix: moved, inverted: true })
    );
    assert_eq!(
        build_op_matrix(&s, "/A", "!invert!xformOp:translate"),
        Ok(OpStep { matrix: OpMatrix::Identity, inverted: false })
    );
    assert_eq!(build_op_matrix(&s, "/A", "!invert!"), Err(StageError::InvalidPath));
    s.define_attribute("/A", "rotateX", "float", Value::Float(single(1.0)), false).unwrap();
    assert_eq!(
        build_op_matrix(&s, "/A", "rotateX"),
        Ok(OpStep { matrix: OpMatrix::Rotate(Axis::X, single(1.0)), inverted: false })
    );
}

#[test]
fn stacks_of_strings_are_read_and_others_are_not() {
    let mut s = StageData::new();
    let list = vec![text("xformOp:rotateX")];
    s.define_attribute("/A", "xformOpOrder", "string[]", Value::StringVec(list), true).unwrap();
    let nothing = OpStep { matrix: OpMatrix::Identity, inverted: false };
    assert_eq!(read_transform(&s, "/A"), Ok(Some(vec![nothing])));
    s.define_attribute("/B", "xformOpOrder", "bool", Value::Bool(true), true).unwrap();
    assert_eq!(read_transform(&s, "/B"), Ok(None));
    s.define_attribute("/C", "xformOpOrder", "token[]", Value::TokenVec(vec![]), true).unwrap();
    assert_eq!(read_transform(&s, "/C"), Ok(Some(vec![])));
    let list = vec![text("xformOp:rotateX"), text("")];
    s.define_attribute("/D", "xformOpOrder", "token[]", Value::TokenVec(list), true).unwrap();
    assert_eq!(read_transform(&s, "/D"), Err(StageError::InvalidPath));
    assert_eq!(read_transform(&s, "/D.x"), Err(StageError::InvalidPath));
}
