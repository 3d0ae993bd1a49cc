//! Transforms: authoring a pose, and reading the stack of transform operations
//! of a prim.
//!
//! A stack is read as a list of steps, each of which is one matrix. Multiplying
//! them is arithmetic on numbers, which is left to the caller.

use crate::attributes::{to_quat, to_vec3, value_to_quat, value_to_vec3};
use crate::ieee::{Double, Single, DOUBLE_ONE, SINGLE_ONE};
use crate::path::{child_of, is_property, is_property_path};
use crate::stage::{defines_prim, StageData, StageError, StageView};
use crate::text::{
    after_prefix, same_text, segment_before, strip_prefix, texts, until,
};
use crate::tokens::T_XFORM;
use crate::value::{Value, ValueView};
use vstd::prelude::*;

verus! {

/// Where something is: a position, and the angles (in radians) of its turns
/// about the three axes.
#[derive(Debug, Clone, Copy)]
pub struct Pose {
    pub xyz: [Double; 3],
    pub rpy: [Double; 3],
}

/// A vector of three zeros.
pub open spec fn zeros() -> [Double; 3] {
    [Double { bits: 0 }, Double { bits: 0 }, Double { bits: 0 }]
}

impl Pose {
    /// The pose that moves and turns nothing.
    pub fn identity() -> (r: Pose)
        ensures
            r == (Pose { xyz: zeros(), rpy: zeros() }),
    {
        let zero: Double = Double { bits: 0 };
        Pose { xyz: [zero, zero, zero], rpy: [zero, zero, zero] }
    }

    pub fn new(xyz: [Double; 3], rpy: [Double; 3]) -> (r: Pose)
        ensures
            r == (Pose { xyz, rpy }),
    {
        Pose { xyz, rpy }
    }
}

/// Whether every entry of a vector is a given number.
pub open spec fn all_are(v: [Double; 3], x: Double) -> bool {
    v[0].same(x) && v[1].same(x) && v[2].same(x)
}

fn every_entry_is(v: &[Double; 3], x: Double) -> (r: bool)
    ensures
        r == all_are(*v, x),
{
    v[0].equals(x) && v[1].equals(x) && v[2].equals(x)
}

/// Whether a pose moves.
pub open spec fn moves(pose: Pose) -> bool {
    !all_are(pose.xyz, Double { bits: 0 })
}

/// Whether a pose turns.
pub open spec fn turns(pose: Pose) -> bool {
    !all_are(pose.rpy, Double { bits: 0 })
}

/// Whether a scale changes a size.
pub open spec fn scales(scale: Option<[Double; 3]>) -> bool {
    scale matches Some(s) && !all_are(s, Double { bits: DOUBLE_ONE })
}

/// The operations that a pose and a scale amount to: those that do something.
pub open spec fn trs_order(pose: Pose, scale: Option<[Double; 3]>) -> Seq<Seq<char>> {
    (if moves(pose) {
        seq!["xformOp:translate"@]
    } else {
        seq![]
    }) + (if turns(pose) {
        seq!["xformOp:orient"@]
    } else {
        seq![]
    }) + (if scales(scale) {
        seq!["xformOp:scale"@]
    } else {
        seq![]
    })
}

impl StageView {
    /// The stage after a pose and a scale have been authored on a prim.
    pub open spec fn with_trs(
        self,
        prim: Seq<char>,
        pose: Pose,
        orient: [Single; 4],
        scale: Option<[Double; 3]>,
    ) -> StageView {
        let s1 = if moves(pose) {
            self.with_attribute(
                prim,
                "xformOp:translate"@,
                "double3"@,
                ValueView::Vec3d(pose.xyz),
                false,
            )
        } else {
            self
        };
        let s2 = if turns(pose) {
            s1.with_attribute(prim, "xformOp:orient"@, "quatf"@, ValueView::Quatf(orient), false)
        } else {
            s1
        };
        let s3 = if scales(scale) {
            s2.with_attribute(
                prim,
                "xformOp:scale"@,
                "double3"@,
                ValueView::Vec3d(scale->0),
                false,
            )
        } else {
            s2
        };
        if trs_order(pose, scale).len() > 0 {
            s3.with_attribute(
                prim,
                "xformOpOrder"@,
                "token[]"@,
                ValueView::TokenVec(trs_order(pose, scale)),
                true,
            )
        } else {
            s3
        }
    }
}

/// Authors a pose on a prim; an operation that does nothing is left out.
///
/// `orient` is the quaternion of the pose's turns, its real part first.
pub fn set_pose(stage: &mut StageData, prim: &str, pose: &Pose, orient: [Single; 4]) -> (r: Result<
    (),
    StageError,
>)
    ensures
        if is_property(prim@) && trs_order(*pose, None).len() > 0 {
            r == Err::<(), _>(StageError::InvalidPath) && final(stage)@ == old(stage)@
        } else {
            r is Ok && final(stage)@ == old(stage)@.with_trs(prim@, *pose, orient, None)
        },
{
    set_trs(stage, prim, pose, orient, None)
}

/// The lengths of the names that a pose is authored under.
proof fn lemma_trs_names()
    ensures
        "xformOp:translate"@.len() == 17,
        "xformOp:orient"@.len() == 14,
        "xformOp:scale"@.len() == 13,
        "xformOpOrder"@.len() == 12,
{
    reveal_strlit("xformOp:translate");
    reveal_strlit("xformOp:orient");
    reveal_strlit("xformOp:scale");
    reveal_strlit("xformOpOrder");
}

/// Authors a pose and a scale on a prim; an operation that does nothing is left
/// out.
///
/// `orient` is the quaternion of the pose's turns, its real part first.
pub fn set_trs(
    stage: &mut StageData,
    prim: &str,
    pose: &Pose,
    orient: [Single; 4],
    scale: Option<[Double; 3]>,
) -> (r: Result<(), StageError>)
    ensures
        if is_property(prim@) && trs_order(*pose, scale).len() > 0 {
            r == Err::<(), _>(StageError::InvalidPath) && final(stage)@ == old(stage)@
        } else {
            r is Ok && final(stage)@ == old(stage)@.with_trs(prim@, *pose, orient, scale)
        },
{
    let zero: Double = Double { bits: 0 };
    let moving: bool = !every_entry_is(&pose.xyz, zero);
    let turning: bool = !every_entry_is(&pose.rpy, zero);
    let scaling: bool = match &scale {
        Some(s) => !every_entry_is(s, Double { bits: DOUBLE_ONE }),
        None => false,
    };
    proof {
        lemma_trs_names();
    }
    if !moving && !turning && !scaling {
        return Ok(());
    }
    if is_property_path(prim) {
        return Err(StageError::InvalidPath);
    }
    let mut order: Vec<String> = Vec::new();
    if moving {
        stage.define_attribute(
            prim,
            "xformOp:translate",
            "double3",
            Value::Vec3d(pose.xyz),
            false,
        )?;
        order.push("xformOp:translate".to_owned());
    }
    if turning {
        stage.define_attribute(prim, "xformOp:orient", "quatf", Value::Quatf(orient), false)?;
        order.push("xformOp:orient".to_owned());
    }
    if scaling {
        if let Some(s) = scale {
            stage.define_attribute(prim, "xformOp:scale", "double3", Value::Vec3d(s), false)?;
            order.push("xformOp:scale".to_owned());
        }
    }
    assert(texts(order@) =~= trs_order(*pose, scale));
    stage.define_attribute(prim, "xformOpOrder", "token[]", Value::TokenVec(order), true)
}

/// Defines a transform below `parent`, with a pose, and returns its path.
///
/// `orient` is the quaternion of the pose's turns, its real part first.
pub fn define_xform(
    stage: &mut StageData,
    parent: &str,
    name: &str,
    pose: &Pose,
    orient: [Single; 4],
) -> (r: Result<String, StageError>)
    ensures
        if !defines_prim(parent@, name@) {
            r == Err::<String, _>(StageError::InvalidPath) && final(stage)@ == old(stage)@
        } else {
            let path = child_of(parent@, name@);
            &&& r matches Ok(p) && p@ == path
            &&& final(stage)@ == old(stage)@.with_prim(path, T_XFORM@).with_trs(
                path,
                *pose,
                orient,
                None,
            )
        },
{
    let path: String = stage.define_prim(parent, name, T_XFORM)?;
    set_pose(stage, path.as_str(), pose, orient)?;
    Ok(path)
}

/// A position, a rotation and a size.
#[derive(Debug, Clone, Copy, PartialEq)]
pub struct Transform3 {
    pub translate: [Single; 3],
    /// The rotation, as a quaternion with its real part last.
    pub rotate: [Single; 4],
    pub scale: [Single; 3],
}

impl Default for Transform3 {
    /// The transform that changes nothing.
    fn default() -> (r: Transform3)
        ensures
            r.translate == [Single { bits: 0 }, Single { bits: 0 }, Single { bits: 0 }],
            r.rotate == [
                Single { bits: 0 },
                Single { bits: 0 },
                Single { bits: 0 },
                Single { bits: SINGLE_ONE },
            ],
            r.scale == [
                Single { bits: SINGLE_ONE },
                Single { bits: SINGLE_ONE },
                Single { bits: SINGLE_ONE },
            ],
    {
        let zero: Single = Single { bits: 0 };
        let one: Single = Single { bits: SINGLE_ONE };
        Transform3 {
            translate: [zero, zero, zero],
            rotate: [zero, zero, zero, one],
            scale: [one, one, one],
        }
    }
}

/// A coordinate axis.
#[derive(Debug, Clone, Copy, PartialEq, Eq, Structural)]
pub enum Axis {
    X,
    Y,
    Z,
}

impl Axis {
    /// The letter of an axis.
    pub open spec fn letter(self) -> char {
        match self {
            Axis::X => 'X',
            Axis::Y => 'Y',
            Axis::Z => 'Z',
        }
    }
}

/// The matrix of one transform operation.
#[derive(Debug, Clone, Copy, PartialEq)]
pub enum OpMatrix {
    Identity,
    Translate([Single; 3]),
    Scale([Single; 3]),
    /// A rotation by a quaternion with its real part last.
    Orient([Single; 4]),
    /// A rotation about one axis, by degrees.
    Rotate(Axis, Single),
    /// Rotations about the three axes, by the degrees given for the first,
    /// second and third axis: the product of their matrices, in the order
    /// listed.
    Euler([Single; 3], [Axis; 3]),
    /// The sixteen entries, column after column.
    Transform([Single; 16]),
}

/// One factor of a transform: a matrix, or its inverse.
#[derive(Debug, Clone, Copy, PartialEq)]
pub struct OpStep {
    pub matrix: OpMatrix,
    pub inverted: bool,
}

/// A number of degrees, narrowed where it is a double or an integer.
pub open spec fn to_degrees(v: ValueView) -> Single {
    match v {
        ValueView::Float(x) => x,
        ValueView::Double(x) => x.nearest(),
        ValueView::Int(i) => Single::nearest_int(i as i64),
        ValueView::Int64(i) => Single::nearest_int(i),
        _ => Single { bits: 0 },
    }
}

/// A vector, or one of which every entry is `x`.
pub open spec fn vector_or(v: ValueView, x: Single) -> [Single; 3] {
    match to_vec3(Some(v)) {
        Some(a) => a,
        None => [x, x, x],
    }
}

/// The matrix that an entry list stands for.
pub open spec fn to_matrix(v: ValueView) -> OpMatrix {
    match v {
        ValueView::Matrix4d(m) => OpMatrix::Transform(narrowed(m)),
        _ => OpMatrix::Identity,
    }
}

/// Sixteen numbers, each narrowed.
pub open spec fn narrowed(m: [Double; 16]) -> [Single; 16] {
    [
        m[0].nearest(),
        m[1].nearest(),
        m[2].nearest(),
        m[3].nearest(),
        m[4].nearest(),
        m[5].nearest(),
        m[6].nearest(),
        m[7].nearest(),
        m[8].nearest(),
        m[9].nearest(),
        m[10].nearest(),
        m[11].nearest(),
        m[12].nearest(),
        m[13].nearest(),
        m[14].nearest(),
        m[15].nearest(),
    ]
}

/// A quaternion with its real part last, from one with it first.
pub open spec fn real_last(q: Option<[Single; 4]>) -> [Single; 4] {
    match q {
        Some(q) => [q[1], q[2], q[3], q[0]],
        None => [
            Single { bits: 0 },
            Single { bits: 0 },
            Single { bits: 0 },
            Single { bits: SINGLE_ONE },
        ],
    }
}

/// The order in which the matrices of an operation on three axes are
/// multiplied. The operation names the axes in the order in which they are
/// turned about, and the first turn is the last factor.
pub open spec fn euler_product(kind: Seq<char>) -> Option<[Axis; 3]> {
    if kind == "rotateXYZ"@ {
        Some([Axis::Z, Axis::Y, Axis::X])
    } else if kind == "rotateYXZ"@ {
        Some([Axis::Z, Axis::X, Axis::Y])
    } else if kind == "rotateZXY"@ {
        Some([Axis::Y, Axis::X, Axis::Z])
    } else if kind == "rotateXZY"@ {
        Some([Axis::Y, Axis::Z, Axis::X])
    } else if kind == "rotateYZX"@ {
        Some([Axis::X, Axis::Z, Axis::Y])
    } else if kind == "rotateZYX"@ {
        Some([Axis::X, Axis::Y, Axis::Z])
    } else {
        None
    }
}

/// The matrix of an operation of a kind on a value. A value of the wrong type
/// changes nothing, and neither does an operation of no known kind.
pub open spec fn op_matrix(kind: Seq<char>, v: ValueView) -> OpMatrix {
    if kind == "translate"@ {
        OpMatrix::Translate(vector_or(v, Single { bits: 0 }))
    } else if kind == "scale"@ {
        OpMatrix::Scale(vector_or(v, Single { bits: SINGLE_ONE }))
    } else if kind == "orient"@ {
        OpMatrix::Orient(real_last(to_quat(Some(v))))
    } else if kind == "rotateX"@ {
        OpMatrix::Rotate(Axis::X, to_degrees(v))
    } else if kind == "rotateY"@ {
        OpMatrix::Rotate(Axis::Y, to_degrees(v))
    } else if kind == "rotateZ"@ {
        OpMatrix::Rotate(Axis::Z, to_degrees(v))
    } else if kind == "transform"@ {
        to_matrix(v)
    } else {
        match euler_product(kind) {
            Some(product) => OpMatrix::Euler(vector_or(v, Single { bits: 0 }), product),
            None => OpMatrix::Identity,
        }
    }
}

/// The kind of the operation that an attribute holds: the part of its name
/// behind `xformOp:`, up to the next colon.
pub open spec fn op_kind(name: Seq<char>) -> Seq<char> {
    until(
        match after_prefix(name, "xformOp:"@) {
            Some(rest) => rest,
            None => name,
        },
        ':',
    )
}

/// The attribute that a token of the stack is about.
pub open spec fn op_attribute(token: Seq<char>) -> Seq<char> {
    match after_prefix(token, "!invert!"@) {
        Some(name) => name,
        None => token,
    }
}

/// The step that a token of the stack is. An attribute without a value is the
/// identity.
pub open spec fn op_step(s: StageView, prim: Seq<char>, token: Seq<char>) -> Result<
    OpStep,
    StageError,
> {
    let name = op_attribute(token);
    match s.attribute(prim, name) {
        Err(e) => Err(e),
        Ok(None) => Ok(OpStep { matrix: OpMatrix::Identity, inverted: false }),
        Ok(Some(v)) => Ok(
            OpStep {
                matrix: op_matrix(op_kind(name), v),
                inverted: after_prefix(token, "!invert!"@) is Some,
            },
        ),
    }
}

/// The steps that the tokens of a stack are, or the error of the first that
/// cannot be read.
pub open spec fn op_steps(s: StageView, prim: Seq<char>, tokens: Seq<Seq<char>>) -> Result<
    Seq<OpStep>,
    StageError,
>
    decreases tokens.len(),
{
    if tokens.len() == 0 {
        Ok(seq![])
    } else {
        match op_steps(s, prim, tokens.drop_last()) {
            Err(e) => Err(e),
            Ok(front) => match op_step(s, prim, tokens.last()) {
                Err(e) => Err(e),
                Ok(step) => Ok(front.push(step)),
            },
        }
    }
}

/// The stack of a prim, where it has one.
pub open spec fn op_order(v: Option<ValueView>) -> Option<Seq<Seq<char>>> {
    match v {
        Some(ValueView::TokenVec(list)) => Some(list),
        Some(ValueView::StringVec(list)) => Some(list),
        _ => None,
    }
}

fn value_to_degrees(v: &Value) -> (r: Single)
    ensures
        r == to_degrees(v@),
{
    match v {
        Value::Float(x) => *x,
        Value::Double(x) => x.narrow(),
        Value::Int(i) => Single::from_int(*i as i64),
        Value::Int64(i) => Single::from_int(*i),
        _ => Single { bits: 0 },
    }
}

fn value_to_vector_or(v: &Value, x: Single) -> (r: [Single; 3])
    ensures
        r == vector_or(v@, x),
{
    match value_to_vec3(Some(v)) {
        Some(a) => a,
        None => [x, x, x],
    }
}

fn value_to_matrix(v: &Value) -> (r: OpMatrix)
    ensures
        r == to_matrix(v@),
{
    match v {
        Value::Matrix4d(m) => {
            let narrow: [Single; 16] = [
                m[0].narrow(),
                m[1].narrow(),
                m[2].narrow(),
                m[3].narrow(),
                m[4].narrow(),
                m[5].narrow(),
                m[6].narrow(),
                m[7].narrow(),
                m[8].narrow(),
                m[9].narrow(),
                m[10].narrow(),
                m[11].narrow(),
                m[12].narrow(),
                m[13].narrow(),
                m[14].narrow(),
                m[15].narrow(),
            ];
            OpMatrix::Transform(narrow)
        },
        _ => OpMatrix::Identity,
    }
}

fn read_euler_product(kind: &str) -> (r: Option<[Axis; 3]>)
    ensures
        r == euler_product(kind@),
{
    if same_text(kind, "rotateXYZ") {
        Some([Axis::Z, Axis::Y, Axis::X])
    } else if same_text(kind, "rotateYXZ") {
        Some([Axis::Z, Axis::X, Axis::Y])
    } else if same_text(kind, "rotateZXY") {
        Some([Axis::Y, Axis::X, Axis::Z])
    } else if same_text(kind, "rotateXZY") {
        Some([Axis::Y, Axis::Z, Axis::X])
    } else if same_text(kind, "rotateYZX") {
        Some([Axis::X, Axis::Z, Axis::Y])
    } else if same_text(kind, "rotateZYX") {
        Some([Axis::X, Axis::Y, Axis::Z])
    } else {
        None
    }
}

/// The matrix of an operation of a kind on a value.
pub fn decode_op(kind: &str, v: &Value) -> (r: OpMatrix)
    ensures
        r == op_matrix(kind@, v@),
{
    let zero: Single = Single { bits: 0 };
    let one: Single = Single { bits: SINGLE_ONE };
    if same_text(kind, "translate") {
        OpMatrix::Translate(value_to_vector_or(v, zero))
    } else if same_text(kind, "scale") {
        OpMatrix::Scale(value_to_vector_or(v, one))
    } else if same_text(kind, "orient") {
        let q: [Single; 4] = match value_to_quat(Some(v)) {
            Some(q) => [q[1], q[2], q[3], q[0]],
            None => [zero, zero, zero, one],
        };
        OpMatrix::Orient(q)
    } else if same_text(kind, "rotateX") {
        OpMatrix::Rotate(Axis::X, value_to_degrees(v))
    } else if same_text(kind, "rotateY") {
        OpMatrix::Rotate(Axis::Y, value_to_degrees(v))
    } else if same_text(kind, "rotateZ") {
        OpMatrix::Rotate(Axis::Z, value_to_degrees(v))
    } else if same_text(kind, "transform") {
        value_to_matrix(v)
    } else {
        match read_euler_product(kind) {
            Some(product) => OpMatrix::Euler(value_to_vector_or(v, zero), product),
            None => OpMatrix::Identity,
        }
    }
}

/// Reads the step that a token of a prim's stack is.
pub fn build_op_matrix(stage: &StageData, prim: &str, op_token: &str) -> (r: Result<
    OpStep,
    StageError,
>)
    ensures
        r == op_step(stage@, prim@, op_token@),
{
    let (inverted, base): (bool, &str) = match strip_prefix(op_token, "!invert!") {
        Some(stripped) => (true, stripped),
        None => (false, op_token),
    };
    match stage.attribute(prim, base)? {
        None => Ok(OpStep { matrix: OpMatrix::Identity, inverted: false }),
        Some(v) => {
            let rest: &str = match strip_prefix(base, "xformOp:") {
                Some(rest) => rest,
                None => base,
            };
            Ok(OpStep { matrix: decode_op(segment_before(rest, ':'), v), inverted })
        },
    }
}

/// Reads the stack of transform operations of a prim: the factors of its
/// transform, the outermost one first. A prim without a stack has none.
pub fn read_transform(stage: &StageData, prim: &str) -> (r: Result<
    Option<Vec<OpStep>>,
    StageError,
>)
    ensures
        match stage@.attribute(prim@, "xformOpOrder"@) {
            Err(e) => r == Err::<Option<Vec<OpStep>>, _>(e),
            Ok(v) => match op_order(v) {
                None => r == Ok::<Option<Vec<OpStep>>, StageError>(None),
                Some(tokens) => match op_steps(stage@, prim@, tokens) {
                    Err(e) => r == Err::<Option<Vec<OpStep>>, _>(e),
                    Ok(steps) => r matches Ok(Some(list)) && list@ == steps,
                },
            },
        },
{
    let order: &Vec<String> = match stage.attribute(prim, "xformOpOrder")? {
        Some(Value::TokenVec(list)) => list,
        Some(Value::StringVec(list)) => list,
        _ => return Ok(None),
    };
    let ghost tokens = texts(order@);
    let mut out: Vec<OpStep> = Vec::new();
    let mut i: usize = 0;
    while i < order.len()
        invariant
            i <= order.len(),
            tokens == texts(order@),
            stage@.attribute(prim@, "xformOpOrder"@) matches Ok(v) && op_order(v) == Some(tokens),
            op_steps(stage@, prim@, tokens.take(i as int)) == Ok::<Seq<OpStep>, StageError>(out@),
        decreases order.len() - i,
    {
        let ghost here = tokens.take(i + 1);
        proof {
            assert(here.drop_last() =~= tokens.take(i as int));
            assert(here.last() == order@[i as int]@);
        }
        match build_op_matrix(stage, prim, order[i].as_str()) {
            Ok(step) => out.push(step),
            Err(e) => {
                proof {
                    lemma_first_error(stage@, prim@, tokens, i + 1);
                }
                return Err(e);
            },
        }
        i = i + 1;
    }
    assert(tokens.take(i as int) =~= tokens);
    Ok(Some(out))
}

/// Where the first `n` tokens cannot all be read, the whole stack fails with
/// the same error.
proof fn lemma_first_error(s: StageView, prim: Seq<char>, tokens: Seq<Seq<char>>, n: int)
    requires
        0 <= n <= tokens.len(),
        op_steps(s, prim, tokens.take(n)) is Err,
    ensures
        op_steps(s, prim, tokens) == op_steps(s, prim, tokens.take(n)),
    decreases tokens.len(),
{
    if n == tokens.len() {
        assert(tokens.take(n) =~= tokens);
    } else {
        assert(tokens.drop_last().take(n) =~= tokens.take(n));
        lemma_first_error(s, prim, tokens.drop_last(), n);
    }
}

} // verus!
