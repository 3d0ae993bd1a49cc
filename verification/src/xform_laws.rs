//! What holds of stacks of transform operations.

use crate::attributes::attribute;
use crate::ieee::{Double, Single};
use crate::path::is_property;
use crate::stage::{StageError, StageView};
use crate::stage_laws::{attribute_reads_back, lists_properties};
use crate::text::{after_prefix, until};
use crate::value::ValueView;
use crate::xform::{
    euler_product, moves, op_attribute, op_kind, op_matrix, op_order, op_step, op_steps,
    real_last, scales, to_degrees, trs_order, turns, zeros, Axis, OpMatrix, OpStep, Pose,
};
use vstd::prelude::*;

verus! {

/// An operation that is marked as inverted is about the same attribute as the
/// unmarked one, and is the inverse of the same matrix.
pub proof fn inversion_keeps_the_matrix(s: StageView, prim: Seq<char>, token: Seq<char>)
    requires
        after_prefix(token, "!invert!"@) is None,
        s.attribute(prim, token) matches Ok(Some(_)),
    ensures
        ({
            let plain = op_step(s, prim, token)->Ok_0;
            let marked = op_step(s, prim, "!invert!"@ + token);
            &&& op_step(s, prim, token) is Ok
            &&& !plain.inverted
            &&& marked == Ok::<OpStep, StageError>(
                OpStep { matrix: plain.matrix, inverted: true },
            )
        }),
{
    let prefix = "!invert!"@;
    assert(prefix.is_prefix_of(prefix + token));
    assert((prefix + token).skip(prefix.len() as int) =~= token);
}

/// What stands behind the first colon does not count for what stands before it.
proof fn lemma_until_ignores_the_rest(s: Seq<char>, rest: Seq<char>)
    ensures
        until(s + seq![':'] + rest, ':') == until(s, ':'),
{
    let all = s + seq![':'] + rest;
    all.index_of_first_ensures(':');
    s.index_of_first_ensures(':');
    assert(all[s.len() as int] == ':');
    let i = all.index_of_first(':')->0;
    match s.index_of_first(':') {
        Some(k) => {
            assert(all[k] == ':');
            assert(i <= k);
            if i < k {
                assert(all[i] == s[i]);
            }
            assert(all.take(i) =~= s.take(k));
        },
        None => {
            if i < s.len() {
                assert(all[i] == s[i]);
                assert(s.contains(':'));
            }
            assert(i == s.len());
            assert(all.take(i) =~= s);
        },
    }
}

/// A suffix that is set off by a colon, such as the one of
/// `xformOp:translate:pivot`, does not change the kind of an operation.
pub proof fn suffix_keeps_the_kind(name: Seq<char>, suffix: Seq<char>)
    requires
        after_prefix(name, "xformOp:"@) is Some,
    ensures
        op_kind(name + seq![':'] + suffix) == op_kind(name),
{
    let prefix = "xformOp:"@;
    let long = name + seq![':'] + suffix;
    let rest = name.skip(prefix.len() as int);
    assert(prefix.is_prefix_of(name));
    assert(prefix.is_prefix_of(long)) by {
        assert(long.take(prefix.len() as int) =~= name.take(prefix.len() as int));
    }
    assert(long.skip(prefix.len() as int) =~= rest + seq![':'] + suffix);
    lemma_until_ignores_the_rest(rest, suffix);
}

/// An operation on three axes multiplies their matrices in the reverse of the
/// order in which its name lists them, so that the axis named first is turned
/// about first.
pub proof fn first_named_axis_turns_first(kind: Seq<char>, i: int)
    requires
        euler_product(kind) is Some,
        0 <= i < 3,
    ensures
        euler_product(kind)->0[i].letter() == kind[8 - i],
{
    reveal_strlit("rotateXYZ");
    reveal_strlit("rotateYXZ");
    reveal_strlit("rotateZXY");
    reveal_strlit("rotateXZY");
    reveal_strlit("rotateYZX");
    reveal_strlit("rotateZYX");
    assert(i == 0 || i == 1 || i == 2);
}

/// A stack is read token by token: its steps are those of its tokens, in their
/// order, and where it cannot be read, the first token that cannot be is the one
/// to blame.
pub proof fn stacks_are_read_token_by_token(s: StageView, prim: Seq<char>, tokens: Seq<Seq<char>>)
    ensures
        match op_steps(s, prim, tokens) {
            Ok(steps) => {
                &&& steps.len() == tokens.len()
                &&& forall|i: int|
                    0 <= i < tokens.len() ==> op_step(s, prim, #[trigger] tokens[i]) == Ok::<
                        OpStep,
                        StageError,
                    >(steps[i])
            },
            Err(e) => exists|i: int|
                {
                    &&& 0 <= i < tokens.len()
                    &&& op_step(s, prim, #[trigger] tokens[i]) == Err::<OpStep, StageError>(e)
                    &&& forall|k: int| 0 <= k < i ==> op_step(s, prim, #[trigger] tokens[k]) is Ok
                },
        },
    decreases tokens.len(),
{
    if tokens.len() > 0 {
        let front = tokens.drop_last();
        let last = tokens.len() - 1;
        stacks_are_read_token_by_token(s, prim, front);
        match op_steps(s, prim, front) {
            Ok(steps) => {
                assert forall|i: int| 0 <= i < last implies op_step(s, prim, #[trigger] tokens[i])
                    == Ok::<OpStep, StageError>(steps[i]) by {
                    assert(front[i] == tokens[i]);
                }
                assert(tokens[last] == tokens.last());
            },
            Err(e) => {
                let i = choose|i: int|
                    {
                        &&& 0 <= i < front.len()
                        &&& op_step(s, prim, #[trigger] front[i]) == Err::<OpStep, StageError>(e)
                        &&& forall|k: int|
                            0 <= k < i ==> op_step(s, prim, #[trigger] front[k]) is Ok
                    };
                assert(tokens[i] == front[i]);
                assert forall|k: int| 0 <= k < i implies op_step(
                    s,
                    prim,
                    #[trigger] tokens[k],
                ) is Ok by {
                    assert(front[k] == tokens[k]);
                }
            },
        }
    }
}

/// A name without a colon behind `xformOp:` is its own kind, and is not marked
/// as inverted.
proof fn lemma_plain_kind(name: Seq<char>, kind: Seq<char>)
    requires
        name == "xformOp:"@ + kind,
        !kind.contains(':'),
    ensures
        op_kind(name) == kind,
        op_attribute(name) == name,
        after_prefix(name, "!invert!"@) is None,
{
    reveal_strlit("xformOp:");
    reveal_strlit("!invert!");
    let prefix = "xformOp:"@;
    assert(prefix.is_prefix_of(name));
    assert(name.skip(prefix.len() as int) =~= kind);
    kind.index_of_first_ensures(':');
    assert(name[0] == 'x');
    if "!invert!"@.is_prefix_of(name) {
        assert("!invert!"@[0] == name[0]);
    }
}

/// The names that a pose is authored under, and their kinds.
proof fn lemma_trs_kinds()
    ensures
        op_kind("xformOp:translate"@) == "translate"@,
        op_attribute("xformOp:translate"@) == "xformOp:translate"@,
        after_prefix("xformOp:translate"@, "!invert!"@) is None,
        op_kind("xformOp:orient"@) == "orient"@,
        op_attribute("xformOp:orient"@) == "xformOp:orient"@,
        after_prefix("xformOp:orient"@, "!invert!"@) is None,
        op_kind("xformOp:scale"@) == "scale"@,
        op_attribute("xformOp:scale"@) == "xformOp:scale"@,
        after_prefix("xformOp:scale"@, "!invert!"@) is None,
        "translate"@ != "orient"@ && "translate"@ != "scale"@ && "orient"@ != "scale"@,
        "xformOp:translate"@.len() == 17,
        "xformOp:orient"@.len() == 14,
        "xformOp:scale"@.len() == 13,
        "xformOpOrder"@.len() == 12,
{
    reveal_strlit("xformOp:");
    reveal_strlit("xformOp:translate");
    reveal_strlit("xformOp:orient");
    reveal_strlit("xformOp:scale");
    reveal_strlit("xformOpOrder");
    reveal_strlit("translate");
    reveal_strlit("orient");
    reveal_strlit("scale");
    assert("xformOp:translate"@ =~= "xformOp:"@ + "translate"@);
    assert("xformOp:orient"@ =~= "xformOp:"@ + "orient"@);
    assert("xformOp:scale"@ =~= "xformOp:"@ + "scale"@);
    assert("translate"@.len() == 9 && "orient"@.len() == 6 && "scale"@.len() == 5);
    assert(!"translate"@.contains(':'));
    assert(!"orient"@.contains(':'));
    assert(!"scale"@.contains(':'));
    lemma_plain_kind("xformOp:translate"@, "translate"@);
    lemma_plain_kind("xformOp:orient"@, "orient"@);
    lemma_plain_kind("xformOp:scale"@, "scale"@);
}

/// Three numbers, each narrowed.
pub open spec fn narrowed3(v: [Double; 3]) -> [Single; 3] {
    [v[0].nearest(), v[1].nearest(), v[2].nearest()]
}

/// The steps that a pose and a scale amount to.
pub open spec fn trs_steps(pose: Pose, orient: [Single; 4], scale: Option<[Double; 3]>) -> Seq<
    OpStep,
> {
    (if moves(pose) {
        seq![OpStep { matrix: OpMatrix::Translate(narrowed3(pose.xyz)), inverted: false }]
    } else {
        seq![]
    }) + (if turns(pose) {
        seq![OpStep { matrix: OpMatrix::Orient(real_last(Some(orient))), inverted: false }]
    } else {
        seq![]
    }) + (if scales(scale) {
        seq![OpStep { matrix: OpMatrix::Scale(narrowed3(scale->0)), inverted: false }]
    } else {
        seq![]
    })
}

/// A pose and a scale that have been authored are read as the translation, the
/// rotation and the scaling that they amount to, in this order, each narrowed
/// to singles and left out where it does nothing. Where all three do nothing,
/// nothing is authored.
pub proof fn pose_reads_back(
    s: StageView,
    prim: Seq<char>,
    pose: Pose,
    orient: [Single; 4],
    scale: Option<[Double; 3]>,
)
    requires
        !is_property(prim),
        lists_properties(s, prim),
    ensures
        ({
            let t = s.with_trs(prim, pose, orient, scale);
            if moves(pose) || turns(pose) || scales(scale) {
                &&& op_order(attribute(t, prim, "xformOpOrder"@)) == Some(trs_order(pose, scale))
                &&& t.attribute(prim, "xformOpOrder"@) is Ok
                &&& op_steps(t, prim, trs_order(pose, scale)) == Ok::<Seq<OpStep>, StageError>(
                    trs_steps(pose, orient, scale),
                )
            } else {
                t == s
            }
        }),
{
    lemma_trs_kinds();
    let t = s.with_trs(prim, pose, orient, scale);
    let order = trs_order(pose, scale);
    let translate = ValueView::Vec3d(pose.xyz);
    let turn = ValueView::Quatf(orient);
    let s1 = if moves(pose) {
        s.with_attribute(prim, "xformOp:translate"@, "double3"@, translate, false)
    } else {
        s
    };
    if moves(pose) {
        attribute_reads_back(s, prim, "xformOp:translate"@, "double3"@, translate, false);
    }
    let s2 = if turns(pose) {
        s1.with_attribute(prim, "xformOp:orient"@, "quatf"@, turn, false)
    } else {
        s1
    };
    if turns(pose) {
        attribute_reads_back(s1, prim, "xformOp:orient"@, "quatf"@, turn, false);
    }
    let s3 = if scales(scale) {
        s2.with_attribute(
            prim,
            "xformOp:scale"@,
            "double3"@,
            ValueView::Vec3d(scale->0),
            false,
        )
    } else {
        s2
    };
    if scales(scale) {
        attribute_reads_back(
            s2,
            prim,
            "xformOp:scale"@,
            "double3"@,
            ValueView::Vec3d(scale->0),
            false,
        );
    }
    if moves(pose) || turns(pose) || scales(scale) {
        assert(order.len() > 0);
        attribute_reads_back(
            s3,
            prim,
            "xformOpOrder"@,
            "token[]"@,
            ValueView::TokenVec(order),
            true,
        );
        reveal_with_fuel(op_steps, 4);
        let n = order.len() as int;
        assert(order.drop_last() =~= order.take(n - 1));
        if n > 1 {
            assert(order.drop_last().drop_last() =~= order.take(n - 2));
        }
        if n > 2 {
            assert(order.drop_last().drop_last().drop_last() =~= order.take(0));
        }
        assert(op_steps(t, prim, order)->Ok_0 =~= trs_steps(pose, orient, scale));
    }
}

/// The names of the kinds of operations are all different.
proof fn lemma_kinds_differ()
    ensures
        "translate"@.len() == 9 && "translate"@[0] == 't' && "translate"@[5] == 'l',
        "transform"@.len() == 9 && "transform"@[0] == 't' && "transform"@[5] == 'f',
        "scale"@.len() == 5,
        "orient"@.len() == 6,
        "rotateX"@ == "rotate"@ + seq!['X'],
        "rotateY"@ == "rotate"@ + seq!['Y'],
        "rotateZ"@ == "rotate"@ + seq!['Z'],
        "rotateXYZ"@ == "rotate"@ + seq!['X', 'Y', 'Z'],
        "rotateXZY"@ == "rotate"@ + seq!['X', 'Z', 'Y'],
        "rotateYXZ"@ == "rotate"@ + seq!['Y', 'X', 'Z'],
        "rotateYZX"@ == "rotate"@ + seq!['Y', 'Z', 'X'],
        "rotateZXY"@ == "rotate"@ + seq!['Z', 'X', 'Y'],
        "rotateZYX"@ == "rotate"@ + seq!['Z', 'Y', 'X'],
        "rotate"@.len() == 6 && "rotate"@[0] == 'r',
{
    reveal_strlit("translate");
    reveal_strlit("transform");
    reveal_strlit("scale");
    reveal_strlit("orient");
    reveal_strlit("rotate");
    reveal_strlit("rotateX");
    reveal_strlit("rotateY");
    reveal_strlit("rotateZ");
    reveal_strlit("rotateXYZ");
    reveal_strlit("rotateXZY");
    reveal_strlit("rotateYXZ");
    reveal_strlit("rotateYZX");
    reveal_strlit("rotateZXY");
    reveal_strlit("rotateZYX");
    assert("rotateX"@ =~= "rotate"@ + seq!['X']);
    assert("rotateY"@ =~= "rotate"@ + seq!['Y']);
    assert("rotateZ"@ =~= "rotate"@ + seq!['Z']);
    assert("rotateXYZ"@ =~= "rotate"@ + seq!['X', 'Y', 'Z']);
    assert("rotateXZY"@ =~= "rotate"@ + seq!['X', 'Z', 'Y']);
    assert("rotateYXZ"@ =~= "rotate"@ + seq!['Y', 'X', 'Z']);
    assert("rotateYZX"@ =~= "rotate"@ + seq!['Y', 'Z', 'X']);
    assert("rotateZXY"@ =~= "rotate"@ + seq!['Z', 'X', 'Y']);
    assert("rotateZYX"@ =~= "rotate"@ + seq!['Z', 'Y', 'X']);
}

/// A matrix that is authored is read entry by entry: each entry stands where it
/// stood, and is the single nearest to it. A value of another type is the identity.
pub proof fn matrices_keep_their_entries(m: [Double; 16], v: ValueView)
    ensures
        op_matrix("transform"@, ValueView::Matrix4d(m)) is Transform,
        forall|i: int|
            0 <= i < 16 ==> #[trigger] op_matrix(
                "transform"@,
                ValueView::Matrix4d(m),
            )->Transform_0[i] == m[i].nearest(),
        !(v is Matrix4d) ==> op_matrix("transform"@, v) is Identity,
{
    lemma_kinds_differ();
    let n = op_matrix("transform"@, ValueView::Matrix4d(m))->Transform_0;
    assert forall|i: int| 0 <= i < 16 implies #[trigger] n[i] == m[i].nearest() by {
        assert(i == 0 || i == 1 || i == 2 || i == 3 || i == 4 || i == 5 || i == 6 || i == 7 || i
            == 8 || i == 9 || i == 10 || i == 11 || i == 12 || i == 13 || i == 14 || i == 15);
    }
}

/// Two authored matrices that differ in one entry only are read as matrices that
/// differ there at most.
pub proof fn matrix_entries_do_not_mix(a: [Double; 16], b: [Double; 16], i: int)
    requires
        0 <= i < 16,
        a[i] == b[i],
    ensures
        op_matrix("transform"@, ValueView::Matrix4d(a))->Transform_0[i] == op_matrix(
            "transform"@,
            ValueView::Matrix4d(b),
        )->Transform_0[i],
{
    matrices_keep_their_entries(a, ValueView::Other);
    matrices_keep_their_entries(b, ValueView::Other);
}

/// A translation, and a scaling, is by the vector that is authored, entry by entry,
/// each narrowed where it is a double. A value of another type moves nothing by
/// zeros, and scales nothing by ones.
pub proof fn vectors_keep_their_entries(a: [Single; 3], b: [Double; 3], v: ValueView, i: int)
    requires
        0 <= i < 3,
    ensures
        op_matrix("translate"@, v) is Translate,
        op_matrix("translate"@, ValueView::Vec3f(a))->Translate_0[i] == a[i],
        op_matrix("translate"@, ValueView::Vec3d(b))->Translate_0[i] == b[i].nearest(),
        !(v is Vec3f) && !(v is Vec3d) ==> op_matrix("translate"@, v)->Translate_0[i].bits == 0,
        op_matrix("scale"@, v) is Scale,
        op_matrix("scale"@, ValueView::Vec3f(a))->Scale_0[i] == a[i],
        op_matrix("scale"@, ValueView::Vec3d(b))->Scale_0[i] == b[i].nearest(),
        !(v is Vec3f) && !(v is Vec3d) ==> op_matrix("scale"@, v)->Scale_0[i].bits == 0x3f80_0000,
{
    lemma_kinds_differ();
    assert(i == 0 || i == 1 || i == 2);
}

/// A rotation by a quaternion has its parts in their order, the real one, which is
/// authored first, last; each is narrowed where it is a double. A value of another
/// type turns nothing.
pub proof fn quaternions_move_their_real_part_last(
    a: [Single; 4],
    b: [Double; 4],
    v: ValueView,
    i: int,
)
    requires
        0 <= i < 4,
    ensures
        op_matrix("orient"@, v) is Orient,
        op_matrix("orient"@, ValueView::Quatf(a))->Orient_0[i] == a[(i + 1) % 4],
        op_matrix("orient"@, ValueView::Quatd(b))->Orient_0[i] == b[(i + 1) % 4].nearest(),
        !(v is Quatf) && !(v is Quatd) ==> op_matrix("orient"@, v)->Orient_0[i].bits == if i == 3 {
            0x3f80_0000u32
        } else {
            0u32
        },
{
    lemma_kinds_differ();
    assert(i == 0 || i == 1 || i == 2 || i == 3);
}

/// A rotation about one axis is about the axis that its kind ends in, by the degrees
/// that are authored.
pub proof fn turns_are_about_the_named_axis(axis: Axis, v: ValueView)
    ensures
        op_matrix("rotate"@ + seq![axis.letter()], v) == OpMatrix::Rotate(axis, to_degrees(v)),
{
    lemma_kinds_differ();
    let kind = "rotate"@ + seq![axis.letter()];
    assert(kind.len() == 7 && kind[0] == 'r' && kind[6] == axis.letter());
    assert("rotateX"@[6] == 'X' && "rotateY"@[6] == 'Y' && "rotateZ"@[6] == 'Z');
}

/// Degrees are the single that is authored, or the one nearest to the double or the
/// integer that is; a value of another type is zero degrees.
pub proof fn degrees_are_the_authored_number(x: Single, d: Double, i: i32, j: i64, v: ValueView)
    ensures
        to_degrees(ValueView::Float(x)) == x,
        to_degrees(ValueView::Double(d)) == d.nearest(),
        to_degrees(ValueView::Int(i)) == Single::nearest_int(i as i64),
        to_degrees(ValueView::Int64(j)) == Single::nearest_int(j),
        !(v is Float) && !(v is Double) && !(v is Int) && !(v is Int64) ==> to_degrees(v).bits == 0,
{
}

/// An operation that names three different axes turns about them by the degrees
/// authored for the first, second and third axis, and is the product of their
/// matrices in the reverse of the order in which it names them.
pub proof fn turns_about_three_axes_are_reversed(a: Axis, b: Axis, c: Axis, v: [Single; 3])
    requires
        a != b,
        b != c,
        a != c,
    ensures
        ({
            let kind = "rotate"@ + seq![a.letter(), b.letter(), c.letter()];
            let m = op_matrix(kind, ValueView::Vec3f(v));
            &&& m is Euler
            &&& m->Euler_0 == v
            &&& m->Euler_1[0] == c
            &&& m->Euler_1[1] == b
            &&& m->Euler_1[2] == a
        }),
{
    lemma_kinds_differ();
    let kind = "rotate"@ + seq![a.letter(), b.letter(), c.letter()];
    assert(kind.len() == 9 && kind[0] == 'r');
    assert(kind[6] == a.letter() && kind[7] == b.letter() && kind[8] == c.letter());
    assert("rotateX"@.len() == 7 && "rotateY"@.len() == 7 && "rotateZ"@.len() == 7);
    assert("rotateXYZ"@[6] == 'X' && "rotateXYZ"@[7] == 'Y');
    assert("rotateXZY"@[6] == 'X' && "rotateXZY"@[7] == 'Z');
    assert("rotateYXZ"@[6] == 'Y' && "rotateYXZ"@[7] == 'X');
    assert("rotateYZX"@[6] == 'Y' && "rotateYZX"@[7] == 'Z');
    assert("rotateZXY"@[6] == 'Z' && "rotateZXY"@[7] == 'X');
    assert("rotateZYX"@[6] == 'Z' && "rotateZYX"@[7] == 'Y');
}

/// The degrees about three axes are those of the vector that is authored, entry by
/// entry, each narrowed where it is a double; a value of another type is zero
/// degrees about each.
pub proof fn degrees_about_three_axes_keep_their_order(
    kind: Seq<char>,
    d: [Double; 3],
    v: ValueView,
    i: int,
)
    requires
        op_matrix(kind, v) is Euler,
        0 <= i < 3,
    ensures
        op_matrix(kind, ValueView::Vec3d(d)) is Euler,
        op_matrix(kind, ValueView::Vec3d(d))->Euler_0[i] == d[i].nearest(),
        op_matrix(kind, ValueView::Vec3d(d))->Euler_1 == op_matrix(kind, v)->Euler_1,
        !(v is Vec3f) && !(v is Vec3d) ==> op_matrix(kind, v)->Euler_0[i].bits == 0,
{
    assert(i == 0 || i == 1 || i == 2);
}

/// The name of every kind of operation that does something is `translate`, `scale`,
/// `orient` or `transform`, or `rotate` with one axis or with three different ones
/// behind it.
pub proof fn unknown_kinds_do_nothing(kind: Seq<char>, v: ValueView)
    requires
        kind != "translate"@,
        kind != "scale"@,
        kind != "orient"@,
        kind != "transform"@,
        forall|a: Axis| kind != "rotate"@ + seq![#[trigger] a.letter()],
        forall|a: Axis, b: Axis, c: Axis|
            a != b && b != c && a != c ==> kind != "rotate"@ + seq![
                #[trigger] a.letter(),
                #[trigger] b.letter(),
                #[trigger] c.letter(),
            ],
    ensures
        op_matrix(kind, v) is Identity,
{
    lemma_kinds_differ();
    let x = Axis::X;
    let y = Axis::Y;
    let z = Axis::Z;
    assert(x.letter() == 'X' && y.letter() == 'Y' && z.letter() == 'Z');
    assert(kind != "rotate"@ + seq![x.letter()]);
    assert(kind != "rotate"@ + seq![y.letter()]);
    assert(kind != "rotate"@ + seq![z.letter()]);
    assert(kind != "rotate"@ + seq![x.letter(), y.letter(), z.letter()]);
    assert(kind != "rotate"@ + seq![x.letter(), z.letter(), y.letter()]);
    assert(kind != "rotate"@ + seq![y.letter(), x.letter(), z.letter()]);
    assert(kind != "rotate"@ + seq![y.letter(), z.letter(), x.letter()]);
    assert(kind != "rotate"@ + seq![z.letter(), x.letter(), y.letter()]);
    assert(kind != "rotate"@ + seq![z.letter(), y.letter(), x.letter()]);
}

/// The kind of an operation is what its attribute is named behind `xformOp:`, up to
/// the next colon, whatever follows that.
pub proof fn kinds_are_named_behind_the_prefix(kind: Seq<char>, suffix: Seq<char>)
    requires
        !kind.contains(':'),
    ensures
        op_kind("xformOp:"@ + kind) == kind,
        op_kind("xformOp:"@ + kind + seq![':'] + suffix) == kind,
        op_attribute("xformOp:"@ + kind) == "xformOp:"@ + kind,
        op_attribute("!invert!"@ + ("xformOp:"@ + kind)) == "xformOp:"@ + kind,
{
    let name = "xformOp:"@ + kind;
    lemma_plain_kind(name, kind);
    assert("xformOp:"@.is_prefix_of(name));
    suffix_keeps_the_kind(name, suffix);
    let marked = "!invert!"@ + name;
    assert("!invert!"@.is_prefix_of(marked));
    assert(marked.skip("!invert!"@.len() as int) =~= name);
}

/// A token of a stack that is not marked as inverted is the operation that its
/// attribute holds, and fails where that cannot be read. Without a value it is the
/// identity, and not inverted, marked or not.
pub proof fn steps_are_read_from_their_attribute(s: StageView, prim: Seq<char>, token: Seq<char>)
    requires
        !"!invert!"@.is_prefix_of(token),
    ensures
        s.attribute(prim, token) matches Err(e) ==> op_step(s, prim, token) == Err::<
            OpStep,
            StageError,
        >(e) && op_step(s, prim, "!invert!"@ + token) == Err::<OpStep, StageError>(e),
        s.attribute(prim, token) matches Ok(Some(v)) ==> op_step(s, prim, token) == Ok::<
            OpStep,
            StageError,
        >(OpStep { matrix: op_matrix(op_kind(token), v), inverted: false }),
        s.attribute(prim, token) matches Ok(None) ==> {
            &&& op_step(s, prim, token) matches Ok(step) && step.matrix is Identity
                && !step.inverted
            &&& op_step(s, prim, "!invert!"@ + token) matches Ok(step) && step.matrix is Identity
                && !step.inverted
        },
{
    let prefix = "!invert!"@;
    assert(prefix.is_prefix_of(prefix + token));
    assert((prefix + token).skip(prefix.len() as int) =~= token);
}

/// A stack is the list of tokens or strings that is authored for it, as it is; a
/// value of another type is none, and neither is no value.
pub proof fn stacks_are_the_authored_list(list: Seq<Seq<char>>, v: ValueView)
    ensures
        op_order(Some(ValueView::TokenVec(list))) == Some(list),
        op_order(Some(ValueView::StringVec(list))) == Some(list),
        op_order(None) is None,
        !(v is TokenVec) && !(v is StringVec) ==> op_order(Some(v)) is None,
{
}

/// A pose moves exactly where one of its coordinates is not zero, and turns exactly
/// where one of its angles is not; a scale scales exactly where one of its factors
/// is not one. The pose of zeros does neither.
pub proof fn poses_do_what_is_not_nothing(pose: Pose, scale: Option<[Double; 3]>)
    ensures
        moves(pose) <==> exists|i: int|
            0 <= i < 3 && ((#[trigger] pose.xyz[i]).nan() || pose.xyz[i].magnitude() != 0),
        turns(pose) <==> exists|i: int|
            0 <= i < 3 && ((#[trigger] pose.rpy[i]).nan() || pose.rpy[i].magnitude() != 0),
        scales(scale) <==> (scale matches Some(f) && exists|i: int|
            0 <= i < 3 && (#[trigger] f[i]).bits != 0x3ff0_0000_0000_0000),
        !moves(Pose { xyz: zeros(), rpy: zeros() }),
        !turns(Pose { xyz: zeros(), rpy: zeros() }),
        forall|i: int| 0 <= i < 3 ==> (#[trigger] zeros()[i]).bits == 0,
{
    if moves(pose) {
        assert(pose.xyz[0].nan() || pose.xyz[0].magnitude() != 0 || pose.xyz[1].nan()
            || pose.xyz[1].magnitude() != 0 || pose.xyz[2].nan() || pose.xyz[2].magnitude() != 0);
    }
    if turns(pose) {
        assert(pose.rpy[0].nan() || pose.rpy[0].magnitude() != 0 || pose.rpy[1].nan()
            || pose.rpy[1].magnitude() != 0 || pose.rpy[2].nan() || pose.rpy[2].magnitude() != 0);
    }
    if let Some(f) = scale {
        if scales(scale) {
            assert(f[0].bits != 0x3ff0_0000_0000_0000 || f[1].bits != 0x3ff0_0000_0000_0000
                || f[2].bits != 0x3ff0_0000_0000_0000);
        }
    }
}

/// The stack that a pose and a scale are authored as names the translation first,
/// the rotation behind it, and the scaling last, each exactly where it does
/// something.
pub proof fn stacks_name_what_is_done(pose: Pose, scale: Option<[Double; 3]>)
    ensures
        ({
            let order = trs_order(pose, scale);
            let m = if moves(pose) {
                1int
            } else {
                0
            };
            let t = if turns(pose) {
                1int
            } else {
                0
            };
            let s = if scales(scale) {
                1int
            } else {
                0
            };
            &&& order.len() == m + t + s
            &&& moves(pose) ==> order[0] == "xformOp:translate"@
            &&& turns(pose) ==> order[m] == "xformOp:orient"@
            &&& scales(scale) ==> order[m + t] == "xformOp:scale"@
        }),
{
}

/// A pose and a scale that have been authored leave on the prim the position, the
/// quaternion and the scale that were given, as they were given, each exactly where
/// it does something; what does nothing leaves its attribute as it was.
pub proof fn poses_are_authored_as_given(
    s: StageView,
    prim: Seq<char>,
    pose: Pose,
    orient: [Single; 4],
    scale: Option<[Double; 3]>,
)
    requires
        !is_property(prim),
        lists_properties(s, prim),
    ensures
        ({
            let t = s.with_trs(prim, pose, orient, scale);
            &&& t.attribute(prim, "xformOp:translate"@) == if moves(pose) {
                Ok(Some(ValueView::Vec3d(pose.xyz)))
            } else {
                s.attribute(prim, "xformOp:translate"@)
            }
            &&& t.attribute(prim, "xformOp:orient"@) == if turns(pose) {
                Ok(Some(ValueView::Quatf(orient)))
            } else {
                s.attribute(prim, "xformOp:orient"@)
            }
            &&& t.attribute(prim, "xformOp:scale"@) == if scales(scale) {
                Ok(Some(ValueView::Vec3d(scale->0)))
            } else {
                s.attribute(prim, "xformOp:scale"@)
            }
        }),
{
    lemma_trs_kinds();
    let translate = ValueView::Vec3d(pose.xyz);
    let turn = ValueView::Quatf(orient);
    let s1 = if moves(pose) {
        s.with_attribute(prim, "xformOp:translate"@, "double3"@, translate, false)
    } else {
        s
    };
    if moves(pose) {
        attribute_reads_back(s, prim, "xformOp:translate"@, "double3"@, translate, false);
    }
    let s2 = if turns(pose) {
        s1.with_attribute(prim, "xformOp:orient"@, "quatf"@, turn, false)
    } else {
        s1
    };
    if turns(pose) {
        attribute_reads_back(s1, prim, "xformOp:orient"@, "quatf"@, turn, false);
    }
    let s3 = if scales(scale) {
        s2.with_attribute(
            prim,
            "xformOp:scale"@,
            "double3"@,
            ValueView::Vec3d(scale->0),
            false,
        )
    } else {
        s2
    };
    if scales(scale) {
        attribute_reads_back(
            s2,
            prim,
            "xformOp:scale"@,
            "double3"@,
            ValueView::Vec3d(scale->0),
            false,
        );
    }
    let order = trs_order(pose, scale);
    if order.len() > 0 {
        attribute_reads_back(
            s3,
            prim,
            "xformOpOrder"@,
            "token[]"@,
            ValueView::TokenVec(order),
            true,
        );
    }
}

/// The letters of the axes are those that they are named by.
pub proof fn axes_have_their_letters(axis: Axis)
    ensures
        axis.letter() == 'X' <==> axis == Axis::X,
        axis.letter() == 'Y' <==> axis == Axis::Y,
        axis.letter() == 'Z' <==> axis == Axis::Z,
{
}

} // verus!
