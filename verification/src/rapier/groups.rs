//! Collision groups: the parts of one articulation pass through each other.

use vstd::prelude::*;

verus! {

/// The groups of a collider: those it is in, and those it collides with.
#[derive(Debug, Clone, Copy, PartialEq, Eq, Structural)]
pub struct Groups {
    pub memberships: u32,
    pub filter: u32,
}

/// The number of the bit of an articulation: one of 1 to 31.
pub open spec fn group_index(entity: u64) -> u32 {
    (entity % 31 + 1) as u32
}

/// The bit of an articulation.
pub open spec fn group_bit(entity: u64) -> u32 {
    1u32 << group_index(entity)
}

/// The groups of the colliders of an articulation: they are in its group, and
/// collide with all others.
pub open spec fn groups_of(entity: u64) -> Groups {
    Groups { memberships: group_bit(entity), filter: !group_bit(entity) }
}

/// Whether two colliders may touch: each is in a group that the other collides
/// with.
pub open spec fn may_touch(a: Groups, b: Groups) -> bool {
    a.memberships & b.filter != 0 && b.memberships & a.filter != 0
}

/// Calls `rapier3d_f64::geometry::Group::from_bits_truncate`, which drops the
/// bits that no group has. All 32 bits have one, so it drops none.
#[verifier::external_body]
fn group_from_bits(bits: u32) -> (r: u32)
    ensures
        r == bits,
{
    rapier3d_f64::geometry::Group::from_bits_truncate(bits).bits()
}

/// Calls `difference` of `rapier3d_f64::geometry::Group` on the set of all
/// groups, which leaves every group but those of `bits`.
#[verifier::external_body]
fn groups_without(bits: u32) -> (r: u32)
    ensures
        r == !bits,
{
    let group = rapier3d_f64::geometry::Group::from_bits_retain(bits);
    rapier3d_f64::geometry::Group::ALL.difference(group).bits()
}

/// The bit of an articulation, which is never that of the first group: what is
/// in no articulation stays there.
///
/// Two articulations may share a bit, and then pass through each other.
pub fn articulation_group_bit(entity: u64) -> (r: u32)
    ensures
        r == group_bit(entity),
{
    let index: u32 = (entity % 31 + 1) as u32;
    group_from_bits(1u32 << index)
}

/// The groups of the colliders of an articulation.
pub fn articulation_groups(root: u64) -> (r: Groups)
    ensures
        r == groups_of(root),
{
    let bit: u32 = articulation_group_bit(root);
    Groups { memberships: bit, filter: groups_without(bit) }
}

/// Two colliders of articulations touch unless the two have the same bit; so
/// those of one articulation never do.
pub proof fn articulations_touch_by_their_bits(a: u64, b: u64)
    ensures
        may_touch(groups_of(a), groups_of(b)) <==> group_index(a) != group_index(b),
        !may_touch(groups_of(a), groups_of(a)),
{
    let i = group_index(a);
    let j = group_index(b);
    let x: u32 = 1u32 << i;
    let y: u32 = 1u32 << j;
    assert(i != j ==> x & !y != 0 && y & !x != 0) by (bit_vector)
        requires
            x == 1u32 << i,
            y == 1u32 << j,
            i < 32,
            j < 32,
    ;
    assert(x & !x == 0) by (bit_vector);
}

/// An articulation touches what is in every group, as colliders outside
/// articulations are, and what is in the first group only.
pub proof fn articulations_touch_the_rest(a: u64)
    ensures
        may_touch(groups_of(a), Groups { memberships: 0xffff_ffff, filter: 0xffff_ffff }),
        may_touch(groups_of(a), Groups { memberships: 1, filter: 0xffff_ffff }),
        group_bit(a) != 1,
{
    let i = group_index(a);
    let x: u32 = 1u32 << i;
    assert(x & 0xffff_ffffu32 != 0 && 0xffff_ffffu32 & !x != 0 && 1u32 & !x != 0 && x != 1)
        by (bit_vector)
        requires
            x == 1u32 << i,
            1 <= i < 32,
    ;
}

} // verus!
