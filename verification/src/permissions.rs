//! Override algebra: allow/deny bit pairs layered onto a base permission set,
//! and the capability / delegation guards evaluated against a resolved
//! effective permission value.

use vstd::prelude::*;

verus! {

/// One grantable capability; each variant stands for one bit of the
/// fixed-width permission bitmask.
#[derive(Clone, Copy, Debug, PartialEq, Eq, Structural)]
pub enum Permission {
    ManageChannel,
    ManageServer,
    ManagePermissions,
    ManageRole,
    ManageCustomisation,
    KickMembers,
    BanMembers,
    TimeoutMembers,
    AssignRoles,
    ManageMessages,
    ManageWebhooks,
    InviteOthers,
    ViewAuditLogs,
}

/// The position of the bit a capability occupies inside the permission
/// bitmask.
pub open spec fn bit_index(p: Permission) -> u64 {
    match p {
        Permission::ManageChannel => 0,
        Permission::ManageServer => 1,
        Permission::ManagePermissions => 2,
        Permission::ManageRole => 3,
        Permission::ManageCustomisation => 4,
        Permission::KickMembers => 5,
        Permission::BanMembers => 6,
        Permission::TimeoutMembers => 7,
        Permission::AssignRoles => 8,
        Permission::ManageMessages => 9,
        Permission::ManageWebhooks => 10,
        Permission::InviteOthers => 11,
        Permission::ViewAuditLogs => 12,
    }
}

/// The bit a capability occupies inside the permission bitmask.
pub open spec fn bit_spec(p: Permission) -> u64 {
    1u64 << bit_index(p)
}

/// Every defined capability bit set at once; the effective permission value
/// of a server owner.
pub const ALL_PERMISSIONS: u64 = 0x1FFF;

impl Permission {
    /// The bit this capability occupies inside the permission bitmask.
    pub fn bit(self) -> (r: u64)
        ensures
            r == bit_spec(self),
    {
        let idx: u64 = match self {
            Permission::ManageChannel => 0,
            Permission::ManageServer => 1,
            Permission::ManagePermissions => 2,
            Permission::ManageRole => 3,
            Permission::ManageCustomisation => 4,
            Permission::KickMembers => 5,
            Permission::BanMembers => 6,
            Permission::TimeoutMembers => 7,
            Permission::AssignRoles => 8,
            Permission::ManageMessages => 9,
            Permission::ManageWebhooks => 10,
            Permission::InviteOthers => 11,
            Permission::ViewAuditLogs => 12,
        };
        1u64 << idx
    }
}

/// Whether the permission value `v` contains the capability `p`.
pub open spec fn has_bit(v: u64, p: Permission) -> bool {
    v & bit_spec(p) != 0
}

/// An allow/deny bit pair layered onto a base permission set.
#[derive(Clone, Copy, Debug, PartialEq, Eq, Structural)]
pub struct Override {
    pub allow: u64,
    pub deny: u64,
}

/// The wire-friendly signed pair form of an [`Override`].
#[derive(Clone, Copy, Debug, PartialEq, Eq, Structural)]
pub struct OverrideField {
    pub a: i64,
    pub d: i64,
}

/// The wire pair an override converts to; bits are reinterpreted.
pub open spec fn field_of(o: Override) -> OverrideField {
    OverrideField { a: o.allow as i64, d: o.deny as i64 }
}

/// The override a wire pair converts to; bits are reinterpreted.
pub open spec fn override_of(f: OverrideField) -> Override {
    Override { allow: f.a as u64, deny: f.d as u64 }
}

impl Override {
    /// Convert to the wire form; lossless, bits are reinterpreted.
    pub fn into_field(self) -> (r: OverrideField)
        ensures
            r == field_of(self),
    {
        OverrideField { a: self.allow as i64, d: self.deny as i64 }
    }
}

impl OverrideField {
    /// Convert back to the bit-pair form; lossless, bits are reinterpreted.
    pub fn into_override(self) -> (r: Override)
        ensures
            r == override_of(self),
    {
        Override { allow: self.a as u64, deny: self.d as u64 }
    }
}

/// Round trip through the wire form gives back the same override, and the
/// round trip the other way gives back the same wire pair: the two
/// representations convert losslessly both ways.
pub proof fn lemma_override_field_round_trip(o: Override, f: OverrideField)
    ensures
        override_of(field_of(o)) == o,
        field_of(override_of(f)) == f,
{
    let x = o.allow;
    let y = o.deny;
    let a = f.a;
    let d = f.d;
    assert((x as i64) as u64 == x) by (bit_vector);
    assert((y as i64) as u64 == y) by (bit_vector);
    assert((a as u64) as i64 == a) by (bit_vector);
    assert((d as u64) as i64 == d) by (bit_vector);
}

/// One merge step of the override algebra: deny bits accumulate, and the
/// merged allow set excludes every bit denied up to and including this layer.
pub open spec fn merge_spec(base: Override, layer: Override) -> Override {
    Override {
        allow: (base.allow | layer.allow) & !(base.deny | layer.deny),
        deny: base.deny | layer.deny,
    }
}

/// Merge a layer onto a base override: `deny` is the union of both deny
/// sets, and `allow` is the union of both allow sets minus that deny union,
/// so within one merge step deny wins over allow on the same bit.
pub fn merge(base: Override, layer: Override) -> (r: Override)
    ensures
        r == merge_spec(base, layer),
        r.allow & r.deny == 0,
{
    let deny = base.deny | layer.deny;
    let allow = (base.allow | layer.allow) & !deny;
    proof {
        let a = base.allow | layer.allow;
        assert((a & !deny) & deny == 0u64) by (bit_vector);
    }
    Override { allow, deny }
}

/// One fold step of the resolution engine: apply a layer's override to an
/// already-resolved permission value. Equivalent to a [`merge_spec`] whose
/// base carries the resolved value and an empty deny set.
pub open spec fn apply_spec(v: u64, layer: Override) -> u64 {
    (v | layer.allow) & !layer.deny
}

/// Apply one override layer to a resolved permission value: bits in the
/// layer's allow set are granted, then bits in its deny set are revoked.
pub fn apply(v: u64, layer: Override) -> (r: u64)
    ensures
        r == apply_spec(v, layer),
        r == merge_spec(Override { allow: v, deny: 0u64 }, layer).allow,
{
    proof {
        let a = layer.allow;
        let d = layer.deny;
        assert((v | a) & !(0u64 | d) == (v | a) & !d) by (bit_vector);
    }
    (v | layer.allow) & !layer.deny
}

/// Fold a permission value through an ordered list of override layers,
/// left to right; later layers have the final say on a bit.
pub open spec fn apply_layers(v: u64, layers: Seq<Override>) -> u64
    decreases layers.len(),
{
    if layers.len() == 0 {
        v
    } else {
        apply_layers(apply_spec(v, layers[0]), layers.skip(1))
    }
}

/// A bit denied by the layer at position `k` stays absent from the folded
/// result unless some strictly later layer in the order allows it again.
pub proof fn lemma_deny_persists(v: u64, layers: Seq<Override>, k: int, p: Permission)
    requires
        0 <= k < layers.len(),
        layers[k].deny & bit_spec(p) != 0,
        forall|j: int| k < j < layers.len() ==> #[trigger] layers[j].allow & bit_spec(p) == 0,
    ensures
        !has_bit(apply_layers(v, layers), p),
    decreases layers.len(),
{
    let b = bit_spec(p);
    let s = bit_index(p);
    assert(s < 64);
    let v1 = apply_spec(v, layers[0]);
    if k == 0 {
        let a0 = layers[0].allow;
        let d0 = layers[0].deny;
        assert(s < 64 && d0 & (1u64 << s) != 0 ==> ((v | a0) & !d0) & (1u64 << s) == 0)
            by (bit_vector);
        lemma_allow_free_fold(v1, layers.skip(1), p);
    } else {
        assert(layers.skip(1)[k - 1] == layers[k]);
        assert(forall|j: int|
            k - 1 < j < layers.skip(1).len() ==> #[trigger] layers.skip(1)[j].allow & b == 0);
        lemma_deny_persists(v1, layers.skip(1), k - 1, p);
    }
}

/// Folding layers none of which allows bit `p` never introduces `p`.
pub proof fn lemma_allow_free_fold(v: u64, layers: Seq<Override>, p: Permission)
    requires
        !has_bit(v, p),
        forall|j: int| 0 <= j < layers.len() ==> #[trigger] layers[j].allow & bit_spec(p) == 0,
    ensures
        !has_bit(apply_layers(v, layers), p),
    decreases layers.len(),
{
    if layers.len() > 0 {
        let b = bit_spec(p);
        let a0 = layers[0].allow;
        let d0 = layers[0].deny;
        assert(v & b == 0 && a0 & b == 0 ==> ((v | a0) & !d0) & b == 0) by (bit_vector);
        lemma_allow_free_fold(apply_spec(v, layers[0]), layers.skip(1), p);
    }
}

/// A layer that allows bit `p` and does not deny it makes `p` present right
/// after that fold step; combined with [`lemma_allow_free_fold`] on the
/// remaining deny-free layers, a strictly later allow overrides an earlier
/// deny.
pub proof fn lemma_later_allow_wins(v: u64, layers: Seq<Override>, k: int, p: Permission)
    requires
        0 <= k < layers.len(),
        layers[k].allow & bit_spec(p) != 0,
        layers[k].deny & bit_spec(p) == 0,
        forall|j: int| k < j < layers.len() ==> #[trigger] layers[j].deny & bit_spec(p) == 0,
    ensures
        has_bit(apply_layers(v, layers), p),
    decreases layers.len(),
{
    let b = bit_spec(p);
    let s = bit_index(p);
    assert(s < 64);
    let v1 = apply_spec(v, layers[0]);
    if k == 0 {
        let a0 = layers[0].allow;
        let d0 = layers[0].deny;
        assert(s < 64 && a0 & (1u64 << s) != 0 && d0 & (1u64 << s) == 0 ==> ((v | a0) & !d0) & (
        1u64 << s) != 0) by (bit_vector);
        lemma_deny_free_fold(v1, layers.skip(1), p);
    } else {
        assert(layers.skip(1)[k - 1] == layers[k]);
        assert(forall|j: int|
            k - 1 < j < layers.skip(1).len() ==> #[trigger] layers.skip(1)[j].deny & b == 0);
        lemma_later_allow_wins(v1, layers.skip(1), k - 1, p);
    }
}

/// Folding layers none of which denies bit `p` never removes `p`.
pub proof fn lemma_deny_free_fold(v: u64, layers: Seq<Override>, p: Permission)
    requires
        has_bit(v, p),
        forall|j: int| 0 <= j < layers.len() ==> #[trigger] layers[j].deny & bit_spec(p) == 0,
    ensures
        has_bit(apply_layers(v, layers), p),
    decreases layers.len(),
{
    if layers.len() > 0 {
        let s = bit_index(p);
        assert(s < 64);
        let a0 = layers[0].allow;
        let d0 = layers[0].deny;
        assert(v & (1u64 << s) != 0 && d0 & (1u64 << s) == 0 ==> ((v | a0) & !d0) & (1u64 << s)
            != 0) by (bit_vector);
        lemma_deny_free_fold(apply_spec(v, layers[0]), layers.skip(1), p);
    }
}

} // verus!
