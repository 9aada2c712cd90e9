//! Binding a skin to a skeleton: the one rewrite of a skin's bone references
//! from palette slots into joint indices.

use vstd::prelude::*;
use crate::error::BindError;
use crate::ieee::U16Vec4;
use crate::skl::{table_names_joints, Skeleton};
use crate::skn::{Skin, SkinModel};

verus! {

/// Every bone reference of a quad is below `n`.
pub open spec fn quad_below(q: U16Vec4, n: int) -> bool {
    q.x < n && q.y < n && q.z < n && q.w < n
}

/// Every bone reference of every vertex is below `n`.
pub open spec fn references_below(influences: Seq<U16Vec4>, n: int) -> bool {
    forall|i: int| 0 <= i < influences.len() ==> quad_below(#[trigger] influences[i], n)
}

/// A quad of palette slots, each replaced by the joint that the table gives it.
pub open spec fn remapped(q: U16Vec4, table: Seq<u16>) -> U16Vec4 {
    U16Vec4 {
        x: table[q.x as int],
        y: table[q.y as int],
        z: table[q.z as int],
        w: table[q.w as int],
    }
}

/// A skin after binding: each quad remapped, the skin marked bound, the rest
/// as it was.
pub open spec fn bound_to(skin: SkinModel, table: Seq<u16>) -> SkinModel {
    SkinModel {
        influences: Seq::new(skin.influences.len(), |i: int| remapped(skin.influences[i], table)),
        bound: true,
        ..skin
    }
}

/// Whether a skin can be bound with a slot table to a skeleton of
/// `joint_count` joints, and if not, why.
pub open spec fn bindable(skin: SkinModel, table: Seq<u16>, joint_count: int) -> Result<
    (),
    BindError,
> {
    if skin.bound {
        Err(BindError::AlreadyBound)
    } else if !table_names_joints(table, joint_count) {
        Err(BindError::UnknownJoint)
    } else if !references_below(skin.influences, table.len() as int) {
        Err(BindError::UnknownSlot)
    } else {
        Ok(())
    }
}

/// Binding turns palette slots into joint indices: where every slot of the
/// skin is held by the table and every entry of the table names a joint, every
/// bone reference of the bound skin names a joint.
pub proof fn lemma_bound_references_name_joints(
    skin: SkinModel,
    table: Seq<u16>,
    joint_count: int,
)
    requires
        references_below(skin.influences, table.len() as int),
        table_names_joints(table, joint_count),
    ensures
        references_below(bound_to(skin, table).influences, joint_count),
{
    let after = bound_to(skin, table).influences;
    assert forall|i: int| 0 <= i < after.len() implies quad_below(#[trigger] after[i], joint_count) by {
        let q = skin.influences[i];
        assert(quad_below(q, table.len() as int));
        assert(after[i] == remapped(q, table));
    }
}

impl Skin {
    /// Tells whether every bone reference is below `n`.
    pub fn references_all_below(&self, n: usize) -> (ok: bool)
        ensures
            ok == references_below(self.influences@, n as int),
    {
        let mut i: usize = 0;
        while i < self.influences.len()
            invariant
                i <= self.influences.len(),
                forall|k: int| 0 <= k < i ==> quad_below(#[trigger] self.influences@[k], n as int),
            decreases self.influences.len() - i,
        {
            let q = self.influences[i];
            if !((q.x as usize) < n && (q.y as usize) < n && (q.z as usize) < n && (q.w as usize)
                < n) {
                return false;
            }
            i += 1;
        }
        true
    }

    /// Rewrites every bone reference from a palette slot into the joint that
    /// the skeleton's slot table gives it. This is done once per skin: an
    /// unbound skin is asked for, and the skin is bound afterwards.
    pub fn apply_skeleton(&mut self, skeleton: &Skeleton)
        requires
            bindable(old(self)@, skeleton.influences@, skeleton.joints@.len() as int) is Ok,
        ensures
            final(self)@ == bound_to(old(self)@, skeleton.influences@),
            references_below(final(self).influences@, skeleton.joints@.len() as int),
            final(self).meshes@ == old(self).meshes@,
    {
        let ghost before = self.influences@;
        let ghost table = skeleton.influences@;
        let mut i: usize = 0;
        while i < self.influences.len()
            invariant
                i <= self.influences.len(),
                self.influences@.len() == before.len(),
                references_below(before, table.len() as int),
                table == skeleton.influences@,
                forall|k: int| 0 <= k < i ==> #[trigger] self.influences@[k] == remapped(before[k], table),
                forall|k: int| i <= k < before.len() ==> #[trigger] self.influences@[k] == before[k],
                self.major == old(self).major,
                self.minor == old(self).minor,
                self.bounding_box == old(self).bounding_box,
                self.vertices == old(self).vertices,
                self.normals == old(self).normals,
                self.uvs == old(self).uvs,
                self.weights == old(self).weights,
                self.indices == old(self).indices,
                self.meshes == old(self).meshes,
            decreases self.influences.len() - i,
        {
            let q = self.influences[i];
            assert(quad_below(before[i as int], table.len() as int));
            let r = U16Vec4 {
                x: skeleton.influences[q.x as usize],
                y: skeleton.influences[q.y as usize],
                z: skeleton.influences[q.z as usize],
                w: skeleton.influences[q.w as usize],
            };
            self.influences.set(i, r);
            i += 1;
        }
        self.bound = true;
        proof {
            assert(self.influences@ =~= bound_to(old(self)@, table).influences);
            lemma_bound_references_name_joints(old(self)@, table, skeleton.joints@.len() as int);
        }
    }

    /// Binds the skin to a skeleton where that is sound, and says why where
    /// it is not; the skin is then left as it was.
    pub fn bind(&mut self, skeleton: &Skeleton) -> (r: Result<(), BindError>)
        ensures
            r == bindable(old(self)@, skeleton.influences@, skeleton.joints@.len() as int),
            r is Ok ==> final(self)@ == bound_to(old(self)@, skeleton.influences@),
            r is Ok ==> references_below(final(self).influences@, skeleton.joints@.len() as int),
            r is Err ==> *final(self) == *old(self),
    {
        if self.bound {
            return Err(BindError::AlreadyBound);
        }
        let mut k: usize = 0;
        while k < skeleton.influences.len()
            invariant
                k <= skeleton.influences.len(),
                *self == *old(self),
                !self.bound,
                forall|j: int| 0 <= j < k ==> #[trigger] skeleton.influences@[j] < skeleton.joints@.len(),
            decreases skeleton.influences.len() - k,
        {
            if skeleton.influences[k] as usize >= skeleton.joints.len() {
                assert(!(skeleton.influences@[k as int] < skeleton.joints@.len()));
                return Err(BindError::UnknownJoint);
            }
            k += 1;
        }
        if !self.references_all_below(skeleton.influences.len()) {
            return Err(BindError::UnknownSlot);
        }
        self.apply_skeleton(skeleton);
        Ok(())
    }
}

} // verus!
