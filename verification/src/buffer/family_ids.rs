//! The list of queue family identifiers that a buffer holds, in a `SmallVec`.

use crate::device::QueueFamily;
use smallvec::SmallVec;
use vstd::prelude::*;

verus! {

/// Identifiers of the queue families that are allowed to access a buffer, in a
/// `smallvec::SmallVec`. Nothing of its representation is claimed.
#[verifier::external_body]
#[derive(Debug)]
pub struct FamilyIds {
    ids: SmallVec<[u32; 4]>,
}

/// The items of the `SmallVec`, in order.
pub uninterp spec fn family_ids(v: FamilyIds) -> Seq<u32>;

impl View for FamilyIds {
    type V = Seq<u32>;

    open spec fn view(&self) -> Seq<u32> {
        family_ids(*self)
    }
}

/// `SmallVec::from_iter`, on the items of a vector: the result holds exactly these items, in
/// their order.
///
/// It reserves the next power of two of the length, in items of four bytes, and panics where
/// that is more than `isize::MAX` bytes; longer vectors are left out.
#[verifier::external_body]
fn small_vec_from_iter(items: Vec<u32>) -> (r: FamilyIds)
    requires
        items@.len() * 8 <= isize::MAX + 1,
    ensures
        family_ids(r) == items@,
{
    FamilyIds { ids: SmallVec::from_iter(items) }
}

/// `SmallVec::as_slice`: the slice holds exactly the items, in order.
#[verifier::external_body]
fn small_vec_as_slice(v: &FamilyIds) -> (r: &[u32])
    ensures
        r@ == family_ids(*v),
{
    v.ids.as_slice()
}

/// The identifiers of queue families, in the same order.
pub open spec fn ids_of(families: Seq<QueueFamily>) -> Seq<u32> {
    families.map_values(|f: QueueFamily| f.id)
}

impl FamilyIds {
    /// Collects the identifiers of the families, in order.
    pub fn collect(families: Vec<QueueFamily>) -> (r: FamilyIds)
        requires
            families@.len() * 8 <= isize::MAX + 1,
        ensures
            r@ == ids_of(families@),
            r@.len() == families@.len(),
            forall|i: int| 0 <= i < families@.len() ==> #[trigger] r@[i] == families@[i].id,
    {
        let mut ids: Vec<u32> = Vec::new();
        let mut i: usize = 0;
        while i < families.len()
            invariant
                i <= families@.len(),
                ids@ =~= ids_of(families@.take(i as int)),
            decreases families@.len() - i,
        {
            ids.push(families[i].id);
            i += 1;
            assert(ids_of(families@.take(i as int)) =~= ids_of(families@.take(i - 1)).push(
                families@[i - 1].id,
            ));
        }
        assert(families@.take(i as int) =~= families@);
        small_vec_from_iter(ids)
    }

    /// Returns the number of identifiers.
    pub fn len(&self) -> (r: usize)
        ensures
            r == self@.len(),
    {
        small_vec_as_slice(self).len()
    }

    /// Returns one of the identifiers.
    pub fn get(&self, index: usize) -> (r: u32)
        requires
            index < self@.len(),
        ensures
            r == self@[index as int],
    {
        small_vec_as_slice(self)[index]
    }

    /// Returns true if the identifier is in the list.
    pub fn contains(&self, id: u32) -> (r: bool)
        ensures
            r == self@.contains(id),
    {
        let ids: &[u32] = small_vec_as_slice(self);
        let mut i: usize = 0;
        while i < ids.len()
            invariant
                ids@ == self@,
                i <= ids@.len(),
                forall|j: int| 0 <= j < i ==> self@[j] != id,
            decreases ids@.len() - i,
        {
            if ids[i] == id {
                assert(self@[i as int] == id);
                return true;
            }
            i += 1;
        }
        false
    }

    /// Copies the identifiers to a vector, in order.
    pub fn to_vec(&self) -> (r: Vec<u32>)
        ensures
            r@ == self@,
    {
        let ids: &[u32] = small_vec_as_slice(self);
        let mut r: Vec<u32> = Vec::new();
        let mut i: usize = 0;
        while i < ids.len()
            invariant
                ids@ == self@,
                i <= ids@.len(),
                r@ =~= self@.take(i as int),
            decreases ids@.len() - i,
        {
            r.push(ids[i]);
            i += 1;
        }
        assert(self@.take(i as int) =~= self@);
        r
    }
}

/// The identifiers of a list of families are those of its families, one by one and in order.
pub proof fn law_ids_of(families: Seq<QueueFamily>)
    ensures
        ids_of(families).len() == families.len(),
        forall|i: int|
            0 <= i < families.len() ==> #[trigger] ids_of(families)[i] == families[i].id,
{
}

} // verus!
