//! What is known of the game's resources: their names, ids, kinds and the
//! pak files that hold them.
use vstd::prelude::*;
use crate::primitive_types::FourCC;

verus! {

/// A resource of the game: its name (and a short one, where it has one), its
/// id, its kind and the pak files that hold it.
#[derive(Clone, Copy, Debug)]
pub struct ResourceInfo {
    pub long_name: &'static str,
    pub short_name: Option<&'static str>,
    pub res_id: u32,
    pub fourcc: FourCC,
    pub paks: &'static [&'static [u8]],
}

impl ResourceInfo {
    /// The pak files, id and kind.
    pub fn paks_id_kind(&self) -> (r: (&'static [&'static [u8]], u32, FourCC))
        ensures
            r == (self.paks, self.res_id, self.fourcc),
    {
        (self.paks, self.res_id, self.fourcc)
    }

    /// The id and kind.
    pub fn id_kind(&self) -> (r: (u32, FourCC))
        ensures
            r == (self.res_id, self.fourcc),
    {
        (self.res_id, self.fourcc)
    }

    /// The one pak file that holds the resource, and its id.
    pub fn pak_id(&self) -> (r: (&'static [u8], u32))
        requires
            self.paks@.len() == 1,
        ensures
            r == (self.paks@[0], self.res_id),
    {
        (self.paks[0], self.res_id)
    }
}

/// Whether a table is ordered by resource id.
pub open spec fn spec_sorted_by_id(table: Seq<ResourceInfo>) -> bool {
    forall|i: int, j: int| 0 <= i <= j < table.len() ==> table[i].res_id <= table[j].res_id
}

/// Looks up a resource by id in a table ordered by id, by binary search:
/// an entry with the id where there is one.
pub fn lookup_resource_info(table: &[ResourceInfo], res_id: u32) -> (r: Option<ResourceInfo>)
    requires
        spec_sorted_by_id(table@),
    ensures
        match r {
            Some(info) => exists|i: int| 0 <= i < table@.len() && table@[i] == info && info.res_id == res_id,
            None => forall|i: int| 0 <= i < table@.len() ==> table@[i].res_id != res_id,
        },
{
    let mut lo: usize = 0;
    let mut hi: usize = table.len();
    while lo < hi
        invariant
            0 <= lo <= hi <= table@.len(),
            spec_sorted_by_id(table@),
            forall|i: int| 0 <= i < lo ==> table@[i].res_id < res_id,
            forall|i: int| hi <= i < table@.len() ==> table@[i].res_id > res_id,
        decreases hi - lo,
    {
        let mid = lo + (hi - lo) / 2;
        let id = table[mid].res_id;
        if id == res_id {
            return Some(table[mid]);
        } else if id < res_id {
            lo = mid + 1;
        } else {
            hi = mid;
        }
    }
    None
}

} // verus!
