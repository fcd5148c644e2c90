//! What the screen capturers of all platforms hand out.

use vstd::prelude::*;

verus! {

/// One H264 NAL unit, with the 4-byte Annex-B start code already prepended.
#[derive(Debug)]
pub struct Nal {
    pub data: Vec<u8>,
    pub pts_us: i64,
}

impl Clone for Nal {
    /// A NAL unit with the same bytes and the same time.
    fn clone(&self) -> (r: Self)
        ensures
            r.data@ == self.data@,
            r.pts_us == self.pts_us,
    {
        Nal { data: self.data.clone(), pts_us: self.pts_us }
    }
}

/// One display visible to the capturer.
#[derive(Debug, Clone, Copy, PartialEq, Eq, Structural)]
pub struct DisplayInfo {
    pub id: u32,
    pub width: i64,
    pub height: i64,
    pub is_primary: bool,
}

/// A copy of a NAL unit has the same bytes and the same time.
pub proof fn law_copied_units(nal: Nal, copy: Nal)
    requires
        call_ensures(Nal::clone, (&nal,), copy),
    ensures
        copy.data@.len() == nal.data@.len(),
        forall|i: int| 0 <= i < nal.data@.len() ==> #[trigger] copy.data@[i] == nal.data@[i],
        copy.pts_us == nal.pts_us,
{
}

} // verus!
