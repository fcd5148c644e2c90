//! Display enumeration: a flat list that the settings dialog can label.

use vstd::prelude::*;

use crate::capture::DisplayInfo;

verus! {

/// What the system told of one monitor. A reading that failed is `None`.
#[derive(Debug)]
pub struct MonitorReading {
    pub width: Option<u32>,
    pub height: Option<u32>,
    pub device_name: Option<String>,
}

/// Whether two device names are both known and equal.
pub open spec fn same_name(a: Option<String>, b: Option<String>) -> bool {
    match (a, b) {
        (Some(a), Some(b)) => a@ == b@,
        _ => false,
    }
}

/// The entry of the monitor at `idx`. Ids count from 1, so that 0 stays
/// reserved for the default monitor. A monitor without a size has no entry.
pub open spec fn display_at(
    m: MonitorReading,
    idx: int,
    primary_name: Option<String>,
) -> Option<DisplayInfo> {
    match (m.width, m.height) {
        (Some(width), Some(height)) => Some(
            DisplayInfo {
                id: (idx + 1) as u32,
                width: width as i64,
                height: height as i64,
                is_primary: same_name(primary_name, m.device_name),
            },
        ),
        _ => None,
    }
}

/// The entries of all monitors, in their order.
pub open spec fn displays_of(
    monitors: Seq<MonitorReading>,
    primary_name: Option<String>,
) -> Seq<DisplayInfo>
    decreases monitors.len(),
{
    if monitors.len() == 0 {
        Seq::empty()
    } else {
        let before = displays_of(monitors.drop_last(), primary_name);
        match display_at(monitors.last(), monitors.len() - 1, primary_name) {
            Some(d) => before.push(d),
            None => before,
        }
    }
}

/// List the displays. `monitors` is `None` where the enumeration failed; the
/// list is then empty.
pub fn list_displays(
    monitors: Option<Vec<MonitorReading>>,
    primary_name: Option<String>,
) -> (r: Vec<DisplayInfo>)
    requires
        monitors matches Some(m) ==> m@.len() <= u32::MAX,
    ensures
        r@ == (match monitors {
            Some(m) => displays_of(m@, primary_name),
            None => Seq::empty(),
        }),
{
    let mut out: Vec<DisplayInfo> = Vec::new();
    let monitors = match monitors {
        Some(m) => m,
        None => {
            return out;
        },
    };
    let mut idx: usize = 0;
    assert(monitors@.take(0) =~= Seq::empty());
    while idx < monitors.len()
        invariant
            idx <= monitors@.len() <= u32::MAX,
            out@ == displays_of(monitors@.take(idx as int), primary_name),
        decreases monitors@.len() - idx,
    {
        let m = &monitors[idx];
        assert(monitors@.take(idx + 1).drop_last() =~= monitors@.take(idx as int));
        match (m.width, m.height) {
            (Some(width), Some(height)) => {
                let is_primary = match (&primary_name, &m.device_name) {
                    (Some(a), Some(b)) => *a == *b,
                    _ => false,
                };
                out.push(
                    DisplayInfo {
                        id: (idx as u32) + 1,
                        width: width as i64,
                        height: height as i64,
                        is_primary,
                    },
                );
            },
            _ => {},
        }
        idx += 1;
    }
    assert(monitors@.take(idx as int) =~= monitors@);
    out
}

/// Every listed id is the place of its monitor, counted from 1: no display has
/// the id 0, and none has the id of another.
pub proof fn law_display_ids(monitors: Seq<MonitorReading>, primary_name: Option<String>)
    requires
        monitors.len() <= u32::MAX,
    ensures
        forall|i: int|
            0 <= i < displays_of(monitors, primary_name).len() ==> 1 <= (
            #[trigger] displays_of(monitors, primary_name)[i]).id <= monitors.len(),
        forall|i: int, j: int|
            0 <= i < j < displays_of(monitors, primary_name).len() ==> (
            #[trigger] displays_of(monitors, primary_name)[i]).id < (
            #[trigger] displays_of(monitors, primary_name)[j]).id,
    decreases monitors.len(),
{
    if monitors.len() > 0 {
        law_display_ids(monitors.drop_last(), primary_name);
        let before = displays_of(monitors.drop_last(), primary_name);
        let all = displays_of(monitors, primary_name);
        assert forall|i: int| 0 <= i < all.len() implies 1 <= (#[trigger] all[i]).id
            <= monitors.len() by {
            if i < before.len() {
                assert(all[i] == before[i]);
            }
        }
        assert forall|i: int, j: int| 0 <= i < j < all.len() implies (#[trigger] all[i]).id < (
        #[trigger] all[j]).id by {
            assert(all[i] == before[i]);
            if j < before.len() {
                assert(all[j] == before[j]);
            }
        }
    }
}

/// Every monitor whose size is known is listed, under its place counted from 1,
/// with its own size, and as the primary one exactly where its name and the
/// primary monitor's are known and the same. One without a size is not listed.
pub proof fn law_monitors_are_listed_as_they_are(
    monitors: Seq<MonitorReading>,
    primary_name: Option<String>,
    idx: int,
)
    requires
        0 <= idx < monitors.len() <= u32::MAX,
    ensures
        ({
            let all = displays_of(monitors, primary_name);
            let m = monitors[idx];
            if m.width is Some && m.height is Some {
                exists|i: int|
                    {
                        &&& 0 <= i < all.len()
                        &&& (#[trigger] all[i]).id == idx + 1
                        &&& all[i].width == m.width->0
                        &&& all[i].height == m.height->0
                        &&& all[i].is_primary <==> primary_name is Some && m.device_name is Some
                            && primary_name->0@ == m.device_name->0@
                    }
            } else {
                forall|i: int| 0 <= i < all.len() ==> (#[trigger] all[i]).id != idx + 1
            }
        }),
    decreases monitors.len(),
{
    let all = displays_of(monitors, primary_name);
    let before = displays_of(monitors.drop_last(), primary_name);
    let m = monitors[idx];
    law_display_ids(monitors.drop_last(), primary_name);
    if idx == monitors.len() - 1 {
        if m.width is Some && m.height is Some {
            assert(all[before.len() as int].id == idx + 1);
        } else {
            assert(all == before);
        }
    } else {
        law_monitors_are_listed_as_they_are(monitors.drop_last(), primary_name, idx);
        assert(monitors.drop_last()[idx] == m);
        assert forall|i: int| 0 <= i < before.len() implies #[trigger] all[i] == before[i] by {}
        if m.width is Some && m.height is Some {
            let i = choose|i: int|
                {
                    &&& 0 <= i < before.len()
                    &&& (#[trigger] before[i]).id == idx + 1
                    &&& before[i].width == m.width->0
                    &&& before[i].height == m.height->0
                    &&& before[i].is_primary <==> primary_name is Some && m.device_name is Some
                        && primary_name->0@ == m.device_name->0@
                };
            assert(all[i] == before[i]);
        } else {
            assert forall|i: int| 0 <= i < all.len() implies (#[trigger] all[i]).id != idx + 1 by {
                if i < before.len() {
                    assert(all[i] == before[i]);
                }
            }
        }
    }
}

/// The list has an entry for every monitor whose size is known, and no other
/// entry; without an enumeration it is empty.
pub proof fn law_the_list_is_of_the_monitors(
    monitors: Option<Vec<MonitorReading>>,
    primary_name: Option<String>,
    r: Vec<DisplayInfo>,
    idx: int,
)
    requires
        monitors matches Some(m) ==> m@.len() <= u32::MAX,
        call_ensures(list_displays, (monitors, primary_name), r),
    ensures
        monitors is None ==> r@.len() == 0,
        monitors matches Some(m) ==> 0 <= idx < m@.len() ==> if m@[idx].width is Some
            && m@[idx].height is Some {
            exists|i: int|
                {
                    &&& 0 <= i < r@.len()
                    &&& (#[trigger] r@[i]).id == idx + 1
                    &&& r@[i].width == m@[idx].width->0
                    &&& r@[i].height == m@[idx].height->0
                    &&& r@[i].is_primary <==> primary_name is Some && m@[idx].device_name is Some
                        && primary_name->0@ == m@[idx].device_name->0@
                }
        } else {
            forall|i: int| 0 <= i < r@.len() ==> (#[trigger] r@[i]).id != idx + 1
        },
        monitors matches Some(m) ==> forall|i: int|
            0 <= i < r@.len() ==> 1 <= (#[trigger] r@[i]).id <= m@.len(),
        forall|i: int, j: int|
            0 <= i < j < r@.len() ==> (#[trigger] r@[i]).id < (#[trigger] r@[j]).id,
{
    match monitors {
        Some(m) => {
            law_display_ids(m@, primary_name);
            if 0 <= idx < m@.len() {
                law_monitors_are_listed_as_they_are(m@, primary_name, idx);
            }
        },
        None => {},
    }
}

} // verus!
