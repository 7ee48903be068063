//! Building a canonical [`LaunchData`] record from a raw provider payload.
//!
//! The transform is pure. Absent optional sub-objects fall back to fixed
//! sentinel strings; video URLs are reduced to one entry per distinct title
//! (the entry with the lowest priority value) and sorted ascending by
//! priority.

use vstd::prelude::*;

use crate::launches::{LaunchData, LaunchInfo, VidUrl};

verus! {

/// Some entry of `s` carries the title `t`.
pub open spec fn has_title(s: Seq<VidUrl>, t: Seq<char>) -> bool {
    exists|i: int| 0 <= i < s.len() && (#[trigger] s[i]).title@ == t
}

/// The list is sorted ascending by priority.
pub open spec fn sorted_by_priority(s: Seq<VidUrl>) -> bool {
    forall|i: int, j: int|
        0 <= i < j < s.len() ==> (#[trigger] s[i]).priority <= (#[trigger] s[j]).priority
}

/// Every title occurs at most once in the list.
pub open spec fn distinct_titles(s: Seq<VidUrl>) -> bool {
    forall|i: int, j: int|
        0 <= i < j < s.len() ==> (#[trigger] s[i]).title@ != (#[trigger] s[j]).title@
}

/// Every entry of `out` is an entry of `input`.
pub open spec fn entries_from(out: Seq<VidUrl>, input: Seq<VidUrl>) -> bool {
    forall|i: int| 0 <= i < out.len() ==> input.contains(#[trigger] out[i])
}

/// Every title of `input` is represented in `out`.
pub open spec fn titles_covered(out: Seq<VidUrl>, input: Seq<VidUrl>) -> bool {
    forall|k: int| 0 <= k < input.len() ==> has_title(out, (#[trigger] input[k]).title@)
}

/// For each title, the retained entry has the lowest priority value among the
/// input entries with that title.
pub open spec fn min_priority_per_title(out: Seq<VidUrl>, input: Seq<VidUrl>) -> bool {
    forall|k: int, i: int|
        0 <= k < input.len() && 0 <= i < out.len() && (#[trigger] out[i]).title@
            == (#[trigger] input[k]).title@ ==> out[i].priority <= input[k].priority
}

/// The full contract of the video-list transform, relative to the raw list.
pub open spec fn vid_urls_transformed(out: Seq<VidUrl>, input: Seq<VidUrl>) -> bool {
    &&& sorted_by_priority(out)
    &&& distinct_titles(out)
    &&& entries_from(out, input)
    &&& titles_covered(out, input)
    &&& min_priority_per_title(out, input)
}

/// Reduces a raw video list to one entry per distinct title — the entry with
/// the lowest priority value — sorted ascending by priority.
pub fn transform_vid_urls(input: Vec<VidUrl>) -> (out: Vec<VidUrl>)
    ensures
        vid_urls_transformed(out@, input@),
{
    // Phase one: keep, per title, the entry with the lowest priority.
    let mut acc: Vec<VidUrl> = Vec::new();
    let mut k: usize = 0;
    while k < input.len()
        invariant
            0 <= k <= input@.len(),
            distinct_titles(acc@),
            entries_from(acc@, input@),
            forall|k2: int| 0 <= k2 < k ==> has_title(acc@, (#[trigger] input@[k2]).title@),
            forall|k2: int, i: int|
                0 <= k2 < k && 0 <= i < acc@.len() && (#[trigger] acc@[i]).title@
                    == (#[trigger] input@[k2]).title@ ==> acc@[i].priority <= input@[k2].priority,
        decreases input@.len() - k,
    {
        let e = &input[k];
        let mut j: usize = 0;
        let mut found: bool = false;
        while j < acc.len() && !found
            invariant
                0 <= j <= acc@.len(),
                found ==> j < acc@.len() && acc@[j as int].title@ == e.title@,
                !found ==> forall|t: int| 0 <= t < j ==> (#[trigger] acc@[t]).title@ != e.title@,
            decreases acc@.len() - j + (if found { 0int } else { 1int }),
    {
            if acc[j].title == e.title {
                found = true;
            } else {
                j += 1;
            }
        }
        let ghost pre = acc@;
        if found {
            if e.priority < acc[j].priority {
                acc.set(j, e.clone());
            }
            proof {
                assert(input@.contains(input@[k as int]));
                assert(forall|i: int|
                    0 <= i < acc@.len() ==> (#[trigger] acc@[i]).title@ == pre[i].title@);
                assert forall|k2: int| 0 <= k2 < k + 1 implies has_title(
                    acc@,
                    (#[trigger] input@[k2]).title@,
                ) by {
                    if k2 == k {
                        assert(acc@[j as int].title@ == input@[k as int].title@);
                    } else {
                        let w = choose|i: int|
                            0 <= i < pre.len() && (#[trigger] pre[i]).title@ == input@[k2].title@;
                        assert(acc@[w].title@ == input@[k2].title@);
                    }
                }
            }
        } else {
            acc.push(e.clone());
            proof {
                assert(input@.contains(input@[k as int]));
                assert forall|k2: int| 0 <= k2 < k + 1 implies has_title(
                    acc@,
                    (#[trigger] input@[k2]).title@,
                ) by {
                    if k2 == k {
                        assert(acc@[acc@.len() - 1].title@ == input@[k as int].title@);
                    } else {
                        let w = choose|i: int|
                            0 <= i < pre.len() && (#[trigger] pre[i]).title@ == input@[k2].title@;
                        assert(acc@[w].title@ == input@[k2].title@);
                    }
                }
            }
        }
        k += 1;
    }
    // Phase two: repeatedly move the lowest-priority entry over, so the
    // result is sorted ascending by priority.
    let mut out: Vec<VidUrl> = Vec::new();
    while acc.len() > 0
        invariant
            sorted_by_priority(out@),
            distinct_titles(out@),
            distinct_titles(acc@),
            entries_from(out@, input@),
            entries_from(acc@, input@),
            min_priority_per_title(out@, input@),
            min_priority_per_title(acc@, input@),
            forall|k2: int|
                0 <= k2 < input@.len() ==> has_title(out@, (#[trigger] input@[k2]).title@)
                    || has_title(acc@, input@[k2].title@),
            forall|i: int, j: int|
                0 <= i < out@.len() && 0 <= j < acc@.len() ==> (#[trigger] out@[i]).priority <= (
                #[trigger] acc@[j]).priority,
            forall|i: int, j: int|
                0 <= i < out@.len() && 0 <= j < acc@.len() ==> (#[trigger] out@[i]).title@ != (
                #[trigger] acc@[j]).title@,
        decreases acc@.len(),
    {
        let mut m: usize = 0;
        let mut j: usize = 1;
        while j < acc.len()
            invariant
                1 <= acc@.len(),
                0 <= m < j,
                1 <= j <= acc@.len(),
                forall|t: int|
                    0 <= t < j ==> acc@[m as int].priority <= (#[trigger] acc@[t]).priority,
            decreases acc@.len() - j,
        {
            if acc[j].priority < acc[m].priority {
                m = j;
            }
            j += 1;
        }
        let ghost pre_acc = acc@;
        let ghost pre_out = out@;
        let picked = acc.remove(m);
        out.push(picked);
        proof {
            assert(forall|t: int|
                0 <= t < acc@.len() ==> acc@[t] == (if t < m {
                    pre_acc[t]
                } else {
                    pre_acc[t + 1]
                }));
            assert forall|k2: int| 0 <= k2 < input@.len() implies has_title(
                out@,
                (#[trigger] input@[k2]).title@,
            ) || has_title(acc@, input@[k2].title@) by {
                if has_title(pre_out, input@[k2].title@) {
                    let w = choose|i: int|
                        0 <= i < pre_out.len() && (#[trigger] pre_out[i]).title@
                            == input@[k2].title@;
                    assert(out@[w].title@ == input@[k2].title@);
                } else if has_title(pre_acc, input@[k2].title@) {
                    let w = choose|i: int|
                        0 <= i < pre_acc.len() && (#[trigger] pre_acc[i]).title@
                            == input@[k2].title@;
                    if w == m {
                        assert(out@[out@.len() - 1].title@ == input@[k2].title@);
                    } else if w < m {
                        assert(acc@[w].title@ == input@[k2].title@);
                    } else {
                        assert(acc@[w - 1].title@ == input@[k2].title@);
                    }
                }
            }
        }
    }
    out
}

/// The fallback payload name when the provider gives no mission object.
pub open spec fn payload_unknown() -> Seq<char> {
    "payload unknown"@
}

/// The fallback mission type when the provider gives no mission object.
pub open spec fn mission_type_unknown() -> Seq<char> {
    "mission type unknown"@
}

/// The fallback mission description when the provider gives no mission object.
pub open spec fn mission_description_unknown() -> Seq<char> {
    "mission description unknown"@
}

impl LaunchData {
    /// Builds the canonical record from a raw provider payload. Pure and
    /// total for well-formed payloads: an absent mission object is replaced
    /// by the fixed sentinel strings, an absent video list by the empty list.
    pub fn from(info: LaunchInfo) -> (r: LaunchData)
        requires
            crate::launches::launch_info_wf(info),
        ensures
            r.id == 0,
            r.ll_id == info.id,
            r.launch_name == info.name,
            r.status == info.status,
            r.vehicle == info.vehicle,
            r.location == info.pad,
            r.net == info.net,
            r.launch_window == info.window_end - info.window_start,
            r.rocket_img == info.image,
            r.lsp == info.lsp,
            match info.mission {
                Some(m) => r.payload == m.name && r.mission_type == m.mission_type
                    && r.mission_description == m.description,
                None => r.payload@ == payload_unknown() && r.mission_type@
                    == mission_type_unknown() && r.mission_description@
                    == mission_description_unknown(),
            },
            vid_urls_transformed(
                r.vid_urls@,
                match info.vid_urls {
                    Some(v) => v@,
                    None => Seq::<VidUrl>::empty(),
                },
            ),
    {
        let (payload, mission_type, mission_description) = match info.mission {
            Some(m) => (m.name, m.mission_type, m.description),
            None => (
                "payload unknown".to_owned(),
                "mission type unknown".to_owned(),
                "mission description unknown".to_owned(),
            ),
        };
        let vid_urls = match info.vid_urls {
            Some(v) => transform_vid_urls(v),
            None => Vec::new(),
        };
        LaunchData {
            id: 0,
            ll_id: info.id,
            launch_name: info.name,
            status: info.status,
            payload,
            vid_urls,
            vehicle: info.vehicle,
            location: info.pad,
            net: info.net,
            launch_window: info.window_end - info.window_start,
            rocket_img: info.image,
            mission_type,
            mission_description,
            lsp: info.lsp,
        }
    }
}

} // verus!
