//! Canonical launch records and the raw-provider payload they are built from.
//!
//! Instants are seconds on a single reference clock; durations are seconds.
//! Status codes follow the launch-data provider's numbering.

use vstd::prelude::*;

verus! {

/// Provider status code: launch is a go.
pub const STATUS_GO: u32 = 1;

/// Provider status code: date to be determined (a delay/scrub).
pub const STATUS_TBD: u32 = 2;

/// Provider status code: launch succeeded.
pub const STATUS_SUCCESS: u32 = 3;

/// Provider status code: launch failed.
pub const STATUS_FAILURE: u32 = 4;

/// Provider status code: launch on hold (a delay/scrub).
pub const STATUS_HOLD: u32 = 5;

/// Provider status code: vehicle in flight.
pub const STATUS_IN_FLIGHT: u32 = 6;

/// Provider status code: launch partially failed.
pub const STATUS_PARTIAL_FAILURE: u32 = 7;

/// The status codes that indicate a delay or scrub.
pub open spec fn is_scrub_status(s: u32) -> bool {
    s == STATUS_TBD || s == STATUS_HOLD
}

/// The status codes that indicate an outcome (success, failure, partial failure).
pub open spec fn is_outcome_status(s: u32) -> bool {
    s == STATUS_SUCCESS || s == STATUS_FAILURE || s == STATUS_PARTIAL_FAILURE
}

/// Executable test for [`is_scrub_status`].
pub fn scrub_status(s: u32) -> (r: bool)
    ensures
        r == is_scrub_status(s),
{
    s == STATUS_TBD || s == STATUS_HOLD
}

/// Executable test for [`is_outcome_status`].
pub fn outcome_status(s: u32) -> (r: bool)
    ensures
        r == is_outcome_status(s),
{
    s == STATUS_SUCCESS || s == STATUS_FAILURE || s == STATUS_PARTIAL_FAILURE
}

/// One video stream of a launch, with the provider's priority (lower value =
/// higher priority).
pub struct VidUrl {
    pub priority: i64,
    pub title: String,
    pub url: String,
}

impl Clone for VidUrl {
    fn clone(&self) -> (r: Self)
        ensures
            r == *self,
    {
        VidUrl { priority: self.priority, title: self.title.clone(), url: self.url.clone() }
    }
}

/// Optional mission details of a raw provider payload.
pub struct MissionInfo {
    pub name: String,
    pub mission_type: String,
    pub description: String,
}

/// Raw provider payload for one launch, as handed over by the poller after
/// decoding. Optional sub-objects may be absent.
pub struct LaunchInfo {
    pub id: String,
    pub name: String,
    pub status: u32,
    pub mission: Option<MissionInfo>,
    pub vid_urls: Option<Vec<VidUrl>>,
    pub vehicle: String,
    pub pad: String,
    pub net: i64,
    pub window_start: i64,
    pub window_end: i64,
    pub image: Option<String>,
    pub lsp: String,
}

/// Canonical, immutable snapshot of one launch.
pub struct LaunchData {
    pub id: i64,
    pub ll_id: String,
    pub launch_name: String,
    pub status: u32,
    pub payload: String,
    pub vid_urls: Vec<VidUrl>,
    pub vehicle: String,
    pub location: String,
    pub net: i64,
    pub launch_window: i64,
    pub rocket_img: Option<String>,
    pub mission_type: String,
    pub mission_description: String,
    pub lsp: String,
}

impl Clone for LaunchData {
    fn clone(&self) -> (r: Self)
        ensures
            r.id == self.id,
            r.ll_id@ == self.ll_id@,
            r.launch_name@ == self.launch_name@,
            r.status == self.status,
            r.payload@ == self.payload@,
            r.vid_urls@ == self.vid_urls@,
            r.vehicle@ == self.vehicle@,
            r.location@ == self.location@,
            r.net == self.net,
            r.launch_window == self.launch_window,
            r.rocket_img == self.rocket_img,
            r.mission_type@ == self.mission_type@,
            r.mission_description@ == self.mission_description@,
            r.lsp@ == self.lsp@,
    {
        let r = LaunchData {
            id: self.id,
            ll_id: self.ll_id.clone(),
            launch_name: self.launch_name.clone(),
            status: self.status,
            payload: self.payload.clone(),
            vid_urls: self.vid_urls.clone(),
            vehicle: self.vehicle.clone(),
            location: self.location.clone(),
            net: self.net,
            launch_window: self.launch_window,
            rocket_img: self.rocket_img.clone(),
            mission_type: self.mission_type.clone(),
            mission_description: self.mission_description.clone(),
            lsp: self.lsp.clone(),
        };
        proof {
            assert(r.vid_urls@ =~= self.vid_urls@);
        }
        r
    }
}

/// A raw payload whose window is ordered and whose window length fits the
/// duration type.
pub open spec fn launch_info_wf(info: LaunchInfo) -> bool {
    &&& info.window_start <= info.window_end
    &&& info.window_end - info.window_start <= i64::MAX as int
}

/// Every launch id occurs at most once in the sequence.
pub open spec fn distinct_ids(s: Seq<LaunchData>) -> bool {
    forall|i: int, j: int|
        0 <= i < j < s.len() ==> (#[trigger] s[i]).ll_id@ != (#[trigger] s[j]).ll_id@
}

} // verus!
