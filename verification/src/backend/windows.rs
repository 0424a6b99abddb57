//! The Windows backend: how the desktop topology is told from the active
//! display paths, how a device's fixed-size wide-character names are read,
//! and which calls apply an arrangement, with the errors they can end in.
use vstd::prelude::*;
use vstd::string::StringExecFns;
use crate::apply::{apply_profile_with_mapping, resolve_mappings};
use crate::backend::linux::{
    any_enabled, any_enabled_exec, mapping_error_message, mapping_error_text, no_displays_message,
    none_enabled_message,
};
use crate::display_info::{DisplayConfig, DisplayMapping, DisplayProfile, DisplayTopology};
use crate::text::{chars_of, dec_int, push_i64, string_from, string_of, string_views};

verus! {

broadcast use vstd::string::group_string_axioms;

pub const SDC_TOPOLOGY_INTERNAL: u32 = 0x00000001;

pub const SDC_TOPOLOGY_CLONE: u32 = 0x00000002;

pub const SDC_TOPOLOGY_EXTEND: u32 = 0x00000004;

pub const SDC_TOPOLOGY_EXTERNAL: u32 = 0x00000008;

pub const SDC_APPLY: u32 = 0x00000080;

/// The `SetDisplayConfig` topology flag of a topology; an unknown one is
/// applied as extended.
pub open spec fn topology_flag(topology: DisplayTopology) -> u32 {
    match topology {
        DisplayTopology::Extend => SDC_TOPOLOGY_EXTEND,
        DisplayTopology::Clone => SDC_TOPOLOGY_CLONE,
        DisplayTopology::Internal => SDC_TOPOLOGY_INTERNAL,
        DisplayTopology::External => SDC_TOPOLOGY_EXTERNAL,
        DisplayTopology::Unknown(_) => SDC_TOPOLOGY_EXTEND,
    }
}

/// The `SetDisplayConfig` topology flag of a topology.
pub fn get_topology_flag(topology: &DisplayTopology) -> (r: u32)
    ensures
        r == topology_flag(*topology),
{
    match topology {
        DisplayTopology::Extend => SDC_TOPOLOGY_EXTEND,
        DisplayTopology::Clone => SDC_TOPOLOGY_CLONE,
        DisplayTopology::Internal => SDC_TOPOLOGY_INTERNAL,
        DisplayTopology::External => SDC_TOPOLOGY_EXTERNAL,
        DisplayTopology::Unknown(_) => SDC_TOPOLOGY_EXTEND,
    }
}

// ---------------------------------------------------------------------------
// Querying
// ---------------------------------------------------------------------------

/// What a failed `GetDisplayConfigBufferSizes` (a nonzero status) makes of
/// the topology; `None` where the query goes on.
pub fn topology_after_buffer_sizes(status: i32) -> (r: Option<DisplayTopology>)
    ensures
        status != 0 ==> r == Some(DisplayTopology::Unknown(status)),
        status == 0 ==> r is None,
{
    if status != 0 {
        Some(DisplayTopology::Unknown(status))
    } else {
        None
    }
}

/// Two of the values in `s` are equal.
pub open spec fn has_duplicate(s: Seq<u32>) -> bool {
    exists|i: int, j: int| 0 <= i < j < s.len() && #[trigger] s[i] == #[trigger] s[j]
}

/// The topology that `QueryDisplayConfig` reveals: its nonzero status as an
/// unknown topology; internal with a single active path; cloned when two
/// paths share a source; extended otherwise.
pub open spec fn queried_topology(status: i32, num_paths: u32, source_ids: Seq<u32>) -> DisplayTopology {
    if status != 0 {
        DisplayTopology::Unknown(status)
    } else if num_paths == 1 {
        DisplayTopology::Internal
    } else if has_duplicate(source_ids) {
        DisplayTopology::Clone
    } else {
        DisplayTopology::Extend
    }
}

/// Whether two of the values in `s` are equal.
pub fn has_duplicate_exec(s: &Vec<u32>) -> (r: bool)
    ensures
        r == has_duplicate(s@),
{
    let mut i: usize = 0;
    while i < s.len()
        invariant
            i <= s.len(),
            forall|a: int, b: int| 0 <= a < i && a < b < s.len() ==> s@[a] != s@[b],
        decreases s.len() - i,
    {
        let mut j: usize = i + 1;
        while j < s.len()
            invariant
                i < s.len(),
                i + 1 <= j <= s.len(),
                forall|b: int| i < b < j ==> s@[i as int] != s@[b],
            decreases s.len() - j,
        {
            if s[i] == s[j] {
                return true;
            }
            j = j + 1;
        }
        i = i + 1;
    }
    false
}

/// The topology that `QueryDisplayConfig` reveals, given its status, the
/// number of paths it reported and the source id of every path buffer.
pub fn topology_after_query(status: i32, num_paths: u32, source_ids: &Vec<u32>) -> (r:
    DisplayTopology)
    ensures
        r == queried_topology(status, num_paths, source_ids@),
{
    if status != 0 {
        DisplayTopology::Unknown(status)
    } else if num_paths == 1 {
        DisplayTopology::Internal
    } else if has_duplicate_exec(source_ids) {
        DisplayTopology::Clone
    } else {
        DisplayTopology::Extend
    }
}

/// The text of UTF-16 code units, each unpaired surrogate read as U+FFFD
/// (`String::from_utf16_lossy`).
pub open spec fn decode_utf16_lossy(u: Seq<u16>) -> Seq<char>
    decreases u.len(),
{
    if u.len() == 0 {
        Seq::empty()
    } else if u[0] < 0xD800 || u[0] > 0xDFFF {
        seq![u[0] as char] + decode_utf16_lossy(u.drop_first())
    } else if u[0] <= 0xDBFF && u.len() >= 2 && 0xDC00 <= u[1] <= 0xDFFF {
        seq![
            (0x10000 + (u[0] - 0xD800) * 0x400 + (u[1] - 0xDC00)) as char,
        ] + decode_utf16_lossy(u.skip(2))
    } else {
        seq!['\u{FFFD}'] + decode_utf16_lossy(u.drop_first())
    }
}

/// Decodes UTF-16 code units, each unpaired surrogate becoming U+FFFD.
/// Trusted: `String::from_utf16_lossy`, whose documentation says it decodes
/// the units and replaces invalid data with the replacement character; the
/// contract spells out that decoding.
#[verifier::external_body]
fn utf16_lossy(units: &[u16]) -> (r: String)
    ensures
        r@ == decode_utf16_lossy(units@),
{
    String::from_utf16_lossy(units)
}

/// `s` without its trailing NUL characters.
pub open spec fn trim_trailing_nuls(s: Seq<char>) -> Seq<char>
    decreases s.len(),
{
    if s.len() > 0 && s.last() == '\0' {
        trim_trailing_nuls(s.drop_last())
    } else {
        s
    }
}

/// A device string from its fixed-size, NUL-padded UTF-16 buffer.
pub open spec fn device_text(units: Seq<u16>) -> Seq<char> {
    trim_trailing_nuls(decode_utf16_lossy(units))
}

/// A device string from its fixed-size, NUL-padded UTF-16 buffer: the
/// decoded text without its trailing NULs.
pub fn device_string(units: &Vec<u16>) -> (r: String)
    ensures
        r@ == device_text(units@),
{
    let s = utf16_lossy(units.as_slice());
    let v = chars_of(s.as_str());
    let mut n = v.len();
    assert(v@.take(n as int) =~= v@);
    while n > 0 && v[n - 1] == '\0'
        invariant
            n <= v.len(),
            trim_trailing_nuls(v@) == trim_trailing_nuls(v@.take(n as int)),
        decreases n,
    {
        assert(v@.take(n as int).drop_last() =~= v@.take(n - 1));
        n = n - 1;
    }
    assert(v@.take(n as int).len() > 0 ==> v@.take(n as int).last() == v@[n - 1]);
    string_of(&crate::text::sub_vec(&v, 0, n))
}

/// The monitor that a display device and its current mode are read as:
/// named, labelled, identified and keyed by the device's strings, with the
/// mode's size, position and orientation, enabled.
pub open spec fn is_device_config(
    c: DisplayConfig,
    name: Seq<u16>,
    id: Seq<u16>,
    key: Seq<u16>,
    width: u32,
    height: u32,
    x: i32,
    y: i32,
    orientation: u32,
) -> bool {
    &&& c.label matches Some(l) && l@ == device_text(name)
    &&& c.device_name@ == device_text(name)
    &&& c.device_id@ == device_text(id)
    &&& c.device_key@ == device_text(key)
    &&& c.width == width
    &&& c.height == height
    &&& c.position_x == x
    &&& c.position_y == y
    &&& c.orientation == orientation
    &&& c.enabled
}

/// The monitor that a display device and its current mode are read as.
pub fn display_config_from_device(
    name: &Vec<u16>,
    id: &Vec<u16>,
    key: &Vec<u16>,
    width: u32,
    height: u32,
    x: i32,
    y: i32,
    orientation: u32,
) -> (c: DisplayConfig)
    ensures
        is_device_config(c, name@, id@, key@, width, height, x, y, orientation),
{
    let device_name = device_string(name);
    DisplayConfig {
        label: Some(device_name.clone()),
        device_name,
        device_id: device_string(id),
        device_key: device_string(key),
        width,
        height,
        position_x: x,
        position_y: y,
        orientation,
        enabled: true,
    }
}

// ---------------------------------------------------------------------------
// Applying
// ---------------------------------------------------------------------------

/// One display call of an apply.
#[derive(Debug)]
pub enum WindowsDisplayStep {
    /// `ChangeDisplaySettingsExW` with this mode, position and orientation.
    Apply {
        device_name: String,
        width: u32,
        height: u32,
        position_x: i32,
        position_y: i32,
        orientation: u32,
    },
    /// `ChangeDisplaySettingsExW` with a zero-sized mode at the origin.
    Detach { device_name: String },
}

/// The calls that apply an arrangement: `SetDisplayConfig` with
/// `topology_flags`, then one display call per monitor, in order.
#[derive(Debug)]
pub struct WindowsApplyPlan {
    pub topology_flags: u32,
    pub steps: Vec<WindowsDisplayStep>,
}

/// The display call for monitor `d`: its mode for an enabled one, a detach otherwise.
pub open spec fn is_step_for(s: WindowsDisplayStep, d: DisplayConfig) -> bool {
    if d.enabled {
        s matches WindowsDisplayStep::Apply {
            device_name,
            width,
            height,
            position_x,
            position_y,
            orientation,
        } && device_name@ == d.device_name@ && width == d.width && height == d.height
            && position_x == d.position_x && position_y == d.position_y && orientation
            == d.orientation
    } else {
        s matches WindowsDisplayStep::Detach { device_name } && device_name@ == d.device_name@
    }
}

/// The index of the first monitor of `ds` whose name is not among `names`.
pub open spec fn first_unconnected(ds: Seq<DisplayConfig>, names: Seq<Seq<char>>) -> Option<int>
    decreases ds.len(),
{
    if ds.len() == 0 {
        None
    } else if !names.contains(ds[0].device_name@) {
        Some(0)
    } else {
        match first_unconnected(ds.drop_first(), names) {
            Some(i) => Some(i + 1),
            None => None,
        }
    }
}

pub open spec fn not_connected_message(name: Seq<char>) -> Seq<char> {
    "target display '"@ + name + "' is not currently connected"@
}

fn name_listed(names: &Vec<String>, name: &String) -> (r: bool)
    ensures
        r == string_views(names@).contains(name@),
{
    let ghost nv = string_views(names@);
    let mut i: usize = 0;
    while i < names.len()
        invariant
            i <= names.len(),
            nv == string_views(names@),
            forall|j: int| 0 <= j < i ==> nv[j] != name@,
        decreases names.len() - i,
    {
        if names[i] == *name {
            assert(nv[i as int] == name@);
            return true;
        }
        i = i + 1;
    }
    false
}

/// What applying the monitors `ds` with `topology` gives, where the display
/// devices `names` are there: refused without monitors, without an enabled
/// one, or when a monitor is not among `names` (the first such); else the
/// topology flag with `SDC_APPLY` and one call per monitor (see `is_step_for`).
pub open spec fn is_plan_outcome(
    topology: DisplayTopology,
    ds: Seq<DisplayConfig>,
    names: Seq<Seq<char>>,
    r: Result<WindowsApplyPlan, String>,
) -> bool {
    if ds.len() == 0 {
        r matches Err(e) && e@ == no_displays_message()
    } else if !any_enabled(ds) {
        r matches Err(e) && e@ == none_enabled_message()
    } else {
        match first_unconnected(ds, names) {
            Some(i) => r matches Err(e) && e@ == not_connected_message(ds[i].device_name@),
            None => r matches Ok(plan) && plan.topology_flags == (topology_flag(topology)
                | SDC_APPLY) && plan.steps@.len() == ds.len() && forall|k: int|
                0 <= k < plan.steps@.len() ==> is_step_for(#[trigger] plan.steps@[k], ds[k]),
        }
    }
}

/// The calls that apply `profile`, given the names of the display devices
/// there are: the topology flag with `SDC_APPLY`, then one call per monitor
/// (see `is_step_for`). Refused: a profile without monitors, one without an
/// enabled monitor, and one naming a device that is not there (the first such).
pub fn windows_apply_plan(profile: &DisplayProfile, all_display_names: &Vec<String>) -> (r: Result<
    WindowsApplyPlan,
    String,
>)
    ensures
        is_plan_outcome(profile.topology, profile.displays@, string_views(all_display_names@), r),
{
    let ds = &profile.displays;
    if ds.len() == 0 {
        return Err(string_from("profile does not contain any displays to apply"));
    }
    if !any_enabled_exec(ds) {
        return Err(string_from("no enabled displays in profile"));
    }
    let ghost nv = string_views(all_display_names@);
    let mut i: usize = 0;
    assert(ds@.skip(0) =~= ds@);
    while i < ds.len()
        invariant
            i <= ds.len(),
            ds@ == profile.displays@,
            ds@.len() > 0,
            any_enabled(ds@),
            nv == string_views(all_display_names@),
            first_unconnected(ds@, nv) == match first_unconnected(ds@.skip(i as int), nv) {
                Some(j) => Some(j + i),
                None => None,
            },
        decreases ds.len() - i,
    {
        assert(ds@.skip(i as int)[0] == ds@[i as int]);
        assert(ds@.skip(i as int).drop_first() =~= ds@.skip(i + 1));
        if !name_listed(all_display_names, &ds[i].device_name) {
            let mut e = String::new();
            e.append("target display '");
            e.append(ds[i].device_name.as_str());
            e.append("' is not currently connected");
            return Err(e);
        }
        i = i + 1;
    }
    let mut steps: Vec<WindowsDisplayStep> = Vec::new();
    let mut k: usize = 0;
    while k < ds.len()
        invariant
            k <= ds.len(),
            steps@.len() == k,
            forall|j: int| 0 <= j < k ==> is_step_for(#[trigger] steps@[j], ds@[j]),
        decreases ds.len() - k,
    {
        let d = &ds[k];
        if d.enabled {
            steps.push(
                WindowsDisplayStep::Apply {
                    device_name: d.device_name.clone(),
                    width: d.width,
                    height: d.height,
                    position_x: d.position_x,
                    position_y: d.position_y,
                    orientation: d.orientation,
                },
            );
        } else {
            steps.push(WindowsDisplayStep::Detach { device_name: d.device_name.clone() });
        }
        k = k + 1;
    }
    let flag = get_topology_flag(&profile.topology) | SDC_APPLY;
    Ok(WindowsApplyPlan { topology_flags: flag, steps })
}

/// The calls that apply `profile` through `mappings` onto the monitors
/// `current` that are there, given the names of all display devices: the
/// mapped monitors (see `apply_profile_with_mapping`) planned as
/// `windows_apply_plan` does; a mapping that cannot be resolved is reported
/// in the words of the X11 backend, which this backend shares.
pub fn windows_mapped_plan(
    current: &Vec<DisplayConfig>,
    profile: &DisplayProfile,
    mappings: &Vec<DisplayMapping>,
    all_display_names: &Vec<String>,
) -> (r: Result<WindowsApplyPlan, String>)
    ensures
        match resolve_mappings(current@, profile.displays@, mappings@) {
            Err(e) => r matches Err(m) && m@ == mapping_error_message(e),
            Ok(ds) => is_plan_outcome(profile.topology, ds, string_views(all_display_names@), r),
        },
{
    match apply_profile_with_mapping(current, profile, mappings) {
        Err(e) => Err(mapping_error_text(&e)),
        Ok(mapped) => windows_apply_plan(&mapped, all_display_names),
    }
}

/// What to do next while applying a plan, `done` calls in and with the
/// status of the last one.
#[derive(Debug)]
pub enum WindowsAction {
    /// `SetDisplayConfig` with these flags.
    SetTopology(u32),
    /// The display call of the plan's step at this index.
    Change(usize),
    /// Every call succeeded.
    Done,
    /// A call failed; this is the error.
    Fail(String),
}

/// The next action of applying `plan` after `done` calls, the last of which
/// returned `last_status`: the topology call first; a failed call (nonzero
/// status) stops the apply with its error; else the next display call in
/// order, and when none is left, done.
pub fn next_windows_action(plan: &WindowsApplyPlan, done: usize, last_status: Option<i32>) -> (r:
    WindowsAction)
    requires
        done <= plan.steps@.len() + 1,
        (done == 0) == (last_status is None),
    ensures
        done == 0 ==> r == WindowsAction::SetTopology(plan.topology_flags),
        done > 0 && last_status->0 != 0 ==> (r matches WindowsAction::Fail(e) && e@ == if done
            == 1 {
            topology_status_message(last_status->0)
        } else {
            display_status_message(plan.steps@[done - 2], last_status->0)
        }),
        done > 0 && last_status->0 == 0 && done - 1 < plan.steps@.len() ==> r
            == WindowsAction::Change((done - 1) as usize),
        done > 0 && last_status->0 == 0 && done - 1 == plan.steps@.len() ==> r
            == WindowsAction::Done,
{
    match last_status {
        None => WindowsAction::SetTopology(plan.topology_flags),
        Some(status) => {
            if status != 0 {
                let e = if done == 1 {
                    topology_status(status)
                } else {
                    display_status(&plan.steps[done - 2], status)
                };
                match e {
                    Err(m) => WindowsAction::Fail(m),
                    Ok(()) => WindowsAction::Done,
                }
            } else if done - 1 < plan.steps.len() {
                WindowsAction::Change(done - 1)
            } else {
                WindowsAction::Done
            }
        },
    }
}

/// `id as i32` in Rust: ids above `i32::MAX` wrap to negative numbers.
pub open spec fn wrap_id(id: u32) -> int {
    if id <= i32::MAX {
        id as int
    } else {
        id - 0x1_0000_0000
    }
}

/// The topology named by the id that `QueryDisplayConfig` reports as the
/// current topology: the four `SDC_TOPOLOGY_*` ids by name, any other id, or
/// a failed query's status, as unknown.
pub open spec fn spec_topology_from_id(status: i32, topology_id: u32) -> DisplayTopology {
    if status != 0 {
        DisplayTopology::Unknown(status)
    } else if topology_id == SDC_TOPOLOGY_EXTEND {
        DisplayTopology::Extend
    } else if topology_id == SDC_TOPOLOGY_CLONE {
        DisplayTopology::Clone
    } else if topology_id == SDC_TOPOLOGY_INTERNAL {
        DisplayTopology::Internal
    } else if topology_id == SDC_TOPOLOGY_EXTERNAL {
        DisplayTopology::External
    } else {
        DisplayTopology::Unknown(wrap_id(topology_id) as i32)
    }
}

/// The topology named by the current-topology id of `QueryDisplayConfig`.
pub fn topology_from_id(status: i32, topology_id: u32) -> (r: DisplayTopology)
    ensures
        r == spec_topology_from_id(status, topology_id),
{
    if status != 0 {
        DisplayTopology::Unknown(status)
    } else if topology_id == SDC_TOPOLOGY_EXTEND {
        DisplayTopology::Extend
    } else if topology_id == SDC_TOPOLOGY_CLONE {
        DisplayTopology::Clone
    } else if topology_id == SDC_TOPOLOGY_INTERNAL {
        DisplayTopology::Internal
    } else if topology_id == SDC_TOPOLOGY_EXTERNAL {
        DisplayTopology::External
    } else if topology_id <= 0x7fff_ffff {
        DisplayTopology::Unknown(topology_id as i32)
    } else {
        DisplayTopology::Unknown((topology_id as i64 - 0x1_0000_0000) as i32)
    }
}

pub open spec fn topology_status_message(status: i32) -> Seq<char> {
    "failed to apply display topology with status code "@ + dec_int(status as int)
}

/// The outcome of `SetDisplayConfig`: a nonzero status is a failure.
pub fn topology_status(status: i32) -> (r: Result<(), String>)
    ensures
        status == 0 ==> r is Ok,
        status != 0 ==> (r matches Err(e) && e@ == topology_status_message(status)),
{
    if status != 0 {
        let mut e = String::new();
        e.append("failed to apply display topology with status code ");
        push_i64(&mut e, status as i64);
        Err(e)
    } else {
        Ok(())
    }
}

pub open spec fn display_status_message(step: WindowsDisplayStep, status: i32) -> Seq<char> {
    match step {
        WindowsDisplayStep::Apply { device_name, .. } => "failed to apply settings for '"@
            + device_name@ + "' with status code "@ + dec_int(status as int),
        WindowsDisplayStep::Detach { device_name } => "failed to detach display '"@
            + device_name@ + "' with status code "@ + dec_int(status as int),
    }
}

/// The outcome of the display call `step`: a nonzero status is a failure.
pub fn display_status(step: &WindowsDisplayStep, status: i32) -> (r: Result<(), String>)
    ensures
        status == 0 ==> r is Ok,
        status != 0 ==> (r matches Err(e) && e@ == display_status_message(*step, status)),
{
    if status == 0 {
        return Ok(());
    }
    let mut e = String::new();
    match step {
        WindowsDisplayStep::Apply { device_name, .. } => {
            e.append("failed to apply settings for '");
            e.append(device_name.as_str());
        },
        WindowsDisplayStep::Detach { device_name } => {
            e.append("failed to detach display '");
            e.append(device_name.as_str());
        },
    }
    e.append("' with status code ");
    push_i64(&mut e, status as i64);
    Err(e)
}


// ---------------------------------------------------------------------------
// Laws
// ---------------------------------------------------------------------------

proof fn lemma_all_connected(ds: Seq<DisplayConfig>, names: Seq<Seq<char>>)
    requires
        first_unconnected(ds, names) is None,
    ensures
        forall|k: int| 0 <= k < ds.len() ==> names.contains(#[trigger] ds[k].device_name@),
    decreases ds.len(),
{
    if ds.len() > 0 {
        let rest = ds.drop_first();
        lemma_all_connected(rest, names);
        assert forall|k: int| 0 <= k < ds.len() implies names.contains(#[trigger] ds[k].device_name@) by {
            if k > 0 {
                assert(ds[k] == rest[k - 1]);
            }
        }
    }
}

/// A plan is made only for a nonempty arrangement with an enabled monitor
/// whose monitors are all among the connected devices; it has one call per
/// monitor, in order; the call for an enabled monitor applies that monitor's
/// own device, size, position and orientation, and the call for a disabled
/// one detaches that monitor's device.
pub proof fn lemma_plan_follows_monitors(
    topology: DisplayTopology,
    ds: Seq<DisplayConfig>,
    names: Seq<Seq<char>>,
    r: Result<WindowsApplyPlan, String>,
)
    requires
        is_plan_outcome(topology, ds, names, r),
    ensures
        r is Ok ==> ds.len() > 0 && exists|i: int| 0 <= i < ds.len() && #[trigger] ds[i].enabled,
        r is Ok ==> forall|k: int| 0 <= k < ds.len() ==> names.contains(#[trigger] ds[k].device_name@),
        match r {
            Ok(plan) => {
                &&& plan.steps@.len() == ds.len()
                &&& forall|k: int|
                    0 <= k < ds.len() && (#[trigger] ds[k]).enabled ==> match plan.steps@[k] {
                        WindowsDisplayStep::Apply {
                            device_name,
                            width,
                            height,
                            position_x,
                            position_y,
                            orientation,
                        } => device_name@ == ds[k].device_name@ && width == ds[k].width && height
                            == ds[k].height && position_x == ds[k].position_x && position_y
                            == ds[k].position_y && orientation == ds[k].orientation,
                        WindowsDisplayStep::Detach { .. } => false,
                    }
                &&& forall|k: int|
                    0 <= k < ds.len() && !(#[trigger] ds[k]).enabled ==> match plan.steps@[k] {
                        WindowsDisplayStep::Detach { device_name } => device_name@
                            == ds[k].device_name@,
                        WindowsDisplayStep::Apply { .. } => false,
                    }
            },
            Err(_) => true,
        },
{
    if r is Ok {
        lemma_all_connected(ds, names);
        let plan = r->Ok_0;
        assert forall|k: int| 0 <= k < ds.len() implies is_step_for(plan.steps@[k], #[trigger] ds[k]) by {
            assert(is_step_for(plan.steps@[k], ds[k]));
        }
    }
}

} // verus!
