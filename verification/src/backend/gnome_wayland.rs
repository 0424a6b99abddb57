//! The GNOME Wayland backend: Mutter's monitor state is read into an
//! arrangement, an arrangement is turned into the logical monitors that
//! Mutter is asked to apply, and Mutter's failures are worded for the user.
use vstd::prelude::*;
use vstd::string::StringExecFns;
use crate::apply::{apply_profile_with_mapping, resolve_mappings, MappingError};
use crate::backend::linux::{any_enabled, any_enabled_exec, none_enabled_message};
use crate::display_info::{DisplayConfig, DisplayMapping, DisplayProfile, DisplayTopology};
use crate::text::{
    chars_of, contains, contains_exec, dec, lines, occurs_at, occurs_at_exec, push_chars, push_u64,
    split_lines, starts_with, starts_with_exec, string_from, string_of, sub_vec, trim,
    trimmed_chars, views,
};

verus! {

broadcast use vstd::string::group_string_axioms;

/// A mode that a monitor offers. Its refresh rate, a float, is held as a key
/// that orders modes as their rates do: of two rates that are numbers, the
/// higher has the higher key; a rate that is not a number has none.
#[derive(Debug)]
pub struct AvailableMode {
    pub mode_id: String,
    pub width: u32,
    pub height: u32,
    pub refresh_key: Option<u64>,
    pub is_preferred: bool,
}

/// A monitor as Mutter reports it. Its scale, a float, stays with the caller.
#[derive(Debug)]
pub struct GnomeDisplay {
    pub connector: String,
    pub display_name: String,
    pub vendor: String,
    pub product: String,
    pub serial: String,
    pub mode_id: String,
    pub width: u32,
    pub height: u32,
    pub x: i32,
    pub y: i32,
    pub transform: u32,
    pub primary: bool,
    pub available_modes: Vec<AvailableMode>,
}

/// The orientation of a Mutter transform: the three rotations keep their
/// number, anything else is upright.
pub open spec fn spec_transform_to_orientation(transform: u32) -> u32 {
    if 1 <= transform <= 3 {
        transform
    } else {
        0
    }
}

/// The orientation of a Mutter transform.
pub fn transform_to_orientation(transform: u32) -> (r: u32)
    ensures
        r == spec_transform_to_orientation(transform),
{
    match transform {
        1 => 1,
        2 => 2,
        3 => 3,
        _ => 0,
    }
}

/// The Mutter transform of an orientation: the three rotations keep their
/// number, anything else is upright.
pub open spec fn spec_orientation_to_transform(orientation: u32) -> u32 {
    if 1 <= orientation <= 3 {
        orientation
    } else {
        0
    }
}

/// The Mutter transform of an orientation.
pub fn orientation_to_transform(orientation: u32) -> (r: u32)
    ensures
        r == spec_orientation_to_transform(orientation),
{
    match orientation {
        1 => 1,
        2 => 2,
        3 => 3,
        _ => 0,
    }
}

/// Orientations and Mutter transforms convert into each other without loss
/// for the four orientations, and anything else reads as upright.
pub proof fn lemma_orientation_transform_roundtrip(o: u32)
    ensures
        o <= 3 ==> spec_transform_to_orientation(spec_orientation_to_transform(o)) == o,
        o <= 3 ==> spec_orientation_to_transform(spec_transform_to_orientation(o)) == o,
        o > 3 ==> spec_transform_to_orientation(o) == 0 && spec_orientation_to_transform(o) == 0,
{
}

/// `VENDOR:PRODUCT:SERIAL`.
pub open spec fn gnome_device_id(d: GnomeDisplay) -> Seq<char> {
    d.vendor@ + ":"@ + d.product@ + ":"@ + d.serial@
}

/// The monitor that a Mutter monitor is read as: labelled with its display
/// name, named after its connector, identified by vendor, product and serial,
/// keyed by its mode, with its geometry and orientation, enabled.
pub open spec fn is_gnome_config(c: DisplayConfig, d: GnomeDisplay) -> bool {
    &&& c.label matches Some(l) && l@ == d.display_name@
    &&& c.device_name@ == d.connector@
    &&& c.device_id@ == gnome_device_id(d)
    &&& c.device_key@ == d.mode_id@
    &&& c.width == d.width
    &&& c.height == d.height
    &&& c.position_x == d.x
    &&& c.position_y == d.y
    &&& c.orientation == spec_transform_to_orientation(d.transform)
    &&& c.enabled
}

/// The monitor that a Mutter monitor is read as.
pub fn gnome_display_config(d: &GnomeDisplay) -> (c: DisplayConfig)
    ensures
        is_gnome_config(c, *d),
{
    let mut id = String::new();
    id.append(d.vendor.as_str());
    id.append(":");
    id.append(d.product.as_str());
    id.append(":");
    id.append(d.serial.as_str());
    DisplayConfig {
        label: Some(d.display_name.clone()),
        device_name: d.connector.clone(),
        device_id: id,
        device_key: d.mode_id.clone(),
        width: d.width,
        height: d.height,
        position_x: d.x,
        position_y: d.y,
        orientation: transform_to_orientation(d.transform),
        enabled: true,
    }
}

/// The topology of Mutter's state: extended with several monitors; internal
/// when the only monitor's connector begins with `eDP`; external otherwise.
pub open spec fn gnome_topology(state: Seq<GnomeDisplay>) -> DisplayTopology {
    if state.len() > 1 {
        DisplayTopology::Extend
    } else if state.len() == 1 && starts_with(state[0].connector@, "eDP"@) {
        DisplayTopology::Internal
    } else {
        DisplayTopology::External
    }
}

/// The arrangement that Mutter's state is read as: each monitor in order
/// (see `is_gnome_config`), with `gnome_topology`.
pub fn gnome_profile(state: &Vec<GnomeDisplay>) -> (r: DisplayProfile)
    ensures
        r.displays@.len() == state@.len(),
        forall|i: int| 0 <= i < state@.len() ==> is_gnome_config(#[trigger] r.displays@[i], state@[i]),
        r.topology == gnome_topology(state@),
{
    let mut out: Vec<DisplayConfig> = Vec::new();
    let mut i: usize = 0;
    while i < state.len()
        invariant
            i <= state.len(),
            out@.len() == i,
            forall|j: int| 0 <= j < i ==> is_gnome_config(#[trigger] out@[j], state@[j]),
        decreases state.len() - i,
    {
        out.push(gnome_display_config(&state[i]));
        i = i + 1;
    }
    let edp = chars_of("eDP");
    let topology = if state.len() > 1 {
        DisplayTopology::Extend
    } else if state.len() == 1 && starts_with_exec(&chars_of(state[0].connector.as_str()), &edp) {
        DisplayTopology::Internal
    } else {
        DisplayTopology::External
    };
    DisplayProfile { topology, displays: out }
}

// ---------------------------------------------------------------------------
// Choosing modes
// ---------------------------------------------------------------------------

/// The mode id asked for when nothing better is known: `WxH@60.000`.
pub open spec fn fallback_mode_id(width: u32, height: u32) -> Seq<char> {
    dec(width as nat) + "x"@ + dec(height as nat) + "@60.000"@
}

/// The indices of the modes among `modes[..n]` with this resolution, in order.
pub open spec fn matching_modes(modes: Seq<AvailableMode>, width: u32, height: u32, n: int) -> Seq<
    usize,
>
    decreases n,
{
    if n <= 0 {
        Seq::empty()
    } else {
        matching_modes(modes, width, height, n - 1) + if modes[n - 1].width == width
            && modes[n - 1].height == height {
            seq![(n - 1) as usize]
        } else {
            Seq::empty()
        }
    }
}

/// The first of the indices `idx` whose mode is preferred.
pub open spec fn first_preferred(modes: Seq<AvailableMode>, idx: Seq<usize>) -> Option<usize>
    decreases idx.len(),
{
    if idx.len() == 0 {
        None
    } else if modes[idx[0] as int].is_preferred {
        Some(idx[0])
    } else {
        first_preferred(modes, idx.drop_first())
    }
}

/// Whether a mode with refresh key `a` is faster than one with key `b`: both
/// rates are numbers and the first is the higher.
pub open spec fn faster(a: Option<u64>, b: Option<u64>) -> bool {
    a matches Some(x) && b matches Some(y) && x > y
}

/// The fastest of the modes at the indices `idx`: the modes are taken in
/// order, and each replaces the one held unless the one held is faster, so
/// that the last of equally fast modes wins.
pub open spec fn fastest_of(modes: Seq<AvailableMode>, idx: Seq<usize>) -> usize
    decreases idx.len(),
{
    if idx.len() <= 1 {
        idx[0]
    } else {
        let held = fastest_of(modes, idx.drop_last());
        if faster(modes[held as int].refresh_key, modes[idx.last() as int].refresh_key) {
            held
        } else {
            idx.last()
        }
    }
}

/// The mode id asked of `d` for a resolution: its current mode where that has
/// the resolution; else, of the modes with it, the first preferred one, or the
/// fastest where none is preferred; and where it offers none, the fallback id.
pub open spec fn mode_choice(d: GnomeDisplay, width: u32, height: u32) -> Seq<char> {
    let m = matching_modes(d.available_modes@, width, height, d.available_modes@.len() as int);
    if d.width == width && d.height == height {
        d.mode_id@
    } else if m.len() == 0 {
        fallback_mode_id(width, height)
    } else {
        match first_preferred(d.available_modes@, m) {
            Some(p) => d.available_modes@[p as int].mode_id@,
            None => d.available_modes@[fastest_of(d.available_modes@, m) as int].mode_id@,
        }
    }
}

/// Among modes whose refresh rates are all numbers, the fastest is one of
/// them, and no other of them has a higher refresh rate.
pub proof fn lemma_fastest_is_highest(modes: Seq<AvailableMode>, idx: Seq<usize>)
    requires
        idx.len() > 0,
        forall|j: int| 0 <= j < idx.len() ==> #[trigger] idx[j] < modes.len(),
        forall|j: int| 0 <= j < idx.len() ==> (#[trigger] modes[idx[j] as int]).refresh_key is Some,
    ensures
        exists|j: int| 0 <= j < idx.len() && idx[j] == fastest_of(modes, idx),
        forall|j: int|
            0 <= j < idx.len() ==> modes[fastest_of(modes, idx) as int].refresh_key->0
                >= (#[trigger] modes[idx[j] as int]).refresh_key->0,
    decreases idx.len(),
{
    if idx.len() == 1 {
        assert(idx[0] == fastest_of(modes, idx));
    } else {
        let front = idx.drop_last();
        assert forall|j: int| 0 <= j < front.len() implies #[trigger] front[j] < modes.len() by {
            assert(front[j] == idx[j]);
        }
        assert forall|j: int| 0 <= j < front.len() implies (#[trigger] modes[front[j] as int]).refresh_key is Some by {
            assert(front[j] == idx[j]);
            assert(modes[idx[j] as int].refresh_key is Some);
        }
        lemma_fastest_is_highest(modes, front);
        let held = fastest_of(modes, front);
        let w = choose|j: int| 0 <= j < front.len() && front[j] == held;
        assert(idx[w] == held);
        assert(modes[idx[idx.len() - 1] as int].refresh_key is Some);
        assert forall|j: int|
            0 <= j < idx.len() implies modes[fastest_of(modes, idx) as int].refresh_key->0
                >= (#[trigger] modes[idx[j] as int]).refresh_key->0 by {
            if j < idx.len() - 1 {
                assert(front[j] == idx[j]);
                assert(modes[held as int].refresh_key->0 >= modes[front[j] as int].refresh_key->0);
            }
            assert(modes[idx[w] as int].refresh_key is Some);
        }
        if faster(modes[held as int].refresh_key, modes[idx.last() as int].refresh_key) {
            assert(idx[w] == fastest_of(modes, idx));
        } else {
            assert(idx[idx.len() - 1] == fastest_of(modes, idx));
        }
    }
}

/// `WxH@60.000`.
pub fn fallback_mode_text(width: u32, height: u32) -> (r: String)
    ensures
        r@ == fallback_mode_id(width, height),
{
    let mut s = String::new();
    push_u64(&mut s, width as u64);
    s.append("x");
    push_u64(&mut s, height as u64);
    s.append("@60.000");
    s
}

/// The mode id to ask of `display` for a resolution (see `mode_choice`).
pub fn find_mode_id_for_resolution(display: &GnomeDisplay, width: u32, height: u32) -> (r: String)
    ensures
        r@ == mode_choice(*display, width, height),
{
    if display.width == width && display.height == height {
        return display.mode_id.clone();
    }
    let modes = &display.available_modes;
    let mut matching: Vec<usize> = Vec::new();
    let mut i: usize = 0;
    while i < modes.len()
        invariant
            i <= modes.len(),
            matching@ == matching_modes(modes@, width, height, i as int),
            forall|k: int| 0 <= k < matching@.len() ==> #[trigger] matching@[k] < modes.len(),
        decreases modes.len() - i,
    {
        if modes[i].width == width && modes[i].height == height {
            matching.push(i);
        } else {
            assert(matching@ + Seq::<usize>::empty() =~= matching@);
        }
        i = i + 1;
    }
    if matching.len() == 0 {
        return fallback_mode_text(width, height);
    }
    let mut k: usize = 0;
    assert(matching@.skip(0) =~= matching@);
    while k < matching.len()
        invariant
            k <= matching.len(),
            !(display.width == width && display.height == height),
            modes == &display.available_modes,
            matching@.len() > 0,
            matching@ == matching_modes(modes@, width, height, modes.len() as int),
            forall|j: int| 0 <= j < matching@.len() ==> #[trigger] matching@[j] < modes.len(),
            first_preferred(modes@, matching@) == first_preferred(modes@, matching@.skip(k as int)),
        decreases matching.len() - k,
    {
        assert(matching@.skip(k as int)[0] == matching@[k as int]);
        assert(matching@.skip(k as int).drop_first() =~= matching@.skip(k + 1));
        let idx = matching[k];
        if modes[idx].is_preferred {
            assert(first_preferred(modes@, matching@.skip(k as int)) == Some(idx));
            return modes[idx].mode_id.clone();
        }
        k = k + 1;
    }
    assert(matching@.skip(k as int) =~= Seq::<usize>::empty());
    let mut best: usize = matching[0];
    let mut n: usize = 1;
    assert(matching@.take(1) =~= seq![matching@[0]]);
    while n < matching.len()
        invariant
            1 <= n <= matching.len(),
            modes == &display.available_modes,
            forall|j: int| 0 <= j < matching@.len() ==> #[trigger] matching@[j] < modes.len(),
            best < modes.len(),
            best == fastest_of(modes@, matching@.take(n as int)),
        decreases matching.len() - n,
    {
        assert(matching@.take(n + 1).drop_last() =~= matching@.take(n as int));
        assert(matching@.take(n + 1).last() == matching@[n as int]);
        let next = matching[n];
        let keep = match (modes[best].refresh_key, modes[next].refresh_key) {
            (Some(a), Some(b)) => a > b,
            _ => false,
        };
        if !keep {
            best = next;
        }
        n = n + 1;
    }
    assert(matching@.take(n as int) =~= matching@);
    modes[best].mode_id.clone()
}

// ---------------------------------------------------------------------------
// Applying
// ---------------------------------------------------------------------------

/// One logical monitor that Mutter is asked to apply. Its scale is that of
/// the reported monitor at `state_index` (1.0 where there is none), which the
/// caller holds.
#[derive(Debug)]
pub struct GnomeApplyEntry {
    pub connector: String,
    pub mode_id: String,
    pub state_index: Option<usize>,
    pub x: i32,
    pub y: i32,
    pub transform: u32,
    pub primary: bool,
}

/// The enabled monitors of `ds`, in order.
pub open spec fn enabled_of(ds: Seq<DisplayConfig>) -> Seq<DisplayConfig>
    decreases ds.len(),
{
    if ds.len() == 0 {
        Seq::empty()
    } else {
        enabled_of(ds.drop_last()) + if ds.last().enabled {
            seq![ds.last()]
        } else {
            Seq::empty()
        }
    }
}

/// The index of the first reported monitor with this connector.
pub open spec fn find_connector(state: Seq<GnomeDisplay>, name: Seq<char>) -> Option<int>
    decreases state.len(),
{
    if state.len() == 0 {
        None
    } else if state[0].connector@ == name {
        Some(0)
    } else {
        match find_connector(state.drop_first(), name) {
            Some(i) => Some(i + 1),
            None => None,
        }
    }
}

/// The logical monitor asked for the `k`-th enabled monitor `d`: its
/// connector, the mode chosen from the reported monitor with that connector
/// (the fallback id where none is reported), its position, its transform,
/// and primary for the first.
pub open spec fn is_apply_entry(e: GnomeApplyEntry, d: DisplayConfig, k: int, state: Seq<GnomeDisplay>) -> bool {
    &&& e.connector@ == d.device_name@
    &&& e.state_index matches Some(si) ==> find_connector(state, d.device_name@) == Some(si as int)
    &&& e.state_index is None ==> find_connector(state, d.device_name@) is None
    &&& e.mode_id@ == match e.state_index {
        Some(si) => mode_choice(state[si as int], d.width, d.height),
        None => fallback_mode_id(d.width, d.height),
    }
    &&& e.x == d.position_x
    &&& e.y == d.position_y
    &&& e.transform == spec_orientation_to_transform(d.orientation)
    &&& e.primary == (k == 0)
}

proof fn lemma_find_connector(state: Seq<GnomeDisplay>, name: Seq<char>, k: int)
    requires
        0 <= k <= state.len(),
        forall|j: int| 0 <= j < k ==> state[j].connector@ != name,
    ensures
        k < state.len() && state[k].connector@ == name ==> find_connector(state, name) == Some(k),
        k == state.len() ==> find_connector(state, name) is None,
    decreases k,
{
    if k > 0 {
        lemma_find_connector(state.drop_first(), name, k - 1);
    }
}

/// The index of the first reported monitor with this connector.
pub fn find_connector_exec(state: &Vec<GnomeDisplay>, name: &String) -> (r: Option<usize>)
    ensures
        match r {
            Some(i) => i < state.len() && find_connector(state@, name@) == Some(i as int),
            None => find_connector(state@, name@) is None,
        },
{
    let mut i: usize = 0;
    while i < state.len()
        invariant
            i <= state.len(),
            forall|j: int| 0 <= j < i ==> state@[j].connector@ != name@,
        decreases state.len() - i,
    {
        if state[i].connector == *name {
            proof {
                lemma_find_connector(state@, name@, i as int);
            }
            return Some(i);
        }
        i = i + 1;
    }
    proof {
        lemma_find_connector(state@, name@, i as int);
    }
    None
}

/// What applying the monitors `ds` through Mutter gives, given the monitors it
/// reports: refused without an enabled monitor, else one logical monitor per
/// enabled monitor, in order (see `is_apply_entry`).
pub open spec fn is_entries_outcome(
    ds: Seq<DisplayConfig>,
    state: Seq<GnomeDisplay>,
    r: Result<Vec<GnomeApplyEntry>, String>,
) -> bool {
    if !any_enabled(ds) {
        r matches Err(e) && e@ == none_enabled_message()
    } else {
        r matches Ok(es) && es@.len() == enabled_of(ds).len() && forall|k: int|
            0 <= k < es@.len() ==> is_apply_entry(#[trigger] es@[k], enabled_of(ds)[k], k, state)
    }
}

/// The logical monitors that Mutter is asked to apply for `profile`, given the
/// monitors it reports: one per enabled monitor, in order (see
/// `is_apply_entry`). A profile without an enabled monitor is refused.
pub fn gnome_apply_entries(profile: &DisplayProfile, state: &Vec<GnomeDisplay>) -> (r: Result<
    Vec<GnomeApplyEntry>,
    String,
>)
    ensures
        is_entries_outcome(profile.displays@, state@, r),
{
    let ds = &profile.displays;
    if !any_enabled_exec(ds) {
        return Err(string_from("no enabled displays in profile"));
    }
    let mut es: Vec<GnomeApplyEntry> = Vec::new();
    let mut i: usize = 0;
    while i < ds.len()
        invariant
            i <= ds.len(),
            es@.len() == enabled_of(ds@.take(i as int)).len(),
            forall|k: int|
                0 <= k < es@.len() ==> is_apply_entry(
                    #[trigger] es@[k],
                    enabled_of(ds@.take(i as int))[k],
                    k,
                    state@,
                ),
        decreases ds.len() - i,
    {
        let d = &ds[i];
        let ghost prev = enabled_of(ds@.take(i as int));
        assert(ds@.take(i + 1).drop_last() =~= ds@.take(i as int));
        assert(ds@.take(i + 1).last() == *d);
        if d.enabled {
            let si = find_connector_exec(state, &d.device_name);
            let mode_id = match si {
                Some(s) => find_mode_id_for_resolution(&state[s], d.width, d.height),
                None => fallback_mode_text(d.width, d.height),
            };
            let k = es.len();
            let e = GnomeApplyEntry {
                connector: d.device_name.clone(),
                mode_id,
                state_index: si,
                x: d.position_x,
                y: d.position_y,
                transform: orientation_to_transform(d.orientation),
                primary: k == 0,
            };
            es.push(e);
            assert(enabled_of(ds@.take(i + 1)) == prev + seq![*d]);
            assert forall|j: int| 0 <= j < es@.len() implies is_apply_entry(
                #[trigger] es@[j],
                enabled_of(ds@.take(i + 1))[j],
                j,
                state@,
            ) by {
                if j < k {
                    assert(enabled_of(ds@.take(i + 1))[j] == prev[j]);
                }
            }
        } else {
            assert(enabled_of(ds@.take(i + 1)) =~= prev);
        }
        i = i + 1;
    }
    assert(ds@.take(ds.len() as int) =~= ds@);
    Ok(es)
}

/// `cs` are the monitors that the Mutter monitors `state` are read as, in order.
pub open spec fn are_gnome_configs(cs: Seq<DisplayConfig>, state: Seq<GnomeDisplay>) -> bool {
    cs.len() == state.len() && forall|i: int|
        0 <= i < state.len() ==> is_gnome_config(#[trigger] cs[i], state[i])
}

/// The monitors that Mutter's state is read as (see `is_gnome_config`), in order.
pub fn gnome_current_displays(state: &Vec<GnomeDisplay>) -> (r: Vec<DisplayConfig>)
    ensures
        are_gnome_configs(r@, state@),
{
    gnome_profile(state).displays
}

/// The arrangement that applying `profile` through `mappings` asks of Mutter,
/// given the monitors it reports: those monitors, read as
/// `gnome_current_displays` does, take the settings of the saved ones (see
/// `apply_profile_with_mapping`); a mapping that cannot be resolved is
/// reported in this backend's words.
pub fn gnome_mapped_profile(
    state: &Vec<GnomeDisplay>,
    profile: &DisplayProfile,
    mappings: &Vec<DisplayMapping>,
) -> (r: Result<DisplayProfile, String>)
    ensures
        exists|current: Seq<DisplayConfig>|
            {
                &&& #[trigger] are_gnome_configs(current, state@)
                &&& match resolve_mappings(current, profile.displays@, mappings@) {
                    Err(e) => r matches Err(m) && m@ == mapping_error_message(e),
                    Ok(ds) => r matches Ok(p) && p.topology == profile.topology && p.displays@
                        == ds,
                }
            },
{
    let current = gnome_current_displays(state);
    let r = match apply_profile_with_mapping(&current, profile, mappings) {
        Err(e) => Err(mapping_error_text(&e)),
        Ok(mapped) => Ok(mapped),
    };
    assert(are_gnome_configs(current@, state@));
    r
}

/// The error text of a mapping that the GNOME backend cannot resolve.
pub open spec fn mapping_error_message(e: MappingError) -> Seq<char> {
    match e {
        MappingError::CurrentDisplayNotFound(name) => "current display '"@ + name@
            + "' not found"@,
        MappingError::ProfileIndexOutOfRange(i) => "profile display index "@ + dec(i as nat)
            + " out of range"@,
    }
}

/// The error text of a mapping that the GNOME backend cannot resolve.
pub fn mapping_error_text(e: &MappingError) -> (r: String)
    ensures
        r@ == mapping_error_message(*e),
{
    let mut s = String::new();
    match e {
        MappingError::CurrentDisplayNotFound(name) => {
            s.append("current display '");
            s.append(name.as_str());
            s.append("' not found");
        },
        MappingError::ProfileIndexOutOfRange(i) => {
            s.append("profile display index ");
            push_u64(&mut s, *i as u64);
            s.append(" out of range");
        },
    }
    s
}

/// What the helper script printed, trimmed.
pub fn python_output(stdout: &str) -> (r: String)
    ensures
        r@ == trim(stdout@),
{
    string_of(&trimmed_chars(&chars_of(stdout)))
}

pub open spec fn unexpected_result_message(output: Seq<char>) -> Seq<char> {
    "unexpected apply result: "@ + output
}

/// Whether the apply script's trimmed output `output` reports success: it must
/// read `ok` once trimmed.
pub fn check_apply_output(output: &str) -> (r: Result<(), String>)
    ensures
        trim(output@) == "ok"@ ==> r is Ok,
        trim(output@) != "ok"@ ==> (r matches Err(e) && e@ == unexpected_result_message(output@)),
{
    let t = trimmed_chars(&chars_of(output));
    let ok = chars_of("ok");
    if crate::text::chars_eq(&t, &ok) {
        Ok(())
    } else {
        let mut s = String::new();
        s.append("unexpected apply result: ");
        s.append(output);
        Err(s)
    }
}

// ---------------------------------------------------------------------------
// Wording Mutter's failures
// ---------------------------------------------------------------------------

/// The last line of `ls` that is not blank once trimmed.
pub open spec fn last_nonblank(ls: Seq<Seq<char>>) -> Option<Seq<char>>
    decreases ls.len(),
{
    if ls.len() == 0 {
        None
    } else if trim(ls.last()).len() > 0 {
        Some(ls.last())
    } else {
        last_nonblank(ls.drop_last())
    }
}

/// The index of the first occurrence of `pat` in `s` at or after `i`.
pub open spec fn find_from(s: Seq<char>, pat: Seq<char>, i: int) -> Option<int>
    decreases s.len() + 1 - i,
{
    if i < 0 || i + pat.len() > s.len() {
        None
    } else if occurs_at(s, pat, i) {
        Some(i)
    } else {
        find_from(s, pat, i + 1)
    }
}

/// What follows the first `": "` of a line (nothing when it has none): the
/// pieces after the first that splitting at `": "` gives, joined by `": "` again.
pub open spec fn after_first_colon(line: Seq<char>) -> Seq<char> {
    match find_from(line, ": "@, 0) {
        Some(k) => line.skip(k + 2),
        None => Seq::empty(),
    }
}

pub open spec fn closed_panel_message() -> Seq<char> {
    "cannot enable the built-in display because the laptop panel is closed"@
}

/// What the user is told of a failure of the helper script, given its
/// trimmed error output: the text after the first `": "` of its last
/// non-blank line (Python's exception message), as a Mutter failure, and in
/// plain words when Mutter refused to light a closed laptop panel; the whole
/// error output where that text is empty.
pub open spec fn python_error_message(stderr: Seq<char>) -> Seq<char> {
    let fallback = "Mutter D-Bus apply failed: "@ + stderr;
    match last_nonblank(lines(stderr)) {
        Some(line) => {
            let message = after_first_colon(line);
            if message.len() > 0 {
                if contains(message, "Refusing to activate a closed laptop panel"@) {
                    closed_panel_message()
                } else {
                    "Mutter D-Bus apply failed: "@ + message
                }
            } else {
                fallback
            }
        },
        None => fallback,
    }
}

/// The first `": "` of `v`.
fn find_colon(v: &Vec<char>) -> (r: Option<usize>)
    ensures
        match r {
            Some(k) => find_from(v@, ": "@, 0) == Some(k as int) && k + 2 <= v.len(),
            None => find_from(v@, ": "@, 0) is None,
        },
{
    let pat = chars_of(": ");
    proof {
        reveal_strlit(": ");
    }
    let mut i: usize = 0;
    while i < v.len()
        invariant
            pat@ == ": "@,
            ": "@.len() == 2,
            i <= v.len(),
            find_from(v@, ": "@, 0) == find_from(v@, ": "@, i as int),
        decreases v.len() - i,
    {
        if occurs_at_exec(v, &pat, i) {
            return Some(i);
        }
        i = i + 1;
    }
    assert(find_from(v@, ": "@, i as int) is None);
    None
}

/// The index of the last line of `ls` that is not blank once trimmed.
fn last_nonblank_index(ls: &Vec<Vec<char>>) -> (r: Option<usize>)
    ensures
        match r {
            Some(i) => i < ls.len() && last_nonblank(views(ls@)) == Some(ls@[i as int]@),
            None => last_nonblank(views(ls@)) is None,
        },
{
    let ghost lv = views(ls@);
    let mut n: usize = ls.len();
    assert(lv.take(n as int) =~= lv);
    while n > 0
        invariant
            n <= ls.len(),
            lv == views(ls@),
            last_nonblank(lv) == last_nonblank(lv.take(n as int)),
        decreases n,
    {
        assert(lv.take(n as int).last() == ls@[n - 1]@);
        assert(lv.take(n as int).drop_last() =~= lv.take(n - 1));
        if trimmed_chars(&ls[n - 1]).len() > 0 {
            return Some(n - 1);
        }
        n = n - 1;
    }
    None
}

/// What the user is told of a failure of the helper script (see `python_error_message`).
pub fn format_python_error(stderr: &str) -> (r: String)
    ensures
        r@ == python_error_message(stderr@),
{
    let text = chars_of(stderr);
    let ls = split_lines(&text);
    let mut s = String::new();
    match last_nonblank_index(&ls) {
        Some(li) => {
            let line = &ls[li];
            match find_colon(line) {
                Some(k) => {
                    let message = sub_vec(line, k + 2, line.len());
                    assert(message@ == after_first_colon(line@));
                    if message.len() > 0 {
                        let panel = chars_of("Refusing to activate a closed laptop panel");
                        if contains_exec(&message, &panel) {
                            s.append(
                                "cannot enable the built-in display because the laptop panel is closed",
                            );
                        } else {
                            s.append("Mutter D-Bus apply failed: ");
                            push_chars(&mut s, &message);
                        }
                        return s;
                    }
                },
                None => {},
            }
        },
        None => {},
    }
    s.append("Mutter D-Bus apply failed: ");
    s.append(stderr);
    s
}


// ---------------------------------------------------------------------------
// Laws
// ---------------------------------------------------------------------------

/// A monitor read from Mutter's state keeps what Mutter reported of it: its
/// connector as its name, its size, and its logical monitor's position.
pub proof fn lemma_gnome_config_keeps_geometry(c: DisplayConfig, d: GnomeDisplay)
    requires
        is_gnome_config(c, d),
    ensures
        c.device_name@ == d.connector@,
        c.width == d.width,
        c.height == d.height,
        c.position_x == d.x,
        c.position_y == d.y,
        c.enabled,
{
}

/// Every monitor of the arrangement read from Mutter's state sits where
/// Mutter reported the monitor at the same position of the state.
pub proof fn lemma_gnome_profile_keeps_positions(displays: Seq<DisplayConfig>, state: Seq<GnomeDisplay>)
    requires
        displays.len() == state.len(),
        forall|i: int| 0 <= i < state.len() ==> is_gnome_config(#[trigger] displays[i], state[i]),
    ensures
        forall|i: int|
            0 <= i < state.len() ==> (#[trigger] displays[i]).position_x == state[i].x
                && displays[i].position_y == state[i].y && displays[i].width == state[i].width
                && displays[i].height == state[i].height,
{
    assert forall|i: int| 0 <= i < state.len() implies (#[trigger] displays[i]).position_x
        == state[i].x && displays[i].position_y == state[i].y && displays[i].width
        == state[i].width && displays[i].height == state[i].height by {
        lemma_gnome_config_keeps_geometry(displays[i], state[i]);
    }
}

proof fn lemma_matching_modes(modes: Seq<AvailableMode>, width: u32, height: u32, n: int)
    requires
        0 <= n <= modes.len(),
        modes.len() <= usize::MAX,
    ensures
        forall|k: int|
            0 <= k < matching_modes(modes, width, height, n).len() ==> {
                let j = #[trigger] matching_modes(modes, width, height, n)[k];
                &&& j < n
                &&& modes[j as int].width == width
                &&& modes[j as int].height == height
            },
        (exists|j: int| 0 <= j < n && #[trigger] modes[j].width == width && modes[j].height == height)
            ==> matching_modes(modes, width, height, n).len() > 0,
    decreases n,
{
    if n > 0 {
        lemma_matching_modes(modes, width, height, n - 1);
        let prev = matching_modes(modes, width, height, n - 1);
        let m = matching_modes(modes, width, height, n);
        assert forall|k: int| 0 <= k < m.len() implies {
            let j = #[trigger] m[k];
            &&& j < n
            &&& modes[j as int].width == width
            &&& modes[j as int].height == height
        } by {
            if k < prev.len() {
                assert(m[k] == prev[k]);
            } else {
                assert(m[k] == (n - 1) as usize);
            }
        }
        if exists|j: int| 0 <= j < n && #[trigger] modes[j].width == width && modes[j].height == height {
            let j = choose|j: int| 0 <= j < n && #[trigger] modes[j].width == width && modes[j].height == height;
            if j < n - 1 {
                assert(modes[j].width == width && modes[j].height == height);
            }
        }
    }
}

proof fn lemma_first_preferred(modes: Seq<AvailableMode>, idx: Seq<usize>)
    ensures
        first_preferred(modes, idx) matches Some(p) ==> exists|k: int|
            0 <= k < idx.len() && #[trigger] idx[k] == p && modes[p as int].is_preferred,
        (exists|k: int| 0 <= k < idx.len() && #[trigger] modes[idx[k] as int].is_preferred)
            ==> first_preferred(modes, idx) is Some,
    decreases idx.len(),
{
    if idx.len() > 0 {
        let rest = idx.drop_first();
        lemma_first_preferred(modes, rest);
        if !modes[idx[0] as int].is_preferred {
            if let Some(p) = first_preferred(modes, rest) {
                let k = choose|k: int| 0 <= k < rest.len() && #[trigger] rest[k] == p && modes[p as int].is_preferred;
                assert(idx[k + 1] == p);
            }
            if exists|k: int| 0 <= k < idx.len() && #[trigger] modes[idx[k] as int].is_preferred {
                let k = choose|k: int| 0 <= k < idx.len() && #[trigger] modes[idx[k] as int].is_preferred;
                assert(k > 0);
                assert(rest[k - 1] == idx[k]);
                assert(modes[rest[k - 1] as int].is_preferred);
            }
        } else {
            assert(idx[0] == idx[0]);
        }
    }
}

proof fn lemma_fastest_member(modes: Seq<AvailableMode>, idx: Seq<usize>)
    requires
        idx.len() > 0,
    ensures
        exists|k: int| 0 <= k < idx.len() && #[trigger] idx[k] == fastest_of(modes, idx),
    decreases idx.len(),
{
    if idx.len() == 1 {
        assert(idx[0] == fastest_of(modes, idx));
    } else {
        let front = idx.drop_last();
        lemma_fastest_member(modes, front);
        let k = choose|k: int| 0 <= k < front.len() && #[trigger] front[k] == fastest_of(modes, front);
        assert(idx[k] == front[k]);
        assert(idx[idx.len() - 1] == idx.last());
    }
}

/// The mode asked of a monitor has the resolution asked for: it is the
/// monitor's current mode when that has the resolution; otherwise, when the
/// monitor offers modes of that resolution, it is one of them, and a
/// preferred one when any of them is preferred; only when the monitor offers
/// none is it the `WxH@60.000` fallback.
pub proof fn lemma_mode_choice_has_resolution(d: GnomeDisplay, width: u32, height: u32)
    ensures
        d.width == width && d.height == height ==> mode_choice(d, width, height) == d.mode_id@,
        !(d.width == width && d.height == height) && (forall|j: int|
            0 <= j < d.available_modes@.len() ==> !(#[trigger] d.available_modes@[j].width == width
                && d.available_modes@[j].height == height)) ==> mode_choice(d, width, height)
            == fallback_mode_id(width, height),
        !(d.width == width && d.height == height) && (exists|j: int|
            0 <= j < d.available_modes@.len() && #[trigger] d.available_modes@[j].width == width
                && d.available_modes@[j].height == height) ==> exists|j: int|
            0 <= j < d.available_modes@.len() && #[trigger] d.available_modes@[j].width == width
                && d.available_modes@[j].height == height && mode_choice(d, width, height)
                == d.available_modes@[j].mode_id@,
        !(d.width == width && d.height == height) && (exists|j: int|
            0 <= j < d.available_modes@.len() && #[trigger] d.available_modes@[j].width == width
                && d.available_modes@[j].height == height && d.available_modes@[j].is_preferred)
            ==> exists|j: int|
            0 <= j < d.available_modes@.len() && #[trigger] d.available_modes@[j].width == width
                && d.available_modes@[j].height == height && d.available_modes@[j].is_preferred
                && mode_choice(d, width, height) == d.available_modes@[j].mode_id@,
{
    let modes = d.available_modes@;
    let n = modes.len() as int;
    assert(d.available_modes.len() == n);
    let m = matching_modes(modes, width, height, n);
    lemma_matching_modes(modes, width, height, n);
    lemma_first_preferred(modes, m);
    if !(d.width == width && d.height == height) && m.len() > 0 {
        match first_preferred(modes, m) {
            Some(p) => {
                let k = choose|k: int| 0 <= k < m.len() && #[trigger] m[k] == p && modes[p as int].is_preferred;
                assert(modes[m[k] as int].width == width);
                assert(modes[p as int].width == width && modes[p as int].height == height);
            },
            None => {
                lemma_fastest_member(modes, m);
                let f = fastest_of(modes, m);
                let k = choose|k: int| 0 <= k < m.len() && #[trigger] m[k] == f;
                assert(modes[m[k] as int].width == width);
                assert(modes[f as int].width == width && modes[f as int].height == height);
                if exists|j: int|
                    0 <= j < modes.len() && #[trigger] modes[j].width == width
                        && modes[j].height == height && modes[j].is_preferred {
                    let j = choose|j: int|
                        0 <= j < modes.len() && #[trigger] modes[j].width == width
                            && modes[j].height == height && modes[j].is_preferred;
                    assert(false) by {
                        lemma_matching_contains(modes, width, height, n, j);
                        let q = choose|q: int| 0 <= q < m.len() && #[trigger] m[q] == j as usize;
                        assert(modes[m[q] as int].is_preferred);
                    }
                }
            },
        }
    }
}

proof fn lemma_matching_contains(modes: Seq<AvailableMode>, width: u32, height: u32, n: int, j: int)
    requires
        0 <= j < n <= modes.len(),
        modes.len() <= usize::MAX,
        modes[j].width == width,
        modes[j].height == height,
    ensures
        exists|q: int|
            0 <= q < matching_modes(modes, width, height, n).len()
                && #[trigger] matching_modes(modes, width, height, n)[q] == j as usize,
    decreases n,
{
    let prev = matching_modes(modes, width, height, n - 1);
    let m = matching_modes(modes, width, height, n);
    if j < n - 1 {
        lemma_matching_contains(modes, width, height, n - 1, j);
        let q = choose|q: int| 0 <= q < prev.len() && #[trigger] prev[q] == j as usize;
        assert(m[q] == prev[q]);
    } else {
        assert(m[prev.len() as int] == j as usize);
    }
}

} // verus!
