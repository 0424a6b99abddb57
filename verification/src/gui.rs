//! The texts that the profile window shows: creation dates, topology and
//! orientation names, and the rows of a profile's monitors.
use vstd::prelude::*;
use vstd::string::StringExecFns;
use crate::display_info::{DisplayConfig, DisplayTopology};
use crate::profile::ProfileInfo;
use crate::text::{
    chars_of, dec, dec_int, dec_chars, parse_u64, parse_u64_exec, push_char, push_chars, push_i64,
    push_u64, string_from, zero_pad,
};

verus! {

broadcast use vstd::string::group_string_axioms;

/// `n` in decimal, zero-padded to `width` digits.
fn push_padded(s: &mut String, n: u64, width: usize)
    ensures
        final(s)@ == old(s)@ + zero_pad(dec(n as nat), width as nat),
{
    let d = dec_chars(n);
    let ghost start = s@;
    if d.len() < width {
        let pad = width - d.len();
        let mut k: usize = 0;
        while k < pad
            invariant
                k <= pad,
                s@ == start + Seq::new(k as nat, |i: int| '0'),
            decreases pad - k,
        {
            push_char(s, '0');
            k = k + 1;
            assert(s@ =~= start + Seq::new(k as nat, |i: int| '0'));
        }
        let ghost mid = s@;
        push_chars(s, &d);
        assert(mid + d@ =~= start + (Seq::new(pad as nat, |i: int| '0') + d@));
    } else {
        push_chars(s, &d);
    }
}

/// The date shown for a creation stamp: a number of seconds since the epoch
/// shown as `YYYY-MM-DD` on a calendar of 365-day years and 30-day months;
/// any other stamp as it is.
pub open spec fn spec_format_timestamp(ts: Seq<char>) -> Seq<char> {
    match parse_u64(ts) {
        Ok(t) => {
            let days = t / 86400;
            let years = days / 365;
            let remaining = days % 365;
            let months = remaining / 30;
            let day = remaining % 30 + 1;
            zero_pad(dec((1970 + years) as nat), 4) + "-"@ + zero_pad(dec((months + 1) as nat), 2)
                + "-"@ + zero_pad(dec(day as nat), 2)
        },
        Err(_) => ts,
    }
}

/// The date shown for a creation stamp (see `spec_format_timestamp`).
pub fn format_timestamp(ts_str: &str) -> (r: String)
    ensures
        r@ == spec_format_timestamp(ts_str@),
{
    let v = chars_of(ts_str);
    match parse_u64_exec(&v) {
        Ok(ts) => {
            let days = ts / 86400;
            let years = days / 365;
            let remaining_days = days % 365;
            let months = remaining_days / 30;
            let day_of_month = (remaining_days % 30) + 1;
            let mut s = String::new();
            push_padded(&mut s, 1970 + years, 4);
            s.append("-");
            push_padded(&mut s, months + 1, 2);
            s.append("-");
            push_padded(&mut s, day_of_month, 2);
            s
        },
        Err(_) => string_from(ts_str),
    }
}

/// The name shown for a topology.
pub open spec fn spec_topology_label(t: DisplayTopology) -> Seq<char> {
    match t {
        DisplayTopology::Extend => "Extended"@,
        DisplayTopology::Clone => "Cloned"@,
        DisplayTopology::Internal => "Internal Only"@,
        DisplayTopology::External => "External Only"@,
        DisplayTopology::Unknown(_) => "Unknown"@,
    }
}

/// The name shown for a topology.
pub fn topology_label(t: &DisplayTopology) -> (r: &'static str)
    ensures
        r@ == spec_topology_label(*t),
{
    match t {
        DisplayTopology::Extend => "Extended",
        DisplayTopology::Clone => "Cloned",
        DisplayTopology::Internal => "Internal Only",
        DisplayTopology::External => "External Only",
        DisplayTopology::Unknown(_) => "Unknown",
    }
}

/// The name shown for an orientation.
pub open spec fn spec_orientation_label(o: u32) -> Seq<char> {
    if o == 1 {
        "90\u{00b0} Left"@
    } else if o == 2 {
        "180\u{00b0} Inverted"@
    } else if o == 3 {
        "90\u{00b0} Right"@
    } else {
        "Normal"@
    }
}

/// The name shown for an orientation.
pub fn orientation_label(o: u32) -> (r: &'static str)
    ensures
        r@ == spec_orientation_label(o),
{
    match o {
        1 => "90\u{00b0} Left",
        2 => "180\u{00b0} Inverted",
        3 => "90\u{00b0} Right",
        _ => "Normal",
    }
}

/// The row shown for one monitor of a profile.
#[derive(Debug)]
pub struct DisplayEntryText {
    pub name: String,
    pub resolution: String,
    pub position: String,
    pub orientation: String,
    pub is_primary: bool,
}

/// The row of the `i`-th monitor `d`: its label (its name where it has none),
/// `WxH`, `X, Y`, its orientation's name, and primary for the first.
pub open spec fn is_entry_of(e: DisplayEntryText, d: DisplayConfig, i: int) -> bool {
    &&& e.name@ == match d.label {
        Some(l) => l@,
        None => d.device_name@,
    }
    &&& e.resolution@ == dec(d.width as nat) + "x"@ + dec(d.height as nat)
    &&& e.position@ == dec_int(d.position_x as int) + ", "@ + dec_int(d.position_y as int)
    &&& e.orientation@ == spec_orientation_label(d.orientation)
    &&& e.is_primary == (i == 0)
}

/// The rows shown for the monitors of a profile, in order.
pub fn displays_for_profile(info: &ProfileInfo) -> (r: Vec<DisplayEntryText>)
    ensures
        r@.len() == info.profile.displays@.len(),
        forall|i: int|
            0 <= i < r@.len() ==> is_entry_of(#[trigger] r@[i], info.profile.displays@[i], i),
{
    let ds = &info.profile.displays;
    let mut out: Vec<DisplayEntryText> = Vec::new();
    let mut i: usize = 0;
    while i < ds.len()
        invariant
            i <= ds.len(),
            out@.len() == i,
            forall|j: int| 0 <= j < i ==> is_entry_of(#[trigger] out@[j], ds@[j], j),
        decreases ds.len() - i,
    {
        let d = &ds[i];
        let name = match &d.label {
            Some(l) => l.clone(),
            None => d.device_name.clone(),
        };
        let mut resolution = String::new();
        push_u64(&mut resolution, d.width as u64);
        resolution.append("x");
        push_u64(&mut resolution, d.height as u64);
        let mut position = String::new();
        push_i64(&mut position, d.position_x as i64);
        position.append(", ");
        push_i64(&mut position, d.position_y as i64);
        out.push(
            DisplayEntryText {
                name,
                resolution,
                position,
                orientation: string_from(orientation_label(d.orientation)),
                is_primary: i == 0,
            },
        );
        i = i + 1;
    }
    out
}

/// The row shown for a saved profile in the list.
#[derive(Debug)]
pub struct ProfileEntryText {
    pub name: String,
    pub description: String,
    pub display_count: usize,
    pub created_at: String,
    pub topology: String,
}

/// The row shown for a saved profile: its name, its description (empty where
/// it has none), its number of monitors, its creation date and its topology's name.
pub fn profile_entry(info: &ProfileInfo) -> (r: ProfileEntryText)
    ensures
        r.name@ == info.name@,
        r.description@ == match info.profile.description {
            Some(d) => d@,
            None => Seq::<char>::empty(),
        },
        r.display_count == info.profile.displays@.len(),
        r.created_at@ == spec_format_timestamp(info.profile.created_at@),
        r.topology@ == spec_topology_label(info.profile.topology),
{
    ProfileEntryText {
        name: info.name.clone(),
        description: match &info.profile.description {
            Some(d) => d.clone(),
            None => String::new(),
        },
        display_count: info.profile.displays.len(),
        created_at: format_timestamp(info.profile.created_at.as_str()),
        topology: string_from(topology_label(&info.profile.topology)),
    }
}

/// The device names of `ds`, in order.
pub open spec fn device_names(ds: Seq<DisplayConfig>) -> Seq<Seq<char>> {
    ds.map_values(|d: DisplayConfig| d.device_name@)
}

/// A saved profile can be applied as it is: its monitors and the connected
/// ones carry the same device names (each saved name is connected, each
/// connected name is saved); otherwise the user is asked for a mapping.
pub open spec fn spec_connectors_match(current: Seq<DisplayConfig>, saved: Seq<DisplayConfig>) -> bool {
    &&& forall|i: int| 0 <= i < saved.len() ==> device_names(current).contains(#[trigger] saved[i].device_name@)
    &&& forall|i: int| 0 <= i < current.len() ==> device_names(saved).contains(#[trigger] current[i].device_name@)
}

fn names_contain(ds: &Vec<DisplayConfig>, name: &String) -> (r: bool)
    ensures
        r == device_names(ds@).contains(name@),
{
    let ghost nv = device_names(ds@);
    let mut i: usize = 0;
    while i < ds.len()
        invariant
            i <= ds.len(),
            nv == device_names(ds@),
            forall|j: int| 0 <= j < i ==> nv[j] != name@,
        decreases ds.len() - i,
    {
        if ds[i].device_name == *name {
            assert(nv[i as int] == name@);
            return true;
        }
        i = i + 1;
    }
    false
}

fn all_named_in(ds: &Vec<DisplayConfig>, others: &Vec<DisplayConfig>) -> (r: bool)
    ensures
        r == forall|i: int| 0 <= i < ds@.len() ==> device_names(others@).contains(#[trigger] ds@[i].device_name@),
{
    let mut i: usize = 0;
    while i < ds.len()
        invariant
            i <= ds.len(),
            forall|j: int| 0 <= j < i ==> device_names(others@).contains(#[trigger] ds@[j].device_name@),
        decreases ds.len() - i,
    {
        if !names_contain(others, &ds[i].device_name) {
            return false;
        }
        i = i + 1;
    }
    true
}

/// Whether a saved profile can be applied without asking for a mapping (see
/// `spec_connectors_match`).
pub fn connectors_match(current: &Vec<DisplayConfig>, saved: &Vec<DisplayConfig>) -> (r: bool)
    ensures
        r == spec_connectors_match(current@, saved@),
{
    all_named_in(saved, current) && all_named_in(current, saved)
}

} // verus!
