//! The decisions of the interactive menu: which option was chosen, which saved
//! profile, and how each connected monitor is to be mapped.
use vstd::prelude::*;
use vstd::string::{StringExecFns, StrSliceExecFns};
use crate::display_info::{DisplayConfig, DisplayMapping, DisplayProfile, DisplayTopology};
use crate::profile::ProfileInfo;
use crate::text::{
    dec_int, push_i64, chars_eq, chars_of, dec, int_error_message, parse_usize, parse_usize_exec, push_chars,
    push_int_error, push_u64, string_of, string_views, trim, trim_bounds, trimmed_chars,
};

verus! {

broadcast use vstd::string::group_string_axioms;

/// `value` without leading and trailing whitespace.
pub fn trimmed(value: &str) -> (r: &str)
    ensures
        r@ == trim(value@),
{
    let v = chars_of(value);
    let (a, b) = trim_bounds(&v);
    value.substring_char(a, b)
}

/// The trimmed answer, or `None` where nothing but whitespace was typed.
pub fn optional_trimmed(value: &str) -> (r: Option<String>)
    ensures
        trim(value@).len() == 0 ==> r is None,
        trim(value@).len() > 0 ==> (r matches Some(s) && s@ == trim(value@)),
{
    let t = trimmed_chars(&chars_of(value));
    if t.len() == 0 {
        None
    } else {
        Some(string_of(&t))
    }
}

/// How the menu shows the profile directory: the directory, or why there is none.
pub fn profile_dir_label(dir: Result<String, String>) -> (r: String)
    ensures
        match dir {
            Ok(path) => r@ == path@,
            Err(e) => r@ == "<unavailable: "@ + e@ + ">"@,
        },
{
    match dir {
        Ok(path) => path,
        Err(e) => {
            let mut s = String::new();
            s.append("<unavailable: ");
            s.append(e.as_str());
            s.append(">");
            s
        },
    }
}

/// An option of the main menu.
#[derive(Clone, Copy, Debug, PartialEq, Eq, Structural)]
pub enum MenuChoice {
    SaveCurrent,
    List,
    ApplyDirect,
    ApplyWithMapping,
    Delete,
    Exit,
    Invalid,
}

/// The option that an answer picks: `1` to `6` once trimmed, anything else invalid.
pub open spec fn spec_menu_choice(answer: Seq<char>) -> MenuChoice {
    let t = trim(answer);
    if t == "1"@ {
        MenuChoice::SaveCurrent
    } else if t == "2"@ {
        MenuChoice::List
    } else if t == "3"@ {
        MenuChoice::ApplyDirect
    } else if t == "4"@ {
        MenuChoice::ApplyWithMapping
    } else if t == "5"@ {
        MenuChoice::Delete
    } else if t == "6"@ {
        MenuChoice::Exit
    } else {
        MenuChoice::Invalid
    }
}

/// The option that an answer to the main menu picks.
pub fn menu_choice(answer: &str) -> (r: MenuChoice)
    ensures
        r == spec_menu_choice(answer@),
{
    let t = trimmed_chars(&chars_of(answer));
    if chars_eq(&t, &chars_of("1")) {
        MenuChoice::SaveCurrent
    } else if chars_eq(&t, &chars_of("2")) {
        MenuChoice::List
    } else if chars_eq(&t, &chars_of("3")) {
        MenuChoice::ApplyDirect
    } else if chars_eq(&t, &chars_of("4")) {
        MenuChoice::ApplyWithMapping
    } else if chars_eq(&t, &chars_of("5")) {
        MenuChoice::Delete
    } else if chars_eq(&t, &chars_of("6")) {
        MenuChoice::Exit
    } else {
        MenuChoice::Invalid
    }
}

/// The saved profile that an answer picks among `count`: its trimmed text as
/// an index, or what to tell the user.
pub fn select_profile_index(answer: &str, count: usize) -> (r: Result<usize, String>)
    ensures
        match parse_usize(trim(answer@)) {
            Err(k) => r matches Err(e) && e@ == "Invalid profile index: "@ + int_error_message(k),
            Ok(i) => if i < count {
                r == Ok::<usize, String>(i as usize)
            } else {
                r matches Err(e) && e@ == "Profile index "@ + dec(i as nat) + " is out of range."@
            },
        },
{
    let t = trimmed_chars(&chars_of(answer));
    match parse_usize_exec(&t) {
        Err(k) => {
            let mut e = String::new();
            e.append("Invalid profile index: ");
            push_int_error(&mut e, k);
            Err(e)
        },
        Ok(i) => {
            if i < count {
                Ok(i)
            } else {
                let mut e = String::new();
                e.append("Profile index ");
                push_u64(&mut e, i as u64);
                e.append(" is out of range.");
                Err(e)
            }
        },
    }
}

pub open spec fn no_current_displays_message() -> Seq<char> {
    "no current displays were detected"@
}

/// Mapping by hand needs at least one connected monitor.
pub fn check_current_displays(current: &DisplayProfile) -> (r: Result<(), String>)
    ensures
        current.displays@.len() == 0 ==> (r matches Err(e) && e@ == no_current_displays_message()),
        current.displays@.len() > 0 ==> r is Ok,
{
    if current.displays.len() == 0 {
        let mut e = String::new();
        e.append("no current displays were detected");
        Err(e)
    } else {
        Ok(())
    }
}

/// A character with ASCII capitals folded to small letters, as a number.
pub open spec fn ascii_fold(c: char) -> int {
    if 'A' <= c && c <= 'Z' {
        (c as int) + 32
    } else {
        c as int
    }
}

/// `str::eq_ignore_ascii_case`: equal once ASCII capitals are folded.
pub open spec fn eq_ignore_ascii_case(a: Seq<char>, b: Seq<char>) -> bool {
    a.len() == b.len() && forall|i: int| 0 <= i < a.len() ==> ascii_fold(#[trigger] a[i])
        == ascii_fold(b[i])
}

fn ascii_fold_exec(c: char) -> (r: u32)
    ensures
        r == ascii_fold(c),
{
    if 'A' <= c && c <= 'Z' {
        c as u32 + 32
    } else {
        c as u32
    }
}

fn eq_ignore_ascii_case_exec(a: &Vec<char>, b: &Vec<char>) -> (r: bool)
    ensures
        r == eq_ignore_ascii_case(a@, b@),
{
    if a.len() != b.len() {
        return false;
    }
    let mut i: usize = 0;
    while i < a.len()
        invariant
            a.len() == b.len(),
            i <= a.len(),
            forall|j: int| 0 <= j < i ==> ascii_fold(#[trigger] a@[j]) == ascii_fold(b@[j]),
        decreases a.len() - i,
    {
        if ascii_fold_exec(a[i]) != ascii_fold_exec(b[i]) {
            return false;
        }
        i = i + 1;
    }
    true
}

/// The choices made so far while mapping connected monitors by hand.
#[derive(Debug)]
pub struct ManualMappingPlan {
    pub mappings: Vec<DisplayMapping>,
    pub disabled_names: Vec<String>,
}

/// What an answer about a connected monitor does to the choices: a blank one
/// skips the monitor; `off` in any ASCII case turns it off; a number maps it
/// onto the saved monitor at that index; anything else is an error.
pub open spec fn answer_effect(
    before: ManualMappingPlan,
    after: ManualMappingPlan,
    name: Seq<char>,
    answer: Seq<char>,
    r: Result<(), String>,
) -> bool {
    let t = trim(answer);
    if t.len() == 0 {
        r is Ok && after.mappings@ == before.mappings@ && after.disabled_names@
            == before.disabled_names@
    } else if eq_ignore_ascii_case(t, "off"@) {
        r is Ok && after.mappings@ == before.mappings@ && string_views(after.disabled_names@)
            == string_views(before.disabled_names@).push(name)
    } else {
        match parse_usize(t) {
            Err(k) => r matches Err(e) && e@ == "invalid profile display index '"@ + t + "': "@
                + int_error_message(k),
            Ok(i) => r is Ok && after.disabled_names@ == before.disabled_names@
                && after.mappings@.len() == before.mappings@.len() + 1 && after.mappings@.take(
                before.mappings@.len() as int,
            ) == before.mappings@ && after.mappings@.last().current_display_name@ == name
                && after.mappings@.last().profile_display_index == i,
        }
    }
}

impl ManualMappingPlan {
    /// No choices yet.
    pub fn new() -> (r: Self)
        ensures
            r.mappings@.len() == 0,
            r.disabled_names@.len() == 0,
    {
        ManualMappingPlan { mappings: Vec::new(), disabled_names: Vec::new() }
    }

    /// Takes the answer given for the connected monitor `display_name` (see `answer_effect`).
    pub fn record_answer(&mut self, display_name: &String, answer: &str) -> (r: Result<(), String>)
        ensures
            answer_effect(*old(self), *final(self), display_name@, answer@, r),
    {
        let t = trimmed_chars(&chars_of(answer));
        if t.len() == 0 {
            return Ok(());
        }
        if eq_ignore_ascii_case_exec(&t, &chars_of("off")) {
            let ghost before = string_views(self.disabled_names@);
            self.disabled_names.push(display_name.clone());
            assert(string_views(self.disabled_names@) =~= before.push(display_name@));
            return Ok(());
        }
        match parse_usize_exec(&t) {
            Err(k) => {
                let mut e = String::new();
                e.append("invalid profile display index '");
                push_chars(&mut e, &t);
                e.append("': ");
                push_int_error(&mut e, k);
                Err(e)
            },
            Ok(i) => {
                let ghost before = self.mappings@;
                self.mappings.push(
                    DisplayMapping {
                        current_display_name: display_name.clone(),
                        profile_display_index: i,
                    },
                );
                assert(self.mappings@.take(before.len() as int) =~= before);
                Ok(())
            },
        }
    }

    /// Whether anything was chosen at all.
    pub fn finish(&self) -> (r: Result<(), String>)
        ensures
            self.mappings@.len() == 0 && self.disabled_names@.len() == 0 ==> (r matches Err(e)
                && e@ == "no display mappings were selected"@),
            !(self.mappings@.len() == 0 && self.disabled_names@.len() == 0) ==> r is Ok,
    {
        if self.mappings.len() == 0 && self.disabled_names.len() == 0 {
            let mut e = String::new();
            e.append("no display mappings were selected");
            Err(e)
        } else {
            Ok(())
        }
    }
}

/// An apply that mapping by hand ends in.
#[derive(Debug)]
pub enum ManualAction {
    /// Apply the saved profile through these mappings.
    ApplyMapped(Vec<DisplayMapping>),
    /// Apply this arrangement, which turns monitors off.
    ApplyProfile(DisplayProfile),
}

impl ManualMappingPlan {
    /// The applies that the choices call for, to be run in order and stopped
    /// at the first that fails: the saved profile through the mappings, where
    /// there are any; then, where monitors were turned off, the arrangement
    /// that turns them off (see `disabled_profile`), with the saved topology.
    pub fn final_actions(&self, topology: DisplayTopology) -> (r: Vec<ManualAction>)
        ensures
            r@.len() == (if self.mappings@.len() > 0 { 1int } else { 0int }) + (if self.disabled_names@.len() > 0 { 1int } else { 0int }),
            self.mappings@.len() > 0 ==> (r@[0] matches ManualAction::ApplyMapped(m) && m@
                == self.mappings@),
            self.disabled_names@.len() > 0 ==> (r@.last() matches ManualAction::ApplyProfile(p)
                && p.topology == topology && p.displays@.len() == self.disabled_names@.len()
                && forall|i: int|
                0 <= i < self.disabled_names@.len() ==> is_off_display(
                    #[trigger] p.displays@[i],
                    self.disabled_names@[i]@,
                )),
    {
        let mut r: Vec<ManualAction> = Vec::new();
        if self.mappings.len() > 0 {
            let mut m: Vec<DisplayMapping> = Vec::new();
            let mut i: usize = 0;
            while i < self.mappings.len()
                invariant
                    i <= self.mappings@.len(),
                    m@ == self.mappings@.take(i as int),
                decreases self.mappings@.len() - i,
            {
                m.push(self.mappings[i].clone());
                i = i + 1;
                assert(m@ =~= self.mappings@.take(i as int));
            }
            assert(self.mappings@.take(i as int) =~= self.mappings@);
            r.push(ManualAction::ApplyMapped(m));
        }
        if self.disabled_names.len() > 0 {
            r.push(ManualAction::ApplyProfile(disabled_profile(topology, &self.disabled_names)));
        }
        r
    }
}

/// The directory profiles live under: `HOME`, else `USERPROFILE`; with
/// neither, an error.
pub fn select_home<T>(home: Option<T>, userprofile: Option<T>) -> (r: Result<T, String>)
    ensures
        match home {
            Some(h) => r == Ok::<T, String>(h),
            None => match userprofile {
                Some(u) => r == Ok::<T, String>(u),
                None => r matches Err(e) && e@
                    == "HOME/USERPROFILE is not set; cannot resolve profile directory"@,
            },
        },
{
    match home {
        Some(h) => Ok(h),
        None => match userprofile {
            Some(u) => Ok(u),
            None => {
                let mut e = String::new();
                e.append("HOME/USERPROFILE is not set; cannot resolve profile directory");
                Err(e)
            },
        },
    }
}

/// A monitor that is only to be turned off: no label, ids or geometry.
pub open spec fn is_off_display(d: DisplayConfig, name: Seq<char>) -> bool {
    &&& d.label is None
    &&& d.device_name@ == name
    &&& d.device_id@ == Seq::<char>::empty()
    &&& d.device_key@ == Seq::<char>::empty()
    &&& d.width == 0 && d.height == 0
    &&& d.position_x == 0 && d.position_y == 0
    &&& d.orientation == 0
    &&& !d.enabled
}

/// The arrangement that turns off the monitors `names`, in order.
pub fn disabled_profile(topology: DisplayTopology, names: &Vec<String>) -> (r: DisplayProfile)
    ensures
        r.topology == topology,
        r.displays@.len() == names@.len(),
        forall|i: int| 0 <= i < names@.len() ==> is_off_display(#[trigger] r.displays@[i], names@[i]@),
{
    let mut out: Vec<DisplayConfig> = Vec::new();
    let mut i: usize = 0;
    while i < names.len()
        invariant
            i <= names.len(),
            out@.len() == i,
            forall|j: int| 0 <= j < i ==> is_off_display(#[trigger] out@[j], names@[j]@),
        decreases names.len() - i,
    {
        out.push(
            DisplayConfig {
                label: None,
                device_name: names[i].clone(),
                device_id: String::new(),
                device_key: String::new(),
                width: 0,
                height: 0,
                position_x: 0,
                position_y: 0,
                orientation: 0,
                enabled: false,
            },
        );
        i = i + 1;
    }
    DisplayProfile { topology, displays: out }
}

/// The line that lists a saved profile:
/// `[INDEX] NAME | displays=N | created_at=STAMP | description=TEXT`, with `-`
/// for a missing description.
pub fn profile_list_line(index: usize, info: &ProfileInfo) -> (r: String)
    ensures
        r@ == "["@ + dec(index as nat) + "] "@ + info.name@ + " | displays="@ + dec(
            info.profile.displays@.len(),
        ) + " | created_at="@ + info.profile.created_at@ + " | description="@
            + match info.profile.description {
            Some(d) => d@,
            None => "-"@,
        },
{
    let mut s = String::new();
    s.append("[");
    push_u64(&mut s, index as u64);
    s.append("] ");
    s.append(info.name.as_str());
    s.append(" | displays=");
    push_u64(&mut s, info.profile.displays.len() as u64);
    s.append(" | created_at=");
    s.append(info.profile.created_at.as_str());
    s.append(" | description=");
    match &info.profile.description {
        Some(d) => s.append(d.as_str()),
        None => s.append("-"),
    }
    s
}

/// The line that offers a saved profile for choosing: `[INDEX] NAME (N displays)`.
pub fn profile_choice_line(index: usize, info: &ProfileInfo) -> (r: String)
    ensures
        r@ == "["@ + dec(index as nat) + "] "@ + info.name@ + " ("@ + dec(
            info.profile.displays@.len(),
        ) + " displays)"@,
{
    let mut s = String::new();
    s.append("[");
    push_u64(&mut s, index as u64);
    s.append("] ");
    s.append(info.name.as_str());
    s.append(" (");
    push_u64(&mut s, info.profile.displays.len() as u64);
    s.append(" displays)");
    s
}

/// The name under which a monitor is listed: its device name for a connected
/// monitor, its label (else its device name) for a saved one.
pub open spec fn listed_name(d: DisplayConfig, saved: bool) -> Seq<char> {
    if saved && d.label is Some {
        d.label->0@
    } else {
        d.device_name@
    }
}

/// The line that lists a monitor: `[INDEX] NAME WxH @ XxY`.
pub fn display_line(index: usize, d: &DisplayConfig, saved: bool) -> (r: String)
    ensures
        r@ == "["@ + dec(index as nat) + "] "@ + listed_name(*d, saved) + " "@ + dec(
            d.width as nat,
        ) + "x"@ + dec(d.height as nat) + " @ "@ + dec_int(d.position_x as int) + "x"@ + dec_int(
            d.position_y as int,
        ),
{
    let mut s = String::new();
    s.append("[");
    push_u64(&mut s, index as u64);
    s.append("] ");
    match &d.label {
        Some(l) => {
            if saved {
                s.append(l.as_str());
            } else {
                s.append(d.device_name.as_str());
            }
        },
        None => s.append(d.device_name.as_str()),
    }
    s.append(" ");
    push_u64(&mut s, d.width as u64);
    s.append("x");
    push_u64(&mut s, d.height as u64);
    s.append(" @ ");
    push_i64(&mut s, d.position_x as i64);
    s.append("x");
    push_i64(&mut s, d.position_y as i64);
    s
}

} // verus!
