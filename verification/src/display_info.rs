//! The display model: one monitor's settings, a whole arrangement of monitors,
//! and the stored form of a saved arrangement.
use vstd::prelude::*;

verus! {

/// What a monitor description gets for `enabled` when it names none.
pub fn default_enabled() -> (r: bool)
    ensures
        r,
{
    true
}

/// The settings of one monitor.
#[derive(Debug)]
pub struct DisplayConfig {
    pub label: Option<String>,
    pub device_name: String,
    pub device_id: String,
    pub device_key: String,
    pub width: u32,
    pub height: u32,
    pub position_x: i32,
    pub position_y: i32,
    pub orientation: u32,
    pub enabled: bool,
}

/// A copy of an optional string.
pub fn clone_opt_string(s: &Option<String>) -> (r: Option<String>)
    ensures
        r == *s,
{
    match s {
        Some(v) => Some(v.clone()),
        None => None,
    }
}

impl Clone for DisplayConfig {
    fn clone(&self) -> (r: Self)
        ensures
            r == *self,
    {
        DisplayConfig {
            label: clone_opt_string(&self.label),
            device_name: self.device_name.clone(),
            device_id: self.device_id.clone(),
            device_key: self.device_key.clone(),
            width: self.width,
            height: self.height,
            position_x: self.position_x,
            position_y: self.position_y,
            orientation: self.orientation,
            enabled: self.enabled,
        }
    }
}

/// A copy of a list of monitors.
pub fn clone_displays(v: &Vec<DisplayConfig>) -> (r: Vec<DisplayConfig>)
    ensures
        r@ == v@,
{
    let mut r: Vec<DisplayConfig> = Vec::new();
    let mut i: usize = 0;
    while i < v.len()
        invariant
            i <= v.len(),
            r@ == v@.take(i as int),
        decreases v.len() - i,
    {
        r.push(v[i].clone());
        i = i + 1;
        assert(r@ =~= v@.take(i as int));
    }
    assert(v@.take(v.len() as int) =~= v@);
    r
}

/// How the monitors of an arrangement share the desktop.
#[derive(Clone, Copy, Debug, PartialEq, Eq, Structural)]
pub enum DisplayTopology {
    Extend,
    Clone,
    Internal,
    External,
    Unknown(i32),
}

/// An arrangement of monitors.
#[derive(Debug)]
pub struct DisplayProfile {
    pub topology: DisplayTopology,
    pub displays: Vec<DisplayConfig>,
}

impl Clone for DisplayProfile {
    fn clone(&self) -> (r: Self)
        ensures
            r.topology == self.topology,
            r.displays@ == self.displays@,
    {
        DisplayProfile { topology: self.topology, displays: clone_displays(&self.displays) }
    }
}

/// A saved arrangement with its name, description and creation time.
#[derive(Debug)]
pub struct MonitorProfile {
    pub schema_version: String,
    pub name: String,
    pub description: Option<String>,
    pub created_at: String,
    pub topology: DisplayTopology,
    pub displays: Vec<DisplayConfig>,
}

impl Clone for MonitorProfile {
    fn clone(&self) -> (r: Self)
        ensures
            r.schema_version == self.schema_version,
            r.name == self.name,
            r.description == self.description,
            r.created_at == self.created_at,
            r.topology == self.topology,
            r.displays@ == self.displays@,
    {
        MonitorProfile {
            schema_version: self.schema_version.clone(),
            name: self.name.clone(),
            description: clone_opt_string(&self.description),
            created_at: self.created_at.clone(),
            topology: self.topology,
            displays: clone_displays(&self.displays),
        }
    }
}

/// The schema version that new saved profiles carry.
pub open spec fn current_schema_version() -> Seq<char> {
    "0.2.0"@
}

impl MonitorProfile {
    /// A saved profile of `profile` under `name`, stamped with the current schema version.
    pub fn new(
        name: String,
        description: Option<String>,
        created_at: String,
        profile: DisplayProfile,
    ) -> (r: Self)
        ensures
            r.schema_version@ == current_schema_version(),
            r.name == name,
            r.description == description,
            r.created_at == created_at,
            r.topology == profile.topology,
            r.displays == profile.displays,
    {
        let mut schema_version = String::new();
        schema_version.append("0.2.0");
        MonitorProfile {
            schema_version,
            name,
            description,
            created_at,
            topology: profile.topology,
            displays: profile.displays,
        }
    }

    /// The arrangement that this saved profile holds.
    pub fn to_display_profile(&self) -> (r: DisplayProfile)
        ensures
            r.topology == self.topology,
            r.displays@ == self.displays@,
    {
        DisplayProfile { topology: self.topology, displays: clone_displays(&self.displays) }
    }
}

/// A saved profile gives back the arrangement it was made from: what
/// `MonitorProfile::new` stores of `p` is what `to_display_profile` returns.
pub proof fn lemma_saved_arrangement_roundtrip(p: DisplayProfile, m: MonitorProfile, q: DisplayProfile)
    requires
        m.topology == p.topology,
        m.displays == p.displays,
        q.topology == m.topology,
        q.displays@ == m.displays@,
    ensures
        q.topology == p.topology,
        q.displays@ == p.displays@,
{
}

/// Which saved monitor a connected monitor takes its settings from.
#[derive(Debug)]
pub struct DisplayMapping {
    pub current_display_name: String,
    pub profile_display_index: usize,
}

impl Clone for DisplayMapping {
    fn clone(&self) -> (r: Self)
        ensures
            r == *self,
    {
        DisplayMapping {
            current_display_name: self.current_display_name.clone(),
            profile_display_index: self.profile_display_index,
        }
    }
}

/// The settings of one monitor without its identity strings or state.
#[derive(Debug)]
pub struct DisplayInfo {
    pub device_name: String,
    pub width: u32,
    pub height: u32,
    pub position_x: i32,
    pub position_y: i32,
    pub orientation: u32,
}

impl Clone for DisplayInfo {
    fn clone(&self) -> (r: Self)
        ensures
            r == *self,
    {
        DisplayInfo {
            device_name: self.device_name.clone(),
            width: self.width,
            height: self.height,
            position_x: self.position_x,
            position_y: self.position_y,
            orientation: self.orientation,
        }
    }
}

} // verus!
