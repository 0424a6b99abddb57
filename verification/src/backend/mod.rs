//! The platform backends, and which of them serves a session.
use vstd::prelude::*;
use crate::display_info::{DisplayConfig, DisplayMapping, DisplayProfile, DisplayTopology};
use crate::backend::gnome_wayland::{gnome_profile, gnome_topology, is_gnome_config, GnomeDisplay};
use crate::backend::linux::{
    is_queried_display, no_connected_message, parse_xrandr_query, query_rows, queried_topology,
};
use crate::text::{chars_of, contains, contains_exec, lines, string_from};

pub mod gnome_wayland;
pub mod linux;
pub mod windows;

verus! {

broadcast use vstd::string::group_string_axioms;

/// What a platform backend does: read the current arrangement, apply an
/// arrangement, and apply a saved arrangement through a mapping of monitors.
pub trait DisplayBackend {
    fn get_display_profile(&self) -> Result<DisplayProfile, String>;

    fn apply_profile(&self, profile: &DisplayProfile) -> Result<(), String>;

    fn apply_with_mapping(&self, profile: &DisplayProfile, mappings: &[DisplayMapping]) -> Result<
        (),
        String,
    >;
}

pub open spec fn unsupported_query_message() -> Seq<char> {
    "display querying is not supported on this platform"@
}

pub open spec fn unsupported_apply_message() -> Seq<char> {
    "display applying is not supported on this platform"@
}

pub open spec fn unsupported_mapping_message() -> Seq<char> {
    "display mapping is not supported on this platform"@
}

/// The backend of a platform that has none: every request fails.
pub struct UnsupportedDisplayBackend;

impl DisplayBackend for UnsupportedDisplayBackend {
    fn get_display_profile(&self) -> (r: Result<DisplayProfile, String>)
        ensures
            r matches Err(e) && e@ == unsupported_query_message(),
    {
        Err(string_from("display querying is not supported on this platform"))
    }

    fn apply_profile(&self, _profile: &DisplayProfile) -> (r: Result<(), String>)
        ensures
            r matches Err(e) && e@ == unsupported_apply_message(),
    {
        Err(string_from("display applying is not supported on this platform"))
    }

    fn apply_with_mapping(&self, _profile: &DisplayProfile, _mappings: &[DisplayMapping]) -> (r:
        Result<(), String>)
        ensures
            r matches Err(e) && e@ == unsupported_mapping_message(),
    {
        Err(string_from("display mapping is not supported on this platform"))
    }
}

/// The operating system the library runs on.
#[derive(Clone, Copy, Debug, PartialEq, Eq, Structural)]
pub enum Platform {
    Windows,
    Linux,
    Other,
}

/// Which backend serves a session.
#[derive(Clone, Copy, Debug, PartialEq, Eq, Structural)]
pub enum BackendKind {
    /// Win32 display configuration calls.
    Windows,
    /// Mutter's display configuration over D-Bus.
    GnomeWayland,
    /// `xrandr`.
    LinuxX11,
    /// None: every request fails.
    Unsupported,
}

/// The lowercase form of a text under Unicode's `Lowercase` mapping.
pub uninterp spec fn lowercase(s: Seq<char>) -> Seq<char>;

/// Lowercases a text. Trusted: `str::to_lowercase`, documented as Unicode's
/// `Lowercase` mapping; the contract names the result `lowercase` of the text,
/// a function of the text alone, and leaves unsaid what that mapping is.
#[verifier::external_body]
fn to_lowercase(s: &str) -> (r: String)
    ensures
        r@ == lowercase(s@),
{
    s.to_lowercase()
}

/// A GNOME session: the desktop variable is set and, lowercased, names `gnome`.
pub open spec fn spec_is_gnome_session(xdg_current_desktop: Option<Seq<char>>) -> bool {
    match xdg_current_desktop {
        Some(v) => contains(lowercase(v), "gnome"@),
        None => false,
    }
}

/// Whether a lowercased desktop name names GNOME: it holds `gnome`.
pub fn names_gnome(lowercased_desktop: &str) -> (r: bool)
    ensures
        r == contains(lowercased_desktop@, "gnome"@),
{
    contains_exec(&chars_of(lowercased_desktop), &chars_of("gnome"))
}

/// Whether `XDG_CURRENT_DESKTOP` (`None` where unset or not Unicode) names a GNOME session.
pub fn is_gnome_session(xdg_current_desktop: Option<&str>) -> (r: bool)
    ensures
        r == spec_is_gnome_session(
            match xdg_current_desktop {
                Some(v) => Some(v@),
                None => None,
            },
        ),
{
    match xdg_current_desktop {
        Some(v) => {
            let lower = to_lowercase(v);
            names_gnome(lower.as_str())
        },
        None => false,
    }
}

/// The backend of a session: Windows on Windows; on Linux, Mutter in a
/// Wayland session of GNOME and `xrandr` otherwise; none elsewhere.
pub open spec fn spec_backend(platform: Platform, wayland: bool, gnome: bool) -> BackendKind {
    match platform {
        Platform::Windows => BackendKind::Windows,
        Platform::Linux => if wayland && gnome {
            BackendKind::GnomeWayland
        } else {
            BackendKind::LinuxX11
        },
        Platform::Other => BackendKind::Unsupported,
    }
}

/// The backend that serves a session, given the platform, whether
/// `WAYLAND_DISPLAY` is set, and `XDG_CURRENT_DESKTOP` (`None` where unset or
/// not Unicode).
pub fn get_backend(platform: Platform, wayland_display_set: bool, xdg_current_desktop: Option<&str>) -> (r: BackendKind)
    ensures
        r == spec_backend(
            platform,
            wayland_display_set,
            spec_is_gnome_session(
                match xdg_current_desktop {
                    Some(v) => Some(v@),
                    None => None,
                },
            ),
        ),
{
    match platform {
        Platform::Windows => BackendKind::Windows,
        Platform::Linux => if wayland_display_set && is_gnome_session(xdg_current_desktop) {
            BackendKind::GnomeWayland
        } else {
            BackendKind::LinuxX11
        },
        Platform::Other => BackendKind::Unsupported,
    }
}

/// What a backend's query returned, for the library to read.
pub enum QueryOutput {
    /// The text that `xrandr --query` printed.
    Xrandr(String),
    /// The monitors that Mutter reported.
    Mutter(Vec<GnomeDisplay>),
    /// The monitors read from the display devices, and the topology read from
    /// the display paths.
    Win32 { displays: Vec<DisplayConfig>, topology: DisplayTopology },
    /// A platform without a backend.
    Unsupported,
}

/// The current arrangement that a backend's query reveals: `xrandr` output is
/// read by `parse_xrandr_query`, Mutter's state by `gnome_profile`, the Windows
/// devices and topology are taken as they are, and a platform without a
/// backend fails.
pub fn get_display_profile(output: QueryOutput) -> (r: Result<DisplayProfile, String>)
    ensures
        match output {
            QueryOutput::Xrandr(text) => match (r, query_rows(lines(text@))) {
                (Err(e), Err(f)) => e@ == f,
                (Err(e), Ok(rows)) => rows.len() == 0 && e@ == no_connected_message(),
                (Ok(p), Ok(rows)) => {
                    &&& rows.len() > 0
                    &&& p.displays@.len() == rows.len()
                    &&& forall|i: int|
                        0 <= i < rows.len() ==> is_queried_display(
                            #[trigger] p.displays@[i],
                            rows[i].0,
                            rows[i].1,
                        )
                    &&& p.topology == queried_topology(
                        rows.map_values(|row: (Seq<char>, (u32, u32, i32, i32))| row.0),
                    )
                },
                _ => false,
            },
            QueryOutput::Mutter(state) => r matches Ok(p) && p.displays@.len() == state@.len()
                && (forall|i: int|
                0 <= i < state@.len() ==> is_gnome_config(#[trigger] p.displays@[i], state@[i]))
                && p.topology == gnome_topology(state@),
            QueryOutput::Win32 { displays, topology } => r matches Ok(p) && p.displays == displays
                && p.topology == topology,
            QueryOutput::Unsupported => r matches Err(e) && e@ == unsupported_query_message(),
        },
{
    match output {
        QueryOutput::Xrandr(text) => parse_xrandr_query(text.as_str()),
        QueryOutput::Mutter(state) => Ok(gnome_profile(&state)),
        QueryOutput::Win32 { displays, topology } => Ok(DisplayProfile { topology, displays }),
        QueryOutput::Unsupported => UnsupportedDisplayBackend.get_display_profile(),
    }
}

} // verus!
