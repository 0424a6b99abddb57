//! What applying a profile sends to the platform: an extended desktop whose
//! monitors overlap is laid out again side by side, and a saved profile is
//! mapped onto the monitors that are connected now.
use vstd::prelude::*;
use crate::display_info::{clone_opt_string, DisplayConfig, DisplayMapping, DisplayProfile, DisplayTopology};

verus! {

// ---------------------------------------------------------------------------
// Geometry
// ---------------------------------------------------------------------------

/// `w as i32` in Rust: values above `i32::MAX` wrap to negative ones.
pub open spec fn wrap_i32(w: u32) -> int {
    if w <= i32::MAX {
        w as int
    } else {
        w - 0x1_0000_0000
    }
}

/// The right edge of a monitor.
pub open spec fn right_edge(d: DisplayConfig) -> int {
    d.position_x + wrap_i32(d.width)
}

/// The bottom edge of a monitor.
pub open spec fn bottom_edge(d: DisplayConfig) -> int {
    d.position_y + wrap_i32(d.height)
}

/// The rectangles of two monitors share interior points.
pub open spec fn spec_rects_overlap(a: DisplayConfig, b: DisplayConfig) -> bool {
    &&& a.position_x < right_edge(b)
    &&& right_edge(a) > b.position_x
    &&& a.position_y < bottom_edge(b)
    &&& bottom_edge(a) > b.position_y
}

/// Two distinct enabled monitors of `ds` overlap.
pub open spec fn spec_has_overlap(ds: Seq<DisplayConfig>) -> bool {
    exists|i: int, j: int|
        0 <= i < j < ds.len() && ds[i].enabled && ds[j].enabled && #[trigger] spec_rects_overlap(
            ds[i],
            #[trigger] ds[j],
        )
}

/// Monitor `i` comes before monitor `j` when ordered by left edge, then top
/// edge, then position in the list.
pub open spec fn key_less(ds: Seq<DisplayConfig>, i: int, j: int) -> bool {
    ||| ds[i].position_x < ds[j].position_x
    ||| (ds[i].position_x == ds[j].position_x && ds[i].position_y < ds[j].position_y)
    ||| (ds[i].position_x == ds[j].position_x && ds[i].position_y == ds[j].position_y && i < j)
}

/// The summed widths of the enabled monitors among `ds[..n]` that come before monitor `i`.
pub open spec fn width_before(ds: Seq<DisplayConfig>, i: int, n: int) -> int
    decreases n,
{
    if n <= 0 {
        0
    } else {
        width_before(ds, i, n - 1) + if ds[n - 1].enabled && key_less(ds, n - 1, i) {
            wrap_i32(ds[n - 1].width)
        } else {
            0
        }
    }
}

/// The left edge that monitor `i` gets when the enabled monitors are laid out
/// side by side in their order.
pub open spec fn tiled_x(ds: Seq<DisplayConfig>, i: int) -> int {
    width_before(ds, i, ds.len() as int)
}

/// Monitor `i` placed at its tiled left edge on the top row.
pub open spec fn tiled(ds: Seq<DisplayConfig>, i: int) -> DisplayConfig {
    DisplayConfig { position_x: tiled_x(ds, i) as i32, position_y: 0, ..ds[i] }
}

/// `ds` with every enabled monitor tiled and the others unchanged.
pub open spec fn tiled_displays(ds: Seq<DisplayConfig>) -> Seq<DisplayConfig> {
    Seq::new(ds.len(), |i: int| if ds[i].enabled { tiled(ds, i) } else { ds[i] })
}

/// An extended desktop whose enabled monitors overlap, which normalizing lays out again.
pub open spec fn needs_tiling(topology: DisplayTopology, ds: Seq<DisplayConfig>) -> bool {
    topology == DisplayTopology::Extend && spec_has_overlap(ds)
}

/// Laying out `ds` side by side keeps every running left edge within `i32`.
pub open spec fn tiling_fits(ds: Seq<DisplayConfig>) -> bool {
    forall|i: int|
        0 <= i < ds.len() && ds[i].enabled ==> i32::MIN <= #[trigger] tiled_x(ds, i) <= i32::MAX
            && i32::MIN <= tiled_x(ds, i) + wrap_i32(ds[i].width) <= i32::MAX
}

/// The monitors that normalizing an arrangement gives.
pub open spec fn normalized_displays(topology: DisplayTopology, ds: Seq<DisplayConfig>) -> Seq<
    DisplayConfig,
> {
    if needs_tiling(topology, ds) {
        tiled_displays(ds)
    } else {
        ds
    }
}

/// `w as i32`.
fn wrap_exec(w: u32) -> (r: i64)
    ensures
        r == wrap_i32(w),
{
    if w <= 0x7fff_ffff {
        w as i64
    } else {
        w as i64 - 0x1_0000_0000
    }
}

/// Whether the rectangles of two monitors share interior points.
pub fn rects_overlap(a: &DisplayConfig, b: &DisplayConfig) -> (r: bool)
    ensures
        r == spec_rects_overlap(*a, *b),
{
    let ax2 = a.position_x as i64 + wrap_exec(a.width);
    let ay2 = a.position_y as i64 + wrap_exec(a.height);
    let bx2 = b.position_x as i64 + wrap_exec(b.width);
    let by2 = b.position_y as i64 + wrap_exec(b.height);
    (a.position_x as i64) < bx2 && ax2 > b.position_x as i64 && (a.position_y as i64) < by2 && ay2
        > b.position_y as i64
}

/// Whether two distinct enabled monitors of `displays` overlap.
pub fn has_overlap(displays: &Vec<DisplayConfig>) -> (r: bool)
    ensures
        r == spec_has_overlap(displays@),
{
    let n = displays.len();
    let mut i: usize = 0;
    while i < n
        invariant
            n == displays.len(),
            i <= n,
            forall|a: int, b: int|
                0 <= a < i && a < b < n && displays@[a].enabled && displays@[b].enabled
                    ==> !spec_rects_overlap(displays@[a], displays@[b]),
        decreases n - i,
    {
        if displays[i].enabled {
            let mut j: usize = i + 1;
            while j < n
                invariant
                    n == displays.len(),
                    i < n,
                    i + 1 <= j <= n,
                    displays@[i as int].enabled,
                    forall|b: int|
                        i < b < j && displays@[b].enabled ==> !spec_rects_overlap(
                            displays@[i as int],
                            displays@[b],
                        ),
                decreases n - j,
            {
                if displays[j].enabled && rects_overlap(&displays[i], &displays[j]) {
                    return true;
                }
                j = j + 1;
            }
        }
        i = i + 1;
    }
    false
}

/// Whether monitor `i` comes before monitor `j` in the layout order.
fn key_less_exec(ds: &Vec<DisplayConfig>, i: usize, j: usize) -> (r: bool)
    requires
        i < ds.len(),
        j < ds.len(),
    ensures
        r == key_less(ds@, i as int, j as int),
{
    let a = &ds[i];
    let b = &ds[j];
    a.position_x < b.position_x || (a.position_x == b.position_x && a.position_y < b.position_y)
        || (a.position_x == b.position_x && a.position_y == b.position_y && i < j)
}

/// The tiled left edge of monitor `i`.
fn tiled_x_exec(ds: &Vec<DisplayConfig>, i: usize) -> (r: i128)
    requires
        i < ds.len(),
    ensures
        r == tiled_x(ds@, i as int),
        -(ds@.len() as int) * 0x1_0000_0000 <= r <= (ds@.len() as int) * 0x1_0000_0000,
{
    let mut acc: i128 = 0;
    let mut j: usize = 0;
    while j < ds.len()
        invariant
            i < ds.len(),
            j <= ds.len(),
            acc == width_before(ds@, i as int, j as int),
            -(j as int) * 0x1_0000_0000 <= acc <= (j as int) * 0x1_0000_0000,
        decreases ds.len() - j,
    {
        if ds[j].enabled && key_less_exec(ds, j, i) {
            acc = acc + wrap_exec(ds[j].width) as i128;
        }
        j = j + 1;
    }
    acc
}

/// The arrangement that goes to the platform for `profile`: an extended
/// desktop whose enabled monitors overlap gets those monitors laid out side
/// by side on the top row, ordered by left edge, then top edge, then list
/// position; any other arrangement goes unchanged.
pub fn normalize_profile(profile: &DisplayProfile) -> (r: DisplayProfile)
    requires
        needs_tiling(profile.topology, profile.displays@) ==> tiling_fits(profile.displays@),
    ensures
        r.topology == profile.topology,
        r.displays@ == normalized_displays(profile.topology, profile.displays@),
{
    if profile.topology != DisplayTopology::Extend {
        return profile.clone();
    }
    if !has_overlap(&profile.displays) {
        return profile.clone();
    }
    let ds = &profile.displays;
    let mut out: Vec<DisplayConfig> = Vec::new();
    let mut i: usize = 0;
    while i < ds.len()
        invariant
            i <= ds.len(),
            tiling_fits(ds@),
            out@ =~= tiled_displays(ds@).take(i as int),
        decreases ds.len() - i,
    {
        let mut d = ds[i].clone();
        if d.enabled {
            let x = tiled_x_exec(ds, i);
            assert(i32::MIN <= tiled_x(ds@, i as int) <= i32::MAX);
            d.position_x = x as i32;
            d.position_y = 0;
        }
        out.push(d);
        i = i + 1;
    }
    assert(tiled_displays(ds@).take(ds.len() as int) =~= tiled_displays(ds@));
    DisplayProfile { topology: profile.topology, displays: out }
}

/// Whether normalizing `profile` stays within `i32`: true unless it must be
/// tiled and a running left edge leaves the `i32` range (where laying it out
/// would overflow).
pub fn normalize_fits(profile: &DisplayProfile) -> (r: bool)
    ensures
        r == (needs_tiling(profile.topology, profile.displays@) ==> tiling_fits(profile.displays@)),
{
    if profile.topology != DisplayTopology::Extend || !has_overlap(&profile.displays) {
        return true;
    }
    let ds = &profile.displays;
    let mut i: usize = 0;
    while i < ds.len()
        invariant
            i <= ds.len(),
            ds@ == profile.displays@,
            needs_tiling(profile.topology, ds@),
            forall|j: int|
                0 <= j < i && ds@[j].enabled ==> i32::MIN <= #[trigger] tiled_x(ds@, j) <= i32::MAX
                    && i32::MIN <= tiled_x(ds@, j) + wrap_i32(ds@[j].width) <= i32::MAX,
        decreases ds.len() - i,
    {
        if ds[i].enabled {
            let x = tiled_x_exec(ds, i);
            let end = x + wrap_exec(ds[i].width) as i128;
            if x < -0x8000_0000 || x > 0x7fff_ffff || end < -0x8000_0000 || end > 0x7fff_ffff {
                return false;
            }
        }
        i = i + 1;
    }
    true
}

/// The arrangement that applying `profile` sends to the platform backend:
/// `profile` normalized (see `normalize_profile`).
pub fn apply_profile(profile: &DisplayProfile) -> (r: DisplayProfile)
    requires
        needs_tiling(profile.topology, profile.displays@) ==> tiling_fits(profile.displays@),
    ensures
        r.topology == profile.topology,
        r.displays@ == normalized_displays(profile.topology, profile.displays@),
{
    normalize_profile(profile)
}

// ---------------------------------------------------------------------------
// Mapping a saved profile onto the connected monitors
// ---------------------------------------------------------------------------

/// The connected monitor `current` with the settings of the saved monitor
/// `source`: identity from `current`, geometry and state from `source`, and
/// the label of `source` where it has one.
pub open spec fn merged(current: DisplayConfig, source: DisplayConfig) -> DisplayConfig {
    DisplayConfig {
        label: if source.label is Some {
            source.label
        } else {
            current.label
        },
        device_name: current.device_name,
        device_id: current.device_id,
        device_key: current.device_key,
        width: source.width,
        height: source.height,
        position_x: source.position_x,
        position_y: source.position_y,
        orientation: source.orientation,
        enabled: source.enabled,
    }
}

/// The connected monitor `current` with the settings of the saved monitor `source`.
pub fn merge_display_config(current: &DisplayConfig, source: &DisplayConfig) -> (r: DisplayConfig)
    ensures
        r == merged(*current, *source),
{
    DisplayConfig {
        label: match &source.label {
            Some(l) => Some(l.clone()),
            None => clone_opt_string(&current.label),
        },
        device_name: current.device_name.clone(),
        device_id: current.device_id.clone(),
        device_key: current.device_key.clone(),
        width: source.width,
        height: source.height,
        position_x: source.position_x,
        position_y: source.position_y,
        orientation: source.orientation,
        enabled: source.enabled,
    }
}

/// Why a mapping could not be resolved.
#[derive(Debug)]
pub enum MappingError {
    /// No connected monitor has the mapping's name.
    CurrentDisplayNotFound(String),
    /// The mapping names a saved monitor that the profile does not have.
    ProfileIndexOutOfRange(usize),
}

/// The index of the first monitor of `ds` named `name`.
pub open spec fn find_by_name(ds: Seq<DisplayConfig>, name: Seq<char>) -> Option<int>
    decreases ds.len(),
{
    if ds.len() == 0 {
        None
    } else if ds[0].device_name@ == name {
        Some(0)
    } else {
        match find_by_name(ds.drop_first(), name) {
            Some(i) => Some(i + 1),
            None => None,
        }
    }
}

/// The monitors that `maps` give, in order, or the error of the first mapping
/// that fails: its connected monitor is looked up by name in `current` and its
/// saved monitor by index in `source`.
pub open spec fn resolve_mappings(
    current: Seq<DisplayConfig>,
    source: Seq<DisplayConfig>,
    maps: Seq<DisplayMapping>,
) -> Result<Seq<DisplayConfig>, MappingError>
    decreases maps.len(),
{
    if maps.len() == 0 {
        Ok(Seq::empty())
    } else {
        let m = maps[0];
        match find_by_name(current, m.current_display_name@) {
            None => Err(MappingError::CurrentDisplayNotFound(m.current_display_name)),
            Some(ci) => if m.profile_display_index < source.len() {
                match resolve_mappings(current, source, maps.drop_first()) {
                    Ok(rest) => Ok(
                        seq![merged(current[ci], source[m.profile_display_index as int])] + rest,
                    ),
                    Err(e) => Err(e),
                }
            } else {
                Err(MappingError::ProfileIndexOutOfRange(m.profile_display_index))
            },
        }
    }
}

proof fn lemma_find_by_name(ds: Seq<DisplayConfig>, name: Seq<char>, k: int)
    requires
        0 <= k <= ds.len(),
        forall|j: int| 0 <= j < k ==> ds[j].device_name@ != name,
    ensures
        k < ds.len() && ds[k].device_name@ == name ==> find_by_name(ds, name) == Some(k),
        k == ds.len() ==> find_by_name(ds, name) is None,
    decreases k,
{
    if k > 0 {
        lemma_find_by_name(ds.drop_first(), name, k - 1);
    }
}

/// The index of the first monitor of `ds` named `name`.
pub fn find_display_by_name(ds: &Vec<DisplayConfig>, name: &String) -> (r: Option<usize>)
    ensures
        match r {
            Some(i) => find_by_name(ds@, name@) == Some(i as int) && i < ds.len(),
            None => find_by_name(ds@, name@) is None,
        },
{
    let mut i: usize = 0;
    while i < ds.len()
        invariant
            i <= ds.len(),
            forall|j: int| 0 <= j < i ==> ds@[j].device_name@ != name@,
        decreases ds.len() - i,
    {
        if ds[i].device_name == *name {
            proof {
                lemma_find_by_name(ds@, name@, i as int);
            }
            return Some(i);
        }
        i = i + 1;
    }
    proof {
        lemma_find_by_name(ds@, name@, i as int);
    }
    None
}

/// Prepends `done` to a resolution.
pub open spec fn after(done: Seq<DisplayConfig>, r: Result<Seq<DisplayConfig>, MappingError>) -> Result<
    Seq<DisplayConfig>,
    MappingError,
> {
    match r {
        Ok(rest) => Ok(done + rest),
        Err(e) => Err(e),
    }
}

/// The arrangement that applying `profile` through `mappings` sends to the
/// platform, given the monitors `current` that are connected now: for each
/// mapping in order, the connected monitor of that name (the first, if
/// several) with the settings of the saved monitor at that index; the
/// topology is the profile's. The first mapping whose monitor is not
/// connected, or whose index is past the saved monitors, is the error.
pub fn apply_profile_with_mapping(
    current: &Vec<DisplayConfig>,
    profile: &DisplayProfile,
    mappings: &Vec<DisplayMapping>,
) -> (r: Result<DisplayProfile, MappingError>)
    ensures
        match (r, resolve_mappings(current@, profile.displays@, mappings@)) {
            (Ok(p), Ok(ds)) => p.topology == profile.topology && p.displays@ == ds,
            (Err(e), Err(f)) => e == f,
            _ => false,
        },
{
    let mut out: Vec<DisplayConfig> = Vec::new();
    let mut k: usize = 0;
    assert(mappings@.skip(0) =~= mappings@);
    while k < mappings.len()
        invariant
            k <= mappings.len(),
            resolve_mappings(current@, profile.displays@, mappings@) == after(
                out@,
                resolve_mappings(current@, profile.displays@, mappings@.skip(k as int)),
            ),
        decreases mappings.len() - k,
    {
        let m = &mappings[k];
        let ghost rest = mappings@.skip(k as int);
        assert(rest[0] == *m);
        assert(rest.drop_first() =~= mappings@.skip(k + 1));
        let ci = match find_display_by_name(current, &m.current_display_name) {
            Some(ci) => ci,
            None => {
                return Err(MappingError::CurrentDisplayNotFound(m.current_display_name.clone()));
            },
        };
        if m.profile_display_index >= profile.displays.len() {
            return Err(MappingError::ProfileIndexOutOfRange(m.profile_display_index));
        }
        let d = merge_display_config(&current[ci], &profile.displays[m.profile_display_index]);
        let ghost before = out@;
        out.push(d);
        proof {
            let tail = resolve_mappings(current@, profile.displays@, mappings@.skip(k + 1));
            match tail {
                Ok(t) => {
                    assert(before + (seq![d] + t) =~= out@ + t);
                },
                Err(_) => {},
            }
        }
        k = k + 1;
    }
    assert(mappings@.skip(k as int).len() == 0);
    assert(out@ + Seq::<DisplayConfig>::empty() =~= out@);
    Ok(DisplayProfile { topology: profile.topology, displays: out })
}

/// A resolved mapping gives one monitor per mapping, in order: the connected
/// monitor of the mapping's name, with the settings of the saved monitor at
/// the mapping's index.
pub proof fn lemma_resolved_mappings(
    current: Seq<DisplayConfig>,
    source: Seq<DisplayConfig>,
    maps: Seq<DisplayMapping>,
)
    ensures
        resolve_mappings(current, source, maps) matches Ok(ds) ==> {
            &&& ds.len() == maps.len()
            &&& forall|k: int|
                0 <= k < maps.len() ==> {
                    &&& #[trigger] find_by_name(current, maps[k].current_display_name@) matches Some(
                        ci,
                    )
                    &&& maps[k].profile_display_index < source.len()
                    &&& ds[k] == merged(current[ci], source[maps[k].profile_display_index as int])
                }
        },
    decreases maps.len(),
{
    if maps.len() > 0 {
        lemma_resolved_mappings(current, source, maps.drop_first());
        if let Ok(ds) = resolve_mappings(current, source, maps) {
            assert forall|k: int| 0 < k < maps.len() implies #[trigger] find_by_name(
                current,
                maps[k].current_display_name@,
            ) is Some by {
                assert(maps[k] == maps.drop_first()[k - 1]);
            }
            assert forall|k: int|
                0 <= k < maps.len() implies {
                &&& #[trigger] find_by_name(current, maps[k].current_display_name@) matches Some(ci)
                &&& maps[k].profile_display_index < source.len()
                &&& ds[k] == merged(current[ci], source[maps[k].profile_display_index as int])
            } by {
                if k > 0 {
                    assert(maps[k] == maps.drop_first()[k - 1]);
                }
            }
        }
    }
}

// ---------------------------------------------------------------------------
// Laws of normalization
// ---------------------------------------------------------------------------

/// Every enabled monitor of `ds` is at most `i32::MAX` pixels wide, so that
/// its width is the same number as an `i32`.
pub open spec fn widths_fit(ds: Seq<DisplayConfig>) -> bool {
    forall|i: int| 0 <= i < ds.len() && ds[i].enabled ==> #[trigger] ds[i].width <= i32::MAX
}

proof fn lemma_width_before_gap(ds: Seq<DisplayConfig>, i: int, j: int, n: int)
    requires
        widths_fit(ds),
        0 <= i < ds.len(),
        0 <= j < ds.len(),
        ds[i].enabled,
        key_less(ds, i, j),
        0 <= n <= ds.len(),
    ensures
        width_before(ds, j, n) >= width_before(ds, i, n) + if i < n {
            ds[i].width as int
        } else {
            0
        },
    decreases n,
{
    if n > 0 {
        lemma_width_before_gap(ds, i, j, n - 1);
        let k = n - 1;
        if ds[k].enabled {
            assert(ds[k].width <= i32::MAX);
        }
    }
}

/// Tiling keeps the order of the enabled monitors: a monitor that comes
/// before another (by left edge, then top edge, then list position) ends
/// where or before the other begins.
pub proof fn lemma_tiling_keeps_order(ds: Seq<DisplayConfig>, i: int, j: int)
    requires
        widths_fit(ds),
        0 <= i < ds.len(),
        0 <= j < ds.len(),
        ds[i].enabled,
        ds[j].enabled,
        key_less(ds, i, j),
    ensures
        tiled_x(ds, i) + ds[i].width <= tiled_x(ds, j),
{
    lemma_width_before_gap(ds, i, j, ds.len() as int);
}

/// After tiling, no two enabled monitors overlap.
pub proof fn lemma_tiling_removes_overlap(ds: Seq<DisplayConfig>)
    requires
        widths_fit(ds),
        tiling_fits(ds),
    ensures
        !spec_has_overlap(tiled_displays(ds)),
{
    let t = tiled_displays(ds);
    assert forall|i: int, j: int|
        0 <= i < j < t.len() && t[i].enabled && t[j].enabled implies !spec_rects_overlap(
        t[i],
        t[j],
    ) by {
        assert(ds[i].enabled && ds[j].enabled);
        assert(i32::MIN <= tiled_x(ds, i) <= i32::MAX);
        assert(i32::MIN <= tiled_x(ds, j) <= i32::MAX);
        assert(ds[i].width <= i32::MAX);
        assert(ds[j].width <= i32::MAX);
        if key_less(ds, i, j) {
            lemma_tiling_keeps_order(ds, i, j);
        } else {
            assert(key_less(ds, j, i));
            lemma_tiling_keeps_order(ds, j, i);
        }
    }
}

/// Normalizing twice gives what normalizing once gives.
pub proof fn lemma_normalize_idempotent(topology: DisplayTopology, ds: Seq<DisplayConfig>)
    requires
        widths_fit(ds),
        needs_tiling(topology, ds) ==> tiling_fits(ds),
    ensures
        normalized_displays(topology, normalized_displays(topology, ds)) == normalized_displays(
            topology,
            ds,
        ),
{
    if needs_tiling(topology, ds) {
        lemma_tiling_removes_overlap(ds);
    }
}

/// After normalizing, no two enabled monitors of an extended desktop overlap.
pub proof fn lemma_normalized_extend_has_no_overlap(ds: Seq<DisplayConfig>)
    requires
        widths_fit(ds),
        needs_tiling(DisplayTopology::Extend, ds) ==> tiling_fits(ds),
    ensures
        !spec_has_overlap(normalized_displays(DisplayTopology::Extend, ds)),
{
    if needs_tiling(DisplayTopology::Extend, ds) {
        lemma_tiling_removes_overlap(ds);
    }
}


/// The point `(x, y)` lies on the screen area of monitor `d`: at or right of
/// its left edge and left of its right edge, at or below its top edge and
/// above its bottom edge.
pub open spec fn covers(d: DisplayConfig, x: int, y: int) -> bool {
    &&& d.position_x <= x < d.position_x + d.width
    &&& d.position_y <= y < d.position_y + d.height
}

/// Two monitors lie apart: one ends where or before the other begins,
/// across or down.
pub open spec fn lie_apart(a: DisplayConfig, b: DisplayConfig) -> bool {
    ||| a.position_x + a.width <= b.position_x
    ||| b.position_x + b.width <= a.position_x
    ||| a.position_y + a.height <= b.position_y
    ||| b.position_y + b.height <= a.position_y
}

/// Two monitors overlap when their screen areas share a point, and never
/// when they lie apart, even where they touch along an edge; overlap is
/// symmetric; and monitors of positive size that overlap share the point at
/// the larger of their left edges and the larger of their top edges.
pub proof fn lemma_rects_overlap_is_shared_area(a: DisplayConfig, b: DisplayConfig, x: int, y: int)
    requires
        a.width <= i32::MAX,
        a.height <= i32::MAX,
        b.width <= i32::MAX,
        b.height <= i32::MAX,
    ensures
        covers(a, x, y) && covers(b, x, y) ==> spec_rects_overlap(a, b),
        lie_apart(a, b) ==> !spec_rects_overlap(a, b),
        spec_rects_overlap(a, b) == spec_rects_overlap(b, a),
        spec_rects_overlap(a, b) && a.width > 0 && a.height > 0 && b.width > 0 && b.height > 0
            ==> {
            let px = if a.position_x < b.position_x { b.position_x as int } else { a.position_x as int };
            let py = if a.position_y < b.position_y { b.position_y as int } else { a.position_y as int };
            covers(a, px, py) && covers(b, px, py)
        },
{
}

/// Normalizing leaves an arrangement whose enabled monitors lie pairwise
/// apart (side by side, stacked, or touching along an edge) as it is.
pub proof fn lemma_apart_monitors_stay(topology: DisplayTopology, ds: Seq<DisplayConfig>)
    requires
        forall|i: int|
            0 <= i < ds.len() && (#[trigger] ds[i]).enabled ==> ds[i].width <= i32::MAX
                && ds[i].height <= i32::MAX,
        forall|i: int, j: int|
            0 <= i < j < ds.len() && ds[i].enabled && ds[j].enabled ==> lie_apart(
                #[trigger] ds[i],
                #[trigger] ds[j],
            ),
    ensures
        normalized_displays(topology, ds) == ds,
{
    assert forall|i: int, j: int|
        0 <= i < j < ds.len() && ds[i].enabled && ds[j].enabled implies !spec_rects_overlap(
        #[trigger] ds[i],
        #[trigger] ds[j],
    ) by {
        lemma_rects_overlap_is_shared_area(ds[i], ds[j], 0, 0);
    }
}

/// Normalizing an extended desktop in which two enabled monitors share a
/// point of screen area lays its enabled monitors out side by side.
pub proof fn lemma_overlapping_extend_is_tiled(ds: Seq<DisplayConfig>, i: int, j: int, x: int, y: int)
    requires
        0 <= i < j < ds.len(),
        ds[i].enabled,
        ds[j].enabled,
        ds[i].width <= i32::MAX,
        ds[i].height <= i32::MAX,
        ds[j].width <= i32::MAX,
        ds[j].height <= i32::MAX,
        covers(ds[i], x, y),
        covers(ds[j], x, y),
    ensures
        normalized_displays(DisplayTopology::Extend, ds) == tiled_displays(ds),
{
    lemma_rects_overlap_is_shared_area(ds[i], ds[j], x, y);
    assert(spec_rects_overlap(ds[i], ds[j]));
}

} // verus!
