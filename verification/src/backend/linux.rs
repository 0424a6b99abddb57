//! The X11 backend: what `xrandr --query` reports is read into an
//! arrangement, and an arrangement is turned into the arguments of the
//! `xrandr` call that applies it.
use vstd::prelude::*;
use vstd::string::StringExecFns;
use crate::apply::{apply_profile_with_mapping, resolve_mappings, MappingError};
use crate::display_info::{DisplayConfig, DisplayMapping, DisplayProfile, DisplayTopology};
use crate::text::{
    is_digit, lemma_dec_digits, lemma_first_index_concat, before_char, chars_of, contains, contains_exec, dec, dec_int, first_index_exec, first_index_of,
    has_char, has_char_exec, int_error_message, lines, parse_i32, parse_i32_exec, parse_u32,
    parse_u32_exec, push_chars, push_i64, push_int_error, push_u64, split_lines, split_once,
    split_once_exec, split_words, starts_with, starts_with_exec, string_from, string_of,
    string_views, sub_vec, views, words,
};

verus! {

broadcast use vstd::string::group_string_axioms;

// ---------------------------------------------------------------------------
// Applying
// ---------------------------------------------------------------------------

/// The `xrandr --rotate` value of an orientation.
pub open spec fn xrandr_rotation(orientation: u32) -> Seq<char> {
    if orientation == 1 {
        "left"@
    } else if orientation == 2 {
        "inverted"@
    } else if orientation == 3 {
        "right"@
    } else {
        "normal"@
    }
}

/// The `xrandr --rotate` value of an orientation.
pub fn rotation_to_xrandr(orientation: u32) -> (r: &'static str)
    ensures
        r@ == xrandr_rotation(orientation),
{
    match orientation {
        1 => "left",
        2 => "inverted",
        3 => "right",
        _ => "normal",
    }
}

/// `WIDTHxHEIGHT`.
pub open spec fn size_arg(d: DisplayConfig) -> Seq<char> {
    dec(d.width as nat) + "x"@ + dec(d.height as nat)
}

/// `XxY`.
pub open spec fn pos_arg(d: DisplayConfig) -> Seq<char> {
    dec_int(d.position_x as int) + "x"@ + dec_int(d.position_y as int)
}

/// The `xrandr` arguments for one monitor.
pub open spec fn display_args(d: DisplayConfig) -> Seq<Seq<char>> {
    seq!["--output"@, d.device_name@] + if d.enabled {
        seq![
            "--mode"@,
            size_arg(d),
            "--pos"@,
            pos_arg(d),
            "--rotate"@,
            xrandr_rotation(d.orientation),
        ]
    } else {
        seq!["--off"@]
    }
}

/// The `xrandr` arguments for the monitors `ds`, in order.
pub open spec fn xrandr_args(ds: Seq<DisplayConfig>) -> Seq<Seq<char>>
    decreases ds.len(),
{
    if ds.len() == 0 {
        Seq::empty()
    } else {
        xrandr_args(ds.drop_last()) + display_args(ds.last())
    }
}

/// Some monitor of `ds` is enabled.
pub open spec fn any_enabled(ds: Seq<DisplayConfig>) -> bool {
    exists|i: int| 0 <= i < ds.len() && #[trigger] ds[i].enabled
}

pub open spec fn no_displays_message() -> Seq<char> {
    "profile does not contain any displays to apply"@
}

pub open spec fn none_enabled_message() -> Seq<char> {
    "no enabled displays in profile"@
}

/// Whether some monitor of `ds` is enabled.
pub fn any_enabled_exec(ds: &Vec<DisplayConfig>) -> (r: bool)
    ensures
        r == any_enabled(ds@),
{
    let mut i: usize = 0;
    while i < ds.len()
        invariant
            i <= ds.len(),
            forall|j: int| 0 <= j < i ==> !ds@[j].enabled,
        decreases ds.len() - i,
    {
        if ds[i].enabled {
            return true;
        }
        i = i + 1;
    }
    false
}

/// What applying the monitors `ds` through `xrandr` gives: refused without
/// monitors or without an enabled one, else the arguments `xrandr_args(ds)`.
pub open spec fn is_args_outcome(ds: Seq<DisplayConfig>, r: Result<Vec<String>, String>) -> bool {
    if ds.len() == 0 {
        r matches Err(e) && e@ == no_displays_message()
    } else if !any_enabled(ds) {
        r matches Err(e) && e@ == none_enabled_message()
    } else {
        r matches Ok(args) && string_views(args@) == xrandr_args(ds)
    }
}

fn push_owned(v: &mut Vec<String>, s: String)
    ensures
        string_views(final(v)@) == string_views(old(v)@).push(s@),
{
    let ghost before = string_views(v@);
    let ghost sv = s@;
    v.push(s);
    assert(string_views(v@) =~= before.push(sv));
}

fn push_string(v: &mut Vec<String>, s: &str)
    ensures
        string_views(final(v)@) == string_views(old(v)@).push(s@),
{
    let ghost before = string_views(v@);
    v.push(string_from(s));
    assert(string_views(v@) =~= before.push(s@));
}

/// The arguments of the `xrandr` call that applies `profile`: for each monitor
/// `--output NAME`, then `--mode WxH --pos XxY --rotate R` when it is enabled
/// and `--off` when it is not. A profile without monitors, or without an
/// enabled one, is refused.
pub fn apply_linux_profile(profile: &DisplayProfile) -> (r: Result<Vec<String>, String>)
    ensures
        is_args_outcome(profile.displays@, r),
{
    let ds = &profile.displays;
    if ds.len() == 0 {
        return Err(string_from("profile does not contain any displays to apply"));
    }
    if !any_enabled_exec(ds) {
        return Err(string_from("no enabled displays in profile"));
    }
    let mut args: Vec<String> = Vec::new();
    let mut i: usize = 0;
    assert(string_views(args@) =~= Seq::<Seq<char>>::empty());
    while i < ds.len()
        invariant
            i <= ds.len(),
            string_views(args@) == xrandr_args(ds@.take(i as int)),
        decreases ds.len() - i,
    {
        let d = &ds[i];
        let ghost before = string_views(args@);
        push_string(&mut args, "--output");
        push_owned(&mut args, d.device_name.clone());
        let ghost head = before.push("--output"@).push(d.device_name@);
        assert(string_views(args@) == head);
        if d.enabled {
            push_string(&mut args, "--mode");
            let mut size = String::new();
            push_u64(&mut size, d.width as u64);
            size.append("x");
            push_u64(&mut size, d.height as u64);
            push_owned(&mut args, size);
            push_string(&mut args, "--pos");
            let mut pos = String::new();
            push_i64(&mut pos, d.position_x as i64);
            pos.append("x");
            push_i64(&mut pos, d.position_y as i64);
            push_owned(&mut args, pos);
            push_string(&mut args, "--rotate");
            push_string(&mut args, rotation_to_xrandr(d.orientation));
            assert(string_views(args@) == head.push("--mode"@).push(size_arg(*d)).push(
                "--pos"@,
            ).push(pos_arg(*d)).push("--rotate"@).push(xrandr_rotation(d.orientation)));
        } else {
            push_string(&mut args, "--off");
        }
        assert(string_views(args@) =~= before + display_args(*d));
        assert(ds@.take(i + 1).drop_last() =~= ds@.take(i as int));
        i = i + 1;
    }
    assert(ds@.take(ds.len() as int) =~= ds@);
    Ok(args)
}

/// The error text of a mapping that the X11 backend cannot resolve.
pub open spec fn mapping_error_message(e: MappingError) -> Seq<char> {
    match e {
        MappingError::CurrentDisplayNotFound(name) => "current display '"@ + name@
            + "' was not found while applying mapped profile"@,
        MappingError::ProfileIndexOutOfRange(i) => "profile display index "@ + dec(i as nat)
            + " is out of range"@,
    }
}

/// The error text of a mapping that the X11 backend cannot resolve.
pub fn mapping_error_text(e: &MappingError) -> (r: String)
    ensures
        r@ == mapping_error_message(*e),
{
    let mut s = String::new();
    match e {
        MappingError::CurrentDisplayNotFound(name) => {
            s.append("current display '");
            s.append(name.as_str());
            s.append("' was not found while applying mapped profile");
        },
        MappingError::ProfileIndexOutOfRange(i) => {
            s.append("profile display index ");
            push_u64(&mut s, *i as u64);
            s.append(" is out of range");
        },
    }
    s
}

/// The `xrandr` arguments that apply `profile` through `mappings` onto the
/// monitors of `current`: the mapped monitors (see `apply_profile_with_mapping`)
/// applied as `apply_linux_profile` does; a mapping that cannot be resolved is
/// reported in this backend's words.
pub fn apply_mapped_linux(
    current: &DisplayProfile,
    profile: &DisplayProfile,
    mappings: &Vec<DisplayMapping>,
) -> (r: Result<Vec<String>, String>)
    ensures
        match resolve_mappings(current.displays@, profile.displays@, mappings@) {
            Err(e) => r matches Err(m) && m@ == mapping_error_message(e),
            Ok(ds) => is_args_outcome(ds, r),
        },
{
    match apply_profile_with_mapping(&current.displays, profile, mappings) {
        Err(e) => Err(mapping_error_text(&e)),
        Ok(mapped) => apply_linux_profile(&mapped),
    }
}

/// What the user is told when `xrandr` fails: its error output, trimmed.
pub fn xrandr_failure(stderr: &str) -> (r: String)
    ensures
        r@ == "xrandr failed: "@ + crate::text::trim(stderr@),
{
    let mut s = String::new();
    s.append("xrandr failed: ");
    push_chars(&mut s, &crate::text::trimmed_chars(&chars_of(stderr)));
    s
}

// ---------------------------------------------------------------------------
// Querying
// ---------------------------------------------------------------------------

/// The text `'TOKEN'` that the geometry error messages quote.
pub open spec fn quoted(token: Seq<char>) -> Seq<char> {
    "'"@ + token + "'"@
}

/// The piece of `position` after its first `+`, up to the next `+`, if it has one.
pub open spec fn second_piece(position: Seq<char>) -> Option<Seq<char>> {
    match first_index_of(position, '+') {
        Some(k) => Some(before_char(position.skip(k + 1), '+')),
        None => None,
    }
}

/// A geometry token `WxH+X+Y` read as `(W, H, X, Y)`, or the error text: the
/// size is what precedes the first `+`, the position what follows it; `X`
/// ends at the next `+` and `Y` at the one after; they are read in the order
/// X, Y, size, W, H, and the first failure is reported.
pub open spec fn spec_parse_geometry(token: Seq<char>) -> Result<(u32, u32, i32, i32), Seq<char>> {
    match split_once(token, '+') {
        None => Err("failed to parse xrandr geometry token "@ + quoted(token)),
        Some((size, position)) => match parse_i32(before_char(position, '+')) {
            Err(e) => Err("invalid x position in "@ + quoted(token) + ": "@ + int_error_message(e)),
            Ok(x) => match second_piece(position) {
                None => Err("missing y position in "@ + quoted(token)),
                Some(ys) => match parse_i32(ys) {
                    Err(e) => Err(
                        "invalid y position in "@ + quoted(token) + ": "@ + int_error_message(e),
                    ),
                    Ok(y) => match split_once(size, 'x') {
                        None => Err("missing size in "@ + quoted(token)),
                        Some((ws, hs)) => match parse_u32(ws) {
                            Err(e) => Err(
                                "invalid width in "@ + quoted(token) + ": "@ + int_error_message(e),
                            ),
                            Ok(w) => match parse_u32(hs) {
                                Err(e) => Err(
                                    "invalid height in "@ + quoted(token) + ": "@
                                        + int_error_message(e),
                                ),
                                Ok(h) => Ok((w as u32, h as u32, x as i32, y as i32)),
                            },
                        },
                    },
                },
            },
        },
    }
}

fn geometry_error(prefix: &str, token: &Vec<char>, e: Option<crate::text::IntErrorKind>) -> (r:
    String)
    ensures
        r@ == match e {
            Some(k) => prefix@ + quoted(token@) + ": "@ + int_error_message(k),
            None => prefix@ + quoted(token@),
        },
{
    let mut s = String::new();
    s.append(prefix);
    s.append("'");
    push_chars(&mut s, token);
    s.append("'");
    match e {
        Some(k) => {
            s.append(": ");
            push_int_error(&mut s, k);
        },
        None => {},
    }
    s
}

/// The part of `v` before its first `c`.
fn before_char_exec(v: &Vec<char>, c: char) -> (r: Vec<char>)
    ensures
        r@ == before_char(v@, c),
{
    match first_index_exec(v, c) {
        Some(k) => sub_vec(v, 0, k),
        None => sub_vec(v, 0, v.len()),
    }
}

/// Reads a geometry token of `xrandr --query` (see `spec_parse_geometry`).
pub fn parse_geometry_chars(token: &Vec<char>) -> (r: Result<(u32, u32, i32, i32), String>)
    ensures
        match (r, spec_parse_geometry(token@)) {
            (Ok(a), Ok(b)) => a == b,
            (Err(a), Err(b)) => a@ == b,
            _ => false,
        },
{
    let (size, position) = match split_once_exec(token, '+') {
        Some(p) => p,
        None => {
            return Err(geometry_error("failed to parse xrandr geometry token ", token, None));
        },
    };
    let xs = before_char_exec(&position, '+');
    let x = match parse_i32_exec(&xs) {
        Ok(x) => x,
        Err(e) => {
            return Err(geometry_error("invalid x position in ", token, Some(e)));
        },
    };
    let ys = match first_index_exec(&position, '+') {
        Some(k) => {
            let rest = sub_vec(&position, k + 1, position.len());
            assert(rest@ == position@.skip(k + 1));
            before_char_exec(&rest, '+')
        },
        None => {
            return Err(geometry_error("missing y position in ", token, None));
        },
    };
    let y = match parse_i32_exec(&ys) {
        Ok(y) => y,
        Err(e) => {
            return Err(geometry_error("invalid y position in ", token, Some(e)));
        },
    };
    let (ws, hs) = match split_once_exec(&size, 'x') {
        Some(p) => p,
        None => {
            return Err(geometry_error("missing size in ", token, None));
        },
    };
    let w = match parse_u32_exec(&ws) {
        Ok(w) => w,
        Err(e) => {
            return Err(geometry_error("invalid width in ", token, Some(e)));
        },
    };
    let h = match parse_u32_exec(&hs) {
        Ok(h) => h,
        Err(e) => {
            return Err(geometry_error("invalid height in ", token, Some(e)));
        },
    };
    Ok((w, h, x, y))
}

/// Reads a geometry token `WxH+X+Y` of `xrandr --query` (see `spec_parse_geometry`).
pub fn parse_geometry(token: &str) -> (r: Result<(u32, u32, i32, i32), String>)
    ensures
        match (r, spec_parse_geometry(token@)) {
            (Ok(a), Ok(b)) => a == b,
            (Err(a), Err(b)) => a@ == b,
            _ => false,
        },
{
    parse_geometry_chars(&chars_of(token))
}

/// No character of `s` is `c`: each is a digit, a `-` or an `x`.
proof fn lemma_lacks_char(s: Seq<char>, c: char)
    requires
        forall|i: int| 0 <= i < s.len() ==> is_digit(#[trigger] s[i]) || s[i] == '-' || s[i] == 'x',
        !is_digit(c),
        c != '-',
        c != 'x',
    ensures
        !has_char(s, c),
{
}

proof fn lemma_dec_int_chars(x: int)
    ensures
        forall|i: int|
            0 <= i < dec_int(x).len() ==> is_digit(#[trigger] dec_int(x)[i]) || dec_int(x)[i] == '-',
{
    if x < 0 {
        lemma_dec_digits((-x) as nat);
        let s = dec_int(x);
        assert forall|i: int| 0 <= i < s.len() implies is_digit(#[trigger] s[i]) || s[i] == '-' by {
            if i > 0 {
                assert(s[i] == dec((-x) as nat)[i - 1]);
            }
        }
    } else {
        lemma_dec_digits(x as nat);
    }
}

/// What applying writes for a monitor's mode and position, put together in
/// the `WxH+X+Y` form in which `xrandr --query` reports geometry, reads back
/// as the same width, height and position.
pub proof fn lemma_geometry_roundtrip(d: DisplayConfig)
    ensures
        spec_parse_geometry(size_arg(d) + "+"@ + dec_int(d.position_x as int) + "+"@ + dec_int(
            d.position_y as int,
        )) == Ok::<(u32, u32, i32, i32), Seq<char>>(
            (d.width, d.height, d.position_x, d.position_y),
        ),
{
    reveal_strlit("x");
    reveal_strlit("+");
    let w = dec(d.width as nat);
    let h = dec(d.height as nat);
    let x = dec_int(d.position_x as int);
    let y = dec_int(d.position_y as int);
    lemma_dec_digits(d.width as nat);
    lemma_dec_digits(d.height as nat);
    lemma_dec_int_chars(d.position_x as int);
    lemma_dec_int_chars(d.position_y as int);
    let size = w + "x"@ + h;
    let position = x + "+"@ + y;
    let token = size + "+"@ + x + "+"@ + y;
    assert(token =~= size + (seq!['+'] + position));
    assert(forall|i: int|
        0 <= i < size.len() ==> is_digit(#[trigger] size[i]) || size[i] == '-' || size[i] == 'x') by {
        assert forall|i: int| 0 <= i < size.len() implies is_digit(#[trigger] size[i]) || size[i]
            == '-' || size[i] == 'x' by {
            if i < w.len() {
                assert(size[i] == w[i]);
            } else if i > w.len() {
                assert(size[i] == h[i - w.len() - 1]);
            }
        }
    }
    lemma_lacks_char(size, '+');
    lemma_first_index_concat(size, seq!['+'] + position, '+');
    assert(first_index_of(seq!['+'] + position, '+') == Some(0int));
    assert(token.take(size.len() as int) =~= size);
    assert(token.skip(size.len() + 1int) =~= position);
    assert(split_once(token, '+') == Some((size, position)));
    lemma_lacks_char(x, '+');
    lemma_lacks_char(y, '+');
    assert(position =~= x + (seq!['+'] + y));
    lemma_first_index_concat(x, seq!['+'] + y, '+');
    assert(first_index_of(seq!['+'] + y, '+') == Some(0int));
    assert(position.take(x.len() as int) =~= x);
    assert(position.skip(x.len() + 1int) =~= y);
    assert(before_char(position, '+') == x);
    assert(y + Seq::<char>::empty() =~= y);
    lemma_first_index_concat(y, Seq::<char>::empty(), '+');
    assert(first_index_of(Seq::<char>::empty(), '+') is None);
    assert(before_char(y, '+') == y);
    assert(second_piece(position) == Some(y));
    crate::text::lemma_parse_dec_int(d.position_x as int, i32::MIN as int, i32::MAX as int);
    crate::text::lemma_parse_dec_int(d.position_y as int, i32::MIN as int, i32::MAX as int);
    assert(!has_char(w, 'x'));
    assert(size =~= w + (seq!['x'] + h));
    lemma_first_index_concat(w, seq!['x'] + h, 'x');
    assert(first_index_of(seq!['x'] + h, 'x') == Some(0int));
    assert(size.take(w.len() as int) =~= w);
    assert(size.skip(w.len() + 1int) =~= h);
    assert(split_once(size, 'x') == Some((w, h)));
    crate::text::lemma_parse_dec_int(d.width as int, 0, u32::MAX as int);
    crate::text::lemma_parse_dec_int(d.height as int, 0, u32::MAX as int);
    assert(dec_int(d.width as int) == w);
    assert(dec_int(d.height as int) == h);
}

/// The first word that holds both `x` and `+`.
pub open spec fn geometry_word(ws: Seq<Seq<char>>) -> Option<Seq<char>>
    decreases ws.len(),
{
    if ws.len() == 0 {
        None
    } else if has_char(ws[0], 'x') && has_char(ws[0], '+') {
        Some(ws[0])
    } else {
        geometry_word(ws.drop_first())
    }
}

/// A monitor line of `xrandr --query`: it holds ` connected` and has at least two words.
pub open spec fn is_monitor_line(line: Seq<char>) -> bool {
    contains(line, " connected"@) && words(line).len() >= 2
}

/// What a monitor line gives: the name (its first word) and the geometry of
/// its first word with `x` and `+`, zero where it has none; or the error text
/// of that geometry.
pub open spec fn monitor_line_row(line: Seq<char>) -> Result<(Seq<char>, (u32, u32, i32, i32)), Seq<char>> {
    let name = words(line)[0];
    match geometry_word(words(line)) {
        None => Ok((name, (0u32, 0u32, 0i32, 0i32))),
        Some(tok) => match spec_parse_geometry(tok) {
            Ok(g) => Ok((name, g)),
            Err(e) => Err(e),
        },
    }
}

/// The monitors that the lines `ls` report, in order, or the error of the
/// first monitor line whose geometry cannot be read.
pub open spec fn query_rows(ls: Seq<Seq<char>>) -> Result<Seq<(Seq<char>, (u32, u32, i32, i32))>, Seq<char>>
    decreases ls.len(),
{
    if ls.len() == 0 {
        Ok(Seq::empty())
    } else if !is_monitor_line(ls[0]) {
        query_rows(ls.drop_first())
    } else {
        match monitor_line_row(ls[0]) {
            Err(e) => Err(e),
            Ok(row) => match query_rows(ls.drop_first()) {
                Ok(rest) => Ok(seq![row] + rest),
                Err(e) => Err(e),
            },
        }
    }
}

/// A monitor read from `xrandr --query`: named and labelled after its output,
/// no id or key, the geometry `g`, normal orientation, enabled.
pub open spec fn is_queried_display(d: DisplayConfig, name: Seq<char>, g: (u32, u32, i32, i32)) -> bool {
    &&& d.label matches Some(l) && l@ == name
    &&& d.device_name@ == name
    &&& d.device_id@ == Seq::<char>::empty()
    &&& d.device_key@ == Seq::<char>::empty()
    &&& d.width == g.0
    &&& d.height == g.1
    &&& d.position_x == g.2
    &&& d.position_y == g.3
    &&& d.orientation == 0
    &&& d.enabled
}

/// The topology of a queried arrangement: extended with several monitors;
/// with one, internal when its name begins with `eDP` or `LVDS`, else external.
pub open spec fn queried_topology(names: Seq<Seq<char>>) -> DisplayTopology {
    if names.len() > 1 {
        DisplayTopology::Extend
    } else if starts_with(names[0], "eDP"@) || starts_with(names[0], "LVDS"@) {
        DisplayTopology::Internal
    } else {
        DisplayTopology::External
    }
}

pub open spec fn no_connected_message() -> Seq<char> {
    "xrandr returned no connected displays"@
}

/// Prepends `done` to a result of `query_rows`.
pub open spec fn rows_after(
    done: Seq<(Seq<char>, (u32, u32, i32, i32))>,
    r: Result<Seq<(Seq<char>, (u32, u32, i32, i32))>, Seq<char>>,
) -> Result<Seq<(Seq<char>, (u32, u32, i32, i32))>, Seq<char>> {
    match r {
        Ok(rest) => Ok(done + rest),
        Err(e) => Err(e),
    }
}

/// The first word of `ws` that holds both `x` and `+`.
fn geometry_word_exec(ws: &Vec<Vec<char>>) -> (r: Option<usize>)
    ensures
        match (r, geometry_word(views(ws@))) {
            (Some(i), Some(w)) => i < ws.len() && ws@[i as int]@ == w,
            (None, None) => true,
            _ => false,
        },
{
    let ghost vs = views(ws@);
    let mut i: usize = 0;
    assert(vs.skip(0) =~= vs);
    while i < ws.len()
        invariant
            i <= ws.len(),
            vs == views(ws@),
            geometry_word(vs) == geometry_word(vs.skip(i as int)),
        decreases ws.len() - i,
    {
        assert(vs.skip(i as int)[0] == ws@[i as int]@);
        assert(vs.skip(i as int).drop_first() =~= vs.skip(i + 1));
        if has_char_exec(&ws[i], 'x') && has_char_exec(&ws[i], '+') {
            return Some(i);
        }
        i = i + 1;
    }
    None
}

/// The monitor read from a monitor line of `xrandr --query`.
fn queried_display(name: &Vec<char>, g: (u32, u32, i32, i32)) -> (d: DisplayConfig)
    ensures
        is_queried_display(d, name@, g),
{
    DisplayConfig {
        label: Some(string_of(name)),
        device_name: string_of(name),
        device_id: String::new(),
        device_key: String::new(),
        width: g.0,
        height: g.1,
        position_x: g.2,
        position_y: g.3,
        orientation: 0,
        enabled: true,
    }
}

/// Reads the output of `xrandr --query` into an arrangement. Each line that
/// holds ` connected` and at least two words is a monitor (see
/// `monitor_line_row`); the first geometry that cannot be read is the error;
/// no monitor at all is an error too. The topology follows `queried_topology`.
pub fn parse_xrandr_query(output: &str) -> (r: Result<DisplayProfile, String>)
    ensures
        match (r, query_rows(lines(output@))) {
            (Err(e), Err(f)) => e@ == f,
            (Err(e), Ok(rows)) => rows.len() == 0 && e@ == no_connected_message(),
            (Ok(p), Ok(rows)) => {
                &&& rows.len() > 0
                &&& p.displays@.len() == rows.len()
                &&& forall|i: int|
                    0 <= i < rows.len() ==> is_queried_display(
                        #[trigger] p.displays@[i],
                        rows[i].0,
                        rows[i].1,
                    )
                &&& p.topology == queried_topology(rows.map_values(|row: (Seq<char>, (u32, u32, i32, i32))| row.0))
            },
            _ => false,
        },
{
    let text = chars_of(output);
    let ls = split_lines(&text);
    let ghost lv = views(ls@);
    let connected = chars_of(" connected");
    let mut out: Vec<DisplayConfig> = Vec::new();
    let ghost mut rows: Seq<(Seq<char>, (u32, u32, i32, i32))> = Seq::empty();
    let mut k: usize = 0;
    assert(lv.skip(0) =~= lv);
    while k < ls.len()
        invariant
            k <= ls.len(),
            lv == views(ls@),
            lv == lines(output@),
            connected@ == " connected"@,
            query_rows(lv) == rows_after(rows, query_rows(lv.skip(k as int))),
            out@.len() == rows.len(),
            forall|i: int|
                0 <= i < rows.len() ==> is_queried_display(#[trigger] out@[i], rows[i].0, rows[i].1),
        decreases ls.len() - k,
    {
        let line = &ls[k];
        let ghost rest = lv.skip(k as int);
        assert(rest[0] == line@);
        assert(rest.drop_first() =~= lv.skip(k + 1));
        if contains_exec(line, &connected) {
            let ws = split_words(line);
            if ws.len() >= 2 {
                let g = match geometry_word_exec(&ws) {
                    Some(gi) => match parse_geometry_chars(&ws[gi]) {
                        Ok(g) => g,
                        Err(e) => {
                            return Err(e);
                        },
                    },
                    None => (0u32, 0u32, 0i32, 0i32),
                };
                let d = queried_display(&ws[0], g);
                out.push(d);
                proof {
                    let row = (ws@[0]@, g);
                    assert(views(ws@)[0] == ws@[0]@);
                    let tail = query_rows(lv.skip(k + 1));
                    match tail {
                        Ok(t) => {
                            assert(rows + (seq![row] + t) =~= rows.push(row) + t);
                        },
                        Err(_) => {},
                    }
                    rows = rows.push(row);
                }
            }
        }
        k = k + 1;
    }
    assert(lv.skip(k as int).len() == 0);
    assert(rows + Seq::<(Seq<char>, (u32, u32, i32, i32))>::empty() =~= rows);
    if out.len() == 0 {
        return Err(string_from("xrandr returned no connected displays"));
    }
    let edp = chars_of("eDP");
    let lvds = chars_of("LVDS");
    let topology = if out.len() > 1 {
        DisplayTopology::Extend
    } else {
        let name0 = chars_of(out[0].device_name.as_str());
        if starts_with_exec(&name0, &edp) || starts_with_exec(&name0, &lvds) {
            DisplayTopology::Internal
        } else {
            DisplayTopology::External
        }
    };
    Ok(DisplayProfile { topology, displays: out })
}

} // verus!
