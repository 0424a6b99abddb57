//! Saved profiles: their file names, the two file formats, listing them in
//! name order, and finding one by name.
use vstd::prelude::*;
use vstd::string::StringExecFns;
use crate::display_info::{DisplayProfile, MonitorProfile};
use crate::text::{
    chars_eq, chars_of, dec, has_char, lines, lines_from, push_chars, push_u64, split_lines,
    string_from, string_of, strip_cr, views,
};

verus! {

broadcast use vstd::string::group_string_axioms;

/// A saved profile as listed: its name, the file it was read from, and its content.
#[derive(Debug)]
pub struct ProfileInfo {
    pub name: String,
    pub path: String,
    pub profile: MonitorProfile,
}

/// The listing entry of a profile read from `path`: named after the profile.
pub fn profile_info(path: String, profile: MonitorProfile) -> (r: ProfileInfo)
    ensures
        r.name == profile.name,
        r.path == path,
        r.profile == profile,
{
    ProfileInfo { name: profile.name.clone(), path, profile }
}

// ---------------------------------------------------------------------------
// File names
// ---------------------------------------------------------------------------

/// A character kept in a file name: ASCII letters and digits, `-` and `_`.
pub open spec fn is_name_char(c: char) -> bool {
    ('a' <= c && c <= 'z') || ('A' <= c && c <= 'Z') || ('0' <= c && c <= '9') || c == '-' || c
        == '_'
}

/// A character of a profile name as it appears in the file name.
pub open spec fn sanitized_char(c: char) -> char {
    if is_name_char(c) {
        c
    } else {
        '_'
    }
}

/// The file stem of a profile name: every character other than ASCII letters,
/// digits, `-` and `_` becomes `_`; an empty name becomes `profile`.
pub open spec fn spec_sanitize(name: Seq<char>) -> Seq<char> {
    if name.len() == 0 {
        "profile"@
    } else {
        name.map_values(|c: char| sanitized_char(c))
    }
}

/// The file stem of a profile name (see `spec_sanitize`).
pub fn sanitize_profile_name(name: &str) -> (r: String)
    ensures
        r@ == spec_sanitize(name@),
{
    let v = chars_of(name);
    if v.len() == 0 {
        return string_from("profile");
    }
    let mut out: Vec<char> = Vec::new();
    let mut i: usize = 0;
    while i < v.len()
        invariant
            i <= v.len(),
            out@ =~= v@.take(i as int).map_values(|c: char| sanitized_char(c)),
        decreases v.len() - i,
    {
        let c = v[i];
        let keep = ('a' <= c && c <= 'z') || ('A' <= c && c <= 'Z') || ('0' <= c && c <= '9') || c
            == '-' || c == '_';
        if keep {
            out.push(c);
        } else {
            out.push('_');
        }
        i = i + 1;
    }
    assert(v@.take(v.len() as int) =~= v@);
    string_of(&out)
}

/// A file stem holds only ASCII letters, digits, `-` and `_`, and is never
/// empty; taking the stem of a stem changes nothing.
pub proof fn lemma_sanitize_stem(name: Seq<char>)
    ensures
        spec_sanitize(name).len() > 0,
        forall|i: int|
            0 <= i < spec_sanitize(name).len() ==> is_name_char(#[trigger] spec_sanitize(name)[i]),
        spec_sanitize(spec_sanitize(name)) == spec_sanitize(name),
{
    reveal_strlit("profile");
    let s = spec_sanitize(name);
    assert(s.map_values(|c: char| sanitized_char(c)) =~= s);
}

/// The file stem of a nonempty name has the name's length; at each position
/// an ASCII letter of either case, a digit, `-` or `_` of the name is kept and
/// any other character becomes `_`. An empty name gives `profile`.
pub proof fn lemma_sanitize_keeps_name_chars(name: Seq<char>)
    ensures
        name.len() == 0 ==> spec_sanitize(name) == "profile"@,
        name.len() > 0 ==> spec_sanitize(name).len() == name.len(),
        forall|i: int|
            0 <= i < name.len() ==> {
                let c = #[trigger] name[i];
                let kept = ('a' <= c && c <= 'z') || ('A' <= c && c <= 'Z') || ('0' <= c && c
                    <= '9') || c == '-' || c == '_';
                &&& kept ==> spec_sanitize(name)[i] == c
                &&& !kept ==> spec_sanitize(name)[i] == '_'
            },
{
}

/// The file that a profile of this name is saved in: its stem and `.json`.
pub open spec fn spec_profile_file_name(name: Seq<char>) -> Seq<char> {
    spec_sanitize(name) + ".json"@
}

/// The file that a profile of this name is saved in.
pub fn profile_file_name(name: &str) -> (r: String)
    ensures
        r@ == spec_profile_file_name(name@),
{
    let mut s = sanitize_profile_name(name);
    s.append(".json");
    s
}

// ---------------------------------------------------------------------------
// File formats
// ---------------------------------------------------------------------------

/// The first line of a file in the legacy format.
pub open spec fn legacy_header() -> Seq<char> {
    "DMaster_v0_1_1"@
}

/// Lines joined by `\n`.
pub open spec fn join_lines(ls: Seq<Seq<char>>) -> Seq<char>
    decreases ls.len(),
{
    if ls.len() == 0 {
        Seq::empty()
    } else if ls.len() == 1 {
        ls[0]
    } else {
        join_lines(ls.drop_last()) + "\n"@ + ls.last()
    }
}

/// What a profile file holds.
#[derive(Debug)]
pub enum ProfileContent {
    /// The legacy format: a header line, then an arrangement in JSON, given here.
    Legacy(String),
    /// The current format: a saved profile in JSON, the whole file.
    Current,
}

/// Tells the two formats apart: a file whose first line is the legacy header
/// is legacy, and its other lines, joined by `\n`, are its JSON.
pub fn split_profile_content(content: &str) -> (r: ProfileContent)
    ensures
        ({
            let ls = lines(content@);
            if ls.len() > 0 && ls[0] == legacy_header() {
                r matches ProfileContent::Legacy(json) && json@ == join_lines(ls.drop_first())
            } else {
                r is Current
            }
        }),
{
    let text = chars_of(content);
    let ls = split_lines(&text);
    let ghost lv = views(ls@);
    let header = chars_of("DMaster_v0_1_1");
    if ls.len() == 0 || !chars_eq(&ls[0], &header) {
        return ProfileContent::Current;
    }
    let ghost body = lv.drop_first();
    let mut out: Vec<char> = Vec::new();
    let mut i: usize = 1;
    assert(body.take(0) =~= Seq::<Seq<char>>::empty());
    while i < ls.len()
        invariant
            1 <= i <= ls.len(),
            lv == views(ls@),
            body == lv.drop_first(),
            out@ == join_lines(body.take(i - 1)),
        decreases ls.len() - i,
    {
        let ghost before = out@;
        assert(body.take(i as int).drop_last() =~= body.take(i - 1));
        assert(body.take(i as int).last() == ls@[i as int]@);
        if i > 1 {
            out.push('\n');
            proof {
                reveal_strlit("\n");
            }
            assert(before.push('\n') =~= before + "\n"@);
        }
        let mut k: usize = 0;
        let ghost mid = out@;
        while k < ls[i].len()
            invariant
                k <= ls@[i as int]@.len(),
                i < ls.len(),
                out@ == mid + ls@[i as int]@.take(k as int),
            decreases ls@[i as int]@.len() - k,
        {
            out.push(ls[i][k]);
            k = k + 1;
            assert(out@ =~= mid + ls@[i as int]@.take(k as int));
        }
        assert(ls@[i as int]@.take(k as int) =~= ls@[i as int]@);
        if i == 1 {
            assert(out@ =~= ls@[1]@);
        }
        i = i + 1;
    }
    assert(body.take(ls.len() - 1) =~= body);
    ProfileContent::Legacy(string_of(&out))
}

/// `t` holds a carriage return right before a line feed.
pub open spec fn has_crlf(t: Seq<char>) -> bool {
    exists|i: int| 0 <= i < t.len() - 1 && #[trigger] t[i] == '\r' && t[i + 1] == '\n'
}

proof fn lemma_join_front(x: Seq<char>, ls: Seq<Seq<char>>)
    ensures
        join_lines(seq![x] + ls) == if ls.len() == 0 {
            x
        } else {
            x + "\n"@ + join_lines(ls)
        },
    decreases ls.len(),
{
    let all = seq![x] + ls;
    assert(join_lines(seq![x]) == x);
    if ls.len() == 0 {
        assert(all =~= seq![x]);
    } else if ls.len() == 1 {
        assert(all.drop_last() =~= seq![x]);
        assert(all.last() == ls[0]);
        assert(join_lines(ls) == ls[0]);
    } else {
        lemma_join_front(x, ls.drop_last());
        assert(all.drop_last() =~= seq![x] + ls.drop_last());
        assert(all.last() == ls.last());
        assert(join_lines(ls) == join_lines(ls.drop_last()) + "\n"@ + ls.last());
        assert(x + "\n"@ + join_lines(ls.drop_last()) + "\n"@ + ls.last() =~= x + "\n"@ + (
        join_lines(ls.drop_last()) + "\n"@ + ls.last()));
    }
}

proof fn lemma_lines_from_nonempty(s: Seq<char>, cur: Seq<char>)
    requires
        cur.len() + s.len() > 0,
    ensures
        lines_from(s, cur).len() > 0,
    decreases s.len(),
{
    if s.len() > 0 && s[0] != '\n' {
        lemma_lines_from_nonempty(s.drop_first(), cur.push(s[0]));
    }
}

proof fn lemma_lines_from_join(s: Seq<char>, cur: Seq<char>)
    requires
        !has_crlf(cur + s),
        (cur + s).len() == 0 || (cur + s).last() != '\n',
    ensures
        join_lines(lines_from(s, cur)) == cur + s,
    decreases s.len(),
{
    reveal_strlit("\n");
    if s.len() == 0 {
        assert(cur + s =~= cur);
        if cur.len() > 0 {
            assert(join_lines(seq![cur]) == cur);
        }
    } else if s[0] == '\n' {
        let rest = s.drop_first();
        if cur.len() > 0 {
            let i = cur.len() - 1;
            assert((cur + s)[i] == cur.last());
            assert((cur + s)[i + 1] == '\n');
            assert(cur.last() != '\r');
        }
        assert(strip_cr(cur) == cur);
        assert(rest.len() > 0) by {
            if rest.len() == 0 {
                assert((cur + s).last() == '\n');
            }
        }
        assert(!has_crlf(rest)) by {
            if has_crlf(rest) {
                let i = choose|i: int| 0 <= i < rest.len() - 1 && #[trigger] rest[i] == '\r' && rest[i + 1] == '\n';
                assert((cur + s)[cur.len() + 1 + i] == '\r');
                assert((cur + s)[cur.len() + 1 + i + 1] == '\n');
            }
        }
        assert(rest.last() == (cur + s).last());
        assert(Seq::<char>::empty() + rest =~= rest);
        lemma_lines_from_join(rest, Seq::empty());
        lemma_lines_from_nonempty(rest, Seq::empty());
        lemma_join_front(cur, lines_from(rest, Seq::empty()));
        assert(cur + "\n"@ + rest =~= cur + s);
    } else {
        assert(cur.push(s[0]) + s.drop_first() =~= cur + s);
        lemma_lines_from_join(s.drop_first(), cur.push(s[0]));
    }
}

proof fn lemma_lines_from_shift(p: Seq<char>, s: Seq<char>, cur: Seq<char>)
    requires
        !has_char(p, '\n'),
    ensures
        lines_from(p + s, cur) == lines_from(s, cur + p),
    decreases p.len(),
{
    if p.len() == 0 {
        assert(p + s =~= s);
        assert(cur + p =~= cur);
    } else {
        assert((p + s)[0] == p[0]);
        assert((p + s).drop_first() =~= p.drop_first() + s);
        assert(!has_char(p.drop_first(), '\n')) by {
            if has_char(p.drop_first(), '\n') {
                let i = choose|i: int| 0 <= i < p.drop_first().len() && p.drop_first()[i] == '\n';
                assert(p[i + 1] == '\n');
            }
        }
        lemma_lines_from_shift(p.drop_first(), s, cur.push(p[0]));
        assert(cur.push(p[0]) + p.drop_first() =~= cur + p);
    }
}

/// What the legacy format wrote, the header, a line feed and a JSON text,
/// reads back as legacy with that JSON text, provided the text holds no
/// carriage return before a line feed and does not end with a line feed (as
/// the JSON written by `serde_json` does not).
pub proof fn lemma_legacy_roundtrip(json: Seq<char>)
    requires
        !has_crlf(json),
        json.len() == 0 || json.last() != '\n',
    ensures
        ({
            let ls = lines(legacy_header() + "\n"@ + json);
            &&& ls.len() > 0
            &&& ls[0] == legacy_header()
            &&& join_lines(ls.drop_first()) == json
        }),
{
    reveal_strlit("DMaster_v0_1_1");
    reveal_strlit("\n");
    let h = legacy_header();
    let t = seq!['\n'] + json;
    assert(h + "\n"@ + json =~= h + t);
    lemma_lines_from_shift(h, t, Seq::empty());
    assert(Seq::<char>::empty() + h =~= h);
    assert(t[0] == '\n');
    assert(t.drop_first() =~= json);
    assert(strip_cr(h) == h);
    let ls = lines(h + "\n"@ + json);
    assert(ls == seq![h] + lines_from(json, Seq::empty()));
    assert(ls.drop_first() =~= lines_from(json, Seq::empty()));
    assert(Seq::<char>::empty() + json =~= json);
    lemma_lines_from_join(json, Seq::empty());
}

/// The description that a profile imported from the legacy format gets.
pub open spec fn legacy_description() -> Seq<char> {
    "Imported from legacy DMaster profile format"@
}

/// The saved profile that a legacy file gives: named after the file's stem,
/// described as imported, stamped with the import time.
pub fn legacy_monitor_profile(file_stem: String, created_at: String, profile: DisplayProfile) -> (r:
    MonitorProfile)
    ensures
        r.schema_version@ == crate::display_info::current_schema_version(),
        r.name == file_stem,
        r.description matches Some(d) && d@ == legacy_description(),
        r.created_at == created_at,
        r.topology == profile.topology,
        r.displays == profile.displays,
{
    MonitorProfile::new(
        file_stem,
        Some(string_from("Imported from legacy DMaster profile format")),
        created_at,
        profile,
    )
}

/// The creation stamp of a profile saved now, given the seconds since the
/// Unix epoch: in decimal, `0` when the clock is before the epoch (`None`).
pub fn current_timestamp_string(secs_since_epoch: Option<u64>) -> (r: String)
    ensures
        r@ == match secs_since_epoch {
            Some(s) => dec(s as nat),
            None => "0"@,
        },
{
    match secs_since_epoch {
        Some(s) => {
            let mut r = String::new();
            push_u64(&mut r, s);
            r
        },
        None => string_from("0"),
    }
}

// ---------------------------------------------------------------------------
// Listing and finding
// ---------------------------------------------------------------------------

/// `a` comes before `b` in the order of `String`: character by character (which
/// is the byte order of their UTF-8), a proper prefix first.
pub open spec fn lex_lt(a: Seq<char>, b: Seq<char>) -> bool
    decreases a.len(),
{
    if a.len() == 0 {
        b.len() > 0
    } else if b.len() == 0 {
        false
    } else if a[0] < b[0] {
        true
    } else if a[0] > b[0] {
        false
    } else {
        lex_lt(a.drop_first(), b.drop_first())
    }
}

/// The order of names is irreflexive.
pub proof fn lemma_lex_lt_irreflexive(a: Seq<char>)
    ensures
        !lex_lt(a, a),
    decreases a.len(),
{
    if a.len() > 0 {
        lemma_lex_lt_irreflexive(a.drop_first());
    }
}

/// The order of names is transitive.
pub proof fn lemma_lex_lt_transitive(a: Seq<char>, b: Seq<char>, c: Seq<char>)
    requires
        lex_lt(a, b),
        lex_lt(b, c),
    ensures
        lex_lt(a, c),
    decreases a.len(),
{
    if a.len() > 0 && b.len() > 0 && c.len() > 0 {
        if a[0] == b[0] && b[0] == c[0] {
            lemma_lex_lt_transitive(a.drop_first(), b.drop_first(), c.drop_first());
        }
    }
}

/// Whether `a` comes before `b` in the order of names.
pub fn lex_lt_exec(a: &Vec<char>, b: &Vec<char>) -> (r: bool)
    ensures
        r == lex_lt(a@, b@),
{
    let mut i: usize = 0;
    assert(a@.skip(0) =~= a@);
    assert(b@.skip(0) =~= b@);
    while i < a.len() && i < b.len()
        invariant
            i <= a.len(),
            i <= b.len(),
            lex_lt(a@, b@) == lex_lt(a@.skip(i as int), b@.skip(i as int)),
        decreases a.len() - i,
    {
        let ghost sa = a@.skip(i as int);
        let ghost sb = b@.skip(i as int);
        assert(sa[0] == a@[i as int] && sb[0] == b@[i as int]);
        assert(sa.drop_first() =~= a@.skip(i + 1));
        assert(sb.drop_first() =~= b@.skip(i + 1));
        if a[i] < b[i] {
            return true;
        }
        if a[i] > b[i] {
            return false;
        }
        i = i + 1;
    }
    i < b.len()
}

/// `idx` lists each of `0..n` once.
pub open spec fn is_permutation(idx: Seq<int>, n: int) -> bool {
    &&& idx.len() == n
    &&& forall|k: int| 0 <= k < n ==> 0 <= #[trigger] idx[k] < n
    &&& forall|k: int, l: int| 0 <= k < l < n ==> #[trigger] idx[k] != #[trigger] idx[l]
}

/// `r` is `v` ordered by name, equal names keeping their order: `r[k]` is
/// `v[idx[k]]` for a permutation `idx` that sorts the names and is increasing
/// among equal names.
pub open spec fn is_sorted_by_name(r: Seq<ProfileInfo>, v: Seq<ProfileInfo>, idx: Seq<int>) -> bool {
    &&& r.len() == v.len()
    &&& is_permutation(idx, v.len() as int)
    &&& forall|k: int| 0 <= k < r.len() ==> #[trigger] r[k] == v[idx[k]]
    &&& forall|k: int, l: int|
        0 <= k < l < r.len() ==> !lex_lt(#[trigger] r[l].name@, #[trigger] r[k].name@)
    &&& forall|k: int, l: int|
        0 <= k < l < r.len() && #[trigger] r[k].name@ == #[trigger] r[l].name@ ==> idx[k] < idx[l]
}

/// Orders listed profiles by name; profiles of equal names keep their order
/// (a stable sort, as `slice::sort_by`).
pub fn sort_profiles_by_name(v: Vec<ProfileInfo>) -> (r: Vec<ProfileInfo>)
    ensures
        exists|idx: Seq<int>| is_sorted_by_name(r@, v@, idx),
{
    let ghost orig = v@;
    let n = v.len();
    let mut src = v;
    let mut out: Vec<ProfileInfo> = Vec::new();
    let mut keys: Vec<Vec<char>> = Vec::new();
    let ghost mut idx: Seq<int> = Seq::empty();
    let mut i: usize = 0;
    while i < n
        invariant
            n == orig.len(),
            i <= n,
            src@ == orig.skip(i as int),
            out@.len() == i,
            keys@.len() == i,
            idx.len() == i,
            forall|k: int| 0 <= k < i ==> #[trigger] keys@[k]@ == out@[k].name@,
            forall|k: int| 0 <= k < i ==> 0 <= #[trigger] idx[k] < i,
            forall|k: int, l: int| 0 <= k < l < i ==> #[trigger] idx[k] != #[trigger] idx[l],
            forall|k: int| 0 <= k < i ==> #[trigger] out@[k] == orig[idx[k]],
            forall|k: int, l: int|
                0 <= k < l < i ==> !lex_lt(#[trigger] out@[l].name@, #[trigger] out@[k].name@),
            forall|k: int, l: int|
                0 <= k < l < i && #[trigger] out@[k].name@ == #[trigger] out@[l].name@ ==> idx[k]
                    < idx[l],
        decreases n - i,
    {
        assert(src@[0] == orig[i as int]);
        let x = src.remove(0);
        assert(src@ =~= orig.skip(i + 1));
        let key = chars_of(x.name.as_str());
        let mut p: usize = 0;
        while p < out.len() && !lex_lt_exec(&key, &keys[p])
            invariant
                p <= out@.len(),
                out@.len() == keys@.len(),
                forall|k: int| 0 <= k < keys@.len() ==> #[trigger] keys@[k]@ == out@[k].name@,
                forall|k: int| 0 <= k < p ==> !lex_lt(key@, #[trigger] out@[k].name@),
            decreases out@.len() - p,
        {
            p = p + 1;
        }
        let ghost old_out = out@;
        let ghost old_keys = keys@;
        let ghost old_idx = idx;
        proof {
            if p < old_out.len() {
                assert(lex_lt(key@, old_out[p as int].name@));
                assert forall|k: int| p <= k < old_out.len() implies lex_lt(
                    key@,
                    #[trigger] old_out[k].name@,
                ) by {
                    if k > p {
                        if !lex_lt(key@, old_out[k].name@) {
                            if old_out[k].name@ == key@ {
                                assert(!lex_lt(old_out[k].name@, old_out[p as int].name@));
                            } else {
                                assert(!lex_lt(old_out[k].name@, old_out[p as int].name@));
                                lemma_lex_trichotomy(key@, old_out[k].name@);
                                lemma_lex_lt_transitive(
                                    old_out[k].name@,
                                    key@,
                                    old_out[p as int].name@,
                                );
                            }
                        }
                    }
                }
            }
        }
        out.insert(p, x);
        keys.insert(p, key);
        proof {
            idx = old_idx.insert(p as int, i as int);
            assert forall|k: int| 0 <= k < i + 1 implies #[trigger] keys@[k]@ == out@[k].name@ by {
                if k < p {
                } else if k == p {
                } else {
                    assert(keys@[k] == old_keys[k - 1]);
                    assert(out@[k] == old_out[k - 1]);
                }
            }
            assert forall|k: int| 0 <= k < i + 1 implies #[trigger] out@[k] == orig[idx[k]] by {
                if k < p {
                } else if k == p {
                } else {
                    assert(out@[k] == old_out[k - 1]);
                }
            }
            assert forall|k: int| 0 <= k < i + 1 implies 0 <= #[trigger] idx[k] < i + 1 by {
                if k > p {
                    assert(idx[k] == old_idx[k - 1]);
                }
            }
            assert forall|k: int, l: int|
                0 <= k < l < i + 1 implies #[trigger] idx[k] != #[trigger] idx[l] by {
                if k < p && l > p {
                    assert(idx[l] == old_idx[l - 1]);
                } else if k > p {
                    assert(idx[l] == old_idx[l - 1]);
                    assert(idx[k] == old_idx[k - 1]);
                } else if l > p {
                    assert(idx[l] == old_idx[l - 1]);
                }
            }
            assert forall|k: int, l: int|
                0 <= k < l < i + 1 implies !lex_lt(
                #[trigger] out@[l].name@,
                #[trigger] out@[k].name@,
            ) by {
                if l < p {
                } else if l == p {
                } else if k < p {
                    assert(out@[l] == old_out[l - 1]);
                    lemma_lex_lt_irreflexive(key@);
                    if lex_lt(old_out[l - 1].name@, old_out[k].name@) {
                    } else {
                    }
                } else if k == p {
                    assert(out@[l] == old_out[l - 1]);
                    lemma_lex_asymmetric(key@, old_out[l - 1].name@);
                } else {
                    assert(out@[l] == old_out[l - 1]);
                    assert(out@[k] == old_out[k - 1]);
                }
            }
            assert forall|k: int, l: int|
                0 <= k < l < i + 1 && #[trigger] out@[k].name@ == #[trigger] out@[l].name@
                    implies idx[k] < idx[l] by {
                if l < p {
                } else if l == p {
                } else if k < p {
                    assert(out@[l] == old_out[l - 1]);
                    assert(idx[l] == old_idx[l - 1]);
                } else if k == p {
                    assert(out@[l] == old_out[l - 1]);
                    lemma_lex_lt_irreflexive(key@);
                } else {
                    assert(out@[l] == old_out[l - 1]);
                    assert(out@[k] == old_out[k - 1]);
                    assert(idx[l] == old_idx[l - 1]);
                    assert(idx[k] == old_idx[k - 1]);
                }
            }
        }
        i = i + 1;
    }
    assert(is_sorted_by_name(out@, orig, idx));
    out
}

/// Two names are either equal or one comes before the other.
pub proof fn lemma_lex_trichotomy(a: Seq<char>, b: Seq<char>)
    ensures
        a == b || lex_lt(a, b) || lex_lt(b, a),
    decreases a.len(),
{
    if a.len() > 0 && b.len() > 0 && a[0] == b[0] {
        lemma_lex_trichotomy(a.drop_first(), b.drop_first());
        if a.drop_first() == b.drop_first() {
            assert(a =~= seq![a[0]] + a.drop_first());
            assert(b =~= seq![b[0]] + b.drop_first());
        }
    } else if a.len() == 0 && b.len() == 0 {
        assert(a =~= b);
    }
}

/// No two names come before each other.
pub proof fn lemma_lex_asymmetric(a: Seq<char>, b: Seq<char>)
    ensures
        !(lex_lt(a, b) && lex_lt(b, a)),
{
    if lex_lt(a, b) && lex_lt(b, a) {
        lemma_lex_lt_transitive(a, b, a);
        lemma_lex_lt_irreflexive(a);
    }
}

/// The index of the first profile of `v` with this name.
pub open spec fn find_profile(v: Seq<ProfileInfo>, name: Seq<char>) -> Option<int>
    decreases v.len(),
{
    if v.len() == 0 {
        None
    } else if v[0].name@ == name {
        Some(0)
    } else {
        match find_profile(v.drop_first(), name) {
            Some(i) => Some(i + 1),
            None => None,
        }
    }
}

pub open spec fn not_found_message(name: Seq<char>) -> Seq<char> {
    "profile '"@ + name + "' was not found"@
}

/// The first of the listed profiles with this name; not finding one is an error.
pub fn load_profile_by_name(profiles: Vec<ProfileInfo>, name: &str) -> (r: Result<ProfileInfo, String>)
    ensures
        match find_profile(profiles@, name@) {
            Some(i) => r matches Ok(p) && p == profiles@[i],
            None => r matches Err(e) && e@ == not_found_message(name@),
        },
{
    let ghost orig = profiles@;
    let mut src = profiles;
    let mut i: usize = 0;
    let n = src.len();
    assert(orig.skip(0) =~= orig);
    while src.len() > 0
        invariant
            n == orig.len(),
            orig == profiles@,
            i <= n,
            src@ == orig.skip(i as int),
            find_profile(orig, name@) == match find_profile(orig.skip(i as int), name@) {
                Some(j) => Some(j + i),
                None => None,
            },
        decreases src.len(),
    {
        let p = src.remove(0);
        assert(p == orig[i as int]);
        assert(orig.skip(i as int).drop_first() =~= orig.skip(i + 1));
        if chars_eq(&chars_of(p.name.as_str()), &chars_of(name)) {
            assert(orig.skip(i as int)[0] == orig[i as int]);
            assert(find_profile(orig.skip(i as int), name@) == Some(0int));
            return Ok(p);
        }
        i = i + 1;
    }
    let mut e = String::new();
    e.append("profile '");
    e.append(name);
    e.append("' was not found");
    Err(e)
}

} // verus!
