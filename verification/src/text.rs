//! Character-level text handling shared by the parsers and formatters of the
//! library: whitespace, trimming, line and word splitting, decimal numbers.
use vstd::prelude::*;
use vstd::string::StringExecFns;

verus! {

broadcast use vstd::string::group_string_axioms;

// ---------------------------------------------------------------------------
// Specifications
// ---------------------------------------------------------------------------

/// Unicode `White_Space`, the property that `char::is_whitespace` tests.
pub open spec fn is_ws(c: char) -> bool {
    ||| ('\u{9}' <= c && c <= '\u{d}')
    ||| c == ' '
    ||| c == '\u{85}'
    ||| c == '\u{a0}'
    ||| c == '\u{1680}'
    ||| ('\u{2000}' <= c && c <= '\u{200a}')
    ||| c == '\u{2028}'
    ||| c == '\u{2029}'
    ||| c == '\u{202f}'
    ||| c == '\u{205f}'
    ||| c == '\u{3000}'
}

/// An ASCII decimal digit.
pub open spec fn is_digit(c: char) -> bool {
    '0' <= c && c <= '9'
}

pub open spec fn digit_value(c: char) -> int {
    (c as int) - ('0' as int)
}

pub open spec fn digit_char(d: int) -> char {
    if d == 0 {
        '0'
    } else if d == 1 {
        '1'
    } else if d == 2 {
        '2'
    } else if d == 3 {
        '3'
    } else if d == 4 {
        '4'
    } else if d == 5 {
        '5'
    } else if d == 6 {
        '6'
    } else if d == 7 {
        '7'
    } else if d == 8 {
        '8'
    } else {
        '9'
    }
}

/// `s` without its leading whitespace.
pub open spec fn trim_start(s: Seq<char>) -> Seq<char>
    decreases s.len(),
{
    if s.len() > 0 && is_ws(s[0]) {
        trim_start(s.drop_first())
    } else {
        s
    }
}

/// `s` without its trailing whitespace.
pub open spec fn trim_end(s: Seq<char>) -> Seq<char>
    decreases s.len(),
{
    if s.len() > 0 && is_ws(s.last()) {
        trim_end(s.drop_last())
    } else {
        s
    }
}

/// `s` without leading and trailing whitespace (`str::trim`).
pub open spec fn trim(s: Seq<char>) -> Seq<char> {
    trim_end(trim_start(s))
}

/// A line without the carriage return that precedes its line feed.
pub open spec fn strip_cr(line: Seq<char>) -> Seq<char> {
    if line.len() > 0 && line.last() == '\r' {
        line.drop_last()
    } else {
        line
    }
}

/// The lines of `s` after the partial line `cur`: lines end at `\n` (a `\r`
/// right before it is dropped), and an empty piece after the last `\n` is no line.
pub open spec fn lines_from(s: Seq<char>, cur: Seq<char>) -> Seq<Seq<char>>
    decreases s.len(),
{
    if s.len() == 0 {
        if cur.len() > 0 {
            seq![cur]
        } else {
            Seq::empty()
        }
    } else if s[0] == '\n' {
        seq![strip_cr(cur)] + lines_from(s.drop_first(), Seq::empty())
    } else {
        lines_from(s.drop_first(), cur.push(s[0]))
    }
}

/// The lines of `s`, as `str::lines` yields them.
pub open spec fn lines(s: Seq<char>) -> Seq<Seq<char>> {
    lines_from(s, Seq::empty())
}

/// The whitespace-separated words of `s` after the partial word `cur`.
pub open spec fn words_from(s: Seq<char>, cur: Seq<char>) -> Seq<Seq<char>>
    decreases s.len(),
{
    if s.len() == 0 {
        if cur.len() > 0 {
            seq![cur]
        } else {
            Seq::empty()
        }
    } else if is_ws(s[0]) {
        (if cur.len() > 0 {
            seq![cur]
        } else {
            Seq::empty()
        }) + words_from(s.drop_first(), Seq::empty())
    } else {
        words_from(s.drop_first(), cur.push(s[0]))
    }
}

/// The words of `s`, as `str::split_whitespace` yields them.
pub open spec fn words(s: Seq<char>) -> Seq<Seq<char>> {
    words_from(s, Seq::empty())
}

/// The character sequences that a sequence of character vectors holds.
pub open spec fn views(v: Seq<Vec<char>>) -> Seq<Seq<char>> {
    v.map_values(|l: Vec<char>| l@)
}

/// The character sequences that a sequence of strings holds.
pub open spec fn string_views(v: Seq<String>) -> Seq<Seq<char>> {
    v.map_values(|s: String| s@)
}

/// The part of `s` before its first `c` (all of `s` when it has none): the
/// first piece that `str::split` yields.
pub open spec fn before_char(s: Seq<char>, c: char) -> Seq<char> {
    match first_index_of(s, c) {
        Some(k) => s.take(k),
        None => s,
    }
}

/// `pat` occurs in `s` starting at index `i`.
pub open spec fn occurs_at(s: Seq<char>, pat: Seq<char>, i: int) -> bool {
    0 <= i && i + pat.len() <= s.len() && s.subrange(i, i + pat.len()) == pat
}

/// `pat` occurs somewhere in `s` (`str::contains`).
pub open spec fn contains(s: Seq<char>, pat: Seq<char>) -> bool {
    exists|i: int| occurs_at(s, pat, i)
}

/// `s` begins with `pat` (`str::starts_with`).
pub open spec fn starts_with(s: Seq<char>, pat: Seq<char>) -> bool {
    pat.len() <= s.len() && s.take(pat.len() as int) == pat
}

/// `c` occurs in `s`.
pub open spec fn has_char(s: Seq<char>, c: char) -> bool {
    exists|i: int| 0 <= i < s.len() && s[i] == c
}

/// The index of the first `c` in `s`, if any.
pub open spec fn first_index_of(s: Seq<char>, c: char) -> Option<int>
    decreases s.len(),
{
    if s.len() == 0 {
        None
    } else if s[0] == c {
        Some(0)
    } else {
        match first_index_of(s.drop_first(), c) {
            Some(i) => Some(i + 1),
            None => None,
        }
    }
}

/// `str::split_once` with a one-character separator.
pub open spec fn split_once(s: Seq<char>, c: char) -> Option<(Seq<char>, Seq<char>)> {
    match first_index_of(s, c) {
        Some(i) => Some((s.take(i), s.skip(i + 1))),
        None => None,
    }
}

/// The decimal digits of `n`, without leading zeros.
pub open spec fn dec(n: nat) -> Seq<char>
    decreases n,
{
    if n < 10 {
        seq![digit_char(n as int)]
    } else {
        dec(n / 10).push(digit_char((n % 10) as int))
    }
}

/// `n` in decimal, with a leading `-` when negative (`Display` of an integer).
pub open spec fn dec_int(n: int) -> Seq<char> {
    if n < 0 {
        seq!['-'] + dec((-n) as nat)
    } else {
        dec(n as nat)
    }
}

/// `s` padded on the left with zeros to at least `width` characters.
pub open spec fn zero_pad(s: Seq<char>, width: nat) -> Seq<char> {
    if s.len() < width {
        Seq::new((width - s.len()) as nat, |i: int| '0') + s
    } else {
        s
    }
}

/// Why a text is not an integer of the requested type (`std::num::IntErrorKind`).
#[derive(Clone, Copy, Debug, PartialEq, Eq, Structural)]
pub enum IntErrorKind {
    Empty,
    InvalidDigit,
    PosOverflow,
    NegOverflow,
}

/// What std's `Display` of a `ParseIntError` of that kind writes.
pub open spec fn int_error_message(k: IntErrorKind) -> Seq<char> {
    match k {
        IntErrorKind::Empty => "cannot parse integer from empty string"@,
        IntErrorKind::InvalidDigit => "invalid digit found in string"@,
        IntErrorKind::PosOverflow => "number too large to fit in target type"@,
        IntErrorKind::NegOverflow => "number too small to fit in target type"@,
    }
}

/// Reads the digits of `s` after the value `acc` read so far, left to right,
/// stopping at the first character that is no digit or that takes the value
/// out of `lo..=hi`.
pub open spec fn scan_digits(s: Seq<char>, acc: int, neg: bool, lo: int, hi: int) -> Result<
    int,
    IntErrorKind,
>
    decreases s.len(),
{
    if s.len() == 0 {
        Ok(acc)
    } else if !is_digit(s[0]) {
        Err(IntErrorKind::InvalidDigit)
    } else {
        let next = if neg {
            acc * 10 - digit_value(s[0])
        } else {
            acc * 10 + digit_value(s[0])
        };
        if next > hi {
            Err(IntErrorKind::PosOverflow)
        } else if next < lo {
            Err(IntErrorKind::NegOverflow)
        } else {
            scan_digits(s.drop_first(), next, neg, lo, hi)
        }
    }
}

/// `str::parse` into an integer type whose values are `lo..=hi`: an optional
/// `+` (or `-` where the type has negative values) and then decimal digits.
pub open spec fn parse_int(s: Seq<char>, lo: int, hi: int) -> Result<int, IntErrorKind> {
    if s.len() == 0 {
        Err(IntErrorKind::Empty)
    } else if (s[0] == '+' || s[0] == '-') && s.len() == 1 {
        Err(IntErrorKind::InvalidDigit)
    } else if s[0] == '+' {
        scan_digits(s.drop_first(), 0, false, lo, hi)
    } else if s[0] == '-' && lo < 0 {
        scan_digits(s.drop_first(), 0, true, lo, hi)
    } else {
        scan_digits(s, 0, false, lo, hi)
    }
}

pub open spec fn parse_u32(s: Seq<char>) -> Result<int, IntErrorKind> {
    parse_int(s, 0, u32::MAX as int)
}

pub open spec fn parse_i32(s: Seq<char>) -> Result<int, IntErrorKind> {
    parse_int(s, i32::MIN as int, i32::MAX as int)
}

pub open spec fn parse_u64(s: Seq<char>) -> Result<int, IntErrorKind> {
    parse_int(s, 0, u64::MAX as int)
}

pub open spec fn parse_usize(s: Seq<char>) -> Result<int, IntErrorKind> {
    parse_int(s, 0, usize::MAX as int)
}

// ---------------------------------------------------------------------------
// Lemmas
// ---------------------------------------------------------------------------

proof fn lemma_scan_bounds(s: Seq<char>, acc: int, neg: bool, lo: int, hi: int)
    requires
        lo <= acc <= hi,
    ensures
        scan_digits(s, acc, neg, lo, hi) matches Ok(v) ==> lo <= v <= hi,
    decreases s.len(),
{
    if s.len() > 0 && is_digit(s[0]) {
        let next = if neg {
            acc * 10 - digit_value(s[0])
        } else {
            acc * 10 + digit_value(s[0])
        };
        if lo <= next <= hi {
            lemma_scan_bounds(s.drop_first(), next, neg, lo, hi);
        }
    }
}

/// The value that `parse_int` accepts lies in `lo..=hi`.
pub proof fn lemma_parse_int_bounds(s: Seq<char>, lo: int, hi: int)
    requires
        lo <= 0 <= hi,
    ensures
        parse_int(s, lo, hi) matches Ok(v) ==> lo <= v <= hi,
{
    if s.len() > 0 {
        if s[0] == '+' {
            lemma_scan_bounds(s.drop_first(), 0, false, lo, hi);
        } else if s[0] == '-' && lo < 0 {
            lemma_scan_bounds(s.drop_first(), 0, true, lo, hi);
        } else {
            lemma_scan_bounds(s, 0, false, lo, hi);
        }
    }
}

proof fn lemma_first_index_of(s: Seq<char>, c: char, k: int)
    requires
        0 <= k <= s.len(),
        forall|j: int| 0 <= j < k ==> s[j] != c,
    ensures
        k < s.len() && s[k] == c ==> first_index_of(s, c) == Some(k),
        k == s.len() ==> first_index_of(s, c) is None,
    decreases k,
{
    if k > 0 {
        lemma_first_index_of(s.drop_first(), c, k - 1);
    }
}

proof fn lemma_digit_char(d: int)
    requires
        0 <= d < 10,
    ensures
        is_digit(digit_char(d)),
        digit_value(digit_char(d)) == d,
{
}

/// The decimal digits of a number are a nonempty run of digits.
pub proof fn lemma_dec_digits(n: nat)
    ensures
        dec(n).len() > 0,
        forall|i: int| 0 <= i < dec(n).len() ==> is_digit(#[trigger] dec(n)[i]),
    decreases n,
{
    if n < 10 {
        lemma_digit_char(n as int);
    } else {
        lemma_dec_digits(n / 10);
        lemma_digit_char((n % 10) as int);
        let s = dec(n / 10);
        assert forall|i: int| 0 <= i < dec(n).len() implies is_digit(#[trigger] dec(n)[i]) by {
            if i < s.len() {
                assert(dec(n)[i] == s[i]);
            }
        }
    }
}

/// Reading digits across a concatenation reads the first part, then the second.
proof fn lemma_scan_append(s: Seq<char>, t: Seq<char>, acc: int, neg: bool, lo: int, hi: int)
    ensures
        scan_digits(s + t, acc, neg, lo, hi) == match scan_digits(s, acc, neg, lo, hi) {
            Ok(v) => scan_digits(t, v, neg, lo, hi),
            Err(e) => Err(e),
        },
    decreases s.len(),
{
    if s.len() == 0 {
        assert(s + t =~= t);
    } else {
        assert((s + t)[0] == s[0]);
        assert((s + t).drop_first() =~= s.drop_first() + t);
        if is_digit(s[0]) {
            let next = if neg {
                acc * 10 - digit_value(s[0])
            } else {
                acc * 10 + digit_value(s[0])
            };
            lemma_scan_append(s.drop_first(), t, next, neg, lo, hi);
        }
    }
}

/// Reading the decimal digits of `n` gives `n` (or `-n` when reading a
/// negative number) where that value fits.
proof fn lemma_scan_dec(n: nat, neg: bool, lo: int, hi: int)
    requires
        lo <= 0 <= hi,
        neg ==> lo <= -n,
        !neg ==> n <= hi,
    ensures
        scan_digits(dec(n), 0, neg, lo, hi) == Ok::<int, IntErrorKind>(
            if neg {
                -n
            } else {
                n as int
            },
        ),
    decreases n,
{
    let target: int = if neg {
        -n
    } else {
        n as int
    };
    if n < 10 {
        lemma_digit_char(n as int);
        assert(dec(n).drop_first() =~= Seq::<char>::empty());
        assert(scan_digits(Seq::<char>::empty(), target, neg, lo, hi) == Ok::<int, IntErrorKind>(
            target,
        ));
    } else {
        let q = n / 10;
        let c = digit_char((n % 10) as int);
        lemma_digit_char((n % 10) as int);
        lemma_scan_dec(q, neg, lo, hi);
        assert(dec(n) =~= dec(q) + seq![c]);
        lemma_scan_append(dec(q), seq![c], 0, neg, lo, hi);
        assert(seq![c].drop_first() =~= Seq::<char>::empty());
        assert(n == q * 10 + (n % 10));
        assert(scan_digits(Seq::<char>::empty(), target, neg, lo, hi) == Ok::<int, IntErrorKind>(
            target,
        ));
        let v: int = if neg {
            -q
        } else {
            q as int
        };
        assert(scan_digits(seq![c], v, neg, lo, hi) == scan_digits(
            Seq::<char>::empty(),
            target,
            neg,
            lo,
            hi,
        ));
    }
}

/// Parsing the decimal text of a value of the type gives it back.
pub proof fn lemma_parse_dec_int(x: int, lo: int, hi: int)
    requires
        lo <= 0 <= hi,
        lo <= x <= hi,
    ensures
        parse_int(dec_int(x), lo, hi) == Ok::<int, IntErrorKind>(x),
{
    if x < 0 {
        let m = (-x) as nat;
        lemma_dec_digits(m);
        lemma_scan_dec(m, true, lo, hi);
        let s = dec_int(x);
        assert(s =~= seq!['-'] + dec(m));
        assert(s.drop_first() =~= dec(m));
    } else {
        lemma_dec_digits(x as nat);
        lemma_scan_dec(x as nat, false, lo, hi);
    }
}

/// The first `c` of `s + t`, where `s` holds none, is the first `c` of `t`.
pub proof fn lemma_first_index_concat(s: Seq<char>, t: Seq<char>, c: char)
    requires
        !has_char(s, c),
    ensures
        first_index_of(s + t, c) == match first_index_of(t, c) {
            Some(k) => Some(k + s.len()),
            None => None,
        },
    decreases s.len(),
{
    if s.len() == 0 {
        assert(s + t =~= t);
    } else {
        assert((s + t)[0] == s[0]);
        assert((s + t).drop_first() =~= s.drop_first() + t);
        assert(!has_char(s.drop_first(), c)) by {
            if has_char(s.drop_first(), c) {
                let i = choose|i: int| 0 <= i < s.drop_first().len() && s.drop_first()[i] == c;
                assert(s[i + 1] == c);
            }
        }
        lemma_first_index_concat(s.drop_first(), t, c);
    }
}

// ---------------------------------------------------------------------------
// Executable helpers
// ---------------------------------------------------------------------------

/// The characters of `s`, in order.
pub fn chars_of(s: &str) -> (v: Vec<char>)
    ensures
        v@ == s@,
{
    let mut v: Vec<char> = Vec::new();
    let mut it = s.chars();
    loop
        invariant
            v@ + vstd::std_specs::iter::IteratorSpec::remaining(&it) == s@,
            vstd::std_specs::iter::IteratorSpec::decrease(&it) is Some,
        decreases vstd::std_specs::iter::IteratorSpec::decrease(&it)->0,
    {
        match it.next() {
            Some(c) => {
                v.push(c);
            },
            None => {
                return v;
            },
        }
    }
}

/// Appends one character to a string. Trusted: `String::push`, which the
/// standard library documents as appending the given char to the end of the
/// string; the contract claims exactly that of the string's characters.
#[verifier::external_body]
pub fn push_char(s: &mut String, c: char)
    ensures
        final(s)@ == old(s)@.push(c),
{
    s.push(c);
}

/// Appends the characters of `v` to `s`.
pub fn push_chars(s: &mut String, v: &Vec<char>)
    ensures
        final(s)@ == old(s)@ + v@,
{
    let mut i: usize = 0;
    while i < v.len()
        invariant
            i <= v.len(),
            s@ == old(s)@ + v@.take(i as int),
        decreases v.len() - i,
    {
        push_char(s, v[i]);
        i = i + 1;
        assert(v@.take(i as int) == v@.take(i - 1).push(v@[i - 1]));
    }
    assert(v@.take(v.len() as int) == v@);
}

/// The string made of the characters of `v`.
pub fn string_of(v: &Vec<char>) -> (s: String)
    ensures
        s@ == v@,
{
    let mut s = String::new();
    push_chars(&mut s, v);
    s
}

/// A string with the same characters as `s`.
pub fn string_from(s: &str) -> (r: String)
    ensures
        r@ == s@,
{
    let mut r = String::new();
    r.append(s);
    r
}

/// Copies `v[from..to]`.
pub fn sub_vec(v: &Vec<char>, from: usize, to: usize) -> (r: Vec<char>)
    requires
        from <= to <= v.len(),
    ensures
        r@ == v@.subrange(from as int, to as int),
{
    let mut r: Vec<char> = Vec::new();
    let mut i = from;
    while i < to
        invariant
            from <= i <= to <= v.len(),
            r@ == v@.subrange(from as int, i as int),
        decreases to - i,
    {
        r.push(v[i]);
        i = i + 1;
    }
    r
}

/// Whether two character sequences are equal.
pub fn chars_eq(a: &Vec<char>, b: &Vec<char>) -> (r: bool)
    ensures
        r == (a@ == b@),
{
    if a.len() != b.len() {
        return false;
    }
    let mut i: usize = 0;
    while i < a.len()
        invariant
            a.len() == b.len(),
            i <= a.len(),
            forall|j: int| 0 <= j < i ==> a@[j] == b@[j],
        decreases a.len() - i,
    {
        if a[i] != b[i] {
            return false;
        }
        i = i + 1;
    }
    assert(a@ =~= b@);
    true
}

/// Whether `c` is whitespace (`char::is_whitespace`).
pub fn char_is_ws(c: char) -> (r: bool)
    ensures
        r == is_ws(c),
{
    ('\u{9}' <= c && c <= '\u{d}') || c == ' ' || c == '\u{85}' || c == '\u{a0}' || c
        == '\u{1680}' || ('\u{2000}' <= c && c <= '\u{200a}') || c == '\u{2028}' || c
        == '\u{2029}' || c == '\u{202f}' || c == '\u{205f}' || c == '\u{3000}'
}

proof fn lemma_trim_start_skip(s: Seq<char>, k: int)
    requires
        0 <= k <= s.len(),
        forall|j: int| 0 <= j < k ==> is_ws(s[j]),
    ensures
        trim_start(s) == trim_start(s.skip(k)),
    decreases k,
{
    if k > 0 {
        assert(s.skip(k) == s.drop_first().skip(k - 1));
        lemma_trim_start_skip(s.drop_first(), k - 1);
    } else {
        assert(s.skip(0) == s);
    }
}

proof fn lemma_trim_end_take(s: Seq<char>, k: int)
    requires
        0 <= k <= s.len(),
        forall|j: int| k <= j < s.len() ==> is_ws(s[j]),
    ensures
        trim_end(s) == trim_end(s.take(k)),
    decreases s.len() - k,
{
    if k < s.len() {
        assert(s.drop_last().take(k) == s.take(k));
        lemma_trim_end_take(s.drop_last(), k);
    } else {
        assert(s.take(k) == s);
    }
}

/// The bounds `(a, b)` of `trim(v)` inside `v`.
pub fn trim_bounds(v: &Vec<char>) -> (r: (usize, usize))
    ensures
        r.0 <= r.1 <= v.len(),
        v@.subrange(r.0 as int, r.1 as int) == trim(v@),
{
    let mut a: usize = 0;
    while a < v.len() && char_is_ws(v[a])
        invariant
            a <= v.len(),
            forall|j: int| 0 <= j < a ==> is_ws(v@[j]),
        decreases v.len() - a,
    {
        a = a + 1;
    }
    proof {
        lemma_trim_start_skip(v@, a as int);
    }
    let ghost t = v@.skip(a as int);
    assert(trim_start(t) == t);
    let mut b: usize = v.len();
    while b > a && char_is_ws(v[b - 1])
        invariant
            a <= b <= v.len(),
            forall|j: int| b <= j < v.len() ==> is_ws(v@[j]),
        decreases b,
    {
        b = b - 1;
    }
    proof {
        assert forall|j: int| b - a <= j < t.len() implies is_ws(t[j]) by {
            assert(t[j] == v@[j + a]);
        }
        lemma_trim_end_take(t, b - a);
        assert(t.take(b - a) == v@.subrange(a as int, b as int));
        let u = v@.subrange(a as int, b as int);
        if u.len() > 0 {
            assert(u.last() == v@[b - 1]);
        }
    }
    (a, b)
}

/// `v` without leading and trailing whitespace.
pub fn trimmed_chars(v: &Vec<char>) -> (r: Vec<char>)
    ensures
        r@ == trim(v@),
{
    let (a, b) = trim_bounds(v);
    sub_vec(v, a, b)
}

/// Whether `pat` occurs in `v` at index `i`.
pub fn occurs_at_exec(v: &Vec<char>, pat: &Vec<char>, i: usize) -> (r: bool)
    ensures
        r == occurs_at(v@, pat@, i as int),
{
    if i > v.len() || pat.len() > v.len() - i {
        return false;
    }
    let mut k: usize = 0;
    while k < pat.len()
        invariant
            i + pat.len() <= v.len(),
            k <= pat.len(),
            forall|j: int| 0 <= j < k ==> v@[i + j] == pat@[j],
        decreases pat.len() - k,
    {
        if v[i + k] != pat[k] {
            assert(v@.subrange(i as int, i + pat.len())[k as int] != pat@[k as int]);
            return false;
        }
        k = k + 1;
    }
    assert(v@.subrange(i as int, i + pat.len()) =~= pat@);
    true
}

/// Whether `pat` occurs in `v`.
pub fn contains_exec(v: &Vec<char>, pat: &Vec<char>) -> (r: bool)
    ensures
        r == contains(v@, pat@),
{
    if pat.len() > v.len() {
        return false;
    }
    let last = v.len() - pat.len();
    let mut i: usize = 0;
    loop
        invariant
            pat.len() <= v.len(),
            last == v.len() - pat.len(),
            i <= last,
            forall|j: int| 0 <= j < i ==> !occurs_at(v@, pat@, j),
        ensures
            forall|j: int| 0 <= j <= last ==> !occurs_at(v@, pat@, j),
        decreases last - i,
    {
        if occurs_at_exec(v, pat, i) {
            return true;
        }
        if i == last {
            break;
        }
        i = i + 1;
    }
    assert forall|j: int| !occurs_at(v@, pat@, j) by {
        if 0 <= j && j + pat@.len() <= v@.len() {
            assert(j <= last);
        }
    }
    false
}

/// Whether `v` begins with `pat`.
pub fn starts_with_exec(v: &Vec<char>, pat: &Vec<char>) -> (r: bool)
    ensures
        r == starts_with(v@, pat@),
{
    let r = occurs_at_exec(v, pat, 0);
    assert(v@.subrange(0, pat@.len() as int) == v@.take(pat@.len() as int));
    r
}

/// Whether `c` occurs in `v`.
pub fn has_char_exec(v: &Vec<char>, c: char) -> (r: bool)
    ensures
        r == has_char(v@, c),
{
    match first_index_exec(v, c) {
        Some(_) => true,
        None => false,
    }
}

/// The index of the first `c` in `v`.
pub fn first_index_exec(v: &Vec<char>, c: char) -> (r: Option<usize>)
    ensures
        r matches Some(i) ==> first_index_of(v@, c) == Some(i as int) && i < v.len() && v@[i as int]
            == c,
        r is None ==> first_index_of(v@, c) is None && !has_char(v@, c),
{
    let mut i: usize = 0;
    while i < v.len()
        invariant
            i <= v.len(),
            forall|j: int| 0 <= j < i ==> v@[j] != c,
        decreases v.len() - i,
    {
        if v[i] == c {
            proof {
                lemma_first_index_of(v@, c, i as int);
            }
            return Some(i);
        }
        i = i + 1;
    }
    proof {
        lemma_first_index_of(v@, c, i as int);
    }
    None
}

/// `split_once` on a one-character separator.
pub fn split_once_exec(v: &Vec<char>, c: char) -> (r: Option<(Vec<char>, Vec<char>)>)
    ensures
        match (r, split_once(v@, c)) {
            (Some((a, b)), Some((sa, sb))) => a@ == sa && b@ == sb,
            (None, None) => true,
            _ => false,
        },
{
    match first_index_exec(v, c) {
        Some(i) => {
            let a = sub_vec(v, 0, i);
            let b = sub_vec(v, i + 1, v.len());
            assert(a@ == v@.take(i as int));
            assert(b@ == v@.skip(i + 1));
            Some((a, b))
        },
        None => None,
    }
}

/// Splits `v` into its lines.
pub fn split_lines(v: &Vec<char>) -> (r: Vec<Vec<char>>)
    ensures
        views(r@) == lines(v@),
{
    let mut out: Vec<Vec<char>> = Vec::new();
    let mut cur: Vec<char> = Vec::new();
    let mut i: usize = 0;
    assert(views(out@) =~= Seq::<Seq<char>>::empty());
    assert(v@.skip(0) =~= v@);
    while i < v.len()
        invariant
            i <= v.len(),
            views(out@) + lines_from(v@.skip(i as int), cur@) == lines(v@),
        decreases v.len() - i,
    {
        let ghost rest = v@.skip(i as int);
        assert(rest.drop_first() == v@.skip(i + 1));
        let ghost before = views(out@);
        let ghost old_cur = cur@;
        if v[i] == '\n' {
            let mut line = cur;
            if line.len() > 0 && line[line.len() - 1] == '\r' {
                line.pop();
            }
            assert(line@ == strip_cr(old_cur));
            out.push(line);
            assert(views(out@) =~= before.push(strip_cr(old_cur)));
            cur = Vec::new();
            assert(before.push(strip_cr(old_cur)) + lines_from(rest.drop_first(), Seq::empty())
                == before + (seq![strip_cr(old_cur)] + lines_from(rest.drop_first(), Seq::empty())));
        } else {
            cur.push(v[i]);
        }
        i = i + 1;
    }
    assert(v@.skip(i as int).len() == 0);
    if cur.len() > 0 {
        let ghost before = views(out@);
        let ghost c = cur@;
        out.push(cur);
        assert(views(out@) =~= before.push(c));
        assert(before + seq![c] == before.push(c));
    } else {
        assert(views(out@) + Seq::<Seq<char>>::empty() == views(out@));
    }
    out
}

/// Splits `v` into its whitespace-separated words.
pub fn split_words(v: &Vec<char>) -> (r: Vec<Vec<char>>)
    ensures
        views(r@) == words(v@),
{
    let mut out: Vec<Vec<char>> = Vec::new();
    let mut cur: Vec<char> = Vec::new();
    let mut i: usize = 0;
    assert(views(out@) =~= Seq::<Seq<char>>::empty());
    assert(v@.skip(0) =~= v@);
    while i < v.len()
        invariant
            i <= v.len(),
            views(out@) + words_from(v@.skip(i as int), cur@) == words(v@),
        decreases v.len() - i,
    {
        let ghost rest = v@.skip(i as int);
        assert(rest.drop_first() == v@.skip(i + 1));
        let ghost before = views(out@);
        let ghost old_cur = cur@;
        if char_is_ws(v[i]) {
            if cur.len() > 0 {
                out.push(cur);
                assert(views(out@) =~= before.push(old_cur));
                assert(before.push(old_cur) + words_from(rest.drop_first(), Seq::empty()) == before
                    + (seq![old_cur] + words_from(rest.drop_first(), Seq::empty())));
            } else {
                assert(Seq::<Seq<char>>::empty() + words_from(rest.drop_first(), Seq::empty())
                    == words_from(rest.drop_first(), Seq::empty()));
            }
            cur = Vec::new();
        } else {
            cur.push(v[i]);
        }
        i = i + 1;
    }
    assert(v@.skip(i as int).len() == 0);
    if cur.len() > 0 {
        let ghost before = views(out@);
        let ghost c = cur@;
        out.push(cur);
        assert(views(out@) =~= before.push(c));
        assert(before + seq![c] == before.push(c));
    } else {
        assert(views(out@) + Seq::<Seq<char>>::empty() == views(out@));
    }
    out
}

/// The character of the decimal digit `d`.
pub fn digit_to_char(d: u64) -> (c: char)
    requires
        d < 10,
    ensures
        c == digit_char(d as int),
        is_digit(c),
        digit_value(c) == d,
{
    if d == 0 {
        '0'
    } else if d == 1 {
        '1'
    } else if d == 2 {
        '2'
    } else if d == 3 {
        '3'
    } else if d == 4 {
        '4'
    } else if d == 5 {
        '5'
    } else if d == 6 {
        '6'
    } else if d == 7 {
        '7'
    } else if d == 8 {
        '8'
    } else {
        '9'
    }
}

/// The decimal digits of `n`.
pub fn dec_chars(n: u64) -> (r: Vec<char>)
    ensures
        r@ == dec(n as nat),
{
    let mut m = n;
    let mut acc: Vec<char> = Vec::new();
    loop
        invariant
            dec(n as nat) == dec(m as nat) + acc@,
        decreases m,
    {
        if m < 10 {
            let c = digit_to_char(m);
            let ghost old_acc = acc@;
            acc.insert(0, c);
            assert(acc@ == seq![c] + old_acc);
            return acc;
        }
        let c = digit_to_char(m % 10);
        let ghost old_acc = acc@;
        acc.insert(0, c);
        assert(acc@ == seq![c] + old_acc);
        assert(dec(m as nat) == dec((m / 10) as nat).push(c));
        assert(dec((m / 10) as nat).push(c) + old_acc == dec((m / 10) as nat) + (seq![c] + old_acc));
        m = m / 10;
    }
}

/// Appends `n` in decimal to `s`.
pub fn push_u64(s: &mut String, n: u64)
    ensures
        final(s)@ == old(s)@ + dec(n as nat),
{
    let d = dec_chars(n);
    push_chars(s, &d);
}

/// Appends `n` in decimal, with `-` when negative, to `s`.
pub fn push_i64(s: &mut String, n: i64)
    requires
        n > i64::MIN,
    ensures
        final(s)@ == old(s)@ + dec_int(n as int),
{
    if n < 0 {
        push_char(s, '-');
        let d = dec_chars((-n) as u64);
        push_chars(s, &d);
        assert(old(s)@.push('-') + dec((-n) as nat) == old(s)@ + (seq!['-'] + dec((-n) as nat)));
    } else {
        let d = dec_chars(n as u64);
        push_chars(s, &d);
    }
}

/// `n` in decimal.
pub fn u64_to_string(n: u64) -> (s: String)
    ensures
        s@ == dec(n as nat),
{
    let mut s = String::new();
    push_u64(&mut s, n);
    s
}

/// `n` in decimal, with `-` when negative.
pub fn i64_to_string(n: i64) -> (s: String)
    requires
        n > i64::MIN,
    ensures
        s@ == dec_int(n as int),
{
    let mut s = String::new();
    push_i64(&mut s, n);
    s
}

/// Reads the digits of `v[i..]` after `acc`, as `scan_digits` does.
fn scan_digits_exec(v: &Vec<char>, start: usize, neg: bool, lo: i128, hi: i128) -> (r: Result<
    i128,
    IntErrorKind,
>)
    requires
        start <= v.len(),
        lo <= 0 <= hi,
        -0x1_0000_0000_0000_0000 <= lo,
        hi <= 0x1_0000_0000_0000_0000,
    ensures
        match (r, scan_digits(v@.skip(start as int), 0, neg, lo as int, hi as int)) {
            (Ok(a), Ok(b)) => a == b,
            (Err(a), Err(b)) => a == b,
            _ => false,
        },
{
    let mut acc: i128 = 0;
    let mut i = start;
    while i < v.len()
        invariant
            start <= i <= v.len(),
            lo <= acc <= hi,
            lo <= 0 <= hi,
            -0x1_0000_0000_0000_0000 <= lo,
            hi <= 0x1_0000_0000_0000_0000,
            scan_digits(v@.skip(start as int), 0, neg, lo as int, hi as int) == scan_digits(
                v@.skip(i as int),
                acc as int,
                neg,
                lo as int,
                hi as int,
            ),
        decreases v.len() - i,
    {
        let c = v[i];
        let ghost rest = v@.skip(i as int);
        assert(rest[0] == c);
        assert(rest.drop_first() == v@.skip(i + 1));
        if !('0' <= c && c <= '9') {
            return Err(IntErrorKind::InvalidDigit);
        }
        let d: i128 = (c as u32 - '0' as u32) as i128;
        assert(d == digit_value(c));
        let next: i128 = if neg {
            acc * 10 - d
        } else {
            acc * 10 + d
        };
        if next > hi {
            return Err(IntErrorKind::PosOverflow);
        }
        if next < lo {
            return Err(IntErrorKind::NegOverflow);
        }
        acc = next;
        i = i + 1;
    }
    assert(v@.skip(i as int).len() == 0);
    Ok(acc)
}

/// Parses `v` as an integer of the type whose values are `lo..=hi`.
pub fn parse_int_exec(v: &Vec<char>, lo: i128, hi: i128) -> (r: Result<i128, IntErrorKind>)
    requires
        lo <= 0 <= hi,
        -0x1_0000_0000_0000_0000 <= lo,
        hi <= 0x1_0000_0000_0000_0000,
    ensures
        match (r, parse_int(v@, lo as int, hi as int)) {
            (Ok(a), Ok(b)) => a == b,
            (Err(a), Err(b)) => a == b,
            _ => false,
        },
{
    if v.len() == 0 {
        return Err(IntErrorKind::Empty);
    }
    let first = v[0];
    if (first == '+' || first == '-') && v.len() == 1 {
        return Err(IntErrorKind::InvalidDigit);
    }
    assert(v@.skip(0) == v@);
    assert(v@.skip(1) == v@.drop_first());
    if first == '+' {
        scan_digits_exec(v, 1, false, lo, hi)
    } else if first == '-' && lo < 0 {
        scan_digits_exec(v, 1, true, lo, hi)
    } else {
        scan_digits_exec(v, 0, false, lo, hi)
    }
}

/// `str::parse::<u32>` on the characters `v`.
pub fn parse_u32_exec(v: &Vec<char>) -> (r: Result<u32, IntErrorKind>)
    ensures
        match (r, parse_u32(v@)) {
            (Ok(a), Ok(b)) => a == b,
            (Err(a), Err(b)) => a == b,
            _ => false,
        },
{
    proof {
        lemma_parse_int_bounds(v@, 0, u32::MAX as int);
    }
    match parse_int_exec(v, 0, u32::MAX as i128) {
        Ok(x) => Ok(x as u32),
        Err(e) => Err(e),
    }
}

/// `str::parse::<i32>` on the characters `v`.
pub fn parse_i32_exec(v: &Vec<char>) -> (r: Result<i32, IntErrorKind>)
    ensures
        match (r, parse_i32(v@)) {
            (Ok(a), Ok(b)) => a == b,
            (Err(a), Err(b)) => a == b,
            _ => false,
        },
{
    proof {
        lemma_parse_int_bounds(v@, i32::MIN as int, i32::MAX as int);
    }
    match parse_int_exec(v, i32::MIN as i128, i32::MAX as i128) {
        Ok(x) => Ok(x as i32),
        Err(e) => Err(e),
    }
}

/// `str::parse::<u64>` on the characters `v`.
pub fn parse_u64_exec(v: &Vec<char>) -> (r: Result<u64, IntErrorKind>)
    ensures
        match (r, parse_u64(v@)) {
            (Ok(a), Ok(b)) => a == b,
            (Err(a), Err(b)) => a == b,
            _ => false,
        },
{
    proof {
        lemma_parse_int_bounds(v@, 0, u64::MAX as int);
    }
    match parse_int_exec(v, 0, u64::MAX as i128) {
        Ok(x) => Ok(x as u64),
        Err(e) => Err(e),
    }
}

/// `str::parse::<usize>` on the characters `v`.
pub fn parse_usize_exec(v: &Vec<char>) -> (r: Result<usize, IntErrorKind>)
    ensures
        match (r, parse_usize(v@)) {
            (Ok(a), Ok(b)) => a == b,
            (Err(a), Err(b)) => a == b,
            _ => false,
        },
{
    proof {
        lemma_parse_int_bounds(v@, 0, usize::MAX as int);
    }
    match parse_int_exec(v, 0, usize::MAX as i128) {
        Ok(x) => Ok(x as usize),
        Err(e) => Err(e),
    }
}

/// Appends what std's `Display` of a `ParseIntError` of kind `k` writes.
pub fn push_int_error(s: &mut String, k: IntErrorKind)
    ensures
        final(s)@ == old(s)@ + int_error_message(k),
{
    match k {
        IntErrorKind::Empty => s.append("cannot parse integer from empty string"),
        IntErrorKind::InvalidDigit => s.append("invalid digit found in string"),
        IntErrorKind::PosOverflow => s.append("number too large to fit in target type"),
        IntErrorKind::NegOverflow => s.append("number too small to fit in target type"),
    }
}

} // verus!
