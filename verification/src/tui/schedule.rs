//! The Schedule tab: prime times per account, edited as a 24-hour grid.

use vstd::prelude::*;

use crate::list;
use crate::namemap::NameMap;
use crate::text::{
    chars_of, decimal, digit, join, join2, joined, lex_at, lex_lt, pad, padded, show2, two_digits,
};
use crate::tui::accounts::{clamp_to, clamped};
use crate::tui::ctx::AppCtx;
use crate::tui::key::{down, is_down, is_up, next_in, prev_in, up, KeyCode, KeyEvent};
use crate::tui::line::{
    bare, blank, line1, line2, line4, no_lines, put_line, put_span, raw, sp, span, styled, Line,
    SpanV,
};
use crate::tui::snapshot::{alias_list, primed_in, FireTime, Snapshot};
use crate::tui::theme;
use crate::tui::view::{hint_texts, Action, TabView};
use crate::tui::widgets::{
    duration_label, duration_text, seconds_of, until_label, until_text, whole_seconds,
};

verus! {

/// Daily prime times per account, by name.
pub type Times = NameMap<Vec<String>>;

/// The texts of a times map.
pub open spec fn times_view(m: Map<Seq<char>, Vec<String>>) -> Map<Seq<char>, Seq<Seq<char>>> {
    m.map_values(|v: Vec<String>| v.deep_view())
}

/// The account list, the grid cursor while editing, and the edited schedule once
/// an edit has been made.
#[derive(Debug)]
pub struct ScheduleView {
    pub cursor: usize,
    /// The grid's cursor hour while the grid is open.
    pub grid: Option<u8>,
    pub working: Option<Times>,
}

/// Whether a character is a decimal digit.
pub open spec fn is_digit(c: char) -> bool {
    '0' <= c && c <= '9'
}

/// The number that a string of digits spells.
pub open spec fn number(s: Seq<char>) -> nat
    decreases s.len(),
{
    if s.len() == 0 {
        0
    } else {
        (number(s.drop_last()) * 10 + (s.last() as int - '0' as int)) as nat
    }
}

/// Whether a text consists of digits.
pub open spec fn all_digits(s: Seq<char>) -> bool {
    forall|i: int| 0 <= i < s.len() ==> is_digit(#[trigger] s[i])
}

/// A text without its leading plus sign.
pub open spec fn unsigned(s: Seq<char>) -> Seq<char> {
    if s.len() > 0 && s[0] == '+' {
        s.skip(1)
    } else {
        s
    }
}

/// An unsigned byte in decimal, with an optional plus sign.
pub open spec fn byte_of(s: Seq<char>) -> Option<u8> {
    let d = unsigned(s);
    if d.len() > 0 && all_digits(d) && number(d) <= 255 {
        Some(number(d) as u8)
    } else {
        None
    }
}

/// Position of the first colon at or after `i`.
pub open spec fn colon_from(s: Seq<char>, i: int) -> Option<int>
    decreases s.len() - i,
{
    if i < 0 || i >= s.len() {
        None
    } else if s[i] == ':' {
        Some(i)
    } else {
        colon_from(s, i + 1)
    }
}

/// The hour of a time: what stands before its first colon.
pub open spec fn hour_of(t: Seq<char>) -> Option<u8> {
    match colon_from(t, 0) {
        Some(k) => byte_of(t.take(k)),
        None => None,
    }
}

/// Whether some time of the list falls in hour `h` of the day. A day has the hours 0 to
/// 23: a time beyond them falls in none.
pub open spec fn has_hour(times: Seq<Seq<char>>, h: int) -> bool {
    &&& 0 <= h < 24
    &&& exists|i: int|
        0 <= i < times.len() && (hour_of(#[trigger] times[i]) matches Some(x) && x == h)
}

/// The hours below `n` that occur in the list, ascending.
pub open spec fn hours_below(times: Seq<Seq<char>>, n: int) -> Seq<u8>
    decreases n,
{
    if n <= 0 {
        Seq::empty()
    } else if has_hour(times, n - 1) {
        hours_below(times, n - 1).push((n - 1) as u8)
    } else {
        hours_below(times, n - 1)
    }
}

/// The hours of the day that occur in the list, ascending.
pub open spec fn hours_in(times: Seq<Seq<char>>) -> Seq<u8> {
    hours_below(times, 24)
}

/// Hours of the day, each once, ascending.
pub open spec fn is_day(hours: Seq<u8>) -> bool {
    &&& forall|i: int| 0 <= i < hours.len() ==> #[trigger] hours[i] < 24
    &&& forall|i: int, j: int| 0 <= i < j < hours.len() ==> hours[i] < hours[j]
}

/// The full hour `h` as a time.
pub open spec fn full_hour(h: u8) -> Seq<char> {
    two_digits(h as nat) + ":00"@
}

/// Full-hour times, one per hour.
pub open spec fn full_hours(hours: Seq<u8>) -> Seq<Seq<char>> {
    hours.map_values(|h: u8| full_hour(h))
}

/// The hours below `n` after toggling `h`, ascending.
pub open spec fn toggled_below(times: Seq<Seq<char>>, h: u8, n: int) -> Seq<u8>
    decreases n,
{
    if n <= 0 {
        Seq::empty()
    } else if has_hour(times, n - 1) != (n - 1 == h) {
        toggled_below(times, h, n - 1).push((n - 1) as u8)
    } else {
        toggled_below(times, h, n - 1)
    }
}

/// The times after toggling hour `h`: full hours, ascending.
pub open spec fn toggled(times: Seq<Seq<char>>, h: u8) -> Seq<Seq<char>> {
    full_hours(toggled_below(times, h, 256))
}

/// The hours read from a list are hours of the day, each once, ascending.
pub proof fn hours_are_of_the_day(times: Seq<Seq<char>>)
    ensures
        is_day(hours_in(times)),
{
    lemma_hours_below(times, 24);
}

proof fn lemma_hours_below(times: Seq<Seq<char>>, n: int)
    requires
        0 <= n <= 24,
    ensures
        is_day(hours_below(times, n)),
        forall|i: int|
            0 <= i < hours_below(times, n).len() ==> #[trigger] hours_below(times, n)[i] < n,
    decreases n,
{
    if n > 0 {
        lemma_hours_below(times, n - 1);
    }
}

/// Reading back what was written gives the same hours: there is one "HH:00" for each,
/// and these ascend as text too.
pub proof fn written_hours_read_back(hours: Seq<u8>)
    requires
        is_day(hours),
    ensures
        hours_in(full_hours(hours)) == hours,
        full_hours(hours).len() == hours.len(),
        forall|i: int|
            0 <= i < hours.len() ==> #[trigger] full_hours(hours)[i] == seq![
                digit((hours[i] / 10) as nat),
                digit((hours[i] % 10) as nat),
                ':',
                '0',
                '0',
            ],
        forall|i: int, j: int|
            0 <= i < j < hours.len() ==> lex_lt(
                #[trigger] full_hours(hours)[i],
                #[trigger] full_hours(hours)[j],
            ),
{
    let ts = full_hours(hours);
    lemma_read_back(hours, 24, hours.len() as int);
    assert(hours.take(hours.len() as int) =~= hours);
    assert forall|i: int| 0 <= i < hours.len() implies #[trigger] ts[i] == seq![
        digit((hours[i] / 10) as nat),
        digit((hours[i] % 10) as nat),
        ':',
        '0',
        '0',
    ] by {
        lemma_full_hour(hours[i]);
    }
    assert forall|i: int, j: int| 0 <= i < j < hours.len() implies lex_lt(
        #[trigger] ts[i],
        #[trigger] ts[j],
    ) by {
        lemma_full_hour(hours[i]);
        lemma_full_hour(hours[j]);
        if hours[i] / 10 < hours[j] / 10 {
            assert(lex_at(ts[i], ts[j], 0));
        } else {
            assert(lex_at(ts[i], ts[j], 1));
        }
    }
}

/// The hours read from a list are those of its times, as far as they are of the day.
pub proof fn hours_are_those_of_the_times(times: Seq<Seq<char>>)
    ensures
        forall|x: u8| #[trigger]
            hours_in(times).contains(x) <==> x < 24 && exists|i: int|
                0 <= i < times.len() && hour_of(#[trigger] times[i]) == Some(x),
        forall|x: u8| #[trigger]
            hours_in(times).contains(x) <==> has_hour(times, x as int),
{
    assert forall|x: u8| #[trigger] hours_in(times).contains(x) <==> has_hour(times, x as int) by {
        lemma_hours_below_contains(times, 24, x);
    }
    assert forall|x: u8| has_hour(times, x as int) <==> x < 24 && exists|i: int|
        0 <= i < times.len() && hour_of(#[trigger] times[i]) == Some(x) by {
        if has_hour(times, x as int) {
            let i = choose|i: int|
                0 <= i < times.len() && (hour_of(#[trigger] times[i]) matches Some(y) && y == x);
            assert(hour_of(times[i]) == Some(x));
        }
    }
}

proof fn lemma_hours_below_contains(times: Seq<Seq<char>>, n: int, x: u8)
    requires
        0 <= n <= 24,
    ensures
        hours_below(times, n).contains(x) <==> x < n && has_hour(times, x as int),
    decreases n,
{
    if n > 0 {
        lemma_hours_below_contains(times, n - 1, x);
        list::lemma_push_contains(hours_below(times, n - 1), (n - 1) as u8);
    }
}

/// A time of day is read by the two digits before its colon, whatever follows.
pub proof fn clock_times_are_read_by_their_hour(a: char, b: char, rest: Seq<char>)
    requires
        '0' <= a <= '9',
        '0' <= b <= '9',
    ensures
        hour_of(seq![a, b, ':'] + rest) == Some(
            (10 * (a as int - '0' as int) + (b as int - '0' as int)) as u8,
        ),
{
    let t = seq![a, b, ':'] + rest;
    reveal_with_fuel(colon_from, 3);
    assert(t[0] == a && t[1] == b && t[2] == ':');
    assert(colon_from(t, 0) == Some(2int));
    let d = t.take(2);
    assert(d =~= seq![a, b]);
    assert(d.drop_last() =~= seq![a]);
    assert(d.drop_last().drop_last() =~= Seq::<char>::empty());
    reveal_with_fuel(number, 3);
}

/// A text without a colon is no time.
pub proof fn a_time_has_a_colon(t: Seq<char>)
    requires
        forall|i: int| 0 <= i < t.len() ==> #[trigger] t[i] != ':',
    ensures
        hour_of(t) is None,
{
    lemma_no_colon(t, 0);
}

proof fn lemma_no_colon(t: Seq<char>, i: int)
    requires
        0 <= i,
        forall|i: int| 0 <= i < t.len() ==> #[trigger] t[i] != ':',
    ensures
        colon_from(t, i) is None,
    decreases t.len() - i,
{
    if i < t.len() {
        lemma_no_colon(t, i + 1);
    }
}

/// Toggling an hour of the day turns it over and leaves every other hour as it was; the
/// times are then full hours, ascending. Toggling it again gives back the same hours.
pub proof fn toggling_turns_one_hour_over(times: Seq<Seq<char>>, h: u8)
    requires
        h < 24,
    ensures
        forall|x: u8| #[trigger]
            hours_in(toggled(times, h)).contains(x) <==> if x == h {
                !hours_in(times).contains(x)
            } else {
                hours_in(times).contains(x)
            },
        toggled(times, h) == full_hours(hours_in(toggled(times, h))),
        hours_in(toggled(toggled(times, h), h)) == hours_in(times),
{
    lemma_toggled_hours(times, h);
    lemma_toggled_hours(toggled(times, h), h);
    hours_are_of_the_day(times);
    let twice = hours_in(toggled(toggled(times, h), h));
    hours_are_of_the_day(toggled(toggled(times, h), h));
    assert forall|x: u8| twice.contains(x) <==> hours_in(times).contains(x) by {
        assert(twice.contains(x) <==> if x == h {
            !hours_in(toggled(times, h)).contains(x)
        } else {
            hours_in(toggled(times, h)).contains(x)
        });
    }
    lemma_days_with_the_same_hours(twice, hours_in(times));
}

proof fn lemma_toggled_hours(times: Seq<Seq<char>>, h: u8)
    requires
        h < 24,
    ensures
        hours_in(toggled(times, h)) == toggled_below(times, h, 256),
        forall|x: u8| #[trigger]
            hours_in(toggled(times, h)).contains(x) <==> if x == h {
                !hours_in(times).contains(x)
            } else {
                hours_in(times).contains(x)
            },
{
    let hs = toggled_below(times, h, 256);
    lemma_toggled_is_day(times, h, 256);
    written_hours_read_back(hs);
    hours_are_those_of_the_times(times);
    assert forall|x: u8| #[trigger] hs.contains(x) <==> if x == h {
        !hours_in(times).contains(x)
    } else {
        hours_in(times).contains(x)
    } by {
        lemma_toggled_contains(times, h, 256, x);
    }
}

proof fn lemma_toggled_is_day(times: Seq<Seq<char>>, h: u8, n: int)
    requires
        h < 24,
        0 <= n <= 256,
    ensures
        is_day(toggled_below(times, h, n)),
        forall|i: int|
            0 <= i < toggled_below(times, h, n).len() ==> #[trigger] toggled_below(times, h, n)[i]
                < n,
    decreases n,
{
    if n > 0 {
        lemma_toggled_is_day(times, h, n - 1);
    }
}

proof fn lemma_toggled_contains(times: Seq<Seq<char>>, h: u8, n: int, x: u8)
    requires
        h < 24,
        0 <= n <= 256,
    ensures
        toggled_below(times, h, n).contains(x) <==> x < n && has_hour(times, x as int) != (x == h),
    decreases n,
{
    if n > 0 {
        lemma_toggled_contains(times, h, n - 1, x);
        list::lemma_push_contains(toggled_below(times, h, n - 1), (n - 1) as u8);
    }
}

/// Two lists of hours of the day with the same hours are the same.
proof fn lemma_days_with_the_same_hours(a: Seq<u8>, b: Seq<u8>)
    requires
        is_day(a),
        is_day(b),
        forall|x: u8| a.contains(x) <==> b.contains(x),
    ensures
        a == b,
    decreases a.len(),
{
    if a.len() == 0 {
        if b.len() > 0 {
            assert(b.contains(b[0]));
        }
        assert(a =~= b);
    } else {
        assert(a.contains(a.last()));
        assert(b.contains(a.last()));
        assert(b.contains(b.last()));
        assert(a.contains(b.last()));
        let i = choose|i: int| 0 <= i < b.len() && b[i] == a.last();
        let j = choose|j: int| 0 <= j < a.len() && a[j] == b.last();
        assert(a.last() == b.last());
        let (s, t) = (a.drop_last(), b.drop_last());
        assert forall|x: u8| s.contains(x) <==> t.contains(x) by {
            assert(a =~= s.push(a.last()));
            assert(b =~= t.push(b.last()));
            list::lemma_push_contains(s, a.last());
            list::lemma_push_contains(t, b.last());
            assert(a.contains(x) <==> b.contains(x));
            assert(!s.contains(a.last()));
            assert(!t.contains(b.last()));
        }
        lemma_days_with_the_same_hours(s, t);
        assert(a =~= s.push(a.last()));
        assert(b =~= t.push(b.last()));
    }
}

/// The full hour is two digits and ":00", and its hour is the one it was made from.
proof fn lemma_full_hour(h: u8)
    requires
        h < 24,
    ensures
        full_hour(h) == seq![digit((h / 10) as nat), digit((h % 10) as nat), ':', '0', '0'],
        hour_of(full_hour(h)) == Some(h),
{
    let t = full_hour(h);
    let a = digit((h / 10) as nat);
    let b = digit((h % 10) as nat);
    reveal_strlit(":00");
    reveal_with_fuel(decimal, 2);
    assert(t =~= seq![a, b, ':', '0', '0']);
    reveal_with_fuel(colon_from, 3);
    assert(colon_from(t, 0) == Some(2int));
    let d = t.take(2);
    assert(d =~= seq![a, b]);
    assert(d.drop_last() =~= seq![a]);
    assert(d.drop_last().drop_last() =~= Seq::<char>::empty());
    reveal_with_fuel(number, 3);
    assert(number(d) == h);
}

/// Below `n`, the hours read back are those written, of which `k` are below `n`.
proof fn lemma_read_back(hours: Seq<u8>, n: int, k: int)
    requires
        is_day(hours),
        0 <= n <= 24,
        0 <= k <= hours.len(),
        forall|i: int| 0 <= i < k ==> #[trigger] hours[i] < n,
        forall|i: int| k <= i < hours.len() ==> #[trigger] hours[i] >= n,
    ensures
        hours_below(full_hours(hours), n) == hours.take(k),
    decreases n,
{
    let ts = full_hours(hours);
    if n > 0 {
        assert forall|i: int| 0 <= i < ts.len() implies hour_of(#[trigger] ts[i]) == Some(
            hours[i],
        ) by {
            lemma_full_hour(hours[i]);
        }
        if k > 0 && hours[k - 1] == n - 1 {
            lemma_read_back(hours, n - 1, k - 1);
            assert(hour_of(ts[k - 1]) == Some(hours[k - 1]));
            assert(has_hour(ts, n - 1));
            assert(hours.take(k) =~= hours.take(k - 1).push((n - 1) as u8));
        } else {
            lemma_read_back(hours, n - 1, k);
            assert(!has_hour(ts, n - 1));
        }
    } else {
        assert(hours.take(k) =~= Seq::<u8>::empty());
    }
}

fn parse_byte(s: &Vec<char>, upto: usize) -> (r: Option<u8>)
    requires
        upto <= s.len(),
    ensures
        r == byte_of(s@.take(upto as int)),
{
    let ghost head = s@.take(upto as int);
    let from: usize = if upto > 0 && s[0] == '+' {
        1
    } else {
        0
    };
    let ghost d = unsigned(head);
    assert(d =~= s@.subrange(from as int, upto as int));
    if from == upto {
        return None;
    }
    let mut n: u32 = 0;
    let mut i: usize = from;
    while i < upto
        invariant
            from <= i <= upto <= s.len(),
            d == unsigned(s@.take(upto as int)),
            d == s@.subrange(from as int, upto as int),
            forall|j: int| 0 <= j < i - from ==> is_digit(#[trigger] d[j]),
            n == number(d.take(i - from)) || (n == 256 && number(d.take(i - from)) > 255),
            n <= 256,
        decreases upto - i,
    {
        let c = s[i];
        if !('0' <= c && c <= '9') {
            assert(!is_digit(d[i - from]));
            return None;
        }
        proof {
            let t = d.take(i - from + 1);
            assert(t.drop_last() =~= d.take(i - from));
            assert(t.last() == c);
        }
        let v: u32 = digit_value(c);
        let m: u32 = n * 10 + v;
        n = if m > 255 {
            256
        } else {
            m
        };
        i += 1;
    }
    assert(d.take(upto - from) =~= d);
    if n > 255 {
        None
    } else {
        Some(n as u8)
    }
}

fn digit_value(c: char) -> (r: u32)
    requires
        is_digit(c),
    ensures
        r == c as int - '0' as int,
        r <= 9,
{
    match c {
        '0' => 0,
        '1' => 1,
        '2' => 2,
        '3' => 3,
        '4' => 4,
        '5' => 5,
        '6' => 6,
        '7' => 7,
        '8' => 8,
        _ => 9,
    }
}

/// The hour of a time, if it has one.
pub fn parse_hour(t: &str) -> (r: Option<u8>)
    ensures
        r == hour_of(t@),
{
    let cs = chars_of(t);
    let mut i: usize = 0;
    while i < cs.len()
        invariant
            cs@ == t@,
            i <= cs.len(),
            colon_from(t@, 0) == colon_from(t@, i as int),
        decreases cs.len() - i,
    {
        if cs[i] == ':' {
            return parse_byte(&cs, i);
        }
        i += 1;
    }
    None
}

fn scheduled_at(times: &Vec<String>, h: u16) -> (r: bool)
    ensures
        r == has_hour(times.deep_view(), h as int),
{
    if h >= 24 {
        return false;
    }
    let mut i: usize = 0;
    while i < times.len()
        invariant
            i <= times.len(),
            h < 24,
            forall|j: int|
                0 <= j < i ==> !(hour_of(#[trigger] times.deep_view()[j]) matches Some(x) && x
                    == h),
        decreases times.len() - i,
    {
        assert(times.deep_view()[i as int] == times[i as int]@);
        if let Some(x) = parse_hour(times[i].as_str()) {
            if x as u16 == h {
                return true;
            }
        }
        i += 1;
    }
    false
}

/// Hours of the day that have at least one scheduled time, ascending.
pub fn hours_of(times: &Vec<String>) -> (r: Vec<u8>)
    ensures
        r@ == hours_in(times.deep_view()),
{
    let mut out: Vec<u8> = Vec::new();
    let mut h: u16 = 0;
    while h < 24
        invariant
            h <= 24,
            out@ == hours_below(times.deep_view(), h as int),
        decreases 24 - h,
    {
        if scheduled_at(times, h) {
            out.push(h as u8);
        }
        h += 1;
    }
    out
}

/// "HH:00" for each hour.
pub fn times_of(hours: &Vec<u8>) -> (r: Vec<String>)
    ensures
        r.deep_view() == full_hours(hours@),
{
    let mut out: Vec<String> = Vec::new();
    let mut i: usize = 0;
    while i < hours.len()
        invariant
            i <= hours.len(),
            out@.len() == i,
            forall|j: int| 0 <= j < i ==> (#[trigger] out[j])@ == full_hour(hours[j]),
        decreases hours.len() - i,
    {
        out.push(join2(show2(hours[i] as u64).as_str(), ":00"));
        i += 1;
    }
    assert(out.deep_view() =~= full_hours(hours@));
    out
}

fn toggled_times(times: &Vec<String>, h: u8) -> (r: Vec<String>)
    ensures
        r.deep_view() == toggled(times.deep_view(), h),
{
    let mut out: Vec<u8> = Vec::new();
    let mut k: u16 = 0;
    while k < 256
        invariant
            k <= 256,
            out@ == toggled_below(times.deep_view(), h, k as int),
        decreases 256 - k,
    {
        if scheduled_at(times, k) != (k == h as u16) {
            out.push(k as u8);
        }
        k += 1;
    }
    times_of(&out)
}

/// The schedule of the listed accounts, without those that have no times.
pub open spec fn seeded(
    aliases: Seq<Seq<char>>,
    schedule: Map<Seq<char>, Seq<Seq<char>>>,
) -> Map<Seq<char>, Seq<Seq<char>>> {
    Map::new(
        |k: Seq<char>| aliases.contains(k) && schedule.contains_key(k) && schedule[k].len() > 0,
        |k: Seq<char>| schedule[k],
    )
}

/// The entries of a schedule that have times.
pub open spec fn nonempty(m: Map<Seq<char>, Seq<Seq<char>>>) -> Map<Seq<char>, Seq<Seq<char>>> {
    Map::new(|k: Seq<char>| m.contains_key(k) && m[k].len() > 0, |k: Seq<char>| m[k])
}

fn seed_from(snap: &Snapshot) -> (r: Times)
    ensures
        times_view(r@) == seeded(alias_list(snap.accounts@), times_view(snap.schedule@)),
{
    let mut m: Times = NameMap::new();
    let ghost names = alias_list(snap.accounts@);
    let ghost sched = times_view(snap.schedule@);
    let mut i: usize = 0;
    assert(times_view(m@) =~= seeded(names.take(0), sched));
    while i < snap.accounts.len()
        invariant
            i <= snap.accounts.len(),
            names == alias_list(snap.accounts@),
            sched == times_view(snap.schedule@),
            times_view(m@) == seeded(names.take(i as int), sched),
        decreases snap.accounts.len() - i,
    {
        let alias = snap.accounts[i].alias.as_str();
        let ghost before = times_view(m@);
        proof {
            assert(names.take(i + 1) =~= names.take(i as int).push(names[i as int]));
            list::lemma_push_contains(names.take(i as int), names[i as int]);
            assert(names[i as int] == alias@);
        }
        match snap.schedule_times(alias) {
            Some(times) => {
                assert(sched[alias@] == times.deep_view());
                if times.len() > 0 {
                    let copy = list::copy(times);
                    let ghost inner = m@;
                    m.insert(alias.to_owned(), copy);
                    assert(times_view(m@) =~= before.insert(alias@, copy.deep_view()));
                }
            },
            None => {},
        }
        assert(times_view(m@) =~= seeded(names.take(i + 1), sched));
        i += 1;
    }
    assert(names.take(i as int) =~= names);
    m
}

fn nonempty_copy(w: &Times) -> (r: Times)
    ensures
        times_view(r@) == nonempty(times_view(w@)),
{
    let mut m: Times = NameMap::new();
    let n: usize = w.len();
    let ghost names = w.names();
    let ghost all = times_view(w@);
    let mut i: usize = 0;
    assert(times_view(m@) =~= seeded(names.take(0), all));
    while i < n
        invariant
            i <= n,
            n == names.len(),
            names == w.names(),
            all == times_view(w@),
            list::lists(names, w@.dom()),
            times_view(m@) == seeded(names.take(i as int), all),
        decreases n - i,
    {
        let k = w.key_at(i);
        let v = w.value_at(i);
        let ghost before = times_view(m@);
        proof {
            assert(names.take(i + 1) =~= names.take(i as int).push(names[i as int]));
            list::lemma_push_contains(names.take(i as int), names[i as int]);
            assert(all[k@] == v.deep_view());
        }
        if v.len() > 0 {
            let copy = list::copy(v);
            m.insert(k.clone(), copy);
            assert(times_view(m@) =~= before.insert(k@, copy.deep_view()));
        }
        assert(times_view(m@) =~= seeded(names.take(i + 1), all));
        i += 1;
    }
    assert(names.take(i as int) =~= names);
    assert(times_view(m@) =~= nonempty(all));
    m
}

/// The edited schedule, or what it starts from.
pub open spec fn base_of(v: ScheduleView, snap: Snapshot) -> Map<Seq<char>, Seq<Seq<char>>> {
    match v.working {
        Some(w) => times_view(w@),
        None => seeded(alias_list(snap.accounts@), times_view(snap.schedule@)),
    }
}

/// The times shown for an account: once editing has begun the edited copy alone
/// counts, so that hours toggled off do not come back from the snapshot.
pub open spec fn shown_times(v: ScheduleView, alias: Seq<char>, snap: Snapshot) -> Seq<Seq<char>> {
    let m = match v.working {
        Some(w) => times_view(w@),
        None => times_view(snap.schedule@),
    };
    if m.contains_key(alias) {
        m[alias]
    } else {
        Seq::empty()
    }
}

/// A schedule with hour `h` of `alias` toggled; an account without times is dropped.
pub open spec fn with_times(
    m: Map<Seq<char>, Seq<Seq<char>>>,
    alias: Seq<char>,
    times: Seq<Seq<char>>,
) -> Map<Seq<char>, Seq<Seq<char>>> {
    if times.len() == 0 {
        m.remove(alias)
    } else {
        m.insert(alias, times)
    }
}

/// Hours toggled off stay off: an account whose last hour goes is unscheduled.
pub proof fn last_hour_off_unschedules(
    m: Map<Seq<char>, Seq<Seq<char>>>,
    alias: Seq<char>,
    times: Seq<Seq<char>>,
    h: u8,
)
    requires
        h < 24,
        forall|i: int| 0 <= i < times.len() ==> hour_of(#[trigger] times[i]) == Some(h),
        times.len() > 0,
    ensures
        !with_times(m, alias, toggled(times, h)).contains_key(alias),
{
    lemma_nothing_toggled(times, h, 256);
}

proof fn lemma_nothing_toggled(times: Seq<Seq<char>>, h: u8, n: int)
    requires
        h < 24,
        forall|i: int| 0 <= i < times.len() ==> hour_of(#[trigger] times[i]) == Some(h),
        times.len() > 0,
    ensures
        toggled_below(times, h, n) == Seq::<u8>::empty(),
    decreases n,
{
    if n > 0 {
        lemma_nothing_toggled(times, h, n - 1);
        assert(hour_of(times[0]) == Some(h));
        assert(has_hour(times, h as int));
    }
}

/// The hour that `move_grid` gives: the key moves within the day, wrapping.
pub open spec fn moved_hour(code: KeyCode, h: u8) -> int {
    if code == KeyCode::Left || code == KeyCode::Char('h') {
        (h + 23) % 24
    } else if code == KeyCode::Right || code == KeyCode::Char('l') {
        (h + 1) % 24
    } else {
        (h + 12) % 24
    }
}

/// The keys that move the grid cursor.
pub open spec fn moves_grid(code: KeyCode) -> bool {
    code == KeyCode::Left || code == KeyCode::Char('h') || code == KeyCode::Right || code
        == KeyCode::Char('l') || code == KeyCode::Up || code == KeyCode::Down || code
        == KeyCode::Char('j') || code == KeyCode::Char('k')
}

/// One row of the grid: twelve hours, the scheduled ones in accent, the cursor on
/// a selection background.
pub open spec fn grid_cell(times: Seq<Seq<char>>, cursor: Option<u8>, h: int) -> SpanV {
    let base = if has_hour(times, h) {
        theme::accent()
    } else {
        theme::faint()
    };
    sp(
        two_digits(h as nat) + " "@,
        if cursor matches Some(c) && c == h {
            base.patch(theme::selection())
        } else {
            base
        },
    )
}

/// A row of the grid, from hour `from`.
pub open spec fn grid_row(times: Seq<Seq<char>>, cursor: Option<u8>, from: int) -> Seq<SpanV> {
    seq![bare("  "@)] + Seq::new(12, |i: int| grid_cell(times, cursor, from + i))
}

/// The grid of an account.
pub open spec fn grid_block(alias: Seq<char>, times: Seq<Seq<char>>, cursor: Option<u8>) -> Seq<
    Seq<SpanV>,
> {
    let hint = if cursor is Some {
        "(←→ hour · ↑↓ row · space toggle · esc back)"@
    } else {
        "(⏎ edit hours)"@
    };
    seq![
        seq![sp(alias + " — prime hours   "@, theme::text()), sp(hint, theme::faint())],
        Seq::empty(),
        grid_row(times, cursor, 0),
        grid_row(times, cursor, 12),
    ]
}

fn grid_row_line(times: &Vec<String>, cursor: Option<u8>, from: u16) -> (r: Line)
    requires
        from <= 12,
    ensures
        r@ == grid_row(times.deep_view(), cursor, from as int),
{
    let ghost ts = times.deep_view();
    let mut l = line1(raw("  "));
    let ghost head = seq![bare("  "@)];
    let mut col: u16 = 0;
    while col < 12
        invariant
            col <= 12,
            from <= 12,
            ts == times.deep_view(),
            head == seq![bare("  "@)],
            l@ =~= head + Seq::new(col as nat, |i: int| grid_cell(ts, cursor, from + i)),
        decreases 12 - col,
    {
        let h: u16 = from + col;
        let base = if scheduled_at(times, h) {
            theme::accent()
        } else {
            theme::faint()
        };
        let here = match cursor {
            Some(c) => c as u16 == h,
            None => false,
        };
        let st = if here {
            base.patch(theme::selection())
        } else {
            base
        };
        put_span(&mut l, span(join2(show2(h as u64).as_str(), " "), st));
        col += 1;
    }
    l
}

/// The 24-hour toggle grid of an account.
pub fn grid_lines(alias: &str, times: &Vec<String>, cursor: Option<u8>) -> (r: Vec<Line>)
    ensures
        r.deep_view() == grid_block(alias@, times.deep_view(), cursor),
{
    let hint = if cursor.is_some() {
        "(←→ hour · ↑↓ row · space toggle · esc back)"
    } else {
        "(⏎ edit hours)"
    };
    let mut out = no_lines();
    put_line(
        &mut out,
        line2(
            span(join2(alias, " — prime hours   "), theme::text()),
            styled(hint, theme::faint()),
        ),
    );
    put_line(&mut out, blank());
    put_line(&mut out, grid_row_line(times, cursor, 0));
    put_line(&mut out, grid_row_line(times, cursor, 12));
    assert(out.deep_view() =~= grid_block(alias@, times.deep_view(), cursor));
    out
}

/// The line above the list: help, or a warning when the crontab has drifted.
pub open spec fn help_line(drift: bool) -> Seq<SpanV> {
    if drift {
        seq![
            sp("⚠ crontab is out of sync with the saved schedule — "@, theme::alert()),
            sp("press "@, theme::dim()),
            sp("w"@, theme::accent()),
            sp(" to re-install into cron."@, theme::dim()),
        ]
    } else {
        seq![
            sp(
                "Scheduled times auto-prime each account to keep its 5h window warm."@,
                theme::dim(),
            ),
        ]
    }
}

/// The row of an account.
pub open spec fn schedule_row(
    alias: Seq<char>,
    times: Seq<Seq<char>>,
    fire: Option<FireTime>,
    now_ms: i64,
) -> Seq<SpanV> {
    let marker = if times.len() > 0 {
        sp("✓ "@, theme::accent())
    } else {
        sp("  "@, theme::dim())
    };
    let listed = if times.len() > 0 {
        joined(times, " "@)
    } else {
        "—"@
    };
    let next = match fire {
        Some(f) => sp("in "@ + until_text(f.unix as int, now_ms as int), theme::dim()),
        None => sp("—"@, theme::faint()),
    };
    seq![marker, sp(padded(alias, 12) + padded(listed, 22), theme::text()), next]
}

fn schedule_row_line(alias: &str, times: &Vec<String>, fire: Option<FireTime>, now_ms: i64) -> (r:
    Line)
    ensures
        r@ == schedule_row(alias@, times.deep_view(), fire, now_ms),
{
    assert(times.deep_view().len() == times.len());
    let marker = if times.len() > 0 {
        styled("✓ ", theme::accent())
    } else {
        styled("  ", theme::dim())
    };
    let listed = if times.len() > 0 {
        join(times, " ")
    } else {
        crate::text::owned("—")
    };
    let next = match fire {
        Some(f) => span(join2("in ", until_label(f.unix, now_ms).as_str()), theme::dim()),
        None => styled("—", theme::faint()),
    };
    let mid = join2(pad(alias, 12).as_str(), pad(listed.as_str(), 22).as_str());
    crate::tui::line::line3(marker, span(mid, theme::text()), next)
}

/// When an account was last primed, in words.
pub open spec fn primed_block(last: Option<i64>, now_ms: i64) -> Seq<Seq<SpanV>> {
    match last {
        Some(lp) => {
            let ago = match duration_text((whole_seconds(now_ms as int) - lp) * 1000) {
                Some(s) => s,
                None => "just now"@,
            };
            seq![
                Seq::empty(),
                seq![sp("  last primed  "@, theme::dim()), sp(ago + " ago"@, theme::text())],
            ]
        },
        None => Seq::empty(),
    }
}

/// Everything the Schedule tab draws.
#[derive(Debug)]
pub struct SchedulePage {
    pub help: Line,
    pub header: Line,
    pub rows: Vec<Line>,
    pub selected: Option<usize>,
    pub detail: Vec<Line>,
}

impl ScheduleView {
    /// The tab as it opens: nothing edited.
    pub fn new() -> (r: ScheduleView)
        ensures
            r.cursor == 0,
            r.grid is None,
            r.working is None,
    {
        ScheduleView { cursor: 0, grid: None, working: None }
    }

    /// The times shown for `alias`.
    pub fn times_for(&self, alias: &str, snap: &Snapshot) -> (r: Vec<String>)
        ensures
            r.deep_view() == shown_times(*self, alias@, *snap),
    {
        let found = match &self.working {
            Some(w) => w.get(alias),
            None => snap.schedule_times(alias),
        };
        match found {
            Some(v) => list::copy(v),
            None => {
                let r: Vec<String> = Vec::new();
                assert(r.deep_view() =~= Seq::<Seq<char>>::empty());
                r
            },
        }
    }

    /// Starts the edited copy from the snapshot, unless there is one.
    fn begin(&mut self, snap: &Snapshot)
        ensures
            final(self).cursor == old(self).cursor,
            final(self).grid == old(self).grid,
            final(self).working matches Some(w) && times_view(w@) == base_of(*old(self), *snap),
    {
        if self.working.is_none() {
            self.working = Some(seed_from(snap));
        }
    }

    fn take_working(&mut self) -> (r: Times)
        requires
            old(self).working is Some,
        ensures
            r == old(self).working->0,
            final(self).cursor == old(self).cursor,
            final(self).grid == old(self).grid,
    {
        match self.working.take() {
            Some(w) => w,
            None => NameMap::new(),
        }
    }

    /// Sets the times of `alias` in the edited copy; no times means unscheduled.
    fn set_times(&mut self, alias: &str, times: Vec<String>, snap: &Snapshot)
        ensures
            final(self).cursor == old(self).cursor,
            final(self).grid == old(self).grid,
            final(self).working matches Some(w) && times_view(w@) == with_times(
                base_of(*old(self), *snap),
                alias@,
                times.deep_view(),
            ),
    {
        self.begin(snap);
        let ghost base = base_of(*old(self), *snap);
        let ghost ts = times.deep_view();
        let mut w = self.take_working();
        if times.len() == 0 {
            w.remove(alias);
            assert(times_view(w@) =~= base.remove(alias@));
        } else {
            w.insert(alias.to_owned(), times);
            assert(times_view(w@) =~= base.insert(alias@, ts));
        }
        self.working = Some(w);
    }

    /// Toggles hour `h` of `alias` in the edited copy.
    pub fn toggle_hour(&mut self, alias: &str, h: u8, snap: &Snapshot)
        ensures
            final(self).cursor == old(self).cursor,
            final(self).grid == old(self).grid,
            final(self).working matches Some(w) && times_view(w@) == with_times(
                base_of(*old(self), *snap),
                alias@,
                toggled(shown_times(*old(self), alias@, *snap), h),
            ),
    {
        let shown = self.times_for(alias, snap);
        let times = toggled_times(&shown, h);
        self.set_times(alias, times, snap);
    }

    /// The schedule to write: the edited copy, or the snapshot's if nothing was
    /// edited; only accounts that have times.
    pub fn working_schedule(&self, snap: &Snapshot) -> (r: Times)
        ensures
            times_view(r@) == nonempty(base_of(*self, *snap)),
    {
        match &self.working {
            Some(w) => nonempty_copy(w),
            None => {
                let s = seed_from(snap);
                nonempty_copy(&s)
            },
        }
    }

    /// The page for `snap` at `now_ms`. `fires` gives the next fire of each
    /// account's shown times.
    pub fn render(&self, snap: &Snapshot, now_ms: i64, fires: &Vec<Option<FireTime>>) -> (r:
        SchedulePage)
        requires
            fires.len() == snap.accounts.len(),
        ensures
            r.help@ == help_line(snap.schedule_drift),
            r.header@ == seq![sp("    alias       times                 next"@, theme::dim())],
            r.rows.deep_view() == Seq::new(
                snap.accounts.len() as nat,
                |i: int|
                    schedule_row(
                        snap.accounts[i].alias@,
                        shown_times(*self, snap.accounts[i].alias@, *snap),
                        fires[i],
                        now_ms,
                    ),
            ),
            snap.accounts.len() == 0 ==> r.selected is None && r.detail@.len() == 0,
            snap.accounts.len() > 0 ==> {
                let c = clamped(self.cursor as int, snap.accounts.len() as int);
                let alias = snap.accounts[c].alias@;
                &&& r.selected == Some(c as usize)
                &&& r.detail.deep_view() == grid_block(
                    alias,
                    shown_times(*self, alias, *snap),
                    self.grid,
                ) + primed_block(primed_in(snap.priming@, alias), now_ms)
            },
    {
        let help = if snap.schedule_drift {
            line4(
                styled("⚠ crontab is out of sync with the saved schedule — ", theme::alert()),
                styled("press ", theme::dim()),
                styled("w", theme::accent()),
                styled(" to re-install into cron.", theme::dim()),
            )
        } else {
            line1(
                styled(
                    "Scheduled times auto-prime each account to keep its 5h window warm.",
                    theme::dim(),
                ),
            )
        };
        let header = line1(styled("    alias       times                 next", theme::dim()));
        let n: usize = snap.accounts.len();
        let ghost all = Seq::new(
            n as nat,
            |i: int|
                schedule_row(
                    snap.accounts[i].alias@,
                    shown_times(*self, snap.accounts[i].alias@, *snap),
                    fires[i],
                    now_ms,
                ),
        );
        let mut rows = no_lines();
        let mut i: usize = 0;
        while i < n
            invariant
                i <= n,
                n == snap.accounts.len(),
                n == fires.len(),
                all == Seq::new(
                    n as nat,
                    |i: int|
                        schedule_row(
                            snap.accounts[i].alias@,
                            shown_times(*self, snap.accounts[i].alias@, *snap),
                            fires[i],
                            now_ms,
                        ),
                ),
                rows.deep_view() =~= all.take(i as int),
            decreases n - i,
        {
            let alias = snap.accounts[i].alias.as_str();
            let times = self.times_for(alias, snap);
            put_line(&mut rows, schedule_row_line(alias, &times, fires[i], now_ms));
            i += 1;
        }
        assert(all.take(i as int) =~= all);
        if n == 0 {
            let detail = no_lines();
            assert(detail.deep_view().len() == 0);
            return SchedulePage { help, header, rows, selected: None, detail };
        }
        let c: usize = clamp_to(self.cursor, n);
        let alias = snap.accounts[c].alias.as_str();
        let times = self.times_for(alias, snap);
        let mut detail = grid_lines(alias, &times, self.grid);
        let ghost grid = detail.deep_view();
        if let Some(lp) = snap.last_primed(alias) {
            let ago = match duration_label((seconds_of(now_ms) as i128 - lp as i128) * 1000) {
                Some(s) => s,
                None => crate::text::owned("just now"),
            };
            put_line(&mut detail, blank());
            put_line(
                &mut detail,
                line2(
                    styled("  last primed  ", theme::dim()),
                    span(join2(ago.as_str(), " ago"), theme::text()),
                ),
            );
        }
        assert(detail.deep_view() =~= grid + primed_block(
            primed_in(snap.priming@, alias@),
            now_ms,
        ));
        SchedulePage { help, header, rows, selected: Some(c), detail }
    }
}

/// What a key does while the grid is open on hour `h`, with `n` accounts and the
/// cursor on row `c`.
pub open spec fn grid_key(
    old_view: ScheduleView,
    new_view: ScheduleView,
    r: Option<Action>,
    code: KeyCode,
    h: u8,
    c: int,
    snap: Snapshot,
) -> bool {
    let n = snap.accounts.len() as int;
    &&& new_view.cursor == c
    &&& if moves_grid(code) {
        &&& new_view.grid == Some(moved_hour(code, h) as u8)
        &&& new_view.working == old_view.working
        &&& r is None
    } else if code == KeyCode::Char(' ') && n > 0 {
        let alias = snap.accounts[c].alias@;
        &&& new_view.grid == Some(h)
        &&& r is None
        &&& new_view.working matches Some(w) && times_view(w@) == with_times(
            base_of(old_view, snap),
            alias,
            toggled(shown_times(old_view, alias, snap), h),
        )
    } else if code == KeyCode::Esc || code == KeyCode::Enter {
        &&& new_view.grid is None
        &&& new_view.working == old_view.working
        &&& r is None
    } else {
        &&& new_view.grid == Some(h)
        &&& new_view.working == old_view.working
        &&& if code == KeyCode::Char('w') {
            r matches Some(Action::WriteSchedule(m)) && times_view(m@) == nonempty(
                base_of(old_view, snap),
            )
        } else {
            r is None
        }
    }
}

/// The hour on which the grid opens: the first scheduled one, else nine.
pub open spec fn opening_hour(times: Seq<Seq<char>>) -> u8 {
    if hours_in(times).len() > 0 {
        hours_in(times)[0]
    } else {
        9
    }
}

/// What a key does in the list, with the cursor on row `c`.
pub open spec fn list_key(
    old_view: ScheduleView,
    new_view: ScheduleView,
    r: Option<Action>,
    code: KeyCode,
    c: int,
    snap: Snapshot,
) -> bool {
    let n = snap.accounts.len() as int;
    if is_down(code) || is_up(code) {
        &&& r is None
        &&& new_view.grid is None
        &&& new_view.working == old_view.working
        &&& new_view.cursor == if n == 0 {
            0
        } else if is_down(code) {
            next_in(c, n)
        } else {
            prev_in(c, n)
        }
    } else if (code == KeyCode::Enter || code == KeyCode::Char('e')) && n > 0 {
        &&& r is None
        &&& new_view.cursor == c
        &&& new_view.working == old_view.working
        &&& new_view.grid == Some(
            opening_hour(shown_times(old_view, snap.accounts[c].alias@, snap)),
        )
    } else if code == KeyCode::Char(' ') && n > 0 {
        &&& r is None
        &&& new_view.cursor == c
        &&& new_view.grid is None
        &&& new_view.working matches Some(w) && times_view(w@) == base_of(old_view, snap).remove(
            snap.accounts[c].alias@,
        )
    } else {
        &&& new_view.cursor == c
        &&& new_view.grid is None
        &&& new_view.working == old_view.working
        &&& if code == KeyCode::Char('w') {
            r matches Some(Action::WriteSchedule(m)) && times_view(m@) == nonempty(
                base_of(old_view, snap),
            )
        } else {
            r is None
        }
    }
}

/// Space in the grid turns over just the hour under the cursor of just the account that is
/// selected: all other hours, and all other accounts, stay scheduled as they were.
pub proof fn space_turns_one_hour_of_one_account_over(
    v: ScheduleView,
    post: ScheduleView,
    r: Option<Action>,
    ctx: AppCtx,
    snap: Snapshot,
    h: u8,
    alias: Seq<char>,
)
    requires
        v.grid == Some(h),
        h < 24,
        snap.accounts.len() > 0,
        alias_list(snap.accounts@).contains(alias),
        v.steps(post, KeyCode::Char(' '), ctx, snap, r),
    ensures
        r is None,
        post.grid == Some(h),
        ({
            let c = if v.cursor < snap.accounts.len() {
                v.cursor as int
            } else {
                snap.accounts.len() - 1
            };
            let before = shown_times(v, alias, snap);
            let after = shown_times(post, alias, snap);
            &&& post.cursor == c
            &&& alias == snap.accounts[c].alias@ ==> forall|x: u8| #[trigger]
                hours_in(after).contains(x) <==> if x == h {
                    !hours_in(before).contains(x)
                } else {
                    hours_in(before).contains(x)
                }
            &&& alias != snap.accounts[c].alias@ ==> after == before
        }),
{
    let before = shown_times(v, alias, snap);
    let after = shown_times(post, alias, snap);
    toggling_turns_one_hour_over(before, h);
    if alias == snap.accounts[post.cursor as int].alias@ {
        assert(after =~= toggled(before, h));
    } else {
        assert(after =~= before);
    }
}

/// What is written is what is shown: the times of every account that has any, and no
/// others.
pub proof fn what_is_shown_is_written(
    v: ScheduleView,
    post: ScheduleView,
    r: Option<Action>,
    ctx: AppCtx,
    snap: Snapshot,
    alias: Seq<char>,
)
    requires
        v.steps(post, KeyCode::Char('w'), ctx, snap, r),
        alias_list(snap.accounts@).contains(alias),
    ensures
        post.working == v.working,
        post.grid == v.grid,
        r matches Some(Action::WriteSchedule(m)) && {
            let written = times_view(m@);
            let shown = shown_times(v, alias, snap);
            &&& written.contains_key(alias) <==> shown.len() > 0
            &&& shown.len() > 0 ==> written[alias] == shown
        },
{
}

/// Space in the list clears the selected account and no other.
pub proof fn space_in_the_list_clears_one_account(
    v: ScheduleView,
    post: ScheduleView,
    r: Option<Action>,
    ctx: AppCtx,
    snap: Snapshot,
    alias: Seq<char>,
)
    requires
        v.grid is None,
        snap.accounts.len() > 0,
        alias_list(snap.accounts@).contains(alias),
        v.steps(post, KeyCode::Char(' '), ctx, snap, r),
    ensures
        r is None,
        shown_times(post, alias, snap) == if alias == snap.accounts[post.cursor as int].alias@ {
            Seq::empty()
        } else {
            shown_times(v, alias, snap)
        },
{
    assert(shown_times(post, alias, snap) =~= if alias == snap.accounts[post.cursor as int].alias@ {
        Seq::empty()
    } else {
        shown_times(v, alias, snap)
    });
}

/// The grid opens on the first hour that is scheduled, or on nine if none is.
pub proof fn the_grid_opens_on_the_first_hour(times: Seq<Seq<char>>)
    ensures
        hours_in(times).len() == 0 ==> opening_hour(times) == 9,
        hours_in(times).len() > 0 ==> hours_in(times).contains(opening_hour(times)) && forall|
            x: u8,
        | #[trigger]
            hours_in(times).contains(x) ==> opening_hour(times) <= x,
{
    hours_are_of_the_day(times);
    let hs = hours_in(times);
    if hs.len() > 0 {
        assert(hs.contains(hs[0]));
        assert forall|x: u8| #[trigger] hs.contains(x) implies hs[0] <= x by {
            let i = choose|i: int| 0 <= i < hs.len() && hs[i] == x;
        }
    }
}

/// In the grid, left and right go one hour back and on, up and down change the row, and
/// all of them go round within the day.
pub proof fn the_grid_goes_round(h: u8)
    requires
        h < 24,
    ensures
        moved_hour(KeyCode::Right, h) == if h == 23 {
            0
        } else {
            h + 1
        },
        moved_hour(KeyCode::Left, h) == if h == 0 {
            23
        } else {
            h - 1
        },
        moved_hour(KeyCode::Down, h) == moved_hour(KeyCode::Up, h) == if h < 12 {
            h + 12
        } else {
            h - 12
        },
{
}

/// Whether the grid, if it is open, is on an hour of the day.
pub open spec fn grid_in_day(v: ScheduleView) -> bool {
    v.grid matches Some(h) ==> h < 24
}

/// No key takes the grid off the day: it opens on an hour of the day and stays there.
pub proof fn grid_stays_in_the_day(
    old_view: ScheduleView,
    new_view: ScheduleView,
    r: Option<Action>,
    code: KeyCode,
    ctx: AppCtx,
    snap: Snapshot,
)
    requires
        grid_in_day(old_view),
        old_view.steps(new_view, code, ctx, snap, r),
    ensures
        grid_in_day(new_view),
{
    let c = clamped(old_view.cursor as int, snap.accounts.len() as int);
    if snap.accounts.len() > 0 {
        hours_are_of_the_day(shown_times(old_view, snap.accounts[c].alias@, snap));
    }
}

impl TabView for ScheduleView {
    open spec fn name(&self) -> Seq<char> {
        "Schedule"@
    }

    open spec fn ok(&self) -> bool {
        true
    }

    /// The grid is a modal editor: it keeps everything but Tab and BackTab.
    open spec fn claims(&self, code: KeyCode) -> bool {
        self.grid is Some && code != KeyCode::Tab && code != KeyCode::BackTab
    }

    open spec fn hints(&self) -> Seq<(Seq<char>, Seq<char>)> {
        if self.grid is Some {
            seq![
                ("←→"@, "hour"@),
                ("↑↓"@, "row"@),
                ("space"@, "toggle"@),
                ("esc"@, "back"@),
                ("w"@, "write"@),
            ]
        } else {
            seq![
                ("↑↓"@, "move"@),
                ("⏎"@, "edit hours"@),
                ("space"@, "clear"@),
                ("w"@, "write"@),
            ]
        }
    }

    open spec fn steps(
        self,
        post: Self,
        code: KeyCode,
        ctx: AppCtx,
        snap: Snapshot,
        r: Option<Action>,
    ) -> bool {
        let c = clamped(self.cursor as int, snap.accounts.len() as int);
        match self.grid {
            Some(h) => grid_key(self, post, r, code, h, c, snap),
            None => list_key(self, post, r, code, c, snap),
        }
    }

    fn title(&self) -> (r: &'static str) {
        "Schedule"
    }

    fn claims_key(&self, code: KeyCode) -> (r: bool) {
        self.grid.is_some() && code != KeyCode::Tab && code != KeyCode::BackTab
    }

    fn footer_hints(&self) -> (r: Vec<(&'static str, &'static str)>) {
        let r = if self.grid.is_some() {
            vec![
                ("←→", "hour"),
                ("↑↓", "row"),
                ("space", "toggle"),
                ("esc", "back"),
                ("w", "write"),
            ]
        } else {
            vec![("↑↓", "move"), ("⏎", "edit hours"), ("space", "clear"), ("w", "write")]
        };
        assert(hint_texts(r) =~= self.hints());
        r
    }

    /// In the grid: arrows move the hour, space toggles it, Esc and Enter leave, w
    /// writes. In the list: arrows move, Enter or e opens the grid, space clears, w
    /// writes.
    fn on_key(&mut self, key: KeyEvent, ctx: &AppCtx, snap: &Snapshot) -> (r: Option<Action>) {
        let n: usize = snap.accounts.len();
        self.cursor = clamp_to(self.cursor, n);
        assert(base_of(*self, *snap) == base_of(*old(self), *snap));
        if let Some(h) = self.grid {
            match key.code {
                KeyCode::Left | KeyCode::Char('h') => {
                    self.grid = Some(((h as u16 + 23) % 24) as u8);
                },
                KeyCode::Right | KeyCode::Char('l') => {
                    self.grid = Some(((h as u16 + 1) % 24) as u8);
                },
                KeyCode::Up | KeyCode::Down | KeyCode::Char('j') | KeyCode::Char('k') => {
                    self.grid = Some(((h as u16 + 12) % 24) as u8);
                },
                KeyCode::Char(' ') => {
                    if n > 0 {
                        let c: usize = self.cursor;
                        self.toggle_hour(snap.accounts[c].alias.as_str(), h, snap);
                    }
                },
                KeyCode::Esc | KeyCode::Enter => {
                    self.grid = None;
                },
                KeyCode::Char('w') => {
                    return Some(Action::WriteSchedule(self.working_schedule(snap)));
                },
                _ => {},
            }
            return None;
        }
        match key.code {
            KeyCode::Down | KeyCode::Char('j') => {
                if n > 0 {
                    self.cursor = down(self.cursor, n);
                }
                None
            },
            KeyCode::Up | KeyCode::Char('k') => {
                if n > 0 {
                    self.cursor = up(self.cursor, n);
                }
                None
            },
            KeyCode::Enter | KeyCode::Char('e') => {
                if n > 0 {
                    let times = self.times_for(snap.accounts[self.cursor].alias.as_str(), snap);
                    let hours = hours_of(&times);
                    let start: u8 = if hours.len() > 0 {
                        hours[0]
                    } else {
                        9
                    };
                    self.grid = Some(start);
                }
                None
            },
            KeyCode::Char(' ') => {
                if n > 0 {
                    let c: usize = self.cursor;
                    let none: Vec<String> = Vec::new();
                    assert(none.deep_view().len() == 0);
                    self.set_times(snap.accounts[c].alias.as_str(), none, snap);
                }
                None
            },
            KeyCode::Char('w') => Some(Action::WriteSchedule(self.working_schedule(snap))),
            _ => None,
        }
    }
}

/// The grid has a cell for each hour of the day, and just those that are scheduled stand out.
pub proof fn every_hour_has_a_cell(
    alias: Seq<char>,
    times: Seq<Seq<char>>,
    cursor: Option<u8>,
    h: int,
)
    requires
        0 <= h < 24,
        cursor != Some(h as u8),
    ensures
        ({
            let block = grid_block(alias, times, cursor);
            let cell = if h < 12 {
                block[2][h + 1]
            } else {
                block[3][h - 11]
            };
            &&& cell.text == two_digits(h as nat) + " "@
            &&& cell.style == if has_hour(times, h) {
                theme::accent()
            } else {
                theme::faint()
            }
        }),
{
}

/// Editing starts from what is scheduled for the accounts that are listed, and nothing else;
/// what is written leaves out accounts without times.
pub proof fn editing_starts_from_the_schedule(
    aliases: Seq<Seq<char>>,
    schedule: Map<Seq<char>, Seq<Seq<char>>>,
    alias: Seq<char>,
)
    ensures
        seeded(aliases, schedule).contains_key(alias) <==> aliases.contains(alias)
            && schedule.contains_key(alias) && schedule[alias].len() > 0,
        seeded(aliases, schedule).contains_key(alias) ==> seeded(aliases, schedule)[alias]
            == schedule[alias],
        nonempty(schedule).contains_key(alias) <==> schedule.contains_key(alias)
            && schedule[alias].len() > 0,
        nonempty(schedule).contains_key(alias) ==> nonempty(schedule)[alias] == schedule[alias],
{
}

/// A row of the list has a tick just where the account is scheduled, its times in order, and
/// how long until it fires.
pub proof fn a_row_shows_the_schedule(
    alias: Seq<char>,
    times: Seq<Seq<char>>,
    fire: Option<FireTime>,
    now_ms: i64,
)
    ensures
        ({
            let r = schedule_row(alias, times, fire, now_ms);
            &&& times.len() > 0 ==> r[0].text == "✓ "@ && r[1].text == padded(alias, 12) + padded(
                joined(times, " "@),
                22,
            )
            &&& times.len() == 0 ==> r[0].text == "  "@ && r[1].text == padded(alias, 12) + padded(
                "—"@,
                22,
            )
            &&& fire matches Some(f) ==> r[2].text == "in "@ + until_text(
                f.unix as int,
                now_ms as int,
            )
            &&& fire is None ==> r[2].text == "—"@
        }),
{
}

/// In the list, moving goes round the accounts and keeps the schedule; Enter opens the hours of
/// the account under the cursor. In the grid, Esc and Enter close it and keep the schedule.
pub proof fn moving_keeps_the_schedule(
    pre: ScheduleView,
    post: ScheduleView,
    code: KeyCode,
    ctx: AppCtx,
    snap: Snapshot,
    r: Option<Action>,
)
    requires
        pre.steps(post, code, ctx, snap, r),
        pre.cursor < snap.accounts.len(),
    ensures
        ({
            let n = snap.accounts.len() as int;
            &&& code != KeyCode::Char(' ') ==> post.working == pre.working
            &&& code != KeyCode::Char('w') ==> r is None
            &&& pre.grid is None && code == KeyCode::Down ==> post.cursor == if pre.cursor + 1
                == n {
                0
            } else {
                pre.cursor + 1
            }
            &&& pre.grid is None && code == KeyCode::Up ==> post.cursor == if pre.cursor == 0 {
                n - 1
            } else {
                pre.cursor - 1
            }
            &&& pre.grid is None && code == KeyCode::Enter ==> post.grid is Some && post.cursor
                == pre.cursor
            &&& pre.grid is Some ==> post.cursor == pre.cursor
            &&& pre.grid is Some && (code == KeyCode::Esc || code == KeyCode::Enter)
                ==> post.grid is None
            &&& pre.grid is Some && code == KeyCode::Char(' ') ==> post.grid == pre.grid
        }),
{
    crate::tui::key::cursors_go_round(pre.cursor as int, snap.accounts.len() as int);
}

} // verus!
