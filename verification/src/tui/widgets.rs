//! Display helpers: durations, token labels, the usage window, list scrolling.

use vstd::prelude::*;

use crate::text::{decimal, join2, join3, repeat, show};
use crate::tui::line::{put_span, sp, span, Line, SpanV};
use crate::tui::theme;

verus! {

/// A duration in milliseconds as shown to the user: its two largest units.
/// Nothing when no time is left.
pub open spec fn duration_text(ms: int) -> Option<Seq<char>> {
    if ms <= 0 {
        None
    } else {
        let minutes = ms / 60_000;
        let hours = minutes / 60;
        let days = hours / 24;
        Some(
            if minutes == 0 {
                "<1m"@
            } else if hours == 0 {
                decimal(minutes as nat) + "m"@
            } else if days == 0 {
                if minutes % 60 == 0 {
                    decimal(hours as nat) + "h"@
                } else {
                    decimal(hours as nat) + "h "@ + (decimal((minutes % 60) as nat) + "m"@)
                }
            } else if hours % 24 == 0 {
                decimal(days as nat) + "d"@
            } else {
                decimal(days as nat) + "d "@ + (decimal((hours % 24) as nat) + "h"@)
            },
        )
    }
}

/// A bound on durations that no pair of timestamps exceeds.
pub open spec fn sane_duration(ms: int) -> bool {
    ms <= 0x1000_0000_0000_0000_0000
}

/// A duration as shown to the user, or nothing when no time is left.
pub fn duration_label(ms: i128) -> (r: Option<String>)
    requires
        sane_duration(ms as int),
    ensures
        crate::profile::discover::text_of(r) == duration_text(ms as int),
{
    if ms <= 0 {
        return None;
    }
    let minutes: u64 = (ms / 60_000) as u64;
    let hours: u64 = minutes / 60;
    let days: u64 = hours / 24;
    let s = if minutes == 0 {
        crate::text::owned("<1m")
    } else if hours == 0 {
        join2(show(minutes).as_str(), "m")
    } else if days == 0 {
        if minutes % 60 == 0 {
            join2(show(hours).as_str(), "h")
        } else {
            join3(show(hours).as_str(), "h ", join2(show(minutes % 60).as_str(), "m").as_str())
        }
    } else if hours % 24 == 0 {
        join2(show(days).as_str(), "d")
    } else {
        join3(show(days).as_str(), "d ", join2(show(hours % 24).as_str(), "h").as_str())
    };
    Some(s)
}

/// A duration in milliseconds as shown to the user, or nothing when no time is left.
pub fn format_duration_short(ms: i64) -> (r: Option<String>)
    ensures
        crate::profile::discover::text_of(r) == duration_text(ms as int),
{
    duration_label(ms as i128)
}

/// One hour, in milliseconds.
pub const HOUR_MS: i64 = 3_600_000;

/// The token label and whether it is urgent: expired without a refresh token, or
/// under an hour left. The word matches the urgency, so "ok" is never urgent.
pub open spec fn token_text(expires_at_ms: Option<i64>, has_refresh: bool, now_ms: i64) -> (
    Seq<char>,
    bool,
) {
    match expires_at_ms {
        None => ("unknown"@, false),
        Some(exp) => {
            let rem = exp - now_ms;
            if rem <= 0 {
                if has_refresh {
                    ("refreshable"@, false)
                } else {
                    ("expired"@, true)
                }
            } else if rem < HOUR_MS {
                ("expiring "@ + duration_text(rem)->0, true)
            } else {
                ("ok "@ + duration_text(rem)->0, false)
            }
        },
    }
}

/// Token status label, and whether it is urgent.
pub fn token_label(expires_at_ms: Option<i64>, has_refresh: bool, now_ms: i64) -> (r: (
    String,
    bool,
))
    ensures
        (r.0@, r.1) == token_text(expires_at_ms, has_refresh, now_ms),
{
    match expires_at_ms {
        None => (crate::text::owned("unknown"), false),
        Some(exp) => {
            let rem: i128 = exp as i128 - now_ms as i128;
            if rem <= 0 {
                if has_refresh {
                    (crate::text::owned("refreshable"), false)
                } else {
                    (crate::text::owned("expired"), true)
                }
            } else {
                let d = match duration_label(rem) {
                    Some(d) => d,
                    None => String::new(),
                };
                if rem < HOUR_MS as i128 {
                    (join2("expiring ", d.as_str()), true)
                } else {
                    (join2("ok ", d.as_str()), false)
                }
            }
        },
    }
}

/// A token with an hour or more left is never urgent, one with less always is, and so
/// is one that is gone and cannot be refreshed.
pub proof fn urgency_follows_time_left(exp: i64, has_refresh: bool, now_ms: i64)
    ensures
        token_text(Some(exp), has_refresh, now_ms).1 <==> (exp - now_ms <= 0 && !has_refresh)
            || 0 < exp - now_ms < HOUR_MS,
{
}

/// The later of two optional epoch timestamps.
pub fn latest(a: Option<i64>, b: Option<i64>) -> (r: Option<i64>)
    ensures
        r == match (a, b) {
            (Some(x), Some(y)) => Some(if x >= y {
                x
            } else {
                y
            }),
            (Some(x), None) => Some(x),
            (None, Some(y)) => Some(y),
            (None, None) => None,
        },
{
    match (a, b) {
        (Some(x), Some(y)) => if x >= y {
            Some(x)
        } else {
            Some(y)
        },
        (Some(x), None) => Some(x),
        (None, Some(y)) => Some(y),
        (None, None) => None,
    }
}

/// The usage window: five hours, in milliseconds.
pub const WINDOW_MS: i64 = 18_000_000;

/// Milliseconds left in the window that started at `start_epoch` seconds.
pub open spec fn window_left(start_epoch: Option<i64>, now_ms: i64) -> Option<int> {
    match start_epoch {
        None => None,
        Some(s) => {
            let rem = s * 1000 + WINDOW_MS - now_ms;
            if rem > 0 {
                Some(rem)
            } else {
                None
            }
        },
    }
}

/// Milliseconds left in the window, wide enough for any pair of timestamps.
pub fn window_remaining(start_epoch: Option<i64>, now_ms: i64) -> (r: Option<i128>)
    ensures
        match r {
            Some(x) => window_left(start_epoch, now_ms) == Some(x as int),
            None => window_left(start_epoch, now_ms) is None,
        },
        r matches Some(x) ==> 0 < x && sane_duration(x as int),
{
    match start_epoch {
        None => None,
        Some(s) => {
            let rem: i128 = s as i128 * 1000 + WINDOW_MS as i128 - now_ms as i128;
            if rem > 0 {
                Some(rem)
            } else {
                None
            }
        },
    }
}

/// Milliseconds left in the five-hour window that started at `start_epoch`
/// seconds. Nothing without an anchor or when the window has closed.
pub fn window_remaining_ms(start_epoch: Option<i64>, now_ms: i64) -> (r: Option<i64>)
    requires
        start_epoch matches Some(s) ==> i64::MIN <= s * 1000 && s * 1000 + WINDOW_MS <= i64::MAX
            && i64::MIN <= s * 1000 + WINDOW_MS - now_ms <= i64::MAX,
    ensures
        match r {
            Some(x) => window_left(start_epoch, now_ms) == Some(x as int),
            None => window_left(start_epoch, now_ms) is None,
        },
{
    match start_epoch {
        None => None,
        Some(s) => {
            let rem: i64 = s * 1000 + WINDOW_MS - now_ms;
            if rem > 0 {
                Some(rem)
            } else {
                None
            }
        },
    }
}

/// The window is open from its start for exactly its length.
pub proof fn window_is_open_for_its_length(start: i64, now_ms: i64)
    ensures
        window_left(Some(start), now_ms) is Some <==> now_ms < start * 1000 + WINDOW_MS,
        now_ms == start * 1000 ==> window_left(Some(start), now_ms) == Some(WINDOW_MS as int),
{
}

/// Whole seconds of a time in milliseconds, toward zero.
pub open spec fn whole_seconds(ms: int) -> int {
    if ms >= 0 {
        ms / 1000
    } else {
        -((-ms) / 1000)
    }
}

/// Whole seconds of a time in milliseconds, toward zero.
pub fn seconds_of(ms: i64) -> (r: i64)
    ensures
        r == whole_seconds(ms as int),
{
    if ms >= 0 {
        ms / 1000
    } else if ms == i64::MIN {
        -9_223_372_036_854_775
    } else {
        -((-ms) / 1000)
    }
}

/// How long from now until a moment given in epoch seconds; "soon" once it has come.
pub open spec fn until_text(unix: int, now_ms: int) -> Seq<char> {
    match duration_text((unix - whole_seconds(now_ms)) * 1000) {
        Some(s) => s,
        None => "soon"@,
    }
}

/// How long from now until a moment given in epoch seconds.
pub fn until_label(unix: i64, now_ms: i64) -> (r: String)
    ensures
        r@ == until_text(unix as int, now_ms as int),
{
    match duration_label((unix as i128 - seconds_of(now_ms) as i128) * 1000) {
        Some(s) => s,
        None => crate::text::owned("soon"),
    }
}

/// A run of `n` solid cells.
pub open spec fn cells(n: nat) -> Seq<char> {
    Seq::new(n, |i: int| '█')
}

/// The smaller of two counts.
pub open spec fn at_most(n: int, limit: int) -> int {
    if n < limit {
        n
    } else {
        limit
    }
}

/// A two-tone bar of `width` cells, `filled` of them in accent and the track
/// faint. An empty run is left out.
pub open spec fn gauge(filled: int, width: int) -> Seq<SpanV> {
    let f = at_most(filled, width);
    (if f > 0 {
        seq![sp(cells(f as nat), theme::accent())]
    } else {
        Seq::empty()
    }) + (if width - f > 0 {
        seq![sp(cells((width - f) as nat), theme::faint())]
    } else {
        Seq::empty()
    })
}

/// A bar is exactly as wide as asked, however much of it is filled.
pub proof fn gauge_fills_its_width(filled: int, width: int)
    requires
        0 <= filled,
        0 <= width,
    ensures
        crate::tui::line::line_text(gauge(filled, width)) == cells(width as nat),
{
    let f = at_most(filled, width);
    let g = gauge(filled, width);
    reveal_with_fuel(crate::tui::line::line_text, 3);
    if f > 0 && width - f > 0 {
        assert(g.drop_last() =~= seq![g[0]]);
        assert(g.drop_last().drop_last() =~= Seq::empty());
        assert(cells(f as nat) + cells((width - f) as nat) =~= cells(width as nat));
    } else if g.len() > 0 {
        assert(g.drop_last() =~= Seq::empty());
    }
    assert(crate::tui::line::line_text(g) =~= cells(width as nat));
}

/// Appends a two-tone bar to a line.
pub fn put_gauge(l: &mut Line, filled: usize, width: usize)
    ensures
        final(l)@ == old(l)@ + gauge(filled as int, width as int),
{
    let f: usize = if filled < width {
        filled
    } else {
        width
    };
    let ghost before = l@;
    if f > 0 {
        put_span(l, span(repeat('█', f), theme::accent()));
    }
    if width - f > 0 {
        put_span(l, span(repeat('█', width - f), theme::faint()));
    }
    assert(l@ =~= before + gauge(filled as int, width as int));
}

/// Height of a list of `n` rows in a panel of `height` rows that keeps `reserved`
/// rows for what stands around it; at least one row.
pub fn list_height(n: usize, height: u16, reserved: u16) -> (r: u16)
    ensures
        ({
            let room = if height > reserved + 1 {
                height - reserved
            } else {
                1
            };
            let want = if n == 0 {
                1
            } else {
                n as int
            };
            r == at_most(want, room)
        }),
{
    let room: u16 = if height > reserved && height - reserved > 1 {
        height - reserved
    } else {
        1
    };
    if n == 0 {
        1
    } else if n < room as usize {
        n as u16
    } else {
        room
    }
}

/// The line that a scrolling list of `len` lines keeps visible: the cursor,
/// clamped to the last line; none for an empty list.
pub fn scroll_target(len: usize, cursor: usize) -> (r: Option<usize>)
    ensures
        r == if len == 0 {
            None
        } else if cursor < len {
            Some(cursor)
        } else {
            Some((len - 1) as usize)
        },
{
    if len == 0 {
        None
    } else if cursor < len {
        Some(cursor)
    } else {
        Some(len - 1)
    }
}

/// The three bands, in percent, that put `percent` in the middle.
pub fn centered_bands(percent: u16) -> (r: (u16, u16, u16))
    requires
        percent <= 100,
    ensures
        r == (((100 - percent) / 2) as u16, percent, ((100 - percent) / 2) as u16),
        r.0 + r.1 + r.2 <= 100,
{
    ((100 - percent) / 2, percent, (100 - percent) / 2)
}

/// A duration is shown by its two largest units, whole, and the smaller one only where it is
/// not zero; below a minute it is shown as less than one, and without time left not at all.
pub proof fn durations_show_two_largest_units(days: int, h: int, m: int, ms: int)
    requires
        0 <= days,
        0 <= h < 24,
        0 <= m < 60,
        0 <= ms < 60_000,
    ensures
        duration_text(((days * 24 + h) * 60 + m) * 60_000 + ms) == if days > 0 && h > 0 {
            Some(decimal(days as nat) + "d "@ + (decimal(h as nat) + "h"@))
        } else if days > 0 {
            Some(decimal(days as nat) + "d"@)
        } else if h > 0 && m > 0 {
            Some(decimal(h as nat) + "h "@ + (decimal(m as nat) + "m"@))
        } else if h > 0 {
            Some(decimal(h as nat) + "h"@)
        } else if m > 0 {
            Some(decimal(m as nat) + "m"@)
        } else if ms > 0 {
            Some("<1m"@)
        } else {
            None
        },
{
    let all: int = ((days * 24 + h) * 60 + m) * 60_000 + ms;
    let minutes = all / 60_000;
    assert(minutes == (days * 24 + h) * 60 + m);
    assert(minutes / 60 == days * 24 + h);
    assert(minutes % 60 == m);
    assert((days * 24 + h) / 24 == days);
    assert((days * 24 + h) % 24 == h);
}

/// A token is called by its state: unknown, refreshable or expired once its time is over, and
/// otherwise expiring in its last hour and ok before, with the time that is left.
pub proof fn a_token_is_called_by_its_state(exp: i64, has_refresh: bool, now_ms: i64)
    ensures
        token_text(None, has_refresh, now_ms) == ("unknown"@, false),
        exp <= now_ms && has_refresh ==> token_text(Some(exp), has_refresh, now_ms) == (
            "refreshable"@,
            false,
        ),
        exp <= now_ms && !has_refresh ==> token_text(Some(exp), has_refresh, now_ms) == (
            "expired"@,
            true,
        ),
        0 < exp - now_ms < 3_600_000 ==> (duration_text(exp - now_ms) matches Some(d)
            && token_text(Some(exp), has_refresh, now_ms) == ("expiring "@ + d, true)),
        3_600_000 <= exp - now_ms ==> (duration_text(exp - now_ms) matches Some(d) && token_text(
            Some(exp),
            has_refresh,
            now_ms,
        ) == ("ok "@ + d, false)),
{
}

/// What is left of a window is five hours from its start.
pub proof fn a_window_lasts_five_hours(start: i64, now_ms: i64)
    ensures
        window_left(None, now_ms) is None,
        window_left(Some(start), now_ms) == if start * 1000 + 5 * 3_600_000 > now_ms {
            Some(start * 1000 + 5 * 3_600_000 - now_ms)
        } else {
            None
        },
{
}

/// The time until a moment is counted from the second that has begun; once it has come it is
/// soon.
pub proof fn a_moment_that_has_come_is_soon(unix: int, now: int, ms: int)
    requires
        0 <= now,
        0 <= ms < 1000,
    ensures
        unix <= now ==> until_text(unix, now * 1000 + ms) == "soon"@,
        unix > now ==> (duration_text((unix - now) * 1000) matches Some(d) && until_text(
            unix,
            now * 1000 + ms,
        ) == d),
{
    assert((now * 1000 + ms) / 1000 == now);
}

/// As many cells of a bar are filled as asked, from the left, and at most all.
pub proof fn a_bar_is_filled_from_the_left(filled: int, width: int)
    requires
        0 <= filled,
        0 <= width,
    ensures
        0 < filled < width ==> gauge(filled, width) == seq![
            sp(cells(filled as nat), theme::accent()),
            sp(cells((width - filled) as nat), theme::faint()),
        ],
        filled >= width > 0 ==> gauge(filled, width) == seq![
            sp(cells(width as nat), theme::accent()),
        ],
        filled == 0 < width ==> gauge(filled, width) == seq![
            sp(cells(width as nat), theme::faint()),
        ],
{
    let g = gauge(filled, width);
    if 0 < filled < width {
        assert(g =~= seq![
            sp(cells(filled as nat), theme::accent()),
            sp(cells((width - filled) as nat), theme::faint()),
        ]);
    } else if filled >= width && width > 0 {
        assert(g =~= seq![sp(cells(width as nat), theme::accent())]);
    } else if filled == 0 && 0 < width {
        assert(g =~= seq![sp(cells(width as nat), theme::faint())]);
    }
}

} // verus!
