//! How long ago something was, in one short phrase.

use vstd::prelude::*;

use crate::text::{decimal, join2, owned, show};

verus! {

/// "3d ago", "2h ago", "5m ago" or "just now". A moment in the future is "just now".
pub open spec fn age_text(then: int, now_secs: int) -> Seq<char> {
    let d = now_secs - then;
    if d < 60 {
        "just now"@
    } else if d < 3600 {
        decimal((d / 60) as nat) + "m ago"@
    } else if d < 86_400 {
        decimal((d / 3600) as nat) + "h ago"@
    } else {
        decimal((d / 86_400) as nat) + "d ago"@
    }
}

/// How long before `now_secs` the moment `then` was, both in epoch seconds.
pub fn fmt_age(then: i64, now_secs: i64) -> (r: String)
    ensures
        r@ == age_text(then as int, now_secs as int),
{
    let d: i128 = now_secs as i128 - then as i128;
    if d < 60 {
        owned("just now")
    } else if d < 3600 {
        join2(show((d / 60) as u64).as_str(), "m ago")
    } else if d < 86_400 {
        join2(show((d / 3600) as u64).as_str(), "h ago")
    } else {
        join2(show((d / 86_400) as u64).as_str(), "d ago")
    }
}

/// An age is given in its largest whole unit.
pub proof fn an_age_shows_its_largest_unit(then: int, days: int, h: int, m: int, s: int)
    requires
        0 <= days,
        0 <= h < 24,
        0 <= m < 60,
        0 <= s < 60,
    ensures
        age_text(then, then + ((days * 24 + h) * 60 + m) * 60 + s) == if days > 0 {
            decimal(days as nat) + "d ago"@
        } else if h > 0 {
            decimal(h as nat) + "h ago"@
        } else if m > 0 {
            decimal(m as nat) + "m ago"@
        } else {
            "just now"@
        },
{
    let d: int = ((days * 24 + h) * 60 + m) * 60 + s;
    if days > 0 {
        assert(d / 86_400 == days);
    } else if h > 0 {
        assert(d / 3600 == h);
    } else if m > 0 {
        assert(d / 60 == m);
    }
}

} // verus!
