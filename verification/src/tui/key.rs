//! Keys as the hub sees them.

use vstd::prelude::*;

verus! {

/// A key, without modifiers. Keys the hub never looks at are `Other`.
#[derive(Clone, Copy, Debug, PartialEq, Eq, Structural)]
pub enum KeyCode {
    Char(char),
    Enter,
    Esc,
    Tab,
    BackTab,
    Backspace,
    Delete,
    Up,
    Down,
    Left,
    Right,
    Home,
    End,
    Other,
}

/// A key press.
#[derive(Clone, Copy, Debug, PartialEq, Eq, Structural)]
pub struct KeyEvent {
    pub code: KeyCode,
}

impl From<KeyCode> for KeyEvent {
    fn from(code: KeyCode) -> (r: KeyEvent) {
        KeyEvent { code }
    }
}

impl vstd::std_specs::convert::FromSpecImpl<KeyCode> for KeyEvent {
    open spec fn obeys_from_spec() -> bool {
        true
    }

    open spec fn from_spec(code: KeyCode) -> KeyEvent {
        KeyEvent { code }
    }
}

/// Whether `code` moves a list cursor down.
pub open spec fn is_down(code: KeyCode) -> bool {
    code == KeyCode::Down || code == KeyCode::Char('j')
}

/// Whether `code` moves a list cursor up.
pub open spec fn is_up(code: KeyCode) -> bool {
    code == KeyCode::Up || code == KeyCode::Char('k')
}

/// The next position in a list of `n`, wrapping to the first.
pub open spec fn next_in(cursor: int, n: int) -> int {
    (cursor + 1) % n
}

/// The previous position in a list of `n`, wrapping to the last.
pub open spec fn prev_in(cursor: int, n: int) -> int {
    (cursor + n - 1) % n
}

/// Down, then up, comes back to the same row.
pub proof fn down_then_up_is_identity(cursor: int, n: int)
    requires
        0 <= cursor < n,
    ensures
        prev_in(next_in(cursor, n), n) == cursor,
{
    lemma_wrap(cursor + 1, n);
    if cursor + 1 == n {
        lemma_wrap(n - 1, n);
    } else {
        lemma_wrap(cursor + n, n);
    }
}

/// Up, then down, comes back to the same row.
pub proof fn up_then_down_is_identity(cursor: int, n: int)
    requires
        0 <= cursor < n,
    ensures
        next_in(prev_in(cursor, n), n) == cursor,
{
    lemma_wrap(cursor + n - 1, n);
    if cursor == 0 {
        lemma_wrap(n, n);
    } else {
        lemma_wrap(cursor, n);
    }
}

/// A cursor that moves stays on the list.
pub proof fn moves_stay_in_range(cursor: int, n: int)
    requires
        0 <= cursor,
        n > 0,
    ensures
        0 <= next_in(cursor, n) < n,
        0 <= prev_in(cursor, n) < n,
{
    vstd::arithmetic::div_mod::lemma_mod_bound(cursor + 1, n);
    vstd::arithmetic::div_mod::lemma_mod_bound(cursor + n - 1, n);
}

/// One step past the end wraps once.
pub proof fn lemma_wrap(x: int, n: int)
    requires
        0 <= x < 2 * n,
    ensures
        x % n == if x < n {
            x
        } else {
            x - n
        },
{
    if x < n {
        vstd::arithmetic::div_mod::lemma_small_mod(x as nat, n as nat);
    } else {
        vstd::arithmetic::div_mod::lemma_fundamental_div_mod_converse(x, n, 1, x - n);
    }
}

/// The row below `cursor` in a list of `n`.
pub fn down(cursor: usize, n: usize) -> (r: usize)
    requires
        cursor < n,
    ensures
        r == next_in(cursor as int, n as int),
        r < n,
{
    proof {
        lemma_wrap(cursor + 1, n as int);
    }
    if cursor + 1 == n {
        0
    } else {
        cursor + 1
    }
}

/// The row above `cursor` in a list of `n`.
pub fn up(cursor: usize, n: usize) -> (r: usize)
    requires
        cursor < n,
    ensures
        r == prev_in(cursor as int, n as int),
        r < n,
{
    proof {
        lemma_wrap(cursor + n - 1, n as int);
    }
    if cursor == 0 {
        n - 1
    } else {
        cursor - 1
    }
}

/// The row below `cursor` in a list of `n`, wherever the cursor was.
pub fn down_any(cursor: usize, n: usize) -> (r: usize)
    requires
        n > 0,
    ensures
        r == next_in(cursor as int, n as int),
        r < n,
{
    let c: usize = cursor % n;
    proof {
        vstd::arithmetic::div_mod::lemma_add_mod_noop(cursor as int, 1, n as int);
        vstd::arithmetic::div_mod::lemma_add_mod_noop(c as int, 1, n as int);
        vstd::arithmetic::div_mod::lemma_mod_twice(cursor as int, n as int);
    }
    down(c, n)
}

/// The row above `cursor` in a list of `n`, wherever the cursor was.
pub fn up_any(cursor: usize, n: usize) -> (r: usize)
    requires
        n > 0,
    ensures
        r == prev_in(cursor as int, n as int),
        r < n,
{
    let c: usize = cursor % n;
    proof {
        vstd::arithmetic::div_mod::lemma_add_mod_noop(cursor as int, n - 1, n as int);
        vstd::arithmetic::div_mod::lemma_add_mod_noop(c as int, n - 1, n as int);
        vstd::arithmetic::div_mod::lemma_mod_twice(cursor as int, n as int);
    }
    up(c, n)
}

/// The row below `cursor` in a list whose last row is `last`, wrapping to the first.
pub fn down_to(cursor: usize, last: usize) -> (r: usize)
    requires
        cursor <= last,
    ensures
        r == next_in(cursor as int, last + 1),
        r <= last,
{
    proof {
        lemma_wrap(cursor + 1, last + 1);
    }
    if cursor == last {
        0
    } else {
        cursor + 1
    }
}

/// The row above `cursor` in a list whose last row is `last`, wrapping to it.
pub fn up_to(cursor: usize, last: usize) -> (r: usize)
    requires
        cursor <= last,
    ensures
        r == prev_in(cursor as int, last + 1),
        r <= last,
{
    proof {
        lemma_wrap(cursor + last, last + 1);
    }
    if cursor == 0 {
        last
    } else {
        cursor - 1
    }
}

/// Down and j go to the next row and from the last to the first; up and k go to the previous
/// row and from the first to the last.
pub proof fn cursors_go_round(cursor: int, n: int)
    requires
        0 <= cursor < n,
    ensures
        next_in(cursor, n) == if cursor == n - 1 {
            0
        } else {
            cursor + 1
        },
        prev_in(cursor, n) == if cursor == 0 {
            n - 1
        } else {
            cursor - 1
        },
        is_down(KeyCode::Down),
        is_down(KeyCode::Char('j')),
        is_up(KeyCode::Up),
        is_up(KeyCode::Char('k')),
        forall|code: KeyCode| !(#[trigger] is_down(code) && is_up(code)),
{
    lemma_wrap(cursor + 1, n);
    lemma_wrap(cursor + n - 1, n);
}

} // verus!
