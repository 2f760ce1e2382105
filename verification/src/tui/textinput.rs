//! A single-line text input.

use vstd::prelude::*;

use crate::text::{chars_of, from_chars};
use crate::tui::key::{KeyCode, KeyEvent};

verus! {

/// A buffer of characters with a cursor between two of them. Handles printable
/// characters, Backspace, Delete, Left, Right, Home and End; Enter and Esc are
/// left to the owner, who decides what commit and cancel mean.
#[derive(Debug)]
pub struct TextInput {
    chars: Vec<char>,
    cursor: usize,
}

/// The characters of an input and the position of its cursor.
#[verifier::ext_equal]
pub struct InputV {
    pub chars: Seq<char>,
    pub cursor: int,
}

impl InputV {
    /// The cursor lies within the text.
    pub open spec fn ok(self) -> bool {
        0 <= self.cursor <= self.chars.len()
    }

    /// An input that holds `s`, the cursor behind it.
    pub open spec fn of(s: Seq<char>) -> InputV {
        InputV { chars: s, cursor: s.len() as int }
    }

    /// The input after a key.
    pub open spec fn after(self, code: KeyCode) -> InputV {
        match code {
            KeyCode::Char(c) => InputV {
                chars: self.chars.insert(self.cursor, c),
                cursor: self.cursor + 1,
            },
            KeyCode::Backspace => if self.cursor > 0 {
                InputV { chars: self.chars.remove(self.cursor - 1), cursor: self.cursor - 1 }
            } else {
                self
            },
            KeyCode::Delete => if self.cursor < self.chars.len() {
                InputV { chars: self.chars.remove(self.cursor), cursor: self.cursor }
            } else {
                self
            },
            KeyCode::Left => if self.cursor > 0 {
                InputV { cursor: self.cursor - 1, ..self }
            } else {
                self
            },
            KeyCode::Right => if self.cursor < self.chars.len() {
                InputV { cursor: self.cursor + 1, ..self }
            } else {
                self
            },
            KeyCode::Home => InputV { cursor: 0, ..self },
            KeyCode::End => InputV { cursor: self.chars.len() as int, ..self },
            _ => self,
        }
    }

    /// The text with a caret at the cursor.
    pub open spec fn shown(self) -> Seq<char> {
        self.chars.take(self.cursor).push('▏') + self.chars.skip(self.cursor)
    }
}

/// Whether an input acts on a key at all.
pub open spec fn consumes(code: KeyCode) -> bool {
    match code {
        KeyCode::Char(_)
        | KeyCode::Backspace
        | KeyCode::Delete
        | KeyCode::Left
        | KeyCode::Right
        | KeyCode::Home
        | KeyCode::End => true,
        _ => false,
    }
}

/// No key moves the cursor out of the text.
pub proof fn cursor_stays_in_text(v: InputV, code: KeyCode)
    requires
        v.ok(),
    ensures
        v.after(code).ok(),
{
}

/// Backspace takes back the character just typed.
pub proof fn backspace_undoes_typing(v: InputV, c: char)
    requires
        v.ok(),
    ensures
        v.after(KeyCode::Char(c)).after(KeyCode::Backspace) == v,
{
    assert(v.chars.insert(v.cursor, c).remove(v.cursor) =~= v.chars);
}

/// A key that is not consumed changes nothing.
pub proof fn unconsumed_keys_change_nothing(v: InputV, code: KeyCode)
    requires
        !consumes(code),
    ensures
        v.after(code) == v,
{
}

impl View for TextInput {
    type V = InputV;

    closed spec fn view(&self) -> InputV {
        InputV { chars: self.chars@, cursor: self.cursor as int }
    }
}

impl TextInput {
    #[verifier::type_invariant]
    spec fn inv(self) -> bool {
        self.cursor <= self.chars@.len()
    }

    /// An input that holds `initial`, the cursor behind it.
    pub fn new(initial: &str) -> (r: TextInput)
        ensures
            r@ == InputV::of(initial@),
            r@.ok(),
    {
        let chars = chars_of(initial);
        let cursor: usize = chars.len();
        TextInput { chars, cursor }
    }

    /// The text.
    pub fn value(&self) -> (r: String)
        ensures
            r@ == self@.chars,
            self@.ok(),
    {
        proof {
            use_type_invariant(self);
        }
        from_chars(&self.chars)
    }

    /// Whether the cursor is behind the last character, where a completion can be accepted.
    pub fn at_end(&self) -> (r: bool)
        ensures
            r == (self@.cursor == self@.chars.len()),
            self@.ok(),
    {
        proof {
            use_type_invariant(self);
        }
        self.cursor == self.chars.len()
    }

    /// Acts on a key; returns whether it was consumed.
    pub fn handle_key(&mut self, key: KeyEvent) -> (r: bool)
        ensures
            old(self)@.ok(),
            final(self)@.ok(),
            final(self)@ == old(self)@.after(key.code),
            r == consumes(key.code),
    {
        proof {
            use_type_invariant(&*self);
        }
        match key.code {
            KeyCode::Char(c) => {
                let at: usize = self.cursor;
                let mut cs: Vec<char> = Vec::new();
                self.cursor = 0;
                core::mem::swap(&mut cs, &mut self.chars);
                cs.insert(at, c);
                let n: usize = cs.len();
                assert(at < n);
                self.chars = cs;
                self.cursor = at + 1;
                true
            },
            KeyCode::Backspace => {
                if self.cursor > 0 {
                    let at: usize = self.cursor - 1;
                    let mut cs: Vec<char> = Vec::new();
                    self.cursor = 0;
                    core::mem::swap(&mut cs, &mut self.chars);
                    cs.remove(at);
                    self.chars = cs;
                    self.cursor = at;
                }
                true
            },
            KeyCode::Delete => {
                if self.cursor < self.chars.len() {
                    let at: usize = self.cursor;
                    let mut cs: Vec<char> = Vec::new();
                    self.cursor = 0;
                    core::mem::swap(&mut cs, &mut self.chars);
                    cs.remove(at);
                    self.chars = cs;
                    self.cursor = at;
                }
                true
            },
            KeyCode::Left => {
                if self.cursor > 0 {
                    self.cursor = self.cursor - 1;
                }
                true
            },
            KeyCode::Right => {
                if self.cursor < self.chars.len() {
                    self.cursor = self.cursor + 1;
                }
                true
            },
            KeyCode::Home => {
                self.cursor = 0;
                true
            },
            KeyCode::End => {
                self.cursor = self.chars.len();
                true
            },
            _ => false,
        }
    }

    /// The text with a caret at the cursor, for display.
    pub fn render_line(&self) -> (r: String)
        ensures
            r@ == self@.shown(),
            self@.ok(),
    {
        proof {
            use_type_invariant(self);
        }
        let mut out = String::new();
        let ghost cs = self.chars@;
        let mut i: usize = 0;
        while i < self.cursor
            invariant
                cs == self.chars@,
                i <= self.cursor <= self.chars@.len(),
                out@ == cs.take(i as int),
            decreases self.cursor - i,
        {
            out.push(self.chars[i]);
            i += 1;
            assert(out@ =~= cs.take(i as int));
        }
        out.push('▏');
        let ghost head = out@;
        while i < self.chars.len()
            invariant
                cs == self.chars@,
                self.cursor <= i <= self.chars@.len(),
                head == cs.take(self.cursor as int).push('▏'),
                out@ == head + cs.subrange(self.cursor as int, i as int),
            decreases self.chars.len() - i,
        {
            out.push(self.chars[i]);
            i += 1;
            assert(out@ =~= head + cs.subrange(self.cursor as int, i as int));
        }
        assert(cs.subrange(self.cursor as int, i as int) =~= cs.skip(self.cursor as int));
        out
    }
}

/// A typed character goes in at the cursor, and nothing else in the text changes; Backspace
/// takes out the character before the cursor, Delete the one behind it, and the keys that
/// move leave the text.
pub proof fn keys_edit_at_the_cursor(v: InputV, code: KeyCode)
    requires
        v.ok(),
    ensures
        ({
            let u = v.after(code);
            let left = v.chars.take(v.cursor);
            let right = v.chars.skip(v.cursor);
            match code {
                KeyCode::Char(c) => u.chars == left.push(c) + right && u.cursor == v.cursor + 1,
                KeyCode::Backspace => v.cursor > 0 ==> u.chars == left.drop_last() + right
                    && u.cursor == v.cursor - 1,
                KeyCode::Delete => v.cursor < v.chars.len() ==> u.chars == left
                    + right.drop_first() && u.cursor == v.cursor,
                KeyCode::Left => u.chars == v.chars && (v.cursor > 0 ==> u.cursor == v.cursor - 1),
                KeyCode::Right => u.chars == v.chars && (v.cursor < v.chars.len() ==> u.cursor
                    == v.cursor + 1),
                KeyCode::Home => u.chars == v.chars && u.cursor == 0,
                KeyCode::End => u.chars == v.chars && u.cursor == v.chars.len(),
                _ => u == v,
            }
        }),
{
    let u = v.after(code);
    let left = v.chars.take(v.cursor);
    let right = v.chars.skip(v.cursor);
    match code {
        KeyCode::Char(c) => {
            assert(u.chars =~= left.push(c) + right);
        },
        KeyCode::Backspace => {
            if v.cursor > 0 {
                assert(u.chars =~= left.drop_last() + right);
            }
        },
        KeyCode::Delete => {
            if v.cursor < v.chars.len() {
                assert(u.chars =~= left + right.drop_first());
            }
        },
        _ => {},
    }
}

/// The caret is drawn at the cursor, and the text is otherwise as it is.
pub proof fn the_caret_is_at_the_cursor(v: InputV, i: int)
    requires
        v.ok(),
        0 <= i < v.chars.len(),
    ensures
        v.shown().len() == v.chars.len() + 1,
        v.shown()[v.cursor] == '▏',
        i < v.cursor ==> v.shown()[i] == v.chars[i],
        i >= v.cursor ==> v.shown()[i + 1] == v.chars[i],
{
}

} // verus!
