//! A checkbox list.

use vstd::prelude::*;

use crate::list;
use crate::text::join2;
use crate::tui::key::{down, is_down, is_up, next_in, prev_in, up, KeyCode, KeyEvent};
use crate::tui::line::{blank, line1, line2, put_line, put_span, sp, span, styled, Line, SpanV};
use crate::tui::theme;

verus! {

/// A checkbox list: navigate with the arrows or j/k, toggle with Space. Enter is
/// left to the owner.
#[derive(Debug)]
pub struct MultiSelect {
    items: Vec<String>,
    checked: Vec<bool>,
    cursor: usize,
    annotate: Vec<String>,
}

/// The contents of a checkbox list.
#[verifier::ext_equal]
pub struct MultiV {
    pub items: Seq<Seq<char>>,
    pub checked: Seq<bool>,
    pub cursor: int,
    pub annotate: Seq<Seq<char>>,
}

/// The items that are checked, in order.
pub open spec fn picked(items: Seq<Seq<char>>, checked: Seq<bool>) -> Seq<Seq<char>>
    decreases items.len(),
{
    if items.len() == 0 {
        Seq::empty()
    } else {
        let before = picked(items.drop_last(), checked);
        if checked[items.len() - 1] {
            before.push(items.last())
        } else {
            before
        }
    }
}

impl MultiV {
    /// One box per item, and the cursor on an item if there is one.
    pub open spec fn ok(self) -> bool {
        &&& self.checked.len() == self.items.len()
        &&& 0 <= self.cursor
        &&& self.items.len() == 0 || self.cursor < self.items.len()
    }

    /// The list after a key.
    pub open spec fn after(self, code: KeyCode) -> MultiV {
        let n = self.items.len() as int;
        if n == 0 {
            self
        } else if is_down(code) {
            MultiV { cursor: next_in(self.cursor, n), ..self }
        } else if is_up(code) {
            MultiV { cursor: prev_in(self.cursor, n), ..self }
        } else if code == KeyCode::Char(' ') {
            MultiV { checked: self.checked.update(self.cursor, !self.checked[self.cursor]), ..self }
        } else {
            self
        }
    }

    /// The checked items, in order.
    pub open spec fn selected(self) -> Seq<Seq<char>> {
        picked(self.items, self.checked)
    }

    /// The line of one item.
    pub open spec fn row(self, i: int) -> Seq<SpanV> {
        let mark = if self.checked[i] {
            sp("[x]"@, theme::accent())
        } else {
            sp("[ ]"@, theme::faint())
        };
        let base = seq![mark, sp(" "@ + self.items[i], theme::text())];
        if self.annotate.contains(self.items[i]) {
            base.push(sp("  (now global)"@, theme::faint()))
        } else {
            base
        }
    }

    /// The lines of the list: title, blank, one line per item.
    pub open spec fn lines(self, title: Seq<char>) -> Seq<Seq<SpanV>> {
        seq![seq![sp(title, theme::dim())], Seq::empty()] + Seq::new(
            self.items.len(),
            |i: int| self.row(i),
        )
    }
}

/// Only listed items can be selected.
pub proof fn selected_are_items(items: Seq<Seq<char>>, checked: Seq<bool>)
    ensures
        forall|k: Seq<char>| #[trigger]
            picked(items, checked).contains(k) <==> exists|i: int|
                0 <= i < items.len() && #[trigger] items[i] == k && checked[i],
    decreases items.len(),
{
    if items.len() > 0 {
        let t = items.drop_last();
        selected_are_items(t, checked);
        let before = picked(t, checked);
        list::lemma_push_contains(before, items.last());
        assert forall|k: Seq<char>| #[trigger] picked(items, checked).contains(k) <==> exists|
            i: int,
        |
            0 <= i < items.len() && #[trigger] items[i] == k && checked[i] by {
            if before.contains(k) {
                let i = choose|i: int| 0 <= i < t.len() && #[trigger] t[i] == k && checked[i];
                assert(items[i] == k);
            }
            if exists|i: int| 0 <= i < items.len() && #[trigger] items[i] == k && checked[i] {
                let i = choose|i: int|
                    0 <= i < items.len() && #[trigger] items[i] == k && checked[i];
                if i < t.len() {
                    assert(t[i] == k);
                }
            }
            if checked[items.len() - 1] && k == items.last() {
                assert(items[items.len() - 1] == k);
            }
        }
    }
}

/// No key breaks the list: one box per item, the cursor on an item.
pub proof fn keys_keep_the_list_ok(v: MultiV, code: KeyCode)
    requires
        v.ok(),
    ensures
        v.after(code).ok(),
{
    if v.items.len() > 0 {
        crate::tui::key::moves_stay_in_range(v.cursor, v.items.len() as int);
    }
}

/// Space twice leaves the list as it was.
pub proof fn toggling_twice_is_identity(v: MultiV)
    requires
        v.ok(),
    ensures
        v.after(KeyCode::Char(' ')).after(KeyCode::Char(' ')) == v,
{
    if v.items.len() > 0 {
        assert(v.checked.update(v.cursor, !v.checked[v.cursor]).update(
            v.cursor,
            v.checked[v.cursor],
        ) =~= v.checked);
    }
}

impl View for MultiSelect {
    type V = MultiV;

    closed spec fn view(&self) -> MultiV {
        MultiV {
            items: self.items.deep_view(),
            checked: self.checked@,
            cursor: self.cursor as int,
            annotate: self.annotate.deep_view(),
        }
    }
}

impl MultiSelect {
    #[verifier::type_invariant]
    spec fn inv(self) -> bool {
        &&& self.checked@.len() == self.items@.len()
        &&& self.items@.len() == 0 || self.cursor < self.items@.len()
    }

    /// A list of `items` with the `preselected` ones checked.
    pub fn new(items: Vec<String>, preselected: &Vec<String>) -> (r: MultiSelect)
        ensures
            r@ == (MultiV {
                items: items.deep_view(),
                checked: Seq::new(
                    items.len() as nat,
                    |i: int| preselected.deep_view().contains(items[i]@),
                ),
                cursor: 0,
                annotate: Seq::empty(),
            }),
    {
        let mut checked: Vec<bool> = Vec::new();
        let mut i: usize = 0;
        while i < items.len()
            invariant
                i <= items.len(),
                checked@.len() == i,
                forall|j: int|
                    0 <= j < i ==> #[trigger] checked@[j] == preselected.deep_view().contains(
                        items[j]@,
                    ),
            decreases items.len() - i,
        {
            checked.push(list::contains(preselected, items[i].as_str()));
            i += 1;
        }
        let r = MultiSelect { items, checked, cursor: 0, annotate: Vec::new() };
        assert(r@.checked =~= Seq::new(
            items.len() as nat,
            |i: int| preselected.deep_view().contains(items[i]@),
        ));
        assert(r@.annotate =~= Seq::<Seq<char>>::empty());
        r
    }

    /// The same list with `keys` marked as global when shown.
    pub fn annotated(self, keys: &Vec<String>) -> (r: MultiSelect)
        ensures
            r@ == (MultiV { annotate: keys.deep_view(), ..self@ }),
    {
        proof {
            use_type_invariant(&self);
        }
        MultiSelect {
            items: self.items,
            checked: self.checked,
            cursor: self.cursor,
            annotate: list::copy(keys),
        }
    }

    /// Acts on a key.
    pub fn on_key(&mut self, key: KeyEvent)
        ensures
            final(self)@ == old(self)@.after(key.code),
    {
        proof {
            use_type_invariant(&*self);
        }
        let n: usize = self.items.len();
        assert(n == self@.items.len());
        if n == 0 {
            return;
        }
        match key.code {
            KeyCode::Down | KeyCode::Char('j') => {
                self.cursor = down(self.cursor, n);
            },
            KeyCode::Up | KeyCode::Char('k') => {
                self.cursor = up(self.cursor, n);
            },
            KeyCode::Char(' ') => {
                let c = self.checked[self.cursor];
                self.checked[self.cursor] = !c;
            },
            _ => {},
        }
    }

    /// The checked items, in order.
    pub fn selected(&self) -> (r: Vec<String>)
        ensures
            r.deep_view() == self@.selected(),
    {
        proof {
            use_type_invariant(self);
        }
        let ghost items = self@.items;
        let ghost checked = self@.checked;
        let mut out: Vec<String> = Vec::new();
        assert(out.deep_view() =~= Seq::<Seq<char>>::empty());
        let mut i: usize = 0;
        while i < self.items.len()
            invariant
                i <= self.items@.len(),
                self.checked@.len() == self.items@.len(),
                items == self.items.deep_view(),
                checked == self.checked@,
                out.deep_view() == picked(items.take(i as int), checked),
            decreases self.items.len() - i,
        {
            let ghost before = out.deep_view();
            proof {
                let t = items.take(i + 1);
                assert(t.drop_last() =~= items.take(i as int));
                assert(t.last() == items[i as int]);
            }
            if self.checked[i] {
                out.push(self.items[i].clone());
                assert(out.deep_view() =~= before.push(items[i as int]));
            }
            i += 1;
        }
        assert(items.take(i as int) =~= items);
        out
    }

    /// The lines to draw: title, blank, one line per item.
    pub fn lines(&self, title: &str) -> (r: Vec<Line>)
        ensures
            r.deep_view() == self@.lines(title@),
    {
        proof {
            use_type_invariant(self);
        }
        let ghost v = self@;
        let ghost head = seq![seq![sp(title@, theme::dim())], Seq::<SpanV>::empty()];
        let mut out = crate::tui::line::no_lines();
        put_line(&mut out, line1(styled(title, theme::dim())));
        put_line(&mut out, blank());
        assert(out.deep_view() =~= head);
        let mut i: usize = 0;
        while i < self.items.len()
            invariant
                i <= self.items@.len(),
                self.checked@.len() == self.items@.len(),
                v == self@,
                out.deep_view() =~= head + Seq::new(i as nat, |j: int| v.row(j)),
            decreases self.items.len() - i,
        {
            let mark = if self.checked[i] {
                styled("[x]", theme::accent())
            } else {
                styled("[ ]", theme::faint())
            };
            let mut l = line2(mark, span(join2(" ", self.items[i].as_str()), theme::text()));
            if list::contains(&self.annotate, self.items[i].as_str()) {
                put_span(&mut l, styled("  (now global)", theme::faint()));
            }
            assert(l@ =~= v.row(i as int));
            put_line(&mut out, l);
            i += 1;
        }
        assert(out.deep_view() =~= v.lines(title@));
        out
    }

    /// The item under the cursor, if there is an item.
    pub fn selected_row(&self) -> (r: Option<usize>)
        ensures
            r is Some <==> self@.items.len() > 0,
            r matches Some(i) ==> i == self@.cursor && i < self@.items.len(),
    {
        proof {
            use_type_invariant(self);
        }
        if self.items.len() == 0 {
            None
        } else {
            Some(self.cursor)
        }
    }
}

/// Every checked item is selected and no other, in the order of the list. Returns the
/// positions of the selected items.
pub proof fn every_checked_item_is_selected(v: MultiV) -> (ix: Seq<int>)
    requires
        v.ok(),
    ensures
        list::picks(ix, v.items.len() as int, |i: int| v.checked[i]),
        v.selected().len() == ix.len(),
        forall|k: int| 0 <= k < ix.len() ==> #[trigger] v.selected()[k] == v.items[ix[k]],
{
    let n = v.items.len() as int;
    let p = |i: int| v.checked[i];
    list::lemma_picked(n, p);
    lemma_picked_items(v.items, v.checked);
    list::picked(n, p)
}

proof fn lemma_picked_items(items: Seq<Seq<char>>, checked: Seq<bool>)
    ensures
        picked(items, checked) == list::picked(
            items.len() as int,
            |i: int| checked[i],
        ).map_values(|i: int| items[i]),
    decreases items.len(),
{
    let n = items.len() as int;
    let p = |i: int| checked[i];
    if n > 0 {
        let t = items.drop_last();
        lemma_picked_items(t, checked);
        list::lemma_picked(n - 1, p);
        let before = list::picked(n - 1, p);
        assert(before.map_values(|i: int| t[i]) =~= before.map_values(|i: int| items[i]));
    }
    assert(picked(items, checked) =~= list::picked(n, p).map_values(|i: int| items[i]));
}

/// Space turns the item under the cursor over and no other; moving changes no box, and no
/// key changes the items.
pub proof fn space_turns_one_item_over(v: MultiV, code: KeyCode, i: int)
    requires
        v.ok(),
        0 <= i < v.items.len(),
    ensures
        v.after(code).items == v.items,
        v.after(code).checked[i] == if code == KeyCode::Char(' ') && i == v.cursor {
            !v.checked[i]
        } else {
            v.checked[i]
        },
{
}

/// Every item has its line below the title, with its box, and a note just where it is asked
/// for.
pub proof fn every_item_has_its_box(v: MultiV, title: Seq<char>, i: int)
    requires
        0 <= i < v.items.len(),
    ensures
        v.lines(title).len() == v.items.len() + 2,
        v.lines(title)[i + 2][0].text == if v.checked[i] {
            "[x]"@
        } else {
            "[ ]"@
        },
        v.lines(title)[i + 2][1].text == " "@ + v.items[i],
        v.annotate.contains(v.items[i]) ==> v.lines(title)[i + 2][2].text == "  (now global)"@,
        !v.annotate.contains(v.items[i]) ==> v.lines(title)[i + 2].len() == 2,
{
}

/// Moving goes round the items.
pub proof fn moving_goes_round_the_items(v: MultiV)
    requires
        v.ok(),
        v.items.len() > 0,
    ensures
        v.after(KeyCode::Down).cursor == if v.cursor + 1 == v.items.len() {
            0
        } else {
            v.cursor + 1
        },
        v.after(KeyCode::Up).cursor == if v.cursor == 0 {
            v.items.len() - 1
        } else {
            v.cursor - 1
        },
        v.after(KeyCode::Char(' ')).cursor == v.cursor,
{
    crate::tui::key::cursors_go_round(v.cursor, v.items.len() as int);
}

} // verus!
