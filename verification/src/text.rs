//! Text as sequences of characters: comparison, slicing, joining and decimal
//! rendering. Every list of names in the crate is read through its deep view,
//! a sequence of character sequences.

use vstd::prelude::*;

verus! {

/// `String::push` appends one character.
pub assume_specification[ String::push ](s: &mut String, c: char)
    ensures
        final(s)@ == old(s)@.push(c),
;

/// Whether a character has the Unicode `White_Space` property.
pub open spec fn whitespace(c: char) -> bool {
    let n = c as int;
    ||| 0x09 <= n <= 0x0d
    ||| n == 0x20
    ||| n == 0x85
    ||| n == 0xa0
    ||| n == 0x1680
    ||| 0x2000 <= n <= 0x200a
    ||| n == 0x2028
    ||| n == 0x2029
    ||| n == 0x202f
    ||| n == 0x205f
    ||| n == 0x3000
}

/// `char::is_whitespace`: whether the character has the Unicode `White_Space`
/// property.
#[verifier::external_body]
fn is_whitespace(c: char) -> (r: bool)
    ensures
        r == whitespace(c),
{
    c.is_whitespace()
}

/// `a` and `b` agree before `k`, and at `k` either `a` ends or its character is smaller.
pub open spec fn lex_at(a: Seq<char>, b: Seq<char>, k: int) -> bool {
    &&& 0 <= k <= a.len()
    &&& k < b.len()
    &&& forall|i: int| #![auto] 0 <= i < k ==> a[i] == b[i]
    &&& k == a.len() || (a[k] as int) < (b[k] as int)
}

/// Strict lexicographic order by character value.
pub open spec fn lex_lt(a: Seq<char>, b: Seq<char>) -> bool {
    exists|k: int| lex_at(a, b, k)
}

/// Nothing sorts before itself.
pub proof fn lemma_lex_irreflexive(a: Seq<char>)
    ensures
        !lex_lt(a, a),
{
}

/// The order is transitive.
pub proof fn lemma_lex_transitive(a: Seq<char>, b: Seq<char>, c: Seq<char>)
    requires
        lex_lt(a, b),
        lex_lt(b, c),
    ensures
        lex_lt(a, c),
{
    let k = choose|k: int| lex_at(a, b, k);
    let m = choose|m: int| lex_at(b, c, m);
    if k <= m {
        assert(lex_at(a, c, k));
    } else {
        assert(lex_at(a, c, m));
    }
}

/// Two different texts are ordered one way or the other.
pub proof fn lemma_lex_total(a: Seq<char>, b: Seq<char>)
    ensures
        a == b || lex_lt(a, b) || lex_lt(b, a),
    decreases a.len(),
{
    if a != b {
        lemma_lex_total_from(a, b, 0);
    }
}

proof fn lemma_lex_total_from(a: Seq<char>, b: Seq<char>, k: int)
    requires
        a != b,
        0 <= k <= a.len(),
        k <= b.len(),
        forall|i: int| #![auto] 0 <= i < k ==> a[i] == b[i],
    ensures
        lex_lt(a, b) || lex_lt(b, a),
    decreases a.len() - k,
{
    if k == a.len() {
        if k == b.len() {
            assert(a =~= b);
        } else {
            assert(lex_at(a, b, k));
        }
    } else if k == b.len() {
        assert(lex_at(b, a, k));
    } else if a[k] == b[k] {
        lemma_lex_total_from(a, b, k + 1);
    } else if (a[k] as int) < (b[k] as int) {
        assert(lex_at(a, b, k));
    } else {
        assert(lex_at(b, a, k));
    }
}

/// The characters of `s`, one by one.
pub fn chars_of(s: &str) -> (r: Vec<char>)
    ensures
        r@ == s@,
{
    let mut out: Vec<char> = Vec::new();
    for c in it: s.chars()
        invariant
            out@ == it.seq().take(it.index()),
            it.seq() == s@,
    {
        out.push(c);
    }
    out
}

/// The text made of `cs`.
pub fn from_chars(cs: &Vec<char>) -> (r: String)
    ensures
        r@ == cs@,
{
    let mut out = String::new();
    let mut i: usize = 0;
    while i < cs.len()
        invariant
            i <= cs.len(),
            out@ == cs@.take(i as int),
        decreases cs.len() - i,
    {
        out.push(cs[i]);
        i += 1;
        assert(out@ =~= cs@.take(i as int));
    }
    assert(cs@.take(i as int) =~= cs@);
    out
}

/// An owned copy of `s`.
pub fn owned(s: &str) -> (r: String)
    ensures
        r@ == s@,
{
    s.to_owned()
}

/// `a` followed by `b`.
pub fn join2(a: &str, b: &str) -> (r: String)
    ensures
        r@ == a@ + b@,
{
    let mut out = a.to_owned();
    out.append(b);
    out
}

/// `a`, `b` and `c` in a row.
pub fn join3(a: &str, b: &str, c: &str) -> (r: String)
    ensures
        r@ == a@ + b@ + c@,
{
    let mut out = a.to_owned();
    out.append(b);
    out.append(c);
    out
}

/// Whether two texts hold the same characters.
pub fn same(a: &str, b: &str) -> (r: bool)
    ensures
        r == (a@ == b@),
{
    a.to_owned() == b.to_owned()
}

/// Whether `s` starts with `p`.
pub fn starts_with(s: &str, p: &str) -> (r: bool)
    ensures
        r == p@.is_prefix_of(s@),
{
    let a = chars_of(s);
    let b = chars_of(p);
    if b.len() > a.len() {
        return false;
    }
    let mut i: usize = 0;
    while i < b.len()
        invariant
            a@ == s@,
            b@ == p@,
            b.len() <= a.len(),
            i <= b.len(),
            forall|j: int| 0 <= j < i ==> a@[j] == b@[j],
        decreases b.len() - i,
    {
        if a[i] != b[i] {
            assert(a@.subrange(0, b@.len() as int)[i as int] != b@[i as int]);
            return false;
        }
        i += 1;
    }
    assert(b@ =~= a@.subrange(0, b@.len() as int));
    true
}

/// `s` without the prefix `p`, if it has it.
pub open spec fn stripped(s: Seq<char>, p: Seq<char>) -> Option<Seq<char>> {
    if p.is_prefix_of(s) {
        Some(s.skip(p.len() as int))
    } else {
        None
    }
}

/// `s` without the prefix `p`, if it has it.
pub fn strip_prefix(s: &str, p: &str) -> (r: Option<String>)
    ensures
        match r {
            Some(t) => stripped(s@, p@) == Some(t@),
            None => stripped(s@, p@) is None,
        },
{
    if starts_with(s, p) {
        let n: usize = s.unicode_len();
        let k: usize = p.unicode_len();
        let t = s.substring_char(k, n).to_owned();
        assert(t@ =~= s@.skip(k as int));
        Some(t)
    } else {
        None
    }
}

/// Whether `a` sorts strictly before `b`.
pub fn less(a: &str, b: &str) -> (r: bool)
    ensures
        r == lex_lt(a@, b@),
{
    let x = chars_of(a);
    let y = chars_of(b);
    let mut i: usize = 0;
    while i < x.len() && i < y.len() && x[i] == y[i]
        invariant
            x@ == a@,
            y@ == b@,
            i <= x.len(),
            i <= y.len(),
            forall|j: int| #![auto] 0 <= j < i ==> x@[j] == y@[j],
        decreases x.len() - i,
    {
        i += 1;
    }
    if i == y.len() {
        assert forall|k: int| !lex_at(a@, b@, k) by {
            if lex_at(a@, b@, k) {
                assert(a@[k] == b@[k]);
            }
        }
        false
    } else if i == x.len() {
        assert(lex_at(a@, b@, i as int));
        true
    } else {
        let r = x[i] < y[i];
        if r {
            assert(lex_at(a@, b@, i as int));
        } else {
            assert forall|k: int| !lex_at(a@, b@, k) by {
                if lex_at(a@, b@, k) {
                    if k < i {
                        assert(x@[k] == y@[k]);
                    } else if k > i {
                        assert(a@[i as int] == b@[i as int]);
                    }
                }
            }
        }
        r
    }
}

/// The text without leading and trailing whitespace.
pub open spec fn trimmed(s: Seq<char>) -> Seq<char>
    decreases s.len(),
{
    if s.len() == 0 {
        s
    } else if whitespace(s[0]) {
        trimmed(s.drop_first())
    } else if whitespace(s.last()) {
        trimmed(s.drop_last())
    } else {
        s
    }
}

proof fn lemma_trim_front(s: Seq<char>, k: int)
    requires
        0 <= k <= s.len(),
        forall|i: int| 0 <= i < k ==> whitespace(#[trigger] s[i]),
    ensures
        trimmed(s) == trimmed(s.skip(k)),
    decreases k,
{
    if k > 0 {
        assert(whitespace(s[0]));
        let t = s.drop_first();
        assert forall|i: int| 0 <= i < k - 1 implies whitespace(#[trigger] t[i]) by {
            assert(whitespace(s[i + 1]));
        }
        lemma_trim_front(t, k - 1);
        assert(t.skip(k - 1) =~= s.skip(k));
    } else {
        assert(s.skip(0) =~= s);
    }
}

proof fn lemma_trim_back(s: Seq<char>, k: int)
    requires
        0 < k <= s.len(),
        !whitespace(s[0]),
        forall|i: int| k <= i < s.len() ==> whitespace(#[trigger] s[i]),
    ensures
        trimmed(s) == trimmed(s.take(k)),
    decreases s.len() - k,
{
    if k < s.len() {
        assert(whitespace(s[s.len() - 1]));
        let t = s.drop_last();
        assert forall|i: int| k <= i < t.len() implies whitespace(#[trigger] t[i]) by {
            assert(whitespace(s[i]));
        }
        lemma_trim_back(t, k);
        assert(t.take(k) =~= s.take(k));
    } else {
        assert(s.take(k) =~= s);
    }
}

/// `s` without leading and trailing whitespace.
pub fn trim(s: &str) -> (r: String)
    ensures
        r@ == trimmed(s@),
{
    let cs = chars_of(s);
    let mut lo: usize = 0;
    while lo < cs.len() && is_whitespace(cs[lo])
        invariant
            lo <= cs.len(),
            forall|i: int| 0 <= i < lo ==> whitespace(#[trigger] cs@[i]),
        decreases cs.len() - lo,
    {
        lo += 1;
    }
    proof {
        lemma_trim_front(cs@, lo as int);
    }
    if lo == cs.len() {
        assert(cs@.skip(lo as int).len() == 0);
        return String::new();
    }
    let ghost mid = cs@.skip(lo as int);
    let mut hi: usize = cs.len();
    while hi > lo + 1 && is_whitespace(cs[hi - 1])
        invariant
            lo < hi <= cs.len(),
            !whitespace(cs@[lo as int]),
            forall|i: int| hi <= i < cs.len() ==> whitespace(#[trigger] cs@[i]),
        decreases hi,
    {
        hi -= 1;
    }
    proof {
        assert forall|i: int| hi - lo <= i < mid.len() implies whitespace(#[trigger] mid[i]) by {
            assert(whitespace(cs@[i + lo]));
        }
        lemma_trim_back(mid, hi - lo);
    }
    let mut out = String::new();
    let mut i: usize = lo;
    while i < hi
        invariant
            lo <= i <= hi <= cs.len(),
            out@ == cs@.subrange(lo as int, i as int),
        decreases hi - i,
    {
        out.push(cs[i]);
        i += 1;
        assert(out@ =~= cs@.subrange(lo as int, i as int));
    }
    assert(out@ =~= mid.take(hi - lo));
    assert(out@[0] == cs@[lo as int]);
    assert(out@.last() == cs@[hi - 1]);
    out
}

/// The characters of the decimal rendering of `n`.
pub open spec fn decimal(n: nat) -> Seq<char>
    decreases n,
{
    if n < 10 {
        seq![digit(n)]
    } else {
        decimal(n / 10).push(digit(n % 10))
    }
}

/// The character of one decimal digit.
pub open spec fn digit(d: nat) -> char {
    (48 + d) as char
}

fn digit_char(d: u64) -> (r: char)
    requires
        d < 10,
    ensures
        r == digit(d as nat),
{
    (48u8 + d as u8) as char
}

/// The decimal rendering of `n`.
pub fn show(n: u64) -> (r: String)
    ensures
        r@ == decimal(n as nat),
    decreases n,
{
    if n < 10 {
        let mut out = String::new();
        out.push(digit_char(n));
        assert(out@ =~= seq![digit(n as nat)]);
        out
    } else {
        let mut out = show(n / 10);
        out.push(digit_char(n % 10));
        out
    }
}

/// `n` in decimal, at least two digits wide.
pub open spec fn two_digits(n: nat) -> Seq<char> {
    if n < 10 {
        seq!['0', digit(n)]
    } else {
        decimal(n)
    }
}

/// `n` in decimal, with a leading zero when it has one digit.
pub fn show2(n: u64) -> (r: String)
    ensures
        r@ == two_digits(n as nat),
{
    if n < 10 {
        let mut out = String::new();
        out.push('0');
        out.push(digit_char(n));
        assert(out@ =~= seq!['0', digit(n as nat)]);
        out
    } else {
        show(n)
    }
}

/// `n` spaces.
pub open spec fn blanks(n: nat) -> Seq<char> {
    Seq::new(n, |i: int| ' ')
}

/// `s` padded on the right with spaces to at least `w` characters.
pub open spec fn padded(s: Seq<char>, w: nat) -> Seq<char> {
    if s.len() >= w {
        s
    } else {
        s + blanks((w - s.len()) as nat)
    }
}

/// `s` padded on the right to at least `w` characters.
pub fn pad(s: &str, w: usize) -> (r: String)
    ensures
        r@ == padded(s@, w as nat),
{
    let n: usize = s.unicode_len();
    let mut out = s.to_owned();
    let mut i: usize = n;
    while i < w
        invariant
            n == s@.len(),
            n <= i,
            i <= w || i == n,
            out@ == s@ + blanks((i - n) as nat),
        decreases w - i,
    {
        out.push(' ');
        i += 1;
        assert(out@ =~= s@ + blanks((i - n) as nat));
    }
    assert(s@ + blanks(0) =~= s@);
    out
}

/// `c` repeated `n` times.
pub fn repeat(c: char, n: usize) -> (r: String)
    ensures
        r@ == Seq::new(n as nat, |i: int| c),
{
    let mut out = String::new();
    let mut i: usize = 0;
    while i < n
        invariant
            i <= n,
            out@ == Seq::new(i as nat, |j: int| c),
        decreases n - i,
    {
        out.push(c);
        i += 1;
        assert(out@ =~= Seq::new(i as nat, |j: int| c));
    }
    out
}

/// The texts of `parts` in order, with `sep` between neighbours.
pub open spec fn joined(parts: Seq<Seq<char>>, sep: Seq<char>) -> Seq<char>
    decreases parts.len(),
{
    if parts.len() == 0 {
        Seq::empty()
    } else if parts.len() == 1 {
        parts[0]
    } else {
        joined(parts.drop_last(), sep) + sep + parts.last()
    }
}

/// Joins `parts` with `sep`.
pub fn join(parts: &Vec<String>, sep: &str) -> (r: String)
    ensures
        r@ == joined(parts.deep_view(), sep@),
{
    let mut out = String::new();
    let mut i: usize = 0;
    while i < parts.len()
        invariant
            i <= parts.len(),
            out@ == joined(parts.deep_view().take(i as int), sep@),
        decreases parts.len() - i,
    {
        if i > 0 {
            out.append(sep);
        }
        out.append(parts[i].as_str());
        i += 1;
        let ghost t = parts.deep_view().take(i as int);
        assert(t.drop_last() =~= parts.deep_view().take(i - 1));
        assert(t.last() == parts[i - 1]@);
        if i == 1 {
            assert(out@ =~= t[0]);
        }
    }
    assert(parts.deep_view().take(i as int) =~= parts.deep_view());
    out
}

/// Trimming cuts white space off both ends and nothing else: what is left is a part of the
/// text in one piece, with no white space at its ends, and what is cut is white space.
/// Returns where the part begins and ends.
pub proof fn trimming_cuts_white_space_only(s: Seq<char>) -> (r: (int, int))
    ensures
        0 <= r.0 <= r.1 <= s.len(),
        trimmed(s) == s.subrange(r.0, r.1),
        forall|i: int| 0 <= i < r.0 || r.1 <= i < s.len() ==> #[trigger] whitespace(s[i]),
        r.0 < r.1 ==> !whitespace(s[r.0]) && !whitespace(s[r.1 - 1]),
    decreases s.len(),
{
    if s.len() == 0 {
        assert(s.subrange(0, 0) =~= s);
        (0, 0)
    } else if whitespace(s[0]) {
        let t = s.drop_first();
        let (a, b) = trimming_cuts_white_space_only(t);
        assert(t.subrange(a, b) =~= s.subrange(a + 1, b + 1));
        assert forall|i: int| 0 <= i < a + 1 || b + 1 <= i < s.len() implies #[trigger] whitespace(
            s[i],
        ) by {
            if i > 0 {
                assert(whitespace(t[i - 1]));
            }
        }
        (a + 1, b + 1)
    } else if whitespace(s.last()) {
        let t = s.drop_last();
        let (a, b) = trimming_cuts_white_space_only(t);
        assert(t.subrange(a, b) =~= s.subrange(a, b));
        assert forall|i: int| 0 <= i < a || b <= i < s.len() implies #[trigger] whitespace(
            s[i],
        ) by {
            if i < t.len() {
                assert(whitespace(t[i]));
            }
        }
        (a, b)
    } else {
        assert(s.subrange(0, s.len() as int) =~= s);
        (0, s.len() as int)
    }
}

/// The number that a row of digits stands for.
pub open spec fn number(s: Seq<char>) -> int
    decreases s.len(),
{
    if s.len() == 0 {
        0
    } else {
        10 * number(s.drop_last()) + (s.last() as int - '0' as int)
    }
}

/// A number in decimal is a row of digits that stands for it, without a leading zero.
pub proof fn decimals_read_back(n: nat)
    ensures
        number(decimal(n)) == n,
        decimal(n).len() > 0,
        forall|i: int| 0 <= i < decimal(n).len() ==> '0' <= #[trigger] decimal(n)[i] <= '9',
        n > 0 ==> decimal(n)[0] != '0',
    decreases n,
{
    if n < 10 {
        let s = decimal(n);
        assert(s.drop_last() =~= Seq::<char>::empty());
        assert(s.last() == digit(n));
        assert(digit(n) as int == 48 + n);
        reveal_with_fuel(number, 2);
    } else {
        decimals_read_back(n / 10);
        let t = decimal(n / 10);
        let s = decimal(n);
        assert(s.drop_last() =~= t);
        assert(s.last() == digit(n % 10));
        assert(digit(n % 10) as int == 48 + n % 10);
        assert(s[0] == t[0]);
        assert forall|i: int| 0 <= i < s.len() implies '0' <= #[trigger] s[i] <= '9' by {
            if i < t.len() {
                assert(s[i] == t[i]);
            }
        }
    }
}

/// Numbers below a hundred take two digits.
pub proof fn two_digits_read_back(n: nat)
    requires
        n < 100,
    ensures
        two_digits(n).len() == 2,
        number(two_digits(n)) == n,
{
    let s = two_digits(n);
    reveal_with_fuel(number, 3);
    reveal_with_fuel(decimal, 3);
    if n < 10 {
        assert(digit(n) as int == 48 + n);
        assert(s.drop_last() =~= seq!['0']);
        assert(s.drop_last().drop_last() =~= Seq::<char>::empty());
    } else {
        decimals_read_back(n);
        assert(n / 10 < 10);
        assert(decimal(n) =~= seq![digit(n / 10), digit(n % 10)]);
    }
}

/// Padding keeps the text and puts blanks behind it, just up to the width.
pub proof fn padding_adds_blanks_only(s: Seq<char>, w: nat)
    ensures
        s.is_prefix_of(padded(s, w)),
        padded(s, w).len() == if s.len() < w {
            w
        } else {
            s.len()
        },
        forall|i: int| s.len() <= i < padded(s, w).len() ==> #[trigger] padded(s, w)[i] == ' ',
{
    assert(padded(s, w).take(s.len() as int) =~= s);
    assert(s =~= padded(s, w).subrange(0, s.len() as int));
}

/// Joining puts every part in, in order, with the separator between neighbours only.
pub proof fn joining_separates_neighbours(
    parts: Seq<Seq<char>>,
    part: Seq<char>,
    sep: Seq<char>,
)
    ensures
        joined(Seq::empty(), sep) == Seq::<char>::empty(),
        joined(seq![part], sep) == part,
        parts.len() > 0 ==> joined(parts.push(part), sep) == joined(parts, sep) + sep + part,
{
    assert(parts.push(part).drop_last() =~= parts);
}

/// Taking a prefix off leaves what stands behind it, and only a text that has the prefix
/// gives anything.
pub proof fn stripping_undoes_prefixing(s: Seq<char>, p: Seq<char>, t: Seq<char>)
    ensures
        stripped(p + t, p) == Some(t),
        stripped(s, p) matches Some(rest) ==> s == p + rest,
        stripped(s, p) is None ==> s != p + t,
{
    assert(p.is_prefix_of(p + t)) by {
        assert((p + t).subrange(0, p.len() as int) =~= p);
    }
    assert((p + t).skip(p.len() as int) =~= t);
    if let Some(rest) = stripped(s, p) {
        assert(s =~= p + rest);
    }
}

} // verus!
