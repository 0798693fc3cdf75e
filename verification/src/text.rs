//! Character-level helpers shared by the header parsers and formatters:
//! decimal numbers, whitespace trimming and splitting.

use vstd::prelude::*;
use vstd::string::*;

verus! {

/// The ASCII digit for `d` (taken modulo ten).
pub open spec fn digit_char(d: nat) -> char {
    let d = d % 10;
    if d == 0 {
        '0'
    } else if d == 1 {
        '1'
    } else if d == 2 {
        '2'
    } else if d == 3 {
        '3'
    } else if d == 4 {
        '4'
    } else if d == 5 {
        '5'
    } else if d == 6 {
        '6'
    } else if d == 7 {
        '7'
    } else if d == 8 {
        '8'
    } else {
        '9'
    }
}

/// The shortest decimal rendering of `n`, as `u64::to_string` writes it.
pub open spec fn decimal(n: nat) -> Seq<char>
    decreases n,
{
    if n < 10 {
        seq![digit_char(n)]
    } else {
        decimal(n / 10).push(digit_char(n % 10))
    }
}

/// The bytes of a text made only of ASCII characters.
pub open spec fn ascii_bytes(s: Seq<char>) -> Seq<u8> {
    s.map_values(|c: char| c as u8)
}

/// A digit character, cast to a byte, is `b'0'` plus the digit.
pub proof fn lemma_digit_char_byte(d: nat)
    requires
        d < 10,
    ensures
        digit_char(d) as u8 == 48 + d,
{
}

/// Appends one character to a `String` (`String::push`).
#[verifier::external_body]
pub(crate) fn push_char(s: &mut String, c: char)
    ensures
        final(s)@ == old(s)@.push(c),
{
    s.push(c);
}

fn digit_of(d: u64) -> (c: char)
    ensures
        c == digit_char(d as nat),
{
    let d = d % 10;
    if d == 0 {
        '0'
    } else if d == 1 {
        '1'
    } else if d == 2 {
        '2'
    } else if d == 3 {
        '3'
    } else if d == 4 {
        '4'
    } else if d == 5 {
        '5'
    } else if d == 6 {
        '6'
    } else if d == 7 {
        '7'
    } else if d == 8 {
        '8'
    } else {
        '9'
    }
}

/// Appends the decimal rendering of `n` to `s`.
pub fn push_decimal(s: &mut String, n: u64)
    ensures
        final(s)@ == old(s)@ + decimal(n as nat),
    decreases n,
{
    if n >= 10 {
        push_decimal(s, n / 10);
    }
    push_char(s, digit_of(n % 10));
    assert(decimal(n as nat) =~= if n < 10 {
        seq![digit_char(n as nat)]
    } else {
        decimal((n / 10) as nat).push(digit_char((n % 10) as nat))
    });
}

/// The decimal rendering of `n`.
pub fn u64_to_decimal(n: u64) -> (s: String)
    ensures
        s@ == decimal(n as nat),
{
    let mut s = String::new();
    push_decimal(&mut s, n);
    assert(s@ =~= decimal(n as nat));
    s
}



// ---------- whitespace ----------

/// `char::is_whitespace`: the characters with the Unicode `White_Space` property.
pub open spec fn is_ws(c: char) -> bool {
    ||| ('\u{9}' <= c && c <= '\u{d}')
    ||| c == ' '
    ||| c == '\u{85}'
    ||| c == '\u{a0}'
    ||| c == '\u{1680}'
    ||| ('\u{2000}' <= c && c <= '\u{200a}')
    ||| c == '\u{2028}'
    ||| c == '\u{2029}'
    ||| c == '\u{202f}'
    ||| c == '\u{205f}'
    ||| c == '\u{3000}'
}

/// Whether `c` is whitespace, as `char::is_whitespace` decides.
pub fn is_whitespace(c: char) -> (b: bool)
    ensures
        b == is_ws(c),
{
    ('\u{9}' <= c && c <= '\u{d}') || c == ' ' || c == '\u{85}' || c == '\u{a0}' || c
        == '\u{1680}' || ('\u{2000}' <= c && c <= '\u{200a}') || c == '\u{2028}' || c
        == '\u{2029}' || c == '\u{202f}' || c == '\u{205f}' || c == '\u{3000}'
}

/// `s` without its leading whitespace.
pub open spec fn trim_start(s: Seq<char>) -> Seq<char>
    decreases s.len(),
{
    if s.len() > 0 && is_ws(s[0]) {
        trim_start(s.drop_first())
    } else {
        s
    }
}

/// `s` without its trailing whitespace.
pub open spec fn trim_end(s: Seq<char>) -> Seq<char>
    decreases s.len(),
{
    if s.len() > 0 && is_ws(s.last()) {
        trim_end(s.drop_last())
    } else {
        s
    }
}

/// `str::trim`: `s` without leading and trailing whitespace.
pub open spec fn trim(s: Seq<char>) -> Seq<char> {
    trim_end(trim_start(s))
}

// ---------- searching and splitting ----------

/// The index of the first `c` in `s`, or `s.len()` when there is none.
pub open spec fn find(s: Seq<char>, c: char) -> nat
    decreases s.len(),
{
    if s.len() == 0 {
        0
    } else if s[0] == c {
        0
    } else {
        1 + find(s.drop_first(), c)
    }
}

/// `str::split` on one character: the pieces between the occurrences of `c`,
/// always at least one.
pub open spec fn split(s: Seq<char>, c: char) -> Seq<Seq<char>>
    decreases s.len(),
{
    let i = find(s, c);
    if i < s.len() {
        seq![s.subrange(0, i as int)].add(split(s.subrange(i + 1int, s.len() as int), c))
    } else {
        seq![s]
    }
}

/// Joins the pieces with `sep` between them.
pub open spec fn join(parts: Seq<Seq<char>>, sep: Seq<char>) -> Seq<char>
    decreases parts.len(),
{
    if parts.len() == 0 {
        Seq::empty()
    } else if parts.len() == 1 {
        parts[0]
    } else {
        join(parts.drop_last(), sep) + sep + parts.last()
    }
}

/// What `find` returns: no `c` before it, and `c` at it unless it is the end.
pub proof fn lemma_find(s: Seq<char>, c: char)
    ensures
        find(s, c) <= s.len(),
        find(s, c) < s.len() ==> s[find(s, c) as int] == c,
        forall|j: int| 0 <= j < find(s, c) ==> s[j] != c,
    decreases s.len(),
{
    if s.len() > 0 && s[0] != c {
        lemma_find(s.drop_first(), c);
        assert forall|j: int| 0 <= j < find(s, c) implies s[j] != c by {
            if j > 0 {
                assert(s[j] == s.drop_first()[j - 1]);
            }
        }
    }
}

/// An index with no `c` before it, and `c` at it or at the end, is `find`.
pub proof fn lemma_find_unique(s: Seq<char>, c: char, i: int)
    requires
        0 <= i <= s.len(),
        i < s.len() ==> s[i] == c,
        forall|j: int| 0 <= j < i ==> s[j] != c,
    ensures
        find(s, c) == i,
    decreases s.len(),
{
    if s.len() > 0 && i > 0 {
        assert(s[0] != c);
        assert forall|j: int| 0 <= j < i - 1 implies s.drop_first()[j] != c by {
            assert(s.drop_first()[j] == s[j + 1]);
        }
        if i - 1 < s.drop_first().len() {
            assert(s.drop_first()[i - 1] == s[i]);
        }
        lemma_find_unique(s.drop_first(), c, i - 1);
    }
}

// ---------- executable helpers on character vectors ----------

/// The characters of `s`.
pub fn chars_of(s: &str) -> (v: Vec<char>)
    ensures
        v@ == s@,
{
    let n = s.unicode_len();
    let mut v: Vec<char> = Vec::new();
    let mut i: usize = 0;
    while i < n
        invariant
            n == s@.len(),
            i <= n,
            v@ == s@.subrange(0, i as int),
        decreases n - i,
    {
        v.push(s.get_char(i));
        i = i + 1;
        assert(v@ =~= s@.subrange(0, i as int));
    }
    assert(v@ =~= s@);
    v
}

/// A new `String` holding `v[lo..hi]`.
pub fn string_from(v: &Vec<char>, lo: usize, hi: usize) -> (s: String)
    requires
        lo <= hi <= v@.len(),
    ensures
        s@ == v@.subrange(lo as int, hi as int),
{
    let mut s = String::new();
    let mut i = lo;
    while i < hi
        invariant
            lo <= i <= hi <= v@.len(),
            s@ == v@.subrange(lo as int, i as int),
        decreases hi - i,
    {
        push_char(&mut s, v[i]);
        i = i + 1;
        assert(s@ =~= v@.subrange(lo as int, i as int));
    }
    s
}

/// Appends `t` to `s`.
pub fn push_str(s: &mut String, t: &str)
    ensures
        final(s)@ == old(s)@ + t@,
{
    let n = t.unicode_len();
    let mut i: usize = 0;
    while i < n
        invariant
            n == t@.len(),
            i <= n,
            s@ == old(s)@ + t@.subrange(0, i as int),
        decreases n - i,
    {
        push_char(s, t.get_char(i));
        i = i + 1;
        assert(s@ =~= old(s)@ + t@.subrange(0, i as int));
    }
    assert(t@.subrange(0, n as int) =~= t@);
}

/// Whether `v[lo..hi]` is exactly the text `t`.
pub fn range_eq(v: &Vec<char>, lo: usize, hi: usize, t: &str) -> (b: bool)
    requires
        lo <= hi <= v@.len(),
    ensures
        b == (v@.subrange(lo as int, hi as int) == t@),
{
    let n = t.unicode_len();
    if hi - lo != n {
        return false;
    }
    let mut i: usize = 0;
    while i < n
        invariant
            n == t@.len(),
            hi - lo == n,
            lo <= hi <= v@.len(),
            i <= n,
            forall|j: int| 0 <= j < i ==> v@[lo + j] == t@[j],
        decreases n - i,
    {
        if v[lo + i] != t.get_char(i) {
            assert(v@.subrange(lo as int, hi as int)[i as int] != t@[i as int]);
            return false;
        }
        i = i + 1;
    }
    assert(v@.subrange(lo as int, hi as int) =~= t@);
    true
}

/// The index of the first `c` at or after `start`, or `hi` when there is none.
pub fn find_in(v: &Vec<char>, start: usize, hi: usize, c: char) -> (i: usize)
    requires
        start <= hi <= v@.len(),
    ensures
        i == start + find(v@.subrange(start as int, hi as int), c),
        start <= i <= hi,
{
    let mut i = start;
    while i < hi && v[i] != c
        invariant
            start <= i <= hi <= v@.len(),
            forall|j: int| start <= j < i ==> v@[j] != c,
        decreases hi - i,
    {
        i = i + 1;
    }
    proof {
        let sub = v@.subrange(start as int, hi as int);
        assert forall|j: int| 0 <= j < i - start implies sub[j] != c by {
            assert(sub[j] == v@[start + j]);
        }
        if i < hi {
            assert(sub[i - start] == v@[i as int]);
        }
        lemma_find_unique(sub, c, i - start);
    }
    i
}

/// Leading whitespace of a slice: removing it from `v[lo..hi]` leaves `v[a..hi]`.
pub proof fn lemma_trim_start_step(s: Seq<char>, a: int, hi: int)
    requires
        0 <= a < hi <= s.len(),
        is_ws(s[a]),
    ensures
        trim_start(s.subrange(a, hi)) == trim_start(s.subrange(a + 1, hi)),
{
    assert(s.subrange(a, hi).drop_first() =~= s.subrange(a + 1, hi));
}

/// Trailing whitespace of a slice: removing it from `v[a..b]` leaves `v[a..b-1]`.
pub proof fn lemma_trim_end_step(s: Seq<char>, a: int, b: int)
    requires
        0 <= a < b <= s.len(),
        is_ws(s[b - 1]),
    ensures
        trim_end(s.subrange(a, b)) == trim_end(s.subrange(a, b - 1)),
{
    assert(s.subrange(a, b).drop_last() =~= s.subrange(a, b - 1));
}

/// The bounds of `trim(v[lo..hi])` inside `v`.
pub fn trim_bounds(v: &Vec<char>, lo: usize, hi: usize) -> (r: (usize, usize))
    requires
        lo <= hi <= v@.len(),
    ensures
        lo <= r.0 <= r.1 <= hi,
        v@.subrange(r.0 as int, r.1 as int) == trim(v@.subrange(lo as int, hi as int)),
{
    let mut a = lo;
    while a < hi && is_whitespace(v[a])
        invariant
            lo <= a <= hi <= v@.len(),
            trim_start(v@.subrange(lo as int, hi as int)) == trim_start(
                v@.subrange(a as int, hi as int),
            ),
        decreases hi - a,
    {
        proof {
            lemma_trim_start_step(v@, a as int, hi as int);
        }
        a = a + 1;
    }
    assert(trim_start(v@.subrange(a as int, hi as int)) == v@.subrange(a as int, hi as int));
    let mut b = hi;
    while b > a && is_whitespace(v[b - 1])
        invariant
            lo <= a <= b <= hi <= v@.len(),
            trim(v@.subrange(lo as int, hi as int)) == trim_end(v@.subrange(a as int, b as int)),
        decreases b - a,
    {
        proof {
            lemma_trim_end_step(v@, a as int, b as int);
        }
        b = b - 1;
    }
    assert(trim_end(v@.subrange(a as int, b as int)) == v@.subrange(a as int, b as int));
    (a, b)
}



// ---------- unsigned integers ----------

/// Whether `c` is an ASCII decimal digit.
pub open spec fn is_digit(c: char) -> bool {
    '0' <= c && c <= '9'
}

/// The value of a decimal digit character.
pub open spec fn digit_value(c: char) -> nat {
    (c as int - 48) as nat
}

/// The value of a run of decimal digits (leading zeros allowed).
pub open spec fn digits_value(s: Seq<char>) -> nat
    decreases s.len(),
{
    if s.len() == 0 {
        0
    } else {
        digits_value(s.drop_last()) * 10 + digit_value(s.last())
    }
}

/// Every character of `s` is a decimal digit.
pub open spec fn all_digits(s: Seq<char>) -> bool {
    forall|i: int| 0 <= i < s.len() ==> is_digit(#[trigger] s[i])
}

/// The digits that `from_str` of an unsigned integer reads: one leading `+` is dropped.
pub open spec fn unsigned_body(s: Seq<char>) -> Seq<char> {
    if s.len() > 0 && s[0] == '+' {
        s.drop_first()
    } else {
        s
    }
}

/// `from_str` of an unsigned integer type whose largest value is `max`: an optional
/// `+`, then at least one decimal digit, with a value no larger than `max`.
pub open spec fn parse_unsigned(s: Seq<char>, max: nat) -> Option<nat> {
    let b = unsigned_body(s);
    if b.len() > 0 && all_digits(b) && digits_value(b) <= max {
        Some(digits_value(b))
    } else {
        None
    }
}

/// Adding digits never makes the value smaller.
pub proof fn lemma_digits_value_prefix(s: Seq<char>, k: int)
    requires
        0 <= k <= s.len(),
        all_digits(s),
    ensures
        digits_value(s.subrange(0, k)) <= digits_value(s),
    decreases s.len() - k,
{
    if k < s.len() {
        lemma_digits_value_prefix(s, k + 1);
        let t = s.subrange(0, k + 1);
        assert(t.drop_last() =~= s.subrange(0, k));
    } else {
        assert(s.subrange(0, k) =~= s);
    }
}

/// `parse_unsigned(v[lo..hi], max)`, computed.
pub fn parse_unsigned_in(v: &Vec<char>, lo: usize, hi: usize, max: u64) -> (r: Option<u64>)
    requires
        lo <= hi <= v@.len(),
    ensures
        r matches Some(n) ==> parse_unsigned(v@.subrange(lo as int, hi as int), max as nat)
            == Some(n as nat),
        r is None ==> parse_unsigned(v@.subrange(lo as int, hi as int), max as nat) is None,
{
    let ghost s = v@.subrange(lo as int, hi as int);
    let mut start = lo;
    if lo < hi && v[lo] == '+' {
        start = lo + 1;
    }
    let ghost body = v@.subrange(start as int, hi as int);
    assert(body =~= unsigned_body(s));
    if start == hi {
        return None;
    }
    let mut acc: u64 = 0;
    let mut i = start;
    while i < hi
        invariant
            lo <= start <= i <= hi <= v@.len(),
            body == v@.subrange(start as int, hi as int),
            body == unsigned_body(s),
            s == v@.subrange(lo as int, hi as int),
            all_digits(v@.subrange(start as int, i as int)),
            acc as nat == digits_value(v@.subrange(start as int, i as int)),
            acc <= max,
        decreases hi - i,
    {
        let c = v[i];
        if !('0' <= c && c <= '9') {
            assert(body[i - start] == c);
            return None;
        }
        let d = (c as u32 - 48) as u64;
        let ghost prefix = v@.subrange(start as int, i + 1);
        assert(prefix.drop_last() =~= v@.subrange(start as int, i as int));
        assert(all_digits(prefix));
        let next = match acc.checked_mul(10) {
            Some(m) => m.checked_add(d),
            None => None,
        };
        match next {
            Some(n) if n <= max => {
                acc = n;
                i = i + 1;
            },
            _ => {
                proof {
                    assert(digits_value(prefix) > max);
                    if all_digits(body) {
                        assert(prefix =~= body.subrange(0, i + 1 - start));
                        lemma_digits_value_prefix(body, i + 1 - start);
                    }
                }
                return None;
            },
        }
    }
    Some(acc)
}



// ---------- facts about the helpers ----------

/// A digit character is a digit, is not whitespace, and has the right value.
pub proof fn lemma_digit_char(d: nat)
    ensures
        is_digit(digit_char(d)),
        digit_value(digit_char(d)) == d % 10,
        !is_ws(digit_char(d)),
{
}

/// The decimal rendering is a non-empty run of digits with the right value.
pub proof fn lemma_decimal(n: nat)
    ensures
        decimal(n).len() > 0,
        all_digits(decimal(n)),
        digits_value(decimal(n)) == n,
    decreases n,
{
    lemma_digit_char(n);
    if n >= 10 {
        lemma_decimal(n / 10);
        let d = decimal(n);
        assert(d.drop_last() =~= decimal(n / 10));
        assert(d.last() == digit_char(n % 10));
        assert((n / 10) * 10 + n % 10 == n) by (nonlinear_arith);
        assert(digits_value(d) == digits_value(d.drop_last()) * 10 + digit_value(d.last()));
        assert forall|i: int| 0 <= i < d.len() implies is_digit(#[trigger] d[i]) by {
            if i < d.len() - 1 {
                assert(d[i] == decimal(n / 10)[i]);
            }
        }
    } else {
        let d = decimal(n);
        assert(d.drop_last() =~= Seq::<char>::empty());
        assert(digits_value(d.drop_last()) == 0);
        assert(digits_value(d) == digits_value(d.drop_last()) * 10 + digit_value(d.last()));
        assert(n % 10 == n);
    }
}

/// Reading back a decimal rendering gives the number.
pub proof fn lemma_parse_decimal(n: nat, max: nat)
    requires
        n <= max,
    ensures
        parse_unsigned(decimal(n), max) == Some(n),
{
    lemma_decimal(n);
    assert(is_digit(decimal(n)[0]));
}

/// A text without `c` is a single piece.
pub proof fn lemma_split_single(y: Seq<char>, c: char)
    requires
        forall|i: int| 0 <= i < y.len() ==> y[i] != c,
    ensures
        split(y, c) == seq![y],
{
    lemma_find_unique(y, c, y.len() as int);
}

/// Splitting `x`, `c`, `y` where `y` has no `c` gives the pieces of `x` and then `y`.
pub proof fn lemma_split_append(x: Seq<char>, c: char, y: Seq<char>)
    requires
        forall|i: int| 0 <= i < y.len() ==> y[i] != c,
    ensures
        split(x + seq![c] + y, c) == split(x, c).push(y),
    decreases x.len(),
{
    let s = x + seq![c] + y;
    lemma_find(x, c);
    let i0 = find(x, c);
    if i0 < x.len() {
        assert forall|j: int| 0 <= j < i0 implies s[j] != c by {
            assert(s[j] == x[j]);
        }
        assert(s[i0 as int] == x[i0 as int]);
        lemma_find_unique(s, c, i0 as int);
        let x1 = x.subrange(i0 + 1int, x.len() as int);
        lemma_split_append(x1, c, y);
        assert(s.subrange(0, i0 as int) =~= x.subrange(0, i0 as int));
        assert(s.subrange(i0 + 1int, s.len() as int) =~= x1 + seq![c] + y);
        assert(split(s, c) =~= split(x, c).push(y));
    } else {
        assert forall|j: int| 0 <= j < x.len() implies s[j] != c by {
            assert(s[j] == x[j]);
        }
        lemma_find_unique(s, c, x.len() as int);
        assert(s.subrange(0, x.len() as int) =~= x);
        assert(s.subrange(x.len() + 1int, s.len() as int) =~= y);
        lemma_split_single(y, c);
        lemma_find_unique(x, c, x.len() as int);
        assert(split(s, c) =~= split(x, c).push(y));
    }
}

/// Text without `c` anywhere.
pub open spec fn lacks(s: Seq<char>, c: char) -> bool {
    forall|i: int| 0 <= i < s.len() ==> s[i] != c
}

/// Splitting pieces joined by `", "` on `,` gives the pieces back, each but
/// the first with the space in front.
pub proof fn lemma_split_join(parts: Seq<Seq<char>>)
    requires
        parts.len() >= 1,
        forall|i: int| 0 <= i < parts.len() ==> lacks(#[trigger] parts[i], ','),
    ensures
        split(join(parts, ", "@), ',').len() == parts.len(),
        split(join(parts, ", "@), ',')[0] == parts[0],
        forall|i: int|
            1 <= i < parts.len() ==> split(join(parts, ", "@), ',')[i] == seq![' '] + parts[i],
    decreases parts.len(),
{
    reveal_strlit(", ");
    if parts.len() == 1 {
        assert(lacks(parts[0], ','));
        lemma_split_single(parts[0], ',');
    } else {
        let dl = parts.drop_last();
        assert forall|i: int| 0 <= i < dl.len() implies lacks(#[trigger] dl[i], ',') by {
            assert(dl[i] == parts[i]);
        }
        lemma_split_join(dl);
        let y = seq![' '] + parts.last();
        assert(lacks(parts.last(), ','));
        assert forall|i: int| 0 <= i < y.len() implies y[i] != ',' by {
            if i > 0 {
                assert(y[i] == parts.last()[i - 1]);
            }
        }
        assert(join(parts, ", "@) =~= join(dl, ", "@) + seq![','] + y);
        lemma_split_append(join(dl, ", "@), ',', y);
    }
}

/// Text with no whitespace at either end is its own trim, also after one space.
pub proof fn lemma_trim_clean(p: Seq<char>)
    requires
        p.len() > 0,
        !is_ws(p[0]),
        !is_ws(p.last()),
    ensures
        trim(p) == p,
        trim(seq![' '] + p) == p,
{
    assert((seq![' '] + p).drop_first() =~= p);
}



// ---------- non-empty pieces ----------

/// The non-empty pieces of a list, in order.
pub open spec fn nonempty_pieces(ps: Seq<Seq<char>>) -> Seq<Seq<char>>
    decreases ps.len(),
{
    if ps.len() == 0 {
        Seq::empty()
    } else if ps[0].len() > 0 {
        seq![ps[0]] + nonempty_pieces(ps.drop_first())
    } else {
        nonempty_pieces(ps.drop_first())
    }
}

/// `s.split(c).filter(|p| !p.is_empty())`: the non-empty pieces between the `c`s.
pub open spec fn split_nonempty(s: Seq<char>, c: char) -> Seq<Seq<char>> {
    nonempty_pieces(split(s, c))
}

/// Where each piece of `split_nonempty(v[lo..hi], c)` stands in `v`.
pub open spec fn bounds_match(v: Seq<char>, b: Seq<(usize, usize)>, ps: Seq<Seq<char>>) -> bool {
    &&& b.len() == ps.len()
    &&& forall|i: int|
        0 <= i < b.len() ==> {
            &&& (#[trigger] b[i]).0 <= b[i].1 <= v.len()
            &&& v.subrange(b[i].0 as int, b[i].1 as int) == ps[i]
        }
}

/// The bounds in `v` of the non-empty pieces of `v` between the `c`s.
pub fn split_nonempty_bounds(v: &Vec<char>, c: char) -> (b: Vec<(usize, usize)>)
    ensures
        bounds_match(v@, b@, split_nonempty(v@, c)),
{
    let n = v.len();
    let mut b: Vec<(usize, usize)> = Vec::new();
    let mut p: usize = 0;
    assert(v@.subrange(0, n as int) =~= v@);
    loop
        invariant
            p <= n,
            n == v@.len(),
            bounds_match(v@, b@, split_nonempty(v@, c).subrange(0, b@.len() as int)),
            b@.len() <= split_nonempty(v@, c).len(),
            split_nonempty(v@, c) == split_nonempty(v@, c).subrange(0, b@.len() as int)
                + nonempty_pieces(split(v@.subrange(p as int, n as int), c)),
        decreases n - p,
    {
        let i = find_in(v, p, n, c);
        let ghost rest = v@.subrange(p as int, n as int);
        let ghost all = split_nonempty(v@, c);
        let ghost done = all.subrange(0, b@.len() as int);
        let ghost pieces = split(rest, c);
        proof {
            if i < n {
                assert(rest.subrange(0, (i - p) as int) =~= v@.subrange(p as int, i as int));
                assert(rest.subrange((i - p) + 1, rest.len() as int) =~= v@.subrange(i + 1, n as int));
                assert(pieces[0] == v@.subrange(p as int, i as int));
                assert(pieces.drop_first() =~= split(v@.subrange(i + 1, n as int), c));
            } else {
                assert(pieces =~= seq![rest]);
                assert(rest =~= v@.subrange(p as int, i as int));
                assert(pieces.drop_first() =~= Seq::<Seq<char>>::empty());
            }
        }
        let ghost old_b = b@;
        if p < i {
            b.push((p, i));
            proof {
                let next = nonempty_pieces(pieces.drop_first());
                assert(nonempty_pieces(pieces) == seq![pieces[0]] + next);
                assert(all =~= (done + seq![pieces[0]]) + next);
                assert(all.subrange(0, b@.len() as int) =~= done + seq![pieces[0]]);
                assert forall|j: int| 0 <= j < b@.len() implies {
                    &&& (#[trigger] b@[j]).0 <= b@[j].1 <= v@.len()
                    &&& v@.subrange(b@[j].0 as int, b@[j].1 as int) == all.subrange(0, b@.len() as int)[j]
                } by {
                    if j < old_b.len() {
                        assert(b@[j] == old_b[j]);
                    }
                }
            }
        } else {
            proof {
                assert(pieces[0].len() == 0);
                assert(nonempty_pieces(pieces) == nonempty_pieces(pieces.drop_first()));
            }
        }
        if i < n {
            p = i + 1;
        } else {
            proof {
                assert(nonempty_pieces(Seq::<Seq<char>>::empty()) =~= Seq::<Seq<char>>::empty());
                assert(all.subrange(0, b@.len() as int) =~= all);
            }
            return b;
        }
    }
}



// ---------- file-system path components ----------

/// The pieces that are neither empty nor `.`, in order.
pub open spec fn named_pieces(ps: Seq<Seq<char>>) -> Seq<Seq<char>>
    decreases ps.len(),
{
    if ps.len() == 0 {
        Seq::empty()
    } else if ps[0].len() > 0 && ps[0] != seq!['.'] {
        seq![ps[0]] + named_pieces(ps.drop_first())
    } else {
        named_pieces(ps.drop_first())
    }
}

/// The components of a Unix path, as `Path::components` documents them: the
/// root `/` when the path is absolute, a leading `.` when a relative path
/// starts with it, then every piece between the `/`s that is neither empty nor
/// `.` (repeated separators, `.` pieces and a trailing `/` are normalized away).
pub open spec fn unix_path_components(s: Seq<char>) -> Seq<Seq<char>> {
    let pieces = split(s, '/');
    let root = s.len() > 0 && s[0] == '/';
    let lead_dot = !root && pieces[0] == seq!['.'];
    (if root {
        seq![seq!['/']]
    } else {
        Seq::empty()
    }) + (if lead_dot {
        seq![seq!['.']]
    } else {
        Seq::empty()
    }) + named_pieces(pieces)
}

/// The texts of the pieces of `v` between the `c`s that are neither empty nor `.`.
fn named_piece_strs<'a>(s: &'a str, v: &Vec<char>) -> (r: Vec<&'a str>)
    requires
        v@ == s@,
    ensures
        r@.len() == named_pieces(split(s@, '/')).len(),
        forall|i: int| 0 <= i < r@.len() ==> (#[trigger] r@[i])@ == named_pieces(split(s@, '/'))[i],
{
    let n = v.len();
    let mut r: Vec<&'a str> = Vec::new();
    let mut p: usize = 0;
    let ghost all = named_pieces(split(v@, '/'));
    assert(v@.subrange(0, n as int) =~= v@);
    loop
        invariant
            p <= n,
            n == v@.len(),
            v@ == s@,
            all == named_pieces(split(v@, '/')),
            r@.len() <= all.len(),
            forall|i: int| 0 <= i < r@.len() ==> (#[trigger] r@[i])@ == all[i],
            all == all.subrange(0, r@.len() as int) + named_pieces(split(v@.subrange(p as int, n as int), '/')),
        decreases n - p,
    {
        let i = find_in(v, p, n, '/');
        let ghost rest = v@.subrange(p as int, n as int);
        let ghost pieces = split(rest, '/');
        let ghost done = all.subrange(0, r@.len() as int);
        proof {
            if i < n {
                assert(rest.subrange(0, (i - p) as int) =~= v@.subrange(p as int, i as int));
                assert(rest.subrange((i - p) + 1, rest.len() as int) =~= v@.subrange(i + 1, n as int));
                assert(pieces[0] == v@.subrange(p as int, i as int));
                assert(pieces.drop_first() =~= split(v@.subrange(i + 1, n as int), '/'));
            } else {
                assert(pieces =~= seq![rest]);
                assert(rest =~= v@.subrange(p as int, i as int));
                assert(pieces.drop_first() =~= Seq::<Seq<char>>::empty());
            }
        }
        let is_dot = i > p && i - p == 1 && v[p] == '.';
        proof {
            if i == p + 1 {
                assert(pieces[0].len() == 1);
                assert(pieces[0][0] == v@[p as int]);
                if v@[p as int] == '.' {
                    assert(pieces[0] =~= seq!['.']);
                } else {
                    assert(pieces[0][0] != seq!['.'][0]);
                }
            } else {
                assert(pieces[0].len() != seq!['.'].len());
            }
        }
        let ghost old_r = r@;
        if p < i && !is_dot {
            r.push(s.substring_char(p, i));
            proof {
                let next = named_pieces(pieces.drop_first());
                assert(named_pieces(pieces) == seq![pieces[0]] + next);
                assert(all =~= (done + seq![pieces[0]]) + next);
                assert(all.subrange(0, r@.len() as int) =~= done + seq![pieces[0]]);
                assert forall|j: int| 0 <= j < r@.len() implies (#[trigger] r@[j])@ == all[j] by {
                    if j < old_r.len() {
                        assert(r@[j] == old_r[j]);
                    }
                }
            }
        } else {
            proof {
                assert(named_pieces(pieces) == named_pieces(pieces.drop_first()));
            }
        }
        if i < n {
            p = i + 1;
        } else {
            proof {
                assert(named_pieces(Seq::<Seq<char>>::empty()) =~= Seq::<Seq<char>>::empty());
                assert(all.subrange(0, r@.len() as int) =~= all);
            }
            return r;
        }
    }
}

/// The components of the Unix path `s`, each borrowed from `s`.
pub fn path_components<'a>(s: &'a str) -> (r: Vec<&'a str>)
    ensures
        r@.len() == unix_path_components(s@).len(),
        forall|i: int| 0 <= i < r@.len() ==> (#[trigger] r@[i])@ == unix_path_components(s@)[i],
{
    let v = chars_of(s);
    let n = v.len();
    let mut r: Vec<&'a str> = Vec::new();
    let root = n > 0 && v[0] == '/';
    let ghost pieces = split(s@, '/');
    if root {
        let c = s.substring_char(0, 1);
        assert(c@ =~= seq!['/']);
        r.push(c);
    } else {
        let first_end = find_in(&v, 0, n, '/');
        proof {
            assert(v@.subrange(0, n as int) =~= v@);
            if first_end < n {
                assert(pieces[0] =~= v@.subrange(0, first_end as int));
            } else {
                assert(pieces =~= seq![v@]);
                assert(v@.subrange(0, first_end as int) =~= v@);
            }
            if first_end == 1 {
                if v@[0] == '.' {
                    assert(pieces[0] =~= seq!['.']);
                } else {
                    assert(pieces[0][0] != seq!['.'][0]);
                }
            } else {
                assert(pieces[0].len() != seq!['.'].len());
            }
        }
        if first_end == 1 && v[0] == '.' {
            let c = s.substring_char(0, 1);
            assert(c@ =~= seq!['.']);
            r.push(c);
        }
    }
    let ghost head = r@;
    let ghost root_part: Seq<Seq<char>> = if s@.len() > 0 && s@[0] == '/' {
        seq![seq!['/']]
    } else {
        Seq::empty()
    };
    let ghost dot_part: Seq<Seq<char>> = if !(s@.len() > 0 && s@[0] == '/') && pieces[0] == seq!['.'] {
        seq![seq!['.']]
    } else {
        Seq::empty()
    };
    assert(head.len() == (root_part + dot_part).len());
    assert(forall|j: int| 0 <= j < head.len() ==> (#[trigger] head[j])@ == (root_part + dot_part)[j]);
    let rest = named_piece_strs(s, &v);
    let mut i: usize = 0;
    while i < rest.len()
        invariant
            i <= rest@.len(),
            r@.len() == head.len() + i,
            forall|j: int| 0 <= j < head.len() ==> r@[j] == head[j],
            forall|j: int| 0 <= j < i ==> r@[head.len() + j] == rest@[j],
        decreases rest@.len() - i,
    {
        r.push(rest[i]);
        i = i + 1;
    }
    proof {
        let want = unix_path_components(s@);
        let named = named_pieces(split(s@, '/'));
        assert(want =~= (root_part + dot_part) + named);
        assert forall|j: int| 0 <= j < r@.len() implies (#[trigger] r@[j])@ == want[j] by {
            if j >= head.len() {
                assert(r@[j] == rest@[j - head.len()]);
                assert(want[j] == named[j - head.len()]);
            } else {
                assert(r@[j] == head[j]);
                assert(want[j] == (root_part + dot_part)[j]);
            }
        }
    }
    r
}



// ---------- float literals ----------

/// `s` is the word whose lower-case spelling is `lower` and upper-case
/// spelling is `upper`, in any mix of cases.
pub open spec fn ci_word(s: Seq<char>, lower: Seq<char>, upper: Seq<char>) -> bool {
    &&& s.len() == lower.len()
    &&& s.len() == upper.len()
    &&& forall|i: int| 0 <= i < s.len() ==> (#[trigger] s[i] == lower[i] || s[i] == upper[i])
}

/// The index of the first `a` or `b` in `s`, or `s.len()` when there is none.
pub open spec fn find_either(s: Seq<char>, a: char, b: char) -> nat
    decreases s.len(),
{
    if s.len() == 0 {
        0
    } else if s[0] == a || s[0] == b {
        0
    } else {
        1 + find_either(s.drop_first(), a, b)
    }
}

/// `s` without one leading `+` or `-`.
pub open spec fn drop_sign(s: Seq<char>) -> Seq<char> {
    if s.len() > 0 && (s[0] == '+' || s[0] == '-') {
        s.drop_first()
    } else {
        s
    }
}

/// Digits, with at most one `.` and at least one digit.
pub open spec fn mantissa_ok(m: Seq<char>) -> bool {
    let d = find(m, '.');
    if d >= m.len() {
        m.len() > 0 && all_digits(m)
    } else {
        &&& all_digits(m.subrange(0, d as int))
        &&& all_digits(m.subrange(d + 1int, m.len() as int))
        &&& m.len() > 1
    }
}

/// An optional sign and at least one digit.
pub open spec fn exponent_ok(x: Seq<char>) -> bool {
    drop_sign(x).len() > 0 && all_digits(drop_sign(x))
}

/// A decimal number: a mantissa, then optionally `e` or `E` and an exponent.
pub open spec fn number_ok(b: Seq<char>) -> bool {
    let e = find_either(b, 'e', 'E');
    &&& mantissa_ok(b.subrange(0, e as int))
    &&& (e >= b.len() || exponent_ok(b.subrange(e + 1int, b.len() as int)))
}

/// Whether `f32::from_str` accepts the text: the grammar its documentation
/// gives, `Sign? ('inf' | 'infinity' | 'nan' | Number)` where
/// `Number ::= (Digit+ | Digit+ '.' Digit* | Digit* '.' Digit+) Exp?` and
/// `Exp ::= 'e' Sign? Digit+`, letters in any case.
pub open spec fn float_literal_ok(s: Seq<char>) -> bool {
    let b = drop_sign(s);
    ||| ci_word(b, "inf"@, "INF"@)
    ||| ci_word(b, "infinity"@, "INFINITY"@)
    ||| ci_word(b, "nan"@, "NAN"@)
    ||| number_ok(b)
}

/// Whether `v[lo..hi]` is all decimal digits.
pub fn all_digits_in(v: &Vec<char>, lo: usize, hi: usize) -> (b: bool)
    requires
        lo <= hi <= v@.len(),
    ensures
        b == all_digits(v@.subrange(lo as int, hi as int)),
{
    let mut i = lo;
    while i < hi
        invariant
            lo <= i <= hi <= v@.len(),
            all_digits(v@.subrange(lo as int, i as int)),
        decreases hi - i,
    {
        if !('0' <= v[i] && v[i] <= '9') {
            assert(!crate::text::is_digit(v@.subrange(lo as int, hi as int)[i - lo]));
            return false;
        }
        i = i + 1;
        assert forall|j: int| 0 <= j < i - lo implies is_digit(#[trigger] v@.subrange(lo as int, i as int)[j]) by {
            if j < i - 1 - lo {
                assert(v@.subrange(lo as int, i as int)[j] == v@.subrange(lo as int, i - 1)[j]);
            }
        }
    }
    true
}

/// Whether `v[lo..hi]` is the word spelled `lower` / `upper`, in any case.
pub fn ci_word_in(v: &Vec<char>, lo: usize, hi: usize, lower: &str, upper: &str) -> (b: bool)
    requires
        lo <= hi <= v@.len(),
    ensures
        b == ci_word(v@.subrange(lo as int, hi as int), lower@, upper@),
{
    let n = lower.unicode_len();
    if hi - lo != n || upper.unicode_len() != n {
        return false;
    }
    let mut i: usize = 0;
    while i < n
        invariant
            n == lower@.len(),
            n == upper@.len(),
            hi - lo == n,
            lo <= hi <= v@.len(),
            i <= n,
            forall|j: int| 0 <= j < i ==> (v@[lo + j] == lower@[j] || v@[lo + j] == upper@[j]),
        decreases n - i,
    {
        let c = v[lo + i];
        if c != lower.get_char(i) && c != upper.get_char(i) {
            assert(v@.subrange(lo as int, hi as int)[i as int] == c);
            return false;
        }
        i = i + 1;
    }
    assert forall|j: int| 0 <= j < hi - lo implies (#[trigger] v@.subrange(lo as int, hi as int)[j]
        == lower@[j] || v@.subrange(lo as int, hi as int)[j] == upper@[j]) by {
        assert(v@.subrange(lo as int, hi as int)[j] == v@[lo + j]);
    }
    true
}

/// The index of the first `a` or `b` at or after `start`, or `hi`.
pub fn find_either_in(v: &Vec<char>, start: usize, hi: usize, a: char, b: char) -> (i: usize)
    requires
        start <= hi <= v@.len(),
    ensures
        i == start + find_either(v@.subrange(start as int, hi as int), a, b),
        start <= i <= hi,
{
    let mut i = start;
    while i < hi && v[i] != a && v[i] != b
        invariant
            start <= i <= hi <= v@.len(),
            forall|j: int| start <= j < i ==> v@[j] != a && v@[j] != b,
        decreases hi - i,
    {
        i = i + 1;
    }
    proof {
        lemma_find_either_unique(v@.subrange(start as int, hi as int), a, b, i - start);
    }
    i
}

/// An index with no `a`/`b` before it, and one at it or at the end, is `find_either`.
pub proof fn lemma_find_either_unique(s: Seq<char>, a: char, b: char, i: int)
    requires
        0 <= i <= s.len(),
        i < s.len() ==> (s[i] == a || s[i] == b),
        forall|j: int| 0 <= j < i ==> s[j] != a && s[j] != b,
    ensures
        find_either(s, a, b) == i,
    decreases s.len(),
{
    if s.len() > 0 && i > 0 {
        assert forall|j: int| 0 <= j < i - 1 implies s.drop_first()[j] != a && s.drop_first()[j] != b by {
            assert(s.drop_first()[j] == s[j + 1]);
        }
        lemma_find_either_unique(s.drop_first(), a, b, i - 1);
    }
}

/// The start of `drop_sign(v[lo..hi])` in `v`.
fn sign_end(v: &Vec<char>, lo: usize, hi: usize) -> (r: usize)
    requires
        lo <= hi <= v@.len(),
    ensures
        lo <= r <= hi,
        v@.subrange(r as int, hi as int) == drop_sign(v@.subrange(lo as int, hi as int)),
{
    if lo < hi && (v[lo] == '+' || v[lo] == '-') {
        assert(v@.subrange(lo as int, hi as int).drop_first() =~= v@.subrange(lo + 1, hi as int));
        lo + 1
    } else {
        lo
    }
}

/// Whether `v[lo..hi]` is a float literal that `f32::from_str` accepts.
pub fn float_literal_in(v: &Vec<char>, lo: usize, hi: usize) -> (b: bool)
    requires
        lo <= hi <= v@.len(),
    ensures
        b == float_literal_ok(v@.subrange(lo as int, hi as int)),
{
    let a = sign_end(v, lo, hi);
    if ci_word_in(v, a, hi, "inf", "INF") || ci_word_in(v, a, hi, "infinity", "INFINITY")
        || ci_word_in(v, a, hi, "nan", "NAN") {
        return true;
    }
    let ghost body = v@.subrange(a as int, hi as int);
    let e = find_either_in(v, a, hi, 'e', 'E');
    assert(body.subrange(0, (e - a) as int) =~= v@.subrange(a as int, e as int));
    let d = find_in(v, a, e, '.');
    let ghost m = v@.subrange(a as int, e as int);
    let mantissa = if d >= e {
        e > a && all_digits_in(v, a, e)
    } else {
        assert(m.subrange(0, (d - a) as int) =~= v@.subrange(a as int, d as int));
        assert(m.subrange((d - a) + 1, m.len() as int) =~= v@.subrange(d + 1, e as int));
        all_digits_in(v, a, d) && all_digits_in(v, d + 1, e) && e - a > 1
    };
    if !mantissa {
        return false;
    }
    if e >= hi {
        return true;
    }
    assert(body.subrange((e - a) + 1, body.len() as int) =~= v@.subrange(e + 1, hi as int));
    let x = sign_end(v, e + 1, hi);
    x < hi && all_digits_in(v, x, hi)
}

} // verus!
