//! Text building blocks shared by every renderer: decimal numbers, padding,
//! trimming and joining, each with a specification over `Seq<char>`.
use vstd::prelude::*;

verus! {

/// The ten decimal digits, in order.
pub open spec fn digit_chars() -> Seq<char> {
    seq!['0', '1', '2', '3', '4', '5', '6', '7', '8', '9']
}

/// The decimal representation of `n`, without leading zeros.
pub open spec fn dec(n: nat) -> Seq<char>
    decreases n,
{
    if n < 10 {
        seq![digit_chars()[n as int]]
    } else {
        dec(n / 10).push(digit_chars()[(n % 10) as int])
    }
}

/// `n` copies of `c`.
pub open spec fn repeat(c: char, n: nat) -> Seq<char>
    decreases n,
{
    if n == 0 {
        Seq::empty()
    } else {
        repeat(c, (n - 1) as nat).push(c)
    }
}

/// `s` followed by as many spaces as it takes to reach `width` characters
/// (what `{:<width}` prints).
pub open spec fn pad(s: Seq<char>, width: nat) -> Seq<char> {
    if s.len() < width {
        s + repeat(' ', (width - s.len()) as nat)
    } else {
        s
    }
}

/// The first `n` characters of `s` (all of them if it is shorter).
pub open spec fn prefix(s: Seq<char>, n: nat) -> Seq<char> {
    if s.len() <= n {
        s
    } else {
        s.take(n as int)
    }
}

/// `s` without every leading occurrence of `c`.
pub open spec fn strip_leading(s: Seq<char>, c: char) -> Seq<char>
    decreases s.len(),
{
    if s.len() > 0 && s[0] == c {
        strip_leading(s.drop_first(), c)
    } else {
        s
    }
}

/// `s` without every trailing occurrence of `c`.
pub open spec fn strip_trailing(s: Seq<char>, c: char) -> Seq<char>
    decreases s.len(),
{
    if s.len() > 0 && s.last() == c {
        strip_trailing(s.drop_last(), c)
    } else {
        s
    }
}

/// `s` with the non-empty prefix `p` removed as often as it is found at the start.
pub open spec fn strip_prefix_repeatedly(s: Seq<char>, p: Seq<char>) -> Seq<char>
    decreases s.len(),
{
    if p.len() > 0 && p.len() <= s.len() && s.take(p.len() as int) == p {
        strip_prefix_repeatedly(s.skip(p.len() as int), p)
    } else {
        s
    }
}

/// The items of `items`, separated by `sep`.
pub open spec fn join(items: Seq<Seq<char>>, sep: Seq<char>) -> Seq<char>
    decreases items.len(),
{
    if items.len() == 0 {
        Seq::empty()
    } else if items.len() == 1 {
        items[0]
    } else {
        join(items.drop_last(), sep) + sep + items.last()
    }
}

/// Appends one character (`String::push`).
#[verifier::external_body]
pub(crate) fn push_char(s: &mut String, c: char)
    ensures
        final(s)@ == old(s)@.push(c),
{
    s.push(c);
}

/// Compares two strings for equality.
pub(crate) fn str_eq(a: &str, b: &str) -> (r: bool)
    ensures
        r == (a@ == b@),
{
    let x = a.to_owned();
    let y = b.to_owned();
    x == y
}

/// The character of the decimal digit `d`.
pub fn digit_char(d: u64) -> (c: char)
    requires
        d < 10,
    ensures
        c == digit_chars()[d as int],
{
    match d {
        0 => '0',
        1 => '1',
        2 => '2',
        3 => '3',
        4 => '4',
        5 => '5',
        6 => '6',
        7 => '7',
        8 => '8',
        _ => '9',
    }
}

/// Appends the decimal representation of `n`.
pub fn append_decimal(s: &mut String, n: u64)
    ensures
        final(s)@ == old(s)@ + dec(n as nat),
    decreases n,
{
    if n >= 10 {
        append_decimal(s, n / 10);
    }
    push_char(s, digit_char(n % 10));
    proof {
        assert(old(s)@ + dec(n as nat) =~= if n >= 10 {
            old(s)@ + dec((n / 10) as nat) + seq![digit_chars()[(n % 10) as int]]
        } else {
            old(s)@ + seq![digit_chars()[(n % 10) as int]]
        });
    }
}

/// The decimal representation of `n` (what `{}` prints for an integer).
pub fn decimal(n: u64) -> (r: String)
    ensures
        r@ == dec(n as nat),
{
    let mut r = String::new();
    append_decimal(&mut r, n);
    proof {
        assert(r@ =~= dec(n as nat));
    }
    r
}

/// Appends `n` copies of `c`.
pub fn append_repeat(s: &mut String, c: char, n: usize)
    ensures
        final(s)@ == old(s)@ + repeat(c, n as nat),
{
    let mut i: usize = 0;
    while i < n
        invariant
            i <= n,
            s@ == old(s)@ + repeat(c, i as nat),
        decreases n - i,
    {
        push_char(s, c);
        proof {
            assert(old(s)@ + repeat(c, (i + 1) as nat) =~= (old(s)@ + repeat(c, i as nat)).push(c));
        }
        i = i + 1;
    }
}

/// A line of `n` dashes (the rule under a table header).
pub fn rule(n: usize) -> (r: String)
    ensures
        r@ == repeat('-', n as nat),
{
    let mut r = String::new();
    append_repeat(&mut r, '-', n);
    proof {
        assert(r@ =~= repeat('-', n as nat));
    }
    r
}

/// Appends `t` padded with spaces to `width` characters.
pub fn append_padded(s: &mut String, t: &str, width: usize)
    ensures
        final(s)@ == old(s)@ + pad(t@, width as nat),
{
    let len = t.unicode_len();
    s.append(t);
    if len < width {
        append_repeat(s, ' ', width - len);
    }
    proof {
        assert(final(s)@ =~= old(s)@ + pad(t@, width as nat));
    }
}

/// Copies a string.
pub fn copy_str(t: &str) -> (r: String)
    ensures
        r@ == t@,
{
    let mut r = String::new();
    r.append(t);
    proof {
        assert(r@ =~= t@);
    }
    r
}

/// The first `n` characters of `t`.
pub fn take_chars(t: &str, n: usize) -> (r: String)
    ensures
        r@ == prefix(t@, n as nat),
{
    let len = t.unicode_len();
    let end = if len <= n { len } else { n };
    let part = t.substring_char(0, end);
    proof {
        assert(part@ =~= prefix(t@, n as nat));
    }
    copy_str(part)
}

proof fn lemma_strip_leading_skip(s: Seq<char>, c: char, i: int)
    requires
        0 <= i <= s.len(),
        forall|j: int| 0 <= j < i ==> s[j] == c,
    ensures
        strip_leading(s, c) == strip_leading(s.skip(i), c),
    decreases i,
{
    if i > 0 {
        assert(s.drop_first().skip(i - 1) =~= s.skip(i));
        lemma_strip_leading_skip(s.drop_first(), c, i - 1);
    } else {
        assert(s.skip(0) =~= s);
    }
}

/// `t` without its leading `c` characters (`trim_start_matches(c)`).
pub fn trim_start_char(t: &str, c: char) -> (r: String)
    ensures
        r@ == strip_leading(t@, c),
{
    let len = t.unicode_len();
    let mut i: usize = 0;
    while i < len && t.get_char(i) == c
        invariant
            i <= len,
            len == t@.len(),
            forall|j: int| 0 <= j < i ==> t@[j] == c,
        decreases len - i,
    {
        i = i + 1;
    }
    let part = t.substring_char(i, len);
    proof {
        lemma_strip_leading_skip(t@, c, i as int);
        assert(part@ =~= t@.skip(i as int));
    }
    copy_str(part)
}

proof fn lemma_strip_trailing_take(s: Seq<char>, c: char, i: int)
    requires
        0 <= i <= s.len(),
        forall|j: int| i <= j < s.len() ==> s[j] == c,
    ensures
        strip_trailing(s, c) == strip_trailing(s.take(i), c),
    decreases s.len() - i,
{
    if i < s.len() {
        assert(s.drop_last().take(i) =~= s.take(i));
        lemma_strip_trailing_take(s.drop_last(), c, i);
    } else {
        assert(s.take(i) =~= s);
    }
}

/// `t` without its trailing `c` characters (`trim_end_matches(c)`).
pub fn trim_end_char(t: &str, c: char) -> (r: String)
    ensures
        r@ == strip_trailing(t@, c),
{
    let len = t.unicode_len();
    let mut i: usize = len;
    while i > 0 && t.get_char(i - 1) == c
        invariant
            i <= len,
            len == t@.len(),
            forall|j: int| i <= j < len ==> t@[j] == c,
        decreases i,
    {
        i = i - 1;
    }
    let part = t.substring_char(0, i);
    proof {
        lemma_strip_trailing_take(t@, c, i as int);
        assert(part@ =~= t@.take(i as int));
    }
    copy_str(part)
}

/// Whether `t` starts with `p` at character position `at`.
pub fn has_prefix_at(t: &str, p: &str, at: usize) -> (r: bool)
    requires
        at <= t@.len(),
    ensures
        r == (p@.len() <= t@.len() - at && t@.subrange(at as int, at + p@.len()) == p@),
{
    let tl = t.unicode_len();
    let pl = p.unicode_len();
    if pl > tl - at {
        return false;
    }
    let mut k: usize = 0;
    while k < pl
        invariant
            k <= pl,
            pl == p@.len(),
            tl == t@.len(),
            pl <= tl - at,
            forall|j: int| 0 <= j < k ==> t@[at + j] == p@[j],
        decreases pl - k,
    {
        if t.get_char(at + k) != p.get_char(k) {
            assert(t@.subrange(at as int, at + p@.len())[k as int] != p@[k as int]);
            return false;
        }
        k = k + 1;
    }
    assert(t@.subrange(at as int, at + p@.len()) =~= p@);
    true
}

/// `t` with the prefix `p` removed as often as it starts it
/// (`trim_start_matches(p)` for a non-empty `p`).
pub fn trim_start_str(t: &str, p: &str) -> (r: String)
    requires
        p@.len() > 0,
    ensures
        r@ == strip_prefix_repeatedly(t@, p@),
{
    let len = t.unicode_len();
    let pl = p.unicode_len();
    let mut i: usize = 0;
    assert(t@.skip(0) =~= t@);
    while i <= len && has_prefix_at(t, p, i)
        invariant
            i <= len,
            len == t@.len(),
            pl == p@.len(),
            pl > 0,
            strip_prefix_repeatedly(t@, p@) == strip_prefix_repeatedly(t@.skip(i as int), p@),
        decreases len - i,
    {
        proof {
            let s = t@.skip(i as int);
            assert(s.take(pl as int) =~= t@.subrange(i as int, i + pl));
            assert(s.skip(pl as int) =~= t@.skip(i + pl));
        }
        i = i + pl;
    }
    let part = t.substring_char(i, len);
    proof {
        let s = t@.skip(i as int);
        if pl <= s.len() {
            assert(s.take(pl as int) =~= t@.subrange(i as int, i + pl));
        }
        assert(part@ =~= s);
    }
    copy_str(part)
}

/// The strings of `items`, separated by `sep` (`join(sep)`).
pub fn join_strings(items: &Vec<String>, sep: &str) -> (r: String)
    ensures
        r@ == join(items@.map_values(|x: String| x@), sep@),
{
    let ghost views = items@.map_values(|x: String| x@);
    let mut r = String::new();
    let mut i: usize = 0;
    while i < items.len()
        invariant
            i <= items.len(),
            views == items@.map_values(|x: String| x@),
            r@ == join(views.take(i as int), sep@),
        decreases items.len() - i,
    {
        if i > 0 {
            r.append(sep);
        }
        r.append(items[i].as_str());
        proof {
            assert(views.take(i + 1).drop_last() =~= views.take(i as int));
            if i == 0 {
                assert(r@ =~= join(views.take(1), sep@));
            }
        }
        i = i + 1;
    }
    proof {
        assert(views.take(items.len() as int) =~= views);
    }
    r
}

} // verus!
