//! The answer to a confirmation prompt.
use vstd::prelude::*;

verus! {

/// Whether a character is white space (Unicode `White_Space`, what
/// `char::is_whitespace` and `str::trim` go by).
pub open spec fn is_space(c: char) -> bool {
    let n = c as u32;
    (9 <= n <= 13) || n == 32 || n == 0x85 || n == 0xA0 || n == 0x1680 || (0x2000 <= n <= 0x200A) || n == 0x2028
        || n == 0x2029 || n == 0x202F || n == 0x205F || n == 0x3000
}

fn is_space_exec(c: char) -> (r: bool)
    ensures
        r == is_space(c),
{
    let n = c as u32;
    (9 <= n && n <= 13) || n == 32 || n == 0x85 || n == 0xA0 || n == 0x1680 || (0x2000 <= n && n <= 0x200A)
        || n == 0x2028 || n == 0x2029 || n == 0x202F || n == 0x205F || n == 0x3000
}

/// `s` without its leading white space.
pub open spec fn trim_start_ws(s: Seq<char>) -> Seq<char>
    decreases s.len(),
{
    if s.len() > 0 && is_space(s[0]) {
        trim_start_ws(s.drop_first())
    } else {
        s
    }
}

/// `s` without its trailing white space.
pub open spec fn trim_end_ws(s: Seq<char>) -> Seq<char>
    decreases s.len(),
{
    if s.len() > 0 && is_space(s.last()) {
        trim_end_ws(s.drop_last())
    } else {
        s
    }
}

/// `s` without white space at either end (`str::trim`).
pub open spec fn trimmed(s: Seq<char>) -> Seq<char> {
    trim_end_ws(trim_start_ws(s))
}

/// Whether `c` is the letter `l` (lower case) in either case.
pub open spec fn letter(c: char, l: char) -> bool {
    c == l || (c as u32) + 32 == l as u32
}

/// Whether an answer confirms: once trimmed, `y` or `yes` in any case (what
/// `trim().to_lowercase()` compared with `y` and `yes` accepts; no other
/// character lower-cases to these letters).
pub open spec fn confirms(answer: Seq<char>) -> bool {
    let t = trimmed(answer);
    (t.len() == 1 && letter(t[0], 'y')) || (t.len() == 3 && letter(t[0], 'y') && letter(t[1], 'e') && letter(t[2], 's'))
}

/// `c` in lower case, where it is an ASCII capital letter; any other
/// character as it is.
pub open spec fn ascii_lower(c: char) -> char {
    if 65 <= c as u32 <= 90 {
        ((c as u32) + 32) as char
    } else {
        c
    }
}

/// `s` with its ASCII capital letters in lower case.
pub open spec fn lower_ascii(s: Seq<char>) -> Seq<char> {
    s.map_values(|c: char| ascii_lower(c))
}

proof fn lemma_ascii_lower_letter(c: char, l: char)
    requires
        97 <= l as u32 <= 122,
    ensures
        (ascii_lower(c) == l) == letter(c, l),
{
    if 65 <= c as u32 <= 90 {
        let x: int = (c as u32) + 32;
        assert(((x as char) as u32) as int == x);
    }
}

/// An answer confirms exactly when, once trimmed and lower-cased, it reads
/// `y` or `yes`: any other answer, one of a single character but `y` or `Y`
/// among them, declines.
pub proof fn lemma_confirms_words(answer: Seq<char>)
    ensures
        confirms(answer) <==> (lower_ascii(trimmed(answer)) == "y"@ || lower_ascii(trimmed(answer)) == "yes"@),
{
    reveal_strlit("y");
    reveal_strlit("yes");
    let t = trimmed(answer);
    let lo = lower_ascii(t);
    if t.len() >= 1 {
        lemma_ascii_lower_letter(t[0], 'y');
        assert(lo[0] == ascii_lower(t[0]));
    }
    if t.len() == 3 {
        lemma_ascii_lower_letter(t[1], 'e');
        lemma_ascii_lower_letter(t[2], 's');
        assert(lo[1] == ascii_lower(t[1]));
        assert(lo[2] == ascii_lower(t[2]));
        if letter(t[0], 'y') && letter(t[1], 'e') && letter(t[2], 's') {
            assert(lo =~= "yes"@);
        }
    }
    if t.len() == 1 && letter(t[0], 'y') {
        assert(lo =~= "y"@);
    }
    assert(lo.len() == t.len());
    if lo == "y"@ {
        assert(lo[0] == 'y');
        assert(letter(t[0], 'y'));
        assert(confirms(answer));
    }
    if lo == "yes"@ {
        assert(lo[0] == 'y' && lo[1] == 'e' && lo[2] == 's');
        assert(confirms(answer));
    }
    if confirms(answer) {
        assert(lo == "y"@ || lo == "yes"@);
    }
}

proof fn lemma_trim_start_skip(s: Seq<char>, i: int)
    requires
        0 <= i <= s.len(),
        forall|j: int| 0 <= j < i ==> is_space(s[j]),
    ensures
        trim_start_ws(s) == trim_start_ws(s.skip(i)),
    decreases i,
{
    if i > 0 {
        assert(s.drop_first().skip(i - 1) =~= s.skip(i));
        lemma_trim_start_skip(s.drop_first(), i - 1);
    } else {
        assert(s.skip(0) =~= s);
    }
}

proof fn lemma_trim_end_take(s: Seq<char>, i: int)
    requires
        0 <= i <= s.len(),
        forall|j: int| i <= j < s.len() ==> is_space(s[j]),
    ensures
        trim_end_ws(s) == trim_end_ws(s.take(i)),
    decreases s.len() - i,
{
    if i < s.len() {
        assert(s.drop_last().take(i) =~= s.take(i));
        lemma_trim_end_take(s.drop_last(), i);
    } else {
        assert(s.take(i) =~= s);
    }
}

fn letter_exec(c: char, l: char) -> (r: bool)
    requires
        97 <= l as u32 <= 122,
    ensures
        r == letter(c, l),
{
    c == l || (c as u32) + 32 == l as u32
}

/// Whether the answer to a confirmation prompt confirms.
pub fn confirms_exec(answer: &str) -> (r: bool)
    ensures
        r == confirms(answer@),
{
    let len = answer.unicode_len();
    let mut i: usize = 0;
    while i < len && is_space_exec(answer.get_char(i))
        invariant
            i <= len,
            len == answer@.len(),
            forall|j: int| 0 <= j < i ==> is_space(answer@[j]),
        decreases len - i,
    {
        i = i + 1;
    }
    let mut k: usize = len;
    while k > i && is_space_exec(answer.get_char(k - 1))
        invariant
            i <= k <= len,
            len == answer@.len(),
            forall|j: int| k <= j < len ==> is_space(answer@[j]),
        decreases k,
    {
        k = k - 1;
    }
    let ghost s = answer@.skip(i as int);
    proof {
        lemma_trim_start_skip(answer@, i as int);
        if i < len {
            assert(s[0] == answer@[i as int]);
        }
        assert(trim_start_ws(s) == s);
        lemma_trim_end_take(s, k - i);
        if k > i {
            assert(s.take(k - i).last() == answer@[k - 1]);
        }
        assert(trim_end_ws(s.take(k - i)) == s.take(k - i));
        assert(trimmed(answer@) == s.take(k - i));
        assert(forall|j: int| 0 <= j < k - i ==> #[trigger] s.take(k - i)[j] == answer@[i + j]);
    }
    let n = k - i;
    if n == 1 {
        letter_exec(answer.get_char(i), 'y')
    } else if n == 3 {
        letter_exec(answer.get_char(i), 'y') && letter_exec(answer.get_char(i + 1), 'e') && letter_exec(
            answer.get_char(i + 2),
            's',
        )
    } else {
        false
    }
}

} // verus!
