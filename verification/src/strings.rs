//! Small verified text utilities: decimal rendering of integers, character
//! equality of string slices, substring search, and prefix stripping. The
//! rest of the library builds its messages and parses the tool's output with
//! these.

use vstd::prelude::*;
use vstd::string::StringExecFns;
use vstd::string::StrSliceExecFns;

verus! {

/// The decimal digit character for `d`.
pub open spec fn digit_char(d: int) -> char {
    if d == 0 {
        '0'
    } else if d == 1 {
        '1'
    } else if d == 2 {
        '2'
    } else if d == 3 {
        '3'
    } else if d == 4 {
        '4'
    } else if d == 5 {
        '5'
    } else if d == 6 {
        '6'
    } else if d == 7 {
        '7'
    } else if d == 8 {
        '8'
    } else {
        '9'
    }
}

/// The decimal representation of `n`, most significant digit first, with no
/// leading zero except for `n == 0` itself.
pub open spec fn dec_rep(n: nat) -> Seq<char>
    decreases n,
{
    if n < 10 {
        seq![digit_char(n as int)]
    } else {
        dec_rep(n / 10).push(digit_char((n % 10) as int))
    }
}

fn digit_str(d: u64) -> (r: &'static str)
    requires
        d < 10,
    ensures
        r@ == seq![digit_char(d as int)],
{
    proof {
        reveal_strlit("0");
        reveal_strlit("1");
        reveal_strlit("2");
        reveal_strlit("3");
        reveal_strlit("4");
        reveal_strlit("5");
        reveal_strlit("6");
        reveal_strlit("7");
        reveal_strlit("8");
        reveal_strlit("9");
    }
    let r = if d == 0 {
        "0"
    } else if d == 1 {
        "1"
    } else if d == 2 {
        "2"
    } else if d == 3 {
        "3"
    } else if d == 4 {
        "4"
    } else if d == 5 {
        "5"
    } else if d == 6 {
        "6"
    } else if d == 7 {
        "7"
    } else if d == 8 {
        "8"
    } else {
        "9"
    };
    proof {
        assert(r@ =~= seq![digit_char(d as int)]);
    }
    r
}

/// Renders `n` in decimal.
pub fn u64_to_string(n: u64) -> (r: String)
    ensures
        r@ == dec_rep(n as nat),
    decreases n,
{
    if n < 10 {
        String::from_str(digit_str(n))
    } else {
        let mut s = u64_to_string(n / 10);
        s.append(digit_str(n % 10));
        proof {
            assert(s@ =~= dec_rep(n as nat));
        }
        s
    }
}

/// Character-for-character equality of two string slices.
pub fn str_eq(a: &str, b: &str) -> (r: bool)
    ensures
        r == (a@ == b@),
{
    let n = a.unicode_len();
    if n != b.unicode_len() {
        return false;
    }
    let mut i: usize = 0;
    while i < n
        invariant
            i <= n,
            n == a@.len(),
            n == b@.len(),
            forall|k: int| 0 <= k < i ==> a@[k] == b@[k],
        decreases n - i,
    {
        if a.get_char(i) != b.get_char(i) {
            return false;
        }
        i = i + 1;
    }
    proof {
        assert(a@ =~= b@);
    }
    true
}

/// Holds when `sub` occurs in `s` starting at position `i`.
pub open spec fn has_substring_at(s: Seq<char>, sub: Seq<char>, i: int) -> bool {
    0 <= i && i + sub.len() <= s.len() && s.subrange(i, i + sub.len() as int) == sub
}

/// Holds when `sub` occurs somewhere in `s`.
pub open spec fn contains_substring(s: Seq<char>, sub: Seq<char>) -> bool {
    exists|i: int| has_substring_at(s, sub, i)
}

/// Decides whether `sub` occurs somewhere in `s`.
pub fn contains_str(s: &str, sub: &str) -> (r: bool)
    ensures
        r == contains_substring(s@, sub@),
{
    let n = s.unicode_len();
    let m = sub.unicode_len();
    if m > n {
        return false;
    }
    if m == 0 {
        proof {
            assert(s@.subrange(0, 0) =~= sub@);
            assert(has_substring_at(s@, sub@, 0));
        }
        return true;
    }
    let mut i: usize = 0;
    while i <= n - m
        invariant
            1 <= m <= n,
            i <= n - m + 1,
            n == s@.len(),
            m == sub@.len(),
            forall|k: int| 0 <= k < i ==> !has_substring_at(s@, sub@, k),
        decreases n - i,
    {
        let piece = s.substring_char(i, i + m);
        if str_eq(piece, sub) {
            proof {
                assert(has_substring_at(s@, sub@, i as int));
            }
            return true;
        }
        i = i + 1;
    }
    proof {
        assert forall|k: int| !has_substring_at(s@, sub@, k) by {
            if 0 <= k && k + m <= n {
                assert(k < i);
            }
        }
    }
    false
}

/// Strict lexicographic order on character sequences, by code point.
pub open spec fn lex_lt(a: Seq<char>, b: Seq<char>) -> bool
    decreases a.len(),
{
    if b.len() == 0 {
        false
    } else if a.len() == 0 {
        true
    } else if (a[0] as int) < (b[0] as int) {
        true
    } else if (a[0] as int) > (b[0] as int) {
        false
    } else {
        lex_lt(a.skip(1), b.skip(1))
    }
}

/// Unequal sequences are ordered one way or the other.
pub proof fn lemma_lex_lt_connected(a: Seq<char>, b: Seq<char>)
    requires
        a != b,
    ensures
        lex_lt(a, b) || lex_lt(b, a),
    decreases a.len(),
{
    if a.len() == 0 && b.len() == 0 {
        assert(a =~= b);
    }
    if a.len() > 0 && b.len() > 0 && a[0] == b[0] {
        if a.skip(1) == b.skip(1) {
            assert(a.skip(1).len() == b.skip(1).len());
            assert(a.len() == b.len());
            assert forall|k: int| 0 <= k < a.len() implies a[k] == b[k] by {
                if k >= 1 {
                    assert(a.skip(1)[k - 1] == a[k]);
                    assert(b.skip(1)[k - 1] == b[k]);
                }
            }
            assert(a =~= b);
        }
        lemma_lex_lt_connected(a.skip(1), b.skip(1));
    }
}

/// Nothing is ordered before itself.
pub proof fn lemma_lex_lt_irreflexive(a: Seq<char>)
    ensures
        !lex_lt(a, a),
    decreases a.len(),
{
    if a.len() > 0 {
        lemma_lex_lt_irreflexive(a.skip(1));
    }
}

/// The lexicographic order is transitive.
pub proof fn lemma_lex_lt_transitive(a: Seq<char>, b: Seq<char>, c: Seq<char>)
    requires
        lex_lt(a, b),
        lex_lt(b, c),
    ensures
        lex_lt(a, c),
    decreases a.len(),
{
    if a.len() > 0 && b.len() > 0 && c.len() > 0 && a[0] == b[0] && b[0] == c[0] {
        lemma_lex_lt_transitive(a.skip(1), b.skip(1), c.skip(1));
    }
}

/// Decides the lexicographic order of two string slices.
pub fn str_lt(a: &str, b: &str) -> (r: bool)
    ensures
        r == lex_lt(a@, b@),
{
    let na = a.unicode_len();
    let nb = b.unicode_len();
    let mut i: usize = 0;
    proof {
        assert(a@.skip(0) =~= a@);
        assert(b@.skip(0) =~= b@);
    }
    while i < na && i < nb
        invariant
            i <= na,
            i <= nb,
            na == a@.len(),
            nb == b@.len(),
            lex_lt(a@, b@) == lex_lt(a@.skip(i as int), b@.skip(i as int)),
        decreases na - i,
    {
        let ca = a.get_char(i);
        let cb = b.get_char(i);
        proof {
            assert(a@.skip(i as int)[0] == ca);
            assert(b@.skip(i as int)[0] == cb);
            assert(a@.skip(i as int).skip(1) =~= a@.skip(i as int + 1));
            assert(b@.skip(i as int).skip(1) =~= b@.skip(i as int + 1));
        }
        if (ca as u32) < (cb as u32) {
            return true;
        }
        if (ca as u32) > (cb as u32) {
            return false;
        }
        i = i + 1;
    }
    proof {
        if i >= nb {
            assert(b@.skip(i as int).len() == 0);
        } else {
            assert(a@.skip(i as int).len() == 0);
            assert(b@.skip(i as int).len() > 0);
        }
    }
    na < nb
}

/// Strips `pre` from the front of `s`, if `s` begins with it.
pub fn strip_prefix_str<'a>(s: &'a str, pre: &str) -> (r: Option<&'a str>)
    ensures
        match r {
            Some(rest) => has_substring_at(s@, pre@, 0) && rest@ == s@.skip(pre@.len() as int),
            None => !has_substring_at(s@, pre@, 0),
        },
{
    let n = s.unicode_len();
    let m = pre.unicode_len();
    if m > n {
        return None;
    }
    let head = s.substring_char(0, m);
    if !str_eq(head, pre) {
        proof {
            assert(s@.subrange(0, m as int) != pre@);
        }
        return None;
    }
    let rest = s.substring_char(m, n);
    proof {
        assert(rest@ =~= s@.skip(m as int));
        assert(has_substring_at(s@, pre@, 0));
    }
    Some(rest)
}

/// Blank space inside one line of the tool's output.
pub open spec fn is_line_space(c: char) -> bool {
    c == ' ' || c == '\t' || c == '\r'
}

/// The first position at or after `i` whose space-ness equals `want`, or
/// the length when there is none.
pub open spec fn scan_to(s: Seq<char>, i: int, want: bool) -> int
    decreases s.len() - i when 0 <= i <= s.len()
{
    if i >= s.len() {
        s.len() as int
    } else if is_line_space(s[i]) == want {
        i
    } else {
        scan_to(s, i + 1, want)
    }
}

/// The scan lands between its start and the end of the sequence, on the
/// first position with the wanted space-ness.
pub proof fn lemma_scan_to_bounds(s: Seq<char>, i: int, want: bool)
    requires
        0 <= i <= s.len(),
    ensures
        i <= scan_to(s, i, want) <= s.len(),
        scan_to(s, i, want) < s.len() ==> is_line_space(s[scan_to(s, i, want)]) == want,
        forall|k: int| i <= k < scan_to(s, i, want) ==> is_line_space(s[k]) != want,
    decreases s.len() - i,
{
    if i < s.len() && is_line_space(s[i]) != want {
        lemma_scan_to_bounds(s, i + 1, want);
    }
}

pub fn is_space_char(c: char) -> (r: bool)
    ensures
        r == is_line_space(c),
{
    c == ' ' || c == '\t' || c == '\r'
}

/// Finds the first position at or after `from` whose space-ness equals
/// `want`, or the line's length.
pub fn scan_exec(line: &str, from: usize, want: bool) -> (r: usize)
    requires
        from <= line@.len(),
    ensures
        r == scan_to(line@, from as int, want),
        from <= r <= line@.len(),
{
    let n = line.unicode_len();
    let mut i: usize = from;
    while i < n
        invariant
            from <= i <= n,
            n == line@.len(),
            scan_to(line@, from as int, want) == scan_to(line@, i as int, want),
        decreases n - i,
    {
        if is_space_char(line.get_char(i)) == want {
            return i;
        }
        i = i + 1;
    }
    i
}

/// One trailing carriage return taken off a line.
pub open spec fn chomp_cr(s: Seq<char>) -> Seq<char> {
    if s.len() > 0 && s.last() == '\r' {
        s.drop_last()
    } else {
        s
    }
}

/// The first position at or after `i` holding a line break, or the length.
pub open spec fn scan_nl(s: Seq<char>, i: int) -> int
    decreases s.len() - i when 0 <= i <= s.len()
{
    if i >= s.len() {
        s.len() as int
    } else if s[i] == '\n' {
        i
    } else {
        scan_nl(s, i + 1)
    }
}

/// The text split into lines: line breaks separate lines, a carriage return
/// in front of a break belongs to the break, and a final break ends the
/// last line rather than opening an empty one.
pub open spec fn lines_of(s: Seq<char>) -> Seq<Seq<char>>
    decreases s.len(),
{
    if s.len() == 0 {
        Seq::empty()
    } else {
        let i = scan_nl(s, 0);
        if !(0 <= i < s.len()) {
            seq![chomp_cr(s)]
        } else {
            seq![chomp_cr(s.subrange(0, i))] + lines_of(s.subrange(i + 1, s.len() as int))
        }
    }
}

/// The line break scan lands between its start and the end.
pub proof fn lemma_scan_nl_bounds(s: Seq<char>, i: int)
    requires
        0 <= i <= s.len(),
    ensures
        i <= scan_nl(s, i) <= s.len(),
        scan_nl(s, i) < s.len() ==> s[scan_nl(s, i)] == '\n',
        forall|k: int| i <= k < scan_nl(s, i) ==> s[k] != '\n',
    decreases s.len() - i,
{
    if i < s.len() && s[i] != '\n' {
        lemma_scan_nl_bounds(s, i + 1);
    }
}

/// Finds the first line break at or after `from`, or the text's length.
pub fn find_nl(text: &str, from: usize) -> (r: usize)
    requires
        from <= text@.len(),
    ensures
        r == scan_nl(text@, from as int),
        from <= r <= text@.len(),
{
    let n = text.unicode_len();
    let mut i: usize = from;
    while i < n
        invariant
            from <= i <= n,
            n == text@.len(),
            scan_nl(text@, from as int) == scan_nl(text@, i as int),
        decreases n - i,
    {
        if text.get_char(i) == '\n' {
            return i;
        }
        i = i + 1;
    }
    i
}

/// The line break scans of a text and one of its suffixes agree.
pub proof fn lemma_scan_nl_agree(s: Seq<char>, rem: Seq<char>, off: int)
    requires
        0 <= off <= s.len(),
        rem == s.subrange(off, s.len() as int),
    ensures
        scan_nl(s, off) - off == scan_nl(rem, 0),
{
    lemma_scan_nl_bounds(s, off);
    lemma_scan_nl_bounds(rem, 0);
    let i = scan_nl(s, off);
    let j = scan_nl(rem, 0);
    if i - off < j {
        assert(rem[i - off] == s[i]);
    }
    if j < i - off {
        assert(s[off + j] == rem[j]);
    }
    if i - off > rem.len() {
        assert(false);
    }
    if j > i - off && i == s.len() {
        assert(false);
    }
}

} // verus!
