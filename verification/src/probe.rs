//! Parsing of the media-inspection tool's answers. The tool prints one
//! value per query as a decimal number on the first line that is not blank:
//! the stream duration in seconds, or the audio bitrate in bits per second.
//!
//! Values are carried in integer milli-units: a duration becomes whole
//! milliseconds (fractional digits past the third are floored away), which
//! keeps the rest of the engine in exact integer arithmetic.

use vstd::prelude::*;
use vstd::string::StringExecFns;
use vstd::string::StrSliceExecFns;
use crate::strings::chomp_cr;
use crate::strings::find_nl;
use crate::strings::is_line_space;
use crate::strings::lemma_scan_nl_agree;
use crate::strings::lemma_scan_nl_bounds;
use crate::strings::lemma_scan_to_bounds;
use crate::strings::lines_of;
use crate::strings::scan_nl;
use crate::strings::scan_to;
use crate::strings::scan_exec;

verus! {

/// A decimal digit character.
pub open spec fn is_digit(c: char) -> bool {
    48 <= c as int <= 57
}

/// The value of a decimal digit character.
pub open spec fn digit_val(c: char) -> int {
    c as int - 48
}

/// The value of a digit string read in base ten.
pub open spec fn digits_val(s: Seq<char>) -> int
    decreases s.len(),
{
    if s.len() == 0 {
        0
    } else {
        digits_val(s.drop_last()) * 10 + digit_val(s.last())
    }
}

/// Every character is a decimal digit.
pub open spec fn all_digits(s: Seq<char>) -> bool {
    forall|i: int| 0 <= i < s.len() ==> is_digit(s[i])
}

/// Ten to the `k`.
pub open spec fn pow10(k: nat) -> int
    decreases k,
{
    if k == 0 {
        1
    } else {
        10 * pow10((k - 1) as nat)
    }
}

/// A digit string's value is nonnegative and under ten to its length.
pub proof fn lemma_digits_val_bounds(s: Seq<char>)
    requires
        all_digits(s),
    ensures
        0 <= digits_val(s) < pow10(s.len()),
    decreases s.len(),
{
    if s.len() > 0 {
        assert(forall|i: int| 0 <= i < s.drop_last().len() ==> is_digit(s.drop_last()[i]));
        lemma_digits_val_bounds(s.drop_last());
        assert(s[s.len() - 1] == s.last());
    }
}

/// One more digit taken from `s` shifts the prefix value by one place.
pub proof fn lemma_digits_val_take_step(s: Seq<char>, i: int)
    requires
        0 <= i < s.len(),
    ensures
        digits_val(s.take(i + 1)) == digits_val(s.take(i)) * 10 + digit_val(s[i]),
{
    assert(s.take(i + 1).drop_last() =~= s.take(i));
    assert(s.take(i + 1).last() == s[i]);
}

/// A digit string's value is at least the value of any prefix.
pub proof fn lemma_digits_val_take_monotone(s: Seq<char>, i: int)
    requires
        all_digits(s),
        0 <= i <= s.len(),
    ensures
        digits_val(s) >= digits_val(s.take(i)),
    decreases s.len() - i,
{
    if i < s.len() {
        assert(s.take(i).len() == i);
        assert(forall|k: int| 0 <= k < s.take(i).len() ==> is_digit(s.take(i)[k]));
        lemma_digits_val_bounds(s.take(i));
        lemma_digits_val_take_step(s, i);
        lemma_digits_val_take_monotone(s, i + 1);
    } else {
        assert(s.take(i) =~= s);
    }
}

/// The small powers of ten, spelled out.
pub proof fn lemma_pow10_small()
    ensures
        pow10(0) == 1,
        pow10(1) == 10,
        pow10(2) == 100,
        pow10(3) == 1000,
{
    reveal_with_fuel(pow10, 4);
}

/// The fractional milli-value of a digit string is between zero and a
/// thousand, excluded.
pub proof fn lemma_frac_milli_bounds(f: Seq<char>)
    requires
        all_digits(f),
    ensures
        0 <= frac_milli(f) < 1000,
{
    lemma_pow10_small();
    if f.len() >= 3 {
        assert forall|k: int| 0 <= k < f.take(3).len() implies is_digit(f.take(3)[k]) by {
            assert(f.take(3)[k] == f[k]);
        }
        lemma_digits_val_bounds(f.take(3));
    } else {
        lemma_digits_val_bounds(f);
        if f.len() == 0 {
            assert(digits_val(f) == 0);
        } else if f.len() == 1 {
            assert(digits_val(f) * pow10(2) < 1000);
        } else {
            assert(digits_val(f) * pow10(1) < 1000);
        }
    }
}

/// The first position at or after `i` holding a dot, or the length.
pub open spec fn scan_dot(s: Seq<char>, i: int) -> int
    decreases s.len() - i when 0 <= i <= s.len()
{
    if i >= s.len() {
        s.len() as int
    } else if s[i] == '.' {
        i
    } else {
        scan_dot(s, i + 1)
    }
}

/// The dot scan lands between its start and the end.
pub proof fn lemma_scan_dot_bounds(s: Seq<char>, i: int)
    requires
        0 <= i <= s.len(),
    ensures
        i <= scan_dot(s, i) <= s.len(),
        scan_dot(s, i) < s.len() ==> s[scan_dot(s, i)] == '.',
        forall|k: int| i <= k < scan_dot(s, i) ==> s[k] != '.',
    decreases s.len() - i,
{
    if i < s.len() && s[i] != '.' {
        lemma_scan_dot_bounds(s, i + 1);
    }
}

/// The digits before the dot, or the whole text when there is no dot.
pub open spec fn int_part(s: Seq<char>) -> Seq<char> {
    s.take(scan_dot(s, 0))
}

/// The digits after the dot, empty when there is no dot.
pub open spec fn frac_part(s: Seq<char>) -> Seq<char> {
    if scan_dot(s, 0) < s.len() {
        s.skip(scan_dot(s, 0) + 1)
    } else {
        Seq::empty()
    }
}

/// A plain decimal number: a nonempty run of digits, optionally a dot and
/// further digits.
pub open spec fn well_formed_decimal(s: Seq<char>) -> bool {
    &&& int_part(s).len() > 0
    &&& all_digits(int_part(s))
    &&& all_digits(frac_part(s))
}

/// The fractional digits read as thousandths, floored past the third digit.
pub open spec fn frac_milli(f: Seq<char>) -> int {
    if f.len() >= 3 {
        digits_val(f.take(3))
    } else {
        digits_val(f) * pow10((3 - f.len()) as nat)
    }
}

/// The decimal's value scaled by a thousand and floored.
pub open spec fn decimal_milli(s: Seq<char>) -> int {
    digits_val(int_part(s)) * 1000 + frac_milli(frac_part(s))
}

/// What decimal parsing returns: the floored milli-value of a well-formed
/// decimal that fits, and nothing otherwise.
pub open spec fn decimal_post(s: Seq<char>, r: Option<u64>) -> bool {
    match r {
        Some(v) => well_formed_decimal(s) && v == decimal_milli(s),
        None => !well_formed_decimal(s) || decimal_milli(s) > u64::MAX,
    }
}

fn is_digit_char(c: char) -> (r: bool)
    ensures
        r == is_digit(c),
{
    let u = c as u32;
    48 <= u && u <= 57
}

fn find_dot(s: &str) -> (r: usize)
    ensures
        r == scan_dot(s@, 0),
        r <= s@.len(),
{
    let n = s.unicode_len();
    let mut i: usize = 0;
    while i < n
        invariant
            i <= n,
            n == s@.len(),
            scan_dot(s@, 0) == scan_dot(s@, i as int),
        decreases n - i,
    {
        if s.get_char(i) == '.' {
            return i;
        }
        i = i + 1;
    }
    i
}

/// Parses a plain decimal into thousandths, floored: `"128.5"` becomes
/// `128500`. Nothing comes back for text that is not a plain decimal or
/// whose value would not fit.
pub fn parse_decimal_milli(s: &str) -> (r: Option<u64>)
    ensures
        decimal_post(s@, r),
{
    let n = s.unicode_len();
    proof {
        lemma_scan_dot_bounds(s@, 0);
    }
    let dot = find_dot(s);
    let ghost ip = int_part(s@);
    let ghost fp = frac_part(s@);
    if dot == 0 {
        return None;
    }
    let mut i: usize = 0;
    let mut acc: u64 = 0;
    proof {
        assert(ip.take(0) =~= s@.take(0));
    }
    while i < dot
        invariant
            i <= dot,
            dot == scan_dot(s@, 0),
            0 < dot <= n,
            n == s@.len(),
            ip == int_part(s@),
            fp == frac_part(s@),
            forall|k: int| 0 <= k < i ==> is_digit(s@[k]),
            acc == digits_val(s@.take(i as int)),
        decreases dot - i,
    {
        let c = s.get_char(i);
        if !is_digit_char(c) {
            proof {
                assert(ip[i as int] == s@[i as int]);
                assert(!all_digits(ip));
            }
            return None;
        }
        let d: u64 = (c as u32 as u64) - 48;
        let wide: u128 = (acc as u128) * 10 + (d as u128);
        proof {
            lemma_digits_val_take_step(s@, i as int);
        }
        if wide > u64::MAX as u128 {
            proof {
                if well_formed_decimal(s@) {
                    assert(ip.take(i as int + 1) =~= s@.take(i as int + 1));
                    lemma_digits_val_take_monotone(ip, i as int + 1);
                    assert(digits_val(ip) >= wide);
                    lemma_frac_milli_bounds(fp);
                    assert(digits_val(ip) * 1000 >= digits_val(ip));
                    assert(decimal_milli(s@) > u64::MAX);
                }
            }
            return None;
        }
        acc = wide as u64;
        i = i + 1;
    }
    proof {
        assert(s@.take(dot as int) =~= ip);
        assert(acc == digits_val(ip));
    }
    let mut f: u64 = 0;
    let mut count: usize = 0;
    if dot < n {
        let mut j: usize = dot + 1;
        proof {
            assert(fp =~= s@.skip(dot as int + 1));
            assert(fp.take(0) =~= s@.take(0).skip(0).take(0));
            assert(f == digits_val(fp.take(count as int)));
        }
        while j < n
            invariant
                dot + 1 <= j <= n,
                dot == scan_dot(s@, 0),
                dot < n,
                n == s@.len(),
                fp == frac_part(s@),
                ip == int_part(s@),
                fp.len() == n - dot - 1,
                count == (if j - dot - 1 <= 3 {
                    j - dot - 1
                } else {
                    3
                }),
                forall|k: int| 0 <= k < j - dot - 1 ==> is_digit(fp[k]),
                f == digits_val(fp.take(count as int)),
                acc == digits_val(ip),
            decreases n - j,
        {
            let c = s.get_char(j);
            proof {
                assert(fp[j - dot - 1] == s@[j as int]);
            }
            if !is_digit_char(c) {
                proof {
                    assert(!all_digits(fp));
                }
                return None;
            }
            if count < 3 {
                let d: u64 = (c as u32 as u64) - 48;
                proof {
                    lemma_pow10_small();
                    assert forall|k: int| 0 <= k < fp.take(count as int).len() implies is_digit(
                        fp.take(count as int)[k],
                    ) by {
                        assert(fp.take(count as int)[k] == fp[k]);
                    }
                    lemma_digits_val_bounds(fp.take(count as int));
                    assert(fp.take(count as int + 1).drop_last() =~= fp.take(count as int));
                    assert(fp.take(count as int + 1).last() == fp[count as int]);
                }
                f = f * 10 + d;
                count = count + 1;
            }
            j = j + 1;
        }
    }
    proof {
        lemma_pow10_small();
        if fp.len() >= 3 {
            assert(count == 3);
        } else {
            assert(count == fp.len());
            assert(fp.take(count as int) =~= fp);
        }
        assert forall|k: int| 0 <= k < fp.take(count as int).len() implies is_digit(
            fp.take(count as int)[k],
        ) by {
            assert(fp.take(count as int)[k] == fp[k]);
        }
        lemma_digits_val_bounds(fp.take(count as int));
    }
    let scaled: u64 = if count == 0 {
        f * 1000
    } else if count == 1 {
        f * 100
    } else if count == 2 {
        f * 10
    } else {
        f
    };
    proof {
        assert(scaled == frac_milli(fp));
        assert(well_formed_decimal(s@));
    }
    let total: u128 = (acc as u128) * 1000 + (scaled as u128);
    if total > u64::MAX as u128 {
        proof {
            assert(decimal_milli(s@) > u64::MAX);
        }
        return None;
    }
    Some(total as u64)
}

/// The index of the last character that is not blank, or `-1`.
pub open spec fn last_content(s: Seq<char>) -> int
    decreases s.len(),
{
    if s.len() == 0 {
        -1
    } else if !is_line_space(s.last()) {
        s.len() - 1
    } else {
        last_content(s.drop_last())
    }
}

/// The last content lies inside the sequence and only blanks follow it.
pub proof fn lemma_last_content_bounds(s: Seq<char>)
    ensures
        -1 <= last_content(s) < s.len(),
        last_content(s) >= 0 ==> !is_line_space(s[last_content(s)]),
        forall|k: int| last_content(s) < k < s.len() ==> is_line_space(s[k]),
    decreases s.len(),
{
    if s.len() > 0 && is_line_space(s.last()) {
        lemma_last_content_bounds(s.drop_last());
        assert forall|k: int| last_content(s) < k < s.len() implies is_line_space(s[k]) by {
            if k < s.len() - 1 {
                assert(s.drop_last()[k] == s[k]);
            }
        }
        if last_content(s) >= 0 {
            assert(s.drop_last()[last_content(s)] == s[last_content(s)]);
        }
    }
}

/// The text with leading and trailing blanks taken off.
pub open spec fn trim_of(s: Seq<char>) -> Seq<char> {
    if scan_to(s, 0, false) >= s.len() {
        Seq::empty()
    } else {
        s.subrange(scan_to(s, 0, false), last_content(s) + 1)
    }
}

/// Takes leading and trailing blanks off a line.
pub fn trim_str<'a>(s: &'a str) -> (t: &'a str)
    ensures
        t@ == trim_of(s@),
{
    let n = s.unicode_len();
    proof {
        lemma_scan_to_bounds(s@, 0, false);
        lemma_last_content_bounds(s@);
    }
    let a = scan_exec(s, 0, false);
    if a >= n {
        let t = s.substring_char(0, 0);
        proof {
            assert(t@ =~= trim_of(s@));
        }
        return t;
    }
    let mut j: usize = n;
    proof {
        assert(s@.take(n as int) =~= s@);
        assert(a <= last_content(s@));
    }
    while j > 0
        invariant
            a < j <= n,
            a < n == s@.len(),
            a == scan_to(s@, 0, false),
            a <= last_content(s@),
            last_content(s@) == last_content(s@.take(j as int)),
        decreases j,
    {
        let c = s.get_char(j - 1);
        proof {
            lemma_scan_to_bounds(s@, 0, false);
            assert(s@.take(j as int).last() == s@[j - 1]);
            assert(s@.take(j as int).drop_last() =~= s@.take(j as int - 1));
        }
        if !(c == ' ' || c == '\t' || c == '\r') {
            let t = s.substring_char(a, j);
            proof {
                assert(t@ =~= trim_of(s@));
            }
            return t;
        }
        proof {
            if j - 1 == a {
                assert(false);
            }
        }
        j = j - 1;
    }
    proof {
        assert(false);
    }
    s.substring_char(0, 0)
}

/// The first line whose content is not all blank, trimmed.
pub open spec fn first_nonblank(ls: Seq<Seq<char>>) -> Option<Seq<char>>
    decreases ls.len(),
{
    if ls.len() == 0 {
        None
    } else if trim_of(ls[0]).len() > 0 {
        Some(trim_of(ls[0]))
    } else {
        first_nonblank(ls.drop_first())
    }
}

/// Finds the first line of `text` with content, trimmed.
pub fn first_content_line<'a>(text: &'a str) -> (r: Option<&'a str>)
    ensures
        match r {
            Some(t) => first_nonblank(lines_of(text@)) == Some(t@),
            None => first_nonblank(lines_of(text@)) is None,
        },
{
    let n = text.unicode_len();
    let mut pos: usize = 0;
    proof {
        assert(text@.subrange(0, n as int) =~= text@);
    }
    while pos < n
        invariant
            pos <= n,
            n == text@.len(),
            first_nonblank(lines_of(text@)) == first_nonblank(
                lines_of(text@.subrange(pos as int, n as int)),
            ),
        decreases n - pos,
    {
        let ghost rem = text@.subrange(pos as int, n as int);
        let nl = find_nl(text, pos);
        proof {
            lemma_scan_nl_bounds(text@, pos as int);
            lemma_scan_nl_bounds(rem, 0);
            lemma_scan_nl_agree(text@, rem, pos as int);
        }
        let line_end = if nl > pos && text.get_char(nl - 1) == '\r' {
            nl - 1
        } else {
            nl
        };
        let line = text.substring_char(pos, line_end);
        proof {
            if nl >= n {
                assert(rem =~= text@.subrange(pos as int, nl as int));
                assert(line@ =~= chomp_cr(rem));
                assert(lines_of(rem) =~= seq![line@]);
            } else {
                assert(rem.subrange(0, nl - pos) =~= text@.subrange(pos as int, nl as int));
                assert(line@ =~= chomp_cr(rem.subrange(0, nl - pos)));
                assert(lines_of(rem) =~= seq![line@] + lines_of(rem.subrange(
                    nl - pos + 1,
                    rem.len() as int,
                )));
            }
        }
        let t = trim_str(line);
        if t.unicode_len() > 0 {
            proof {
                assert(lines_of(rem)[0] == line@);
                assert(first_nonblank(lines_of(rem)) == Some(trim_of(line@)));
            }
            return Some(t);
        }
        if nl < n {
            proof {
                assert(lines_of(rem).drop_first() =~= lines_of(rem.subrange(
                    nl - pos + 1,
                    rem.len() as int,
                )));
                assert(rem.subrange(nl - pos + 1, rem.len() as int) =~= text@.subrange(
                    nl + 1,
                    n as int,
                ));
            }
            pos = nl + 1;
        } else {
            proof {
                assert(lines_of(rem).drop_first() =~= Seq::<Seq<char>>::empty());
                assert(text@.subrange(n as int, n as int).len() == 0);
                assert(lines_of(text@.subrange(n as int, n as int)) =~= Seq::<Seq<char>>::empty());
            }
            pos = n;
        }
    }
    proof {
        assert(text@.subrange(n as int, n as int).len() == 0);
    }
    None
}

/// What reading the duration returns: the first content line of the tool's
/// answer read as a decimal in whole milliseconds; an error when there is
/// no content, when it is not a plain decimal that fits, or when it names
/// no time at all.
pub open spec fn duration_post(text: Seq<char>, r: Result<u64, String>) -> bool {
    match first_nonblank(lines_of(text)) {
        None => r matches Err(m) && m@ == "Expected ffprobe output."@,
        Some(line) => {
            if !well_formed_decimal(line) || decimal_milli(line) > u64::MAX {
                r matches Err(m) && m@ == "Parse error: expected a decimal number."@
            } else if decimal_milli(line) == 0 {
                r matches Err(m) && m@ == "Duration must be > 0."@
            } else {
                r matches Ok(v) && v == decimal_milli(line)
            }
        },
    }
}

/// Reads the stream duration from the inspection tool's answer, in whole
/// milliseconds, which are positive on success.
pub fn read_ffprobe_duration(output: &str) -> (r: Result<u64, String>)
    ensures
        duration_post(output@, r),
        r matches Ok(v) ==> v > 0,
{
    let line = match first_content_line(output) {
        Some(line) => line,
        None => {
            return Err(String::from_str("Expected ffprobe output."));
        },
    };
    let v = match parse_decimal_milli(line) {
        Some(v) => v,
        None => {
            return Err(String::from_str("Parse error: expected a decimal number."));
        },
    };
    if v == 0 {
        return Err(String::from_str("Duration must be > 0."));
    }
    Ok(v)
}

/// What reading the audio bitrate returns: the first content line read as
/// bits per second and floored into whole kilobits per second; the fallback
/// when the query failed, there is no content, it is not a plain positive
/// decimal that fits, or it is zero.
pub open spec fn audio_post(success: bool, text: Seq<char>, fallback_kbps: u32, r: u32) -> bool {
    if !success {
        r == fallback_kbps
    } else {
        match first_nonblank(lines_of(text)) {
            None => r == fallback_kbps,
            Some(line) => {
                if !well_formed_decimal(line) || decimal_milli(line) > u64::MAX || decimal_milli(
                    line,
                ) == 0 {
                    r == fallback_kbps
                } else {
                    r == crate::planning::clamped_kbps(decimal_milli(line) / 1000000)
                }
            },
        }
    }
}

/// Reads the audio bitrate from the inspection tool's answer, in whole
/// kilobits per second, falling back when the answer is unusable.
pub fn read_audio_bitrate_kbps(probe_succeeded: bool, output: &str, fallback_kbps: u32) -> (r: u32)
    ensures
        audio_post(probe_succeeded, output@, fallback_kbps, r),
{
    if !probe_succeeded {
        return fallback_kbps;
    }
    let line = match first_content_line(output) {
        Some(line) => line,
        None => {
            return fallback_kbps;
        },
    };
    let milli = match parse_decimal_milli(line) {
        Some(v) => v,
        None => {
            return fallback_kbps;
        },
    };
    if milli == 0 {
        return fallback_kbps;
    }
    let kbps = milli / 1000000;
    if kbps > u32::MAX as u64 {
        u32::MAX
    } else {
        kbps as u32
    }
}

} // verus!
