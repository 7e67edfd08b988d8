//! Default output naming: the converted file sits beside its input, keeps
//! the input's file stem, and takes the fixed suffix naming the target
//! codec and container.

use vstd::prelude::*;
use vstd::string::StringExecFns;
use vstd::string::StrSliceExecFns;

verus! {

/// A path separator, on either kind of platform.
pub open spec fn is_sep(c: char) -> bool {
    c == '/' || c == '\\'
}

/// The index of the last separator in `s`, or `-1` when there is none.
pub open spec fn last_sep(s: Seq<char>) -> int
    decreases s.len(),
{
    if s.len() == 0 {
        -1
    } else if is_sep(s.last()) {
        s.len() - 1
    } else {
        last_sep(s.drop_last())
    }
}

/// The directory part of the path: everything through the last separator,
/// empty when there is none.
pub open spec fn dir_of(s: Seq<char>) -> Seq<char> {
    s.take(last_sep(s) + 1)
}

/// The file name part of the path: everything after the last separator.
pub open spec fn name_of(s: Seq<char>) -> Seq<char> {
    s.skip(last_sep(s) + 1)
}

/// The index of the last dot in `s`, or `-1` when there is none.
pub open spec fn last_dot(s: Seq<char>) -> int
    decreases s.len(),
{
    if s.len() == 0 {
        -1
    } else if s.last() == '.' {
        s.len() - 1
    } else {
        last_dot(s.drop_last())
    }
}

/// The stem of a file name: everything before the last dot, except that a
/// name whose only dot leads it keeps itself whole.
pub open spec fn stem_of(name: Seq<char>) -> Seq<char> {
    if last_dot(name) <= 0 {
        name
    } else {
        name.take(last_dot(name))
    }
}

/// The last separator lies inside the sequence, and nothing after it is a
/// separator.
pub proof fn lemma_last_sep_bounds(s: Seq<char>)
    ensures
        -1 <= last_sep(s) < s.len(),
        last_sep(s) >= 0 ==> is_sep(s[last_sep(s)]),
        forall|k: int| last_sep(s) < k < s.len() ==> !is_sep(s[k]),
    decreases s.len(),
{
    if s.len() > 0 && !is_sep(s.last()) {
        lemma_last_sep_bounds(s.drop_last());
        assert forall|k: int| last_sep(s) < k < s.len() implies !is_sep(s[k]) by {
            if k < s.len() - 1 {
                assert(s.drop_last()[k] == s[k]);
            }
        }
        if last_sep(s) >= 0 {
            assert(s.drop_last()[last_sep(s)] == s[last_sep(s)]);
        }
    }
}

/// What the default output path is: the input's directory, the input's
/// stem, and the fixed suffix; or an error when the input path carries no
/// file name.
pub open spec fn output_post(input: Seq<char>, r: Result<String, String>) -> bool {
    match r {
        Ok(o) => {
            &&& name_of(input).len() > 0
            &&& o@ == dir_of(input) + stem_of(name_of(input)) + ".av1.mp4"@
        },
        Err(m) => {
            &&& name_of(input).len() == 0
            &&& (if input.len() <= 1 {
                m@ == "Input path has no parent folder."@
            } else {
                m@ == "Input path has no file name."@
            })
        },
    }
}

fn find_last_sep(s: &str) -> (r: Option<usize>)
    ensures
        match r {
            Some(i) => i == last_sep(s@),
            None => last_sep(s@) == -1,
        },
{
    let n = s.unicode_len();
    let mut j: usize = n;
    proof {
        assert(s@.take(n as int) =~= s@);
    }
    while j > 0
        invariant
            j <= n,
            n == s@.len(),
            last_sep(s@) == last_sep(s@.take(j as int)),
        decreases j,
    {
        let c = s.get_char(j - 1);
        proof {
            assert(s@.take(j as int).last() == s@[j - 1]);
            assert(s@.take(j as int).drop_last() =~= s@.take(j as int - 1));
        }
        if c == '/' || c == '\\' {
            return Some(j - 1);
        }
        j = j - 1;
    }
    None
}

/// The last dot lies inside the sequence.
pub proof fn lemma_last_dot_bounds(s: Seq<char>)
    ensures
        -1 <= last_dot(s) < s.len(),
    decreases s.len(),
{
    if s.len() > 0 && s.last() != '.' {
        lemma_last_dot_bounds(s.drop_last());
    }
}

fn find_last_dot(s: &str) -> (r: Option<usize>)
    ensures
        match r {
            Some(i) => i == last_dot(s@),
            None => last_dot(s@) == -1,
        },
{
    let n = s.unicode_len();
    let mut j: usize = n;
    proof {
        assert(s@.take(n as int) =~= s@);
    }
    while j > 0
        invariant
            j <= n,
            n == s@.len(),
            last_dot(s@) == last_dot(s@.take(j as int)),
        decreases j,
    {
        let c = s.get_char(j - 1);
        proof {
            assert(s@.take(j as int).last() == s@[j - 1]);
            assert(s@.take(j as int).drop_last() =~= s@.take(j as int - 1));
        }
        if c == '.' {
            return Some(j - 1);
        }
        j = j - 1;
    }
    None
}

/// The default output path for an input path: same directory, same stem,
/// fixed `.av1.mp4` suffix.
pub fn default_output_for_input(input_path: &str) -> (r: Result<String, String>)
    ensures
        output_post(input_path@, r),
{
    let n = input_path.unicode_len();
    proof {
        lemma_last_sep_bounds(input_path@);
    }
    let sep = find_last_sep(input_path);
    let name_start = match sep {
        Some(i) => i + 1,
        None => 0,
    };
    if name_start >= n {
        if n <= 1 {
            return Err(String::from_str("Input path has no parent folder."));
        }
        return Err(String::from_str("Input path has no file name."));
    }
    let name = input_path.substring_char(name_start, n);
    proof {
        assert(name@ =~= name_of(input_path@));
    }
    proof {
        lemma_last_dot_bounds(name@);
    }
    let stem_end = match find_last_dot(name) {
        Some(d) if d > 0 => d,
        _ => name.unicode_len(),
    };
    let stem = name.substring_char(0, stem_end);
    proof {
        if last_dot(name@) <= 0 {
            assert(name@.subrange(0, name@.len() as int) =~= name@);
            assert(stem@ =~= stem_of(name_of(input_path@)));
        } else {
            assert(stem@ =~= stem_of(name_of(input_path@)));
        }
    }
    let dir = input_path.substring_char(0, name_start);
    proof {
        assert(dir@ =~= dir_of(input_path@));
    }
    let mut out = String::from_str(dir);
    out.append(stem);
    out.append(".av1.mp4");
    proof {
        assert(out@ =~= dir_of(input_path@) + stem_of(name_of(input_path@)) + ".av1.mp4"@);
    }
    Ok(out)
}

} // verus!
