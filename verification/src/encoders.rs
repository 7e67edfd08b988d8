//! Encoder-candidate resolution: order the encoders the tool offers into a
//! fallback list. The caller's explicit request comes first, then a fixed
//! priority table (hardware encoders before software ones), then whatever
//! else the tool reported, all without duplicates.
//!
//! Also the parser for the tool's capability listing: the lines whose first
//! token marks a video encoder and whose identifier names the target codec,
//! collected as a sorted, deduplicated set.

use vstd::prelude::*;
use vstd::string::StringExecFns;
use vstd::string::StrSliceExecFns;
use crate::strings::str_eq;
use crate::strings::str_lt;
use crate::strings::lex_lt;
use crate::strings::lemma_lex_lt_connected;
use crate::strings::lemma_lex_lt_transitive;
use crate::strings::scan_to;
use crate::strings::scan_exec;
use crate::strings::lines_of;
use crate::strings::scan_nl;
use crate::strings::chomp_cr;
use crate::strings::find_nl;
use crate::strings::lemma_scan_nl_bounds;
use crate::strings::lemma_scan_nl_agree;
use crate::strings::is_line_space;

verus! {

/// The character sequences of a list of owned strings.
pub open spec fn views(s: Seq<String>) -> Seq<Seq<char>> {
    s.map_values(|x: String| x@)
}

/// The fixed priority table: accelerated encoders first, then the software
/// encoders, then the remaining hardware interfaces.
pub open spec fn preferred_encoder_order() -> Seq<Seq<char>> {
    seq![
        "av1_nvenc"@,
        "libsvtav1"@,
        "libaom-av1"@,
        "librav1e"@,
        "av1_qsv"@,
        "av1_amf"@,
        "av1_mf"@,
        "av1_vaapi"@,
    ]
}

/// The priority table as string slices, in its fixed order.
pub fn preferred_encoders() -> (r: Vec<&'static str>)
    ensures
        r@.map_values(|s: &'static str| s@) == preferred_encoder_order(),
{
    let mut v: Vec<&'static str> = Vec::new();
    v.push("av1_nvenc");
    v.push("libsvtav1");
    v.push("libaom-av1");
    v.push("librav1e");
    v.push("av1_qsv");
    v.push("av1_amf");
    v.push("av1_mf");
    v.push("av1_vaapi");
    proof {
        assert(v@.map_values(|s: &'static str| s@) =~= preferred_encoder_order());
    }
    v
}

/// Keeps the first occurrence of every element and drops the later ones.
pub open spec fn dedup_first(s: Seq<Seq<char>>) -> Seq<Seq<char>>
    decreases s.len(),
{
    if s.len() == 0 {
        Seq::empty()
    } else if s.drop_last().contains(s.last()) {
        dedup_first(s.drop_last())
    } else {
        dedup_first(s.drop_last()).push(s.last())
    }
}

/// Deduplication neither loses nor invents elements.
pub proof fn lemma_dedup_first_membership(s: Seq<Seq<char>>, x: Seq<char>)
    ensures
        dedup_first(s).contains(x) == s.contains(x),
    decreases s.len(),
{
    if s.len() > 0 {
        let dl = s.drop_last();
        let d = dedup_first(dl);
        lemma_dedup_first_membership(dl, x);
        if dl.contains(x) {
            let i = choose|i: int| 0 <= i < dl.len() && dl[i] == x;
            assert(s[i] == x);
        }
        if x == s.last() {
            assert(s[s.len() - 1] == x);
        }
        if s.contains(x) {
            let i = choose|i: int| 0 <= i < s.len() && s[i] == x;
            if i < s.len() - 1 {
                assert(dl[i] == x);
            } else {
                assert(x == s.last());
            }
        }
        if !dl.contains(s.last()) {
            assert(d.push(s.last())[d.len() as int] == s.last());
            if d.push(s.last()).contains(x) {
                let j = choose|j: int| 0 <= j < d.len() + 1 && d.push(s.last())[j] == x;
                if j < d.len() {
                    assert(d[j] == x);
                } else {
                    assert(x == s.last());
                }
            }
            if d.contains(x) {
                let j = choose|j: int| 0 <= j < d.len() && d[j] == x;
                assert(d.push(s.last())[j] == x);
            }
        }
    }
}

/// Deduplication leaves no duplicates.
pub proof fn lemma_dedup_first_no_duplicates(s: Seq<Seq<char>>)
    ensures
        dedup_first(s).no_duplicates(),
    decreases s.len(),
{
    if s.len() > 0 {
        lemma_dedup_first_no_duplicates(s.drop_last());
        if !s.drop_last().contains(s.last()) {
            lemma_dedup_first_membership(s.drop_last(), s.last());
            let d = dedup_first(s.drop_last());
            assert forall|i: int, j: int|
                0 <= i < j < d.push(s.last()).len() && i != j implies d.push(s.last())[i] != d.push(
                s.last(),
            )[j] by {
                if j < d.len() {
                    assert(d[i] != d[j]);
                } else {
                    assert(d.push(s.last())[i] == d[i]);
                    assert(d.contains(d[i]));
                }
            }
        }
    }
}

/// Deduplication keeps the first element in front.
pub proof fn lemma_dedup_first_head(s: Seq<Seq<char>>)
    requires
        s.len() > 0,
    ensures
        dedup_first(s).len() > 0,
        dedup_first(s)[0] == s[0],
    decreases s.len(),
{
    if s.len() == 1 {
        assert(dedup_first(s) == dedup_first(s.drop_last()).push(s.last()));
    } else {
        lemma_dedup_first_head(s.drop_last());
        assert(s.drop_last()[0] == s[0]);
    }
}

/// The requested encoder as a sequence of zero or one names.
pub open spec fn requested_seq(requested: Option<Seq<char>>) -> Seq<Seq<char>> {
    match requested {
        Some(r) => seq![r],
        None => Seq::empty(),
    }
}

/// The raw candidate order before deduplication: the request, the available
/// part of the priority table, then everything available.
pub open spec fn candidate_base(requested: Option<Seq<char>>, avail: Seq<Seq<char>>) -> Seq<
    Seq<char>,
> {
    requested_seq(requested) + preferred_encoder_order().filter(|p: Seq<char>| avail.contains(p))
        + avail
}

/// The resolved candidate order: the raw order with later duplicates dropped.
pub open spec fn candidate_order(requested: Option<Seq<char>>, avail: Seq<Seq<char>>) -> Seq<
    Seq<char>,
> {
    dedup_first(candidate_base(requested, avail))
}

/// The view of an optional owned requested encoder name.
pub open spec fn requested_of(requested: Option<String>) -> Option<Seq<char>> {
    match requested {
        Some(r) => Some(r@),
        None => None,
    }
}

/// The view of an optional requested encoder name.
pub open spec fn requested_view(requested: Option<&str>) -> Option<Seq<char>> {
    match requested {
        Some(r) => Some(r@),
        None => None,
    }
}

/// What candidate resolution returns: an error when nothing is available or
/// the request is not, and otherwise exactly the resolved candidate order.
pub open spec fn resolver_post(
    requested: Option<Seq<char>>,
    avail: Seq<Seq<char>>,
    r: Result<Vec<String>, String>,
) -> bool {
    match r {
        Ok(out) => {
            &&& avail.len() > 0
            &&& out@.len() > 0
            &&& (requested matches Some(req) ==> avail.contains(req))
            &&& views(out@) == candidate_order(requested, avail)
        },
        Err(m) => {
            if avail.len() == 0 {
                m@ == "No supported AV1 encoder found in ffmpeg."@
            } else {
                &&& requested matches Some(req) && !avail.contains(req)
                &&& m@ == "Requested AV1 encoder is unavailable: "@ + requested.unwrap()
            }
        },
    }
}

/// Whether one of the owned strings reads as `s`.
pub fn vec_contains_str(v: &Vec<String>, s: &str) -> (r: bool)
    ensures
        r == views(v@).contains(s@),
{
    let mut i: usize = 0;
    while i < v.len()
        invariant
            i <= v@.len(),
            forall|k: int| 0 <= k < i ==> views(v@)[k] != s@,
        decreases v@.len() - i,
    {
        if str_eq(v[i].as_str(), s) {
            proof {
                assert(views(v@)[i as int] == s@);
            }
            return true;
        }
        i = i + 1;
    }
    false
}

/// Appends `e` unless an equal name is already present.
fn push_unique(ordered: &mut Vec<String>, e: &str)
    ensures
        views(final(ordered)@) == (if views(old(ordered)@).contains(e@) {
            views(old(ordered)@)
        } else {
            views(old(ordered)@).push(e@)
        }),
{
    if !vec_contains_str(ordered, e) {
        ordered.push(String::from_str(e));
        proof {
            assert(views(ordered@) =~= views(old(ordered)@).push(e@));
        }
    }
}

/// Orders the available encoders into the fallback list: the requested
/// encoder first when one is given (an error when it is not available),
/// then the available members of the priority table, then every remaining
/// available encoder in its reported order, without duplicates.
pub fn resolve_encoder_candidates(requested: Option<&str>, available_all: &Vec<String>) -> (r:
    Result<Vec<String>, String>)
    ensures
        resolver_post(requested_view(requested), views(available_all@), r),
{
    let ghost avail = views(available_all@);
    let ghost rv = requested_view(requested);
    if available_all.len() == 0 {
        return Err(String::from_str("No supported AV1 encoder found in ffmpeg."));
    }
    let mut ordered: Vec<String> = Vec::new();
    match requested {
        Some(req) => {
            if !vec_contains_str(available_all, req) {
                let mut m = String::from_str("Requested AV1 encoder is unavailable: ");
                m.append(req);
                return Err(m);
            }
            push_unique(&mut ordered, req);
            proof {
                reveal_with_fuel(dedup_first, 2);
                assert(requested_seq(rv) =~= seq![req@]);
                assert(seq![req@].drop_last() =~= Seq::<Seq<char>>::empty());
                assert(seq![req@].last() == req@);
                assert(views(ordered@) =~= dedup_first(requested_seq(rv)));
            }
        },
        None => {
            proof {
                reveal_with_fuel(dedup_first, 1);
                assert(requested_seq(rv) =~= Seq::<Seq<char>>::empty());
                assert(views(ordered@) =~= dedup_first(requested_seq(rv)));
            }
        },
    }
    let ghost pred = |p: Seq<char>| avail.contains(p);
    let pref = preferred_encoders();
    let ghost pref_views = pref@.map_values(|s: &'static str| s@);
    let mut j: usize = 0;
    while j < pref.len()
        invariant
            j <= pref@.len(),
            pref_views == pref@.map_values(|s: &'static str| s@),
            pref_views == preferred_encoder_order(),
            avail == views(available_all@),
            pred == (|p: Seq<char>| avail.contains(p)),
            views(ordered@) == dedup_first(requested_seq(rv) + pref_views.take(j as int).filter(
                pred,
            )),
        decreases pref@.len() - j,
    {
        let ghost before = requested_seq(rv) + pref_views.take(j as int).filter(pred);
        let ghost x = pref_views[j as int];
        proof {
            assert(pref_views[j as int] == pref@[j as int]@);
            lemma_dedup_first_membership(before, x);
        }
        if vec_contains_str(available_all, pref[j]) {
            push_unique(&mut ordered, pref[j]);
        }
        proof {
            reveal(Seq::filter);
            assert(pref_views.take(j as int + 1).drop_last() =~= pref_views.take(j as int));
            assert(pref_views.take(j as int + 1).last() == x);
            let t = pref_views.take(j as int).filter(pred);
            if pred(x) {
                assert(pref_views.take(j as int + 1).filter(pred) == t.push(x));
                let after = requested_seq(rv) + pref_views.take(j as int + 1).filter(pred);
                assert(after =~= before.push(x));
                assert(before.push(x).drop_last() =~= before);
                assert(before.push(x).last() == x);
                assert(views(ordered@) == dedup_first(after));
            } else {
                assert(pref_views.take(j as int + 1).filter(pred) == t);
                assert(requested_seq(rv) + pref_views.take(j as int + 1).filter(pred) =~= before);
                assert(views(ordered@) == dedup_first(before));
            }
        }
        j = j + 1;
    }
    proof {
        assert(pref_views.take(pref_views.len() as int) =~= pref_views);
    }
    let mut k: usize = 0;
    while k < available_all.len()
        invariant
            k <= available_all@.len(),
            avail == views(available_all@),
            pred == (|p: Seq<char>| avail.contains(p)),
            pref_views == preferred_encoder_order(),
            views(ordered@) == dedup_first(requested_seq(rv) + pref_views.filter(pred)
                + avail.take(k as int)),
        decreases available_all@.len() - k,
    {
        let ghost before = requested_seq(rv) + pref_views.filter(pred) + avail.take(k as int);
        let ghost x = avail[k as int];
        proof {
            assert(avail[k as int] == available_all@[k as int]@);
            lemma_dedup_first_membership(before, x);
        }
        push_unique(&mut ordered, available_all[k].as_str());
        proof {
            let after = requested_seq(rv) + pref_views.filter(pred) + avail.take(k as int + 1);
            assert(after =~= before.push(x));
            assert(before.push(x).drop_last() =~= before);
            assert(before.push(x).last() == x);
            assert(views(ordered@) == dedup_first(after));
        }
        k = k + 1;
    }
    proof {
        assert(avail.take(avail.len() as int) =~= avail);
        assert(views(ordered@) == candidate_order(rv, avail));
        lemma_dedup_first_membership(candidate_base(rv, avail), avail[0]);
        assert(candidate_base(rv, avail)[requested_seq(rv).len() + pref_views.filter(pred).len() as int]
            == avail[0]);
        assert(candidate_base(rv, avail).contains(avail[0]));
        assert(views(ordered@).len() > 0);
    }
    if ordered.len() == 0 {
        return Err(String::from_str("No supported AV1 encoder found in ffmpeg."));
    }
    Ok(ordered)
}

/// The encoder name a line of the capability listing contributes, when it
/// names the target codec, holds at least two blank-separated tokens, and
/// its first token begins with the video marker.
pub open spec fn parsed_encoder(line: Seq<char>) -> Option<Seq<char>> {
    let a = scan_to(line, 0, false);
    let b = scan_to(line, a, true);
    let c = scan_to(line, b, false);
    let d = scan_to(line, c, true);
    if crate::strings::contains_substring(line, "av1"@) && c < line.len() && a < line.len()
        && line[a] == 'V' {
        Some(line.subrange(c, d))
    } else {
        None
    }
}

/// Parses one line of the capability listing into the encoder it offers,
/// if any.
pub fn parse_encoder_line(line: &str) -> (r: Option<String>)
    ensures
        match r {
            Some(s) => parsed_encoder(line@) == Some(s@),
            None => parsed_encoder(line@) is None,
        },
{
    if !crate::strings::contains_str(line, "av1") {
        return None;
    }
    let n = line.unicode_len();
    let a = scan_exec(line, 0, false);
    let b = scan_exec(line, a, true);
    let c = scan_exec(line, b, false);
    let d = scan_exec(line, c, true);
    if c >= n {
        return None;
    }
    if line.get_char(a) != 'V' {
        return None;
    }
    let token = line.substring_char(c, d);
    Some(String::from_str(token))
}

/// Strictly ascending in the lexicographic order, hence also free of
/// duplicates.
pub open spec fn sorted_strict(s: Seq<Seq<char>>) -> bool {
    forall|i: int, j: int| 0 <= i < j < s.len() ==> lex_lt(s[i], s[j])
}

/// A strictly ascending sequence holds no name twice.
pub proof fn lemma_sorted_strict_no_duplicates(s: Seq<Seq<char>>)
    requires
        sorted_strict(s),
    ensures
        s.no_duplicates(),
{
    assert forall|i: int, j: int| 0 <= i < s.len() && 0 <= j < s.len() && i != j implies s[i]
        != s[j] by {
        if i < j {
            crate::strings::lemma_lex_lt_irreflexive(s[i]);
        } else {
            crate::strings::lemma_lex_lt_irreflexive(s[j]);
        }
    }
}

/// Inserts `e` at its ordered position unless an equal name is present.
fn insert_sorted_unique(v: &mut Vec<String>, e: String)
    requires
        sorted_strict(views(old(v)@)),
    ensures
        sorted_strict(views(final(v)@)),
        forall|x: Seq<char>| #[trigger]
            views(final(v)@).contains(x) <==> (views(old(v)@).contains(x) || x == e@),
{
    let ghost vs = views(v@);
    let mut i: usize = 0;
    while i < v.len() && str_lt(v[i].as_str(), e.as_str())
        invariant
            i <= v@.len(),
            vs == views(v@),
            forall|k: int| 0 <= k < i ==> lex_lt(vs[k], e@),
        decreases v@.len() - i,
    {
        proof {
            assert(vs[i as int] == v@[i as int]@);
        }
        i = i + 1;
    }
    if i < v.len() {
        proof {
            assert(vs[i as int] == v@[i as int]@);
        }
        if str_eq(v[i].as_str(), e.as_str()) {
            proof {
                assert(views(v@).contains(e@)) by {
                    assert(views(v@)[i as int] == e@);
                }
            }
            return ;
        }
    }
    proof {
        if i < vs.len() {
            lemma_lex_lt_connected(vs[i as int], e@);
        }
        assert forall|k: int| i <= k < vs.len() implies lex_lt(e@, vs[k]) by {
            if k > i {
                lemma_lex_lt_transitive(e@, vs[i as int], vs[k]);
            }
        }
    }
    v.insert(i, e);
    proof {
        let nvs = views(v@);
        assert(nvs.len() == vs.len() + 1);
        assert forall|k: int| 0 <= k < nvs.len() implies nvs[k] == (if k < i {
            vs[k]
        } else if k == i {
            e@
        } else {
            vs[k - 1]
        }) by {
            if k < i {
                assert(v@[k] == old(v)@[k]);
            } else if k > i {
                assert(v@[k] == old(v)@[k - 1]);
            }
        }
        assert forall|p: int, q: int| 0 <= p < q < nvs.len() implies lex_lt(nvs[p], nvs[q]) by {}
        assert forall|x: Seq<char>| #[trigger]
            nvs.contains(x) <==> (vs.contains(x) || x == e@) by {
            if nvs.contains(x) {
                let k = choose|k: int| 0 <= k < nvs.len() && nvs[k] == x;
                if k < i {
                    assert(vs[k] == x);
                } else if k > i {
                    assert(vs[k - 1] == x);
                }
            }
            if vs.contains(x) {
                let k = choose|k: int| 0 <= k < vs.len() && vs[k] == x;
                if k < i {
                    assert(nvs[k] == x);
                } else {
                    assert(nvs[k + 1] == x);
                }
            }
            if x == e@ {
                assert(nvs[i as int] == x);
            }
        }
    }
}

/// Whether some line of `text` contributes the encoder name `e`.
pub open spec fn listing_yields(text: Seq<char>, e: Seq<char>) -> bool {
    exists|k: int|
        0 <= k < lines_of(text).len() && parsed_encoder(lines_of(text)[k]) == Some(e)
}

/// Parses the tool's capability listing: every line that names the target
/// codec, holds two tokens and opens with the video marker contributes its
/// second token, and the contributions come back as a sorted set, each name
/// once, whatever order and multiplicity the tool printed them with.
pub fn list_encoders(output: &str) -> (r: Vec<String>)
    ensures
        sorted_strict(views(r@)),
        views(r@).no_duplicates(),
        forall|e: Seq<char>| #[trigger] views(r@).contains(e) <==> listing_yields(output@, e),
{
    let n = output.unicode_len();
    let mut found: Vec<String> = Vec::new();
    let mut pos: usize = 0;
    let ghost done: Seq<Seq<char>> = Seq::empty();
    let mut gdone = Ghost(done);
    proof {
        assert(output@.subrange(0, n as int) =~= output@);
    }
    while pos < n
        invariant
            pos <= n,
            n == output@.len(),
            lines_of(output@) == gdone@ + lines_of(output@.subrange(pos as int, n as int)),
            sorted_strict(views(found@)),
            forall|e: Seq<char>| #[trigger]
                views(found@).contains(e) <==> (exists|k: int|
                    0 <= k < gdone@.len() && parsed_encoder(gdone@[k]) == Some(e)),
        decreases n - pos,
    {
        let ghost rem = output@.subrange(pos as int, n as int);
        let nl = find_nl(output, pos);
        proof {
            lemma_scan_nl_bounds(output@, pos as int);
            lemma_scan_nl_bounds(rem, 0);
            assert forall|k: int| 0 <= k < rem.len() implies rem[k] == output@[pos + k] by {}
            assert(scan_nl(rem, 0) == nl - pos) by {
                lemma_scan_nl_agree(output@, rem, pos as int);
            }
        }
        let line_end = if nl > pos && output.get_char(nl - 1) == '\r' {
            nl - 1
        } else {
            nl
        };
        let line = output.substring_char(pos, line_end);
        proof {
            if nl >= n {
                assert(rem =~= output@.subrange(pos as int, nl as int));
                assert(line@ =~= chomp_cr(rem));
            } else {
                assert(rem.subrange(0, nl - pos) =~= output@.subrange(pos as int, nl as int));
                assert(line@ =~= chomp_cr(rem.subrange(0, nl - pos)));
            }
        }
        let parsed = parse_encoder_line(line);
        let ghost old_done = gdone@;
        let ghost old_found_views = views(found@);
        match parsed {
            Some(enc) => {
                insert_sorted_unique(&mut found, enc);
            },
            None => {},
        }
        proof {
            gdone@ = old_done.push(line@);
        }
        let ghost new_done = gdone@;
        proof {
            assert forall|e: Seq<char>| #[trigger]
                views(found@).contains(e) <==> (exists|k: int|
                    0 <= k < new_done.len() && parsed_encoder(new_done[k]) == Some(e)) by {
                if views(found@).contains(e) {
                    if old_found_views.contains(e) {
                        let k = choose|k: int|
                            0 <= k < old_done.len() && parsed_encoder(old_done[k]) == Some(e);
                        assert(new_done[k] == old_done[k]);
                    } else {
                        assert(parsed_encoder(line@) == Some(e));
                        assert(new_done[new_done.len() - 1] == line@);
                    }
                }
                if exists|k: int|
                    0 <= k < new_done.len() && parsed_encoder(new_done[k]) == Some(e) {
                    let k = choose|k: int|
                        0 <= k < new_done.len() && parsed_encoder(new_done[k]) == Some(e);
                    if k < new_done.len() - 1 {
                        assert(old_done[k] == new_done[k]);
                        assert(old_found_views.contains(e));
                    } else {
                        assert(new_done[k] == line@);
                    }
                }
            }
        }
        if nl < n {
            proof {
                assert(lines_of(rem) =~= seq![line@] + lines_of(rem.subrange(
                    nl - pos + 1,
                    rem.len() as int,
                )));
                assert(rem.subrange(nl - pos + 1, rem.len() as int) =~= output@.subrange(
                    nl + 1,
                    n as int,
                ));
                assert(lines_of(output@) =~= new_done + lines_of(output@.subrange(
                    nl + 1,
                    n as int,
                )));
            }
            pos = nl + 1;
        } else {
            proof {
                assert(rem.len() > 0);
                assert(lines_of(rem) =~= seq![line@]);
                assert(output@.subrange(n as int, n as int).len() == 0);
                assert(lines_of(output@.subrange(n as int, n as int)) =~= Seq::<Seq<char>>::empty());
                assert(lines_of(output@) =~= new_done + lines_of(output@.subrange(
                    n as int,
                    n as int,
                )));
            }
            pos = n;
        }
    }
    proof {
        assert(output@.subrange(n as int, n as int).len() == 0);
        assert(lines_of(output@) =~= gdone@);
        lemma_sorted_strict_no_duplicates(views(found@));
    }
    found
}

/// When the requested encoder is available, it resolves to the front of the
/// candidate list, and every available encoder is still a candidate.
pub proof fn lemma_resolver_requested_first(req: Seq<char>, avail: Seq<Seq<char>>)
    requires
        avail.contains(req),
    ensures
        candidate_order(Some(req), avail).len() > 0,
        candidate_order(Some(req), avail)[0] == req,
        forall|x: Seq<char>| #[trigger]
            avail.contains(x) ==> candidate_order(Some(req), avail).contains(x),
{
    let base = candidate_base(Some(req), avail);
    assert(base[0] == req);
    lemma_dedup_first_head(base);
    assert forall|x: Seq<char>| #[trigger] avail.contains(x) implies candidate_order(
        Some(req),
        avail,
    ).contains(x) by {
        let i = choose|i: int| 0 <= i < avail.len() && avail[i] == x;
        assert(base[requested_seq(Some(req)).len() + preferred_encoder_order().filter(
            |p: Seq<char>| avail.contains(p),
        ).len() + i as int] == x);
        lemma_dedup_first_membership(base, x);
    }
}

/// Resolution neither invents nor loses encoders, and never repeats one:
/// the candidates are exactly the available names (together with a
/// requested name that is available), each once.
pub proof fn lemma_resolver_preserves_available(requested: Option<Seq<char>>, avail: Seq<Seq<char>>)
    requires
        requested matches Some(req) ==> avail.contains(req),
    ensures
        forall|x: Seq<char>|
            candidate_order(requested, avail).contains(x) <==> avail.contains(x),
        candidate_order(requested, avail).no_duplicates(),
{
    let base = candidate_base(requested, avail);
    lemma_dedup_first_no_duplicates(base);
    assert forall|x: Seq<char>|
        candidate_order(requested, avail).contains(x) <==> avail.contains(x) by {
        lemma_dedup_first_membership(base, x);
        if base.contains(x) {
            let i = choose|i: int| 0 <= i < base.len() && base[i] == x;
            let r = requested_seq(requested);
            let p = preferred_encoder_order().filter(|q: Seq<char>| avail.contains(q));
            if i < r.len() {
                assert(avail.contains(x));
            } else if i < r.len() + p.len() {
                assert(p[i - r.len()] == x);
                Seq::lemma_filter_pred(
                    preferred_encoder_order(),
                    |q: Seq<char>| avail.contains(q),
                    i - r.len(),
                );
            } else {
                assert(avail[i - r.len() - p.len()] == x);
            }
        }
        if avail.contains(x) {
            let i = choose|i: int| 0 <= i < avail.len() && avail[i] == x;
            let r = requested_seq(requested);
            let p = preferred_encoder_order().filter(|q: Seq<char>| avail.contains(q));
            assert(base[r.len() + p.len() + i as int] == x);
        }
    }
}

} // verus!
