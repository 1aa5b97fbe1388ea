use vstd::prelude::*;

use crate::text::joined;

verus! {

broadcast use vstd::string::group_string_axioms, vstd::slice::group_slice_axioms;

/// The characters with the Unicode `White_Space` property.
pub open spec fn unicode_white_space(c: char) -> bool {
    ||| ('\u{9}' <= c && c <= '\u{d}')
    ||| c == ' '
    ||| c == '\u{85}'
    ||| c == '\u{a0}'
    ||| c == '\u{1680}'
    ||| ('\u{2000}' <= c && c <= '\u{200a}')
    ||| c == '\u{2028}'
    ||| c == '\u{2029}'
    ||| c == '\u{202f}'
    ||| c == '\u{205f}'
    ||| c == '\u{3000}'
}

/// Whether `c` has the Unicode `White_Space` property, as `char::is_whitespace`
/// decides it.
fn is_whitespace(c: char) -> (r: bool)
    ensures
        r == unicode_white_space(c),
{
    ('\u{9}' <= c && c <= '\u{d}') || c == ' ' || c == '\u{85}' || c == '\u{a0}' || c
        == '\u{1680}' || ('\u{2000}' <= c && c <= '\u{200a}') || c == '\u{2028}' || c
        == '\u{2029}' || c == '\u{202f}' || c == '\u{205f}' || c == '\u{3000}'
}

/// `String::push`, which appends one character.
#[verifier::external_body]
fn push_char(s: &mut String, c: char)
    ensures
        final(s)@ == old(s)@.push(c),
{
    s.push(c)
}

/// `s` cut at every `'\n'`: the pieces between separators, in order,
/// including empty ones; a text with `k` separators has `k + 1` pieces.
pub open spec fn split_lines(s: Seq<char>) -> Seq<Seq<char>>
    decreases s.len(),
{
    if s.len() == 0 {
        seq![Seq::empty()]
    } else {
        let prev = split_lines(s.drop_last());
        if s.last() == '\n' {
            prev.push(Seq::empty())
        } else {
            prev.update(prev.len() - 1, prev.last().push(s.last()))
        }
    }
}

/// `s` without its leading white space.
pub open spec fn trim_start(s: Seq<char>) -> Seq<char>
    decreases s.len(),
{
    if s.len() > 0 && unicode_white_space(s[0]) {
        trim_start(s.drop_first())
    } else {
        s
    }
}

/// `s` without its trailing white space.
pub open spec fn trim_end(s: Seq<char>) -> Seq<char>
    decreases s.len(),
{
    if s.len() > 0 && unicode_white_space(s.last()) {
        trim_end(s.drop_last())
    } else {
        s
    }
}

/// `s` without leading or trailing white space, as `str::trim` gives it.
pub open spec fn trim(s: Seq<char>) -> Seq<char> {
    trim_end(trim_start(s))
}

/// The trimmed pieces that are not empty, in order.
pub open spec fn kept_segments(pieces: Seq<Seq<char>>) -> Seq<Seq<char>>
    decreases pieces.len(),
{
    if pieces.len() == 0 {
        Seq::empty()
    } else {
        let rest = kept_segments(pieces.drop_last());
        let t = trim(pieces.last());
        if t.len() > 0 {
            rest.push(t)
        } else {
            rest
        }
    }
}

/// The entries a `'\n'`-delimited packages path names: each piece trimmed,
/// empty pieces dropped, order kept.
pub open spec fn packages_segments(s: Seq<char>) -> Seq<Seq<char>> {
    kept_segments(split_lines(s))
}

proof fn lemma_chars_fit_in_bytes(s: Seq<char>)
    ensures
        s.len() <= vstd::utf8::encode_utf8(s).len(),
    decreases s.len(),
{
    if s.len() > 0 {
        lemma_chars_fit_in_bytes(s.drop_first());
    }
}

proof fn lemma_split_lines_nonempty(s: Seq<char>)
    ensures
        split_lines(s).len() >= 1,
    decreases s.len(),
{
    if s.len() > 0 {
        lemma_split_lines_nonempty(s.drop_last());
    }
}

/// `cur` trimmed, as a `String`.
fn trimmed(cur: &Vec<char>) -> (r: String)
    ensures
        r@ == trim(cur@),
{
    let n = cur.len();
    let mut a: usize = 0;
    assert(cur@.subrange(0, n as int) =~= cur@);
    while a < n && is_whitespace(cur[a])
        invariant
            n == cur@.len(),
            a <= n,
            trim_start(cur@) == trim_start(cur@.subrange(a as int, n as int)),
        decreases n - a,
    {
        assert(cur@.subrange(a as int, n as int).drop_first() =~= cur@.subrange(
            a + 1,
            n as int,
        ));
        a = a + 1;
    }
    assert(trim_start(cur@) == cur@.subrange(a as int, n as int)) by {
        if a < n {
            assert(cur@.subrange(a as int, n as int)[0] == cur@[a as int]);
        } else {
            assert(cur@.subrange(a as int, n as int).len() == 0);
        }
    }
    let mut b: usize = n;
    while b > a && is_whitespace(cur[b - 1])
        invariant
            n == cur@.len(),
            a <= b <= n,
            trim_end(cur@.subrange(a as int, n as int)) == trim_end(
                cur@.subrange(a as int, b as int),
            ),
        decreases b - a,
    {
        assert(cur@.subrange(a as int, b as int).drop_last() =~= cur@.subrange(
            a as int,
            b - 1,
        ));
        b = b - 1;
    }
    assert(trim_end(cur@.subrange(a as int, b as int)) == cur@.subrange(a as int, b as int)) by {
        if b > a {
            assert(cur@.subrange(a as int, b as int).last() == cur@[b - 1]);
        } else {
            assert(cur@.subrange(a as int, b as int).len() == 0);
        }
    }
    let mut out = String::new();
    let mut k: usize = a;
    while k < b
        invariant
            n == cur@.len(),
            a <= k <= b <= n,
            out@ == cur@.subrange(a as int, k as int),
        decreases b - k,
    {
        push_char(&mut out, cur[k]);
        assert(cur@.subrange(a as int, k + 1) =~= cur@.subrange(a as int, k as int).push(
            cur@[k as int],
        ));
        k = k + 1;
    }
    out
}

/// Split a `'\n'`-delimited packages path into its non-empty, trimmed
/// segments, in order. The first segment ends up first in `sys.path`, so it
/// wins resolution.
pub fn parse_packages_path(packages_path: &str) -> (r: Vec<String>)
    ensures
        r@.len() == packages_segments(packages_path@).len(),
        forall|i: int|
            0 <= i < r@.len() ==> #[trigger] r@[i]@ == packages_segments(packages_path@)[i],
{
    let ghost s = packages_path@;
    let byte_len = packages_path.as_bytes().len();
    proof {
        lemma_chars_fit_in_bytes(s);
    }
    let mut done: Vec<String> = Vec::new();
    let mut cur: Vec<char> = Vec::new();
    let mut i: usize = 0;
    let mut chars = packages_path.chars();
    proof {
        lemma_split_lines_nonempty(s.take(0));
        assert(s.take(0) =~= Seq::<char>::empty());
    }
    loop
        invariant
            i <= s.len(),
            s.len() <= byte_len,
            s == packages_path@,
            vstd::std_specs::iter::IteratorSpec::remaining(&chars) == s.skip(i as int),
            vstd::std_specs::iter::IteratorSpec::obeys_prophetic_iter_laws(&chars),
            split_lines(s.take(i as int)).len() >= 1,
            cur@ == split_lines(s.take(i as int)).last(),
            done@.len() == kept_segments(split_lines(s.take(i as int)).drop_last()).len(),
            forall|j: int|
                0 <= j < done@.len() ==> #[trigger] done@[j]@ == kept_segments(
                    split_lines(s.take(i as int)).drop_last(),
                )[j],
        ensures
            i == s.len(),
            split_lines(s).len() >= 1,
            cur@ == split_lines(s).last(),
            done@.len() == kept_segments(split_lines(s).drop_last()).len(),
            forall|j: int|
                0 <= j < done@.len() ==> #[trigger] done@[j]@ == kept_segments(
                    split_lines(s).drop_last(),
                )[j],
        decreases s.len() - i,
    {
        let ghost prefix = s.take(i as int);
        let ghost pieces = split_lines(prefix);
        let next = chars.next();
        match next {
            None => {
                proof {
                    assert(s.take(i as int) =~= s);
                }
                break;
            },
            Some(c) => {
                let ghost longer = s.take(i + 1);
                proof {
                    assert(s.skip(i as int)[0] == s[i as int]);
                    assert(s.skip(i as int).drop_first() =~= s.skip(i + 1));
                    assert(longer.drop_last() =~= prefix);
                    assert(longer.last() == c);
                }
                if c == '\n' {
                    let t = trimmed(&cur);
                    proof {
                        assert(split_lines(longer) == pieces.push(Seq::empty()));
                        assert(split_lines(longer).drop_last() =~= pieces);
                        assert(pieces.drop_last().push(pieces.last()) =~= pieces);
                    }
                    if !t.as_str().is_empty() {
                        done.push(t);
                    }
                    cur = Vec::new();
                    proof {
                        lemma_split_lines_nonempty(longer);
                    }
                } else {
                    cur.push(c);
                    proof {
                        let updated = pieces.update(pieces.len() - 1, pieces.last().push(c));
                        assert(split_lines(longer) == updated);
                        assert(updated.drop_last() =~= pieces.drop_last());
                        lemma_split_lines_nonempty(longer);
                    }
                }
                i = i + 1;
            },
        }
    }
    let last = trimmed(&cur);
    let ghost pieces = split_lines(s);
    proof {
        assert(pieces.drop_last().push(pieces.last()) =~= pieces);
    }
    if !last.as_str().is_empty() {
        done.push(last);
    }
    done
}

/// `s` holds no `'\n'`.
pub open spec fn no_newline(s: Seq<char>) -> bool {
    forall|i: int| 0 <= i < s.len() ==> s[i] != '\n'
}

/// A segment as the parser gives them: not empty, already trimmed, on one
/// line.
pub open spec fn clean_segment(s: Seq<char>) -> bool {
    &&& s.len() > 0
    &&& trim(s) == s
    &&& no_newline(s)
}

/// The segments joined by `'\n'`.
pub open spec fn join_lines(segments: Seq<Seq<char>>) -> Seq<char>
    decreases segments.len(),
{
    if segments.len() == 0 {
        Seq::empty()
    } else if segments.len() == 1 {
        segments[0]
    } else {
        join_lines(segments.drop_last()) + seq!['\n'] + segments.last()
    }
}

proof fn lemma_split_lines_extend(a: Seq<char>, b: Seq<char>)
    requires
        no_newline(b),
    ensures
        split_lines(a + b) == split_lines(a).update(
            split_lines(a).len() - 1,
            split_lines(a).last() + b,
        ),
    decreases b.len(),
{
    lemma_split_lines_nonempty(a);
    if b.len() == 0 {
        assert(a + b =~= a);
        assert(split_lines(a).last() + b =~= split_lines(a).last());
        assert(split_lines(a).update(split_lines(a).len() - 1, split_lines(a).last())
            =~= split_lines(a));
    } else {
        let b0 = b.drop_last();
        let c = b.last();
        assert(no_newline(b0));
        lemma_split_lines_extend(a, b0);
        assert((a + b).drop_last() =~= a + b0);
        assert((a + b).last() == c);
        assert(c != '\n');
        let p = split_lines(a + b0);
        assert(p.last() =~= split_lines(a).last() + b0);
        assert((split_lines(a).last() + b0).push(c) =~= split_lines(a).last() + b);
        assert(p.update(p.len() - 1, p.last().push(c)) =~= split_lines(a).update(
            split_lines(a).len() - 1,
            split_lines(a).last() + b,
        ));
    }
}

proof fn lemma_split_join(segments: Seq<Seq<char>>)
    requires
        segments.len() >= 1,
        forall|i: int| 0 <= i < segments.len() ==> no_newline(#[trigger] segments[i]),
    ensures
        split_lines(join_lines(segments)) == segments,
    decreases segments.len(),
{
    let e = Seq::<char>::empty();
    if segments.len() == 1 {
        lemma_split_lines_extend(e, segments[0]);
        assert(e + segments[0] =~= segments[0]);
        assert(split_lines(e) == seq![e]);
        assert(seq![e].update(0, e + segments[0]) =~= segments);
    } else {
        let front = segments.drop_last();
        assert forall|i: int| 0 <= i < front.len() implies no_newline(#[trigger] front[i]) by {
            assert(front[i] == segments[i]);
        }
        lemma_split_join(front);
        let j = join_lines(front).push('\n');
        assert(join_lines(front) + seq!['\n'] =~= j);
        assert(j.drop_last() =~= join_lines(front));
        assert(split_lines(j) == front.push(e));
        assert(no_newline(segments.last()));
        lemma_split_lines_extend(j, segments.last());
        assert(e + segments.last() =~= segments.last());
        assert(front.push(e).update(front.len() as int, segments.last()) =~= segments);
    }
}

proof fn lemma_kept_clean(segments: Seq<Seq<char>>)
    requires
        forall|i: int| 0 <= i < segments.len() ==> clean_segment(#[trigger] segments[i]),
    ensures
        kept_segments(segments) == segments,
    decreases segments.len(),
{
    if segments.len() > 0 {
        let front = segments.drop_last();
        assert forall|i: int| 0 <= i < front.len() implies clean_segment(#[trigger] front[i]) by {
            assert(front[i] == segments[i]);
        }
        lemma_kept_clean(front);
        assert(clean_segment(segments[segments.len() - 1]));
        assert(front.push(segments.last()) =~= segments);
    }
}

/// Parsing the `'\n'`-join of clean segments gives the segments back.
pub proof fn lemma_parse_join_roundtrip(segments: Seq<Seq<char>>)
    requires
        forall|i: int| 0 <= i < segments.len() ==> clean_segment(#[trigger] segments[i]),
    ensures
        packages_segments(join_lines(segments)) == segments,
{
    if segments.len() == 0 {
        assert(split_lines(Seq::<char>::empty()) == seq![Seq::<char>::empty()]);
        assert(seq![Seq::<char>::empty()].drop_last() =~= Seq::<Seq<char>>::empty());
        assert(kept_segments(seq![Seq::<char>::empty()]) == kept_segments(
            Seq::<Seq<char>>::empty(),
        ));
    } else {
        assert forall|i: int| 0 <= i < segments.len() implies no_newline(
            #[trigger] segments[i],
        ) by {
            assert(clean_segment(segments[i]));
        }
        lemma_split_join(segments);
        lemma_kept_clean(segments);
    }
}

proof fn lemma_trim_start_suffix(s: Seq<char>) -> (k: int)
    ensures
        0 <= k <= s.len(),
        trim_start(s) == s.subrange(k, s.len() as int),
        trim_start(s).len() == 0 || !unicode_white_space(trim_start(s)[0]),
    decreases s.len(),
{
    if s.len() > 0 && unicode_white_space(s[0]) {
        let k = lemma_trim_start_suffix(s.drop_first());
        assert(s.drop_first().subrange(k, s.drop_first().len() as int) =~= s.subrange(
            k + 1,
            s.len() as int,
        ));
        k + 1
    } else {
        assert(s.subrange(0, s.len() as int) =~= s);
        0
    }
}

proof fn lemma_trim_end_prefix(s: Seq<char>) -> (k: int)
    ensures
        0 <= k <= s.len(),
        trim_end(s) == s.subrange(0, k),
        trim_end(s).len() == 0 || !unicode_white_space(trim_end(s).last()),
    decreases s.len(),
{
    if s.len() > 0 && unicode_white_space(s.last()) {
        let k = lemma_trim_end_prefix(s.drop_last());
        assert(s.drop_last().subrange(0, k) =~= s.subrange(0, k));
        k
    } else {
        assert(s.subrange(0, s.len() as int) =~= s);
        s.len() as int
    }
}

/// Trimming a trimmed text changes nothing.
proof fn lemma_trim_idempotent(s: Seq<char>)
    ensures
        trim(trim(s)) == trim(s),
{
    let k1 = lemma_trim_start_suffix(s);
    let x = trim_start(s);
    let k2 = lemma_trim_end_prefix(x);
    let t = trim(s);
    if t.len() > 0 {
        assert(t[0] == x[0]);
        assert(trim_start(t) == t);
        assert(trim_end(t) == t);
    } else {
        assert(trim_start(t) == t);
        assert(trim_end(t) == t);
    }
}

proof fn lemma_split_lines_no_newline(s: Seq<char>)
    ensures
        forall|i: int|
            0 <= i < split_lines(s).len() ==> no_newline(#[trigger] split_lines(s)[i]),
    decreases s.len(),
{
    lemma_split_lines_nonempty(s);
    if s.len() > 0 {
        lemma_split_lines_no_newline(s.drop_last());
        lemma_split_lines_nonempty(s.drop_last());
        let p = split_lines(s.drop_last());
        if s.last() != '\n' {
            assert(no_newline(p[p.len() - 1]));
            assert(no_newline(p.last().push(s.last())));
            assert forall|i: int| 0 <= i < split_lines(s).len() implies no_newline(
                #[trigger] split_lines(s)[i],
            ) by {
                if i < p.len() - 1 {
                    assert(split_lines(s)[i] == p[i]);
                }
            }
        } else {
            assert forall|i: int| 0 <= i < split_lines(s).len() implies no_newline(
                #[trigger] split_lines(s)[i],
            ) by {
                if i < p.len() {
                    assert(split_lines(s)[i] == p[i]);
                }
            }
        }
    }
}

proof fn lemma_kept_segments_clean(pieces: Seq<Seq<char>>)
    requires
        forall|i: int| 0 <= i < pieces.len() ==> no_newline(#[trigger] pieces[i]),
    ensures
        forall|i: int|
            0 <= i < kept_segments(pieces).len() ==> clean_segment(
                #[trigger] kept_segments(pieces)[i],
            ),
    decreases pieces.len(),
{
    if pieces.len() > 0 {
        let front = pieces.drop_last();
        assert forall|i: int| 0 <= i < front.len() implies no_newline(#[trigger] front[i]) by {
            assert(front[i] == pieces[i]);
        }
        lemma_kept_segments_clean(front);
        let last = pieces[pieces.len() - 1];
        let t = trim(last);
        lemma_trim_idempotent(last);
        let k1 = lemma_trim_start_suffix(last);
        let k2 = lemma_trim_end_prefix(trim_start(last));
        assert(no_newline(t)) by {
            assert forall|i: int| 0 <= i < t.len() implies t[i] != '\n' by {
                assert(t[i] == last[k1 + i]);
            }
        }
        assert(pieces.last() == last);
        let rest = kept_segments(front);
        let kept = kept_segments(pieces);
        assert forall|i: int| 0 <= i < kept.len() implies clean_segment(#[trigger] kept[i]) by {
            if t.len() > 0 {
                assert(kept == rest.push(t));
                if i < rest.len() {
                    assert(kept[i] == rest[i]);
                } else {
                    assert(kept[i] == t);
                }
            } else {
                assert(kept == rest);
            }
        }
    }
}

/// Every segment the parser gives is clean: not empty, trimmed, and on one
/// line.
pub proof fn lemma_segments_are_clean(s: Seq<char>)
    ensures
        forall|i: int|
            0 <= i < packages_segments(s).len() ==> clean_segment(
                #[trigger] packages_segments(s)[i],
            ),
{
    lemma_split_lines_no_newline(s);
    lemma_kept_segments_clean(split_lines(s));
}

/// Whether the JS-challenge shim registered: `None` when its import
/// succeeded, otherwise the reason the init reports as degraded.
pub fn shim_outcome(import: Result<(), String>) -> (r: Option<String>)
    ensures
        import is Ok ==> r is None,
        import matches Err(e) ==> (r matches Some(m) && m@ == "import unity_dlp_jsc: "@ + e@),
{
    match import {
        Ok(()) => None,
        Err(e) => Some(joined("import unity_dlp_jsc: ", e.as_str())),
    }
}


/// A list after the insertions of `plan` are made in order, each entry's
/// value going in at its index, as `list.insert` does.
pub open spec fn apply_inserts<A>(path: Seq<A>, plan: Seq<(int, A)>) -> Seq<A>
    decreases plan.len(),
{
    if plan.len() == 0 {
        path
    } else {
        apply_inserts(path, plan.drop_last()).insert(plan.last().0, plan.last().1)
    }
}

/// Inserting each segment at its own index, first to last, puts the
/// segments, in their own order, ahead of everything already on the path:
/// the first segment wins resolution, and the existing entries keep their
/// order behind them.
pub proof fn lemma_segments_lead_sys_path<A>(path: Seq<A>, segments: Seq<A>, plan: Seq<(int, A)>)
    requires
        plan.len() == segments.len(),
        forall|i: int| 0 <= i < plan.len() ==> #[trigger] plan[i] == (i, segments[i]),
    ensures
        apply_inserts(path, plan) == segments + path,
    decreases plan.len(),
{
    if plan.len() == 0 {
        assert(segments + path =~= path);
    } else {
        let n = plan.len() - 1;
        let front = segments.drop_last();
        assert forall|i: int| 0 <= i < plan.drop_last().len() implies #[trigger] plan.drop_last()[i]
            == (i, front[i]) by {
            assert(plan.drop_last()[i] == plan[i]);
        }
        lemma_segments_lead_sys_path(path, front, plan.drop_last());
        assert(plan.last() == (n, segments[n]));
        assert((front + path).insert(n, segments[n]) =~= segments + path);
    }
}

/// The plan's entries as indices and texts.
pub open spec fn plan_view(plan: Seq<(usize, String)>) -> Seq<(int, Seq<char>)> {
    plan.map_values(|e: (usize, String)| (e.0 as int, e.1@))
}

/// The `sys.path` insertions for a packages path: its `i`-th segment at
/// index `i`. Made in order, they put the segments ahead of the existing
/// entries, first segment first.
pub fn sys_path_plan(packages_path: &str) -> (r: Vec<(usize, String)>)
    ensures
        r@.len() == packages_segments(packages_path@).len(),
        forall|i: int|
            0 <= i < r@.len() ==> (#[trigger] r@[i]).0 == i && r@[i].1@ == packages_segments(
                packages_path@,
            )[i],
        forall|path: Seq<Seq<char>>|
            #[trigger] apply_inserts(path, plan_view(r@)) == packages_segments(packages_path@)
                + path,
{
    let segments = parse_packages_path(packages_path);
    let ghost segs = packages_segments(packages_path@);
    let mut plan: Vec<(usize, String)> = Vec::new();
    let n = segments.len();
    let mut i: usize = 0;
    while i < n
        invariant
            n == segments@.len(),
            n == segs.len(),
            forall|k: int| 0 <= k < n ==> #[trigger] segments@[k]@ == segs[k],
            i <= n,
            plan@.len() == i,
            forall|k: int| 0 <= k < i ==> (#[trigger] plan@[k]).0 == k && plan@[k].1@ == segs[k],
        decreases n - i,
    {
        plan.push((i, segments[i].clone()));
        i = i + 1;
    }
    proof {
        let pv = plan_view(plan@);
        assert forall|k: int| 0 <= k < pv.len() implies #[trigger] pv[k] == (k, segs[k]) by {
            assert(plan@[k].0 == k);
        }
        assert forall|path: Seq<Seq<char>>|
            #[trigger] apply_inserts(path, plan_view(plan@)) == segs + path by {
            lemma_segments_lead_sys_path(path, segs, pv);
        }
    }
    plan
}

} // verus!
