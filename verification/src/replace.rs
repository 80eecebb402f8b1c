//! Literal, ordered text substitution over bytes.
//!
//! Dockerfile templates are rendered by replacing unique marker tokens with
//! resolved parameter text, one marker after another, scanning left to right
//! over non-overlapping matches. This module gives that mechanism a
//! mathematical meaning (`replace_spec`) and an executable form
//! (`replace_all`) proved equal to it.

use vstd::prelude::*;

verus! {

/// `pat` occurs in `text` starting at position `i`.
pub open spec fn match_at(text: Seq<u8>, pat: Seq<u8>, i: int) -> bool {
    &&& 0 <= i
    &&& i + pat.len() <= text.len()
    &&& text.subrange(i, i + pat.len()) == pat
}

/// `pat` occurs somewhere in `text`.
pub open spec fn occurs(text: Seq<u8>, pat: Seq<u8>) -> bool {
    exists|i: int| match_at(text, pat, i)
}

/// No byte of `a` equals a byte of `b`.
pub open spec fn bytes_disjoint(a: Seq<u8>, b: Seq<u8>) -> bool {
    forall|i: int, j: int| 0 <= i < a.len() && 0 <= j < b.len() ==> a[i] != b[j]
}

/// Every occurrence of the pattern's first byte in `t` begins a full
/// occurrence of the pattern.
pub open spec fn lead_byte_discipline(t: Seq<u8>, pat: Seq<u8>) -> bool {
    forall|i: int| 0 <= i < t.len() && t[i] == pat[0] ==> match_at(t, pat, i)
}

/// The result of replacing every occurrence of `pat` in `text` by `rep`,
/// scanning left to right over non-overlapping matches (the semantics of
/// `str::replace`). An empty pattern replaces nothing.
pub open spec fn replace_spec(text: Seq<u8>, pat: Seq<u8>, rep: Seq<u8>) -> Seq<u8>
    decreases text.len(),
{
    if pat.len() == 0 || text.len() < pat.len() {
        text
    } else if match_at(text, pat, 0) {
        rep + replace_spec(text.skip(pat.len() as int), pat, rep)
    } else {
        seq![text[0]] + replace_spec(text.skip(1), pat, rep)
    }
}

/// A match inside a suffix is a match in the whole text, shifted.
pub proof fn lemma_skip_match(text: Seq<u8>, pat: Seq<u8>, n: int, j: int)
    requires
        0 <= n <= text.len(),
        0 <= j,
    ensures
        match_at(text.skip(n), pat, j) == match_at(text, pat, n + j),
{
    if j + pat.len() <= text.len() - n {
        assert(text.skip(n).subrange(j, j + pat.len()) =~= text.subrange(
            n + j,
            n + j + pat.len(),
        ));
    }
}

/// A pattern-free text has pattern-free suffixes.
pub proof fn lemma_skip_absence(text: Seq<u8>, pat: Seq<u8>, n: int)
    requires
        0 <= n <= text.len(),
        !occurs(text, pat),
    ensures
        !occurs(text.skip(n), pat),
{
    assert forall|j: int| !match_at(text.skip(n), pat, j) by {
        if match_at(text.skip(n), pat, j) {
            lemma_skip_match(text, pat, n, j);
            assert(match_at(text, pat, n + j));
        }
    }
}

/// A match in `b` is a match in `a + b`, shifted by `a`'s length.
pub proof fn lemma_match_concat_right(a: Seq<u8>, b: Seq<u8>, pat: Seq<u8>, j: int)
    requires
        match_at(b, pat, j),
    ensures
        match_at(a + b, pat, a.len() + j),
{
    assert((a + b).subrange(a.len() + j, a.len() + j + pat.len()) =~= b.subrange(
        j,
        j + pat.len(),
    ));
}

/// Replacement is the identity on pattern-free text: rendering an already
/// rendered (marker-free) text changes nothing.
pub proof fn lemma_replace_id(text: Seq<u8>, pat: Seq<u8>, rep: Seq<u8>)
    requires
        pat.len() > 0,
        !occurs(text, pat),
    ensures
        replace_spec(text, pat, rep) == text,
    decreases text.len(),
{
    if text.len() < pat.len() {
    } else if match_at(text, pat, 0) {
        assert(occurs(text, pat));
    } else {
        lemma_skip_absence(text, pat, 1);
        lemma_replace_id(text.skip(1), pat, rep);
        assert(seq![text[0]] + text.skip(1) =~= text);
    }
}

/// When the pattern occurs, the replacement text occurs in the result.
pub proof fn lemma_replace_intro(text: Seq<u8>, pat: Seq<u8>, rep: Seq<u8>)
    requires
        pat.len() > 0,
        occurs(text, pat),
    ensures
        occurs(replace_spec(text, pat, rep), rep),
    decreases text.len(),
{
    let w = choose|i: int| match_at(text, pat, i);
    if text.len() < pat.len() {
        assert(false);
    } else if match_at(text, pat, 0) {
        let rest = replace_spec(text.skip(pat.len() as int), pat, rep);
        assert((rep + rest).subrange(0, rep.len() as int) =~= rep);
        assert(match_at(rep + rest, rep, 0));
    } else {
        assert(w >= 1);
        lemma_skip_match(text, pat, 1, w - 1);
        assert(match_at(text.skip(1), pat, w - 1));
        assert(occurs(text.skip(1), pat));
        lemma_replace_intro(text.skip(1), pat, rep);
        let r1 = replace_spec(text.skip(1), pat, rep);
        let j = choose|j: int| match_at(r1, rep, j);
        lemma_match_concat_right(seq![text[0]], r1, rep, j);
    }
}

/// Ahead of the first byte drawn from the replacement, the result of a
/// substitution coincides with the original text.
pub proof fn lemma_replace_prefix(text: Seq<u8>, pat: Seq<u8>, rep: Seq<u8>, k: int)
    requires
        pat.len() > 0,
        rep.len() > 0,
        0 <= k <= replace_spec(text, pat, rep).len(),
        forall|j: int, m: int|
            0 <= j < k && 0 <= m < rep.len() ==> replace_spec(text, pat, rep)[j] != rep[m],
    ensures
        k <= text.len(),
        replace_spec(text, pat, rep).take(k) == text.take(k),
    decreases text.len(),
{
    let r = replace_spec(text, pat, rep);
    if text.len() < pat.len() {
    } else if match_at(text, pat, 0) {
        if k >= 1 {
            assert(r[0] == rep[0]);
            assert(false);
        }
        assert(r.take(0) =~= text.take(0));
    } else {
        if k == 0 {
            assert(r.take(0) =~= text.take(0));
        } else {
            let r1 = replace_spec(text.skip(1), pat, rep);
            assert(r == seq![text[0]] + r1);
            assert forall|j: int, m: int|
                0 <= j < k - 1 && 0 <= m < rep.len() implies r1[j] != rep[m] by {
                assert(r[j + 1] == r1[j]);
            }
            lemma_replace_prefix(text.skip(1), pat, rep, k - 1);
            assert(r.take(k) =~= seq![text[0]] + r1.take(k - 1));
            assert(text.take(k) =~= seq![text[0]] + text.skip(1).take(k - 1));
        }
    }
}

/// With a non-empty replacement sharing no byte with the marker,
/// substitution leaves no occurrence of the marker in the result.
pub proof fn lemma_replace_eliminates(text: Seq<u8>, pat: Seq<u8>, rep: Seq<u8>)
    requires
        pat.len() > 0,
        rep.len() > 0,
        bytes_disjoint(pat, rep),
    ensures
        !occurs(replace_spec(text, pat, rep), pat),
    decreases text.len(),
{
    let r = replace_spec(text, pat, rep);
    if text.len() < pat.len() {
        assert forall|i: int| !match_at(r, pat, i) by {}
    } else if match_at(text, pat, 0) {
        lemma_replace_eliminates(text.skip(pat.len() as int), pat, rep);
        let r1 = replace_spec(text.skip(pat.len() as int), pat, rep);
        assert(r == rep + r1);
        assert forall|i: int| !match_at(r, pat, i) by {
            if match_at(r, pat, i) {
                assert(r.subrange(i, i + pat.len())[0] == r[i]);
                if i < rep.len() {
                    assert(r[i] == rep[i]);
                    assert(false);
                } else {
                    assert(r.subrange(i, i + pat.len()) =~= r1.subrange(
                        i - rep.len(),
                        i - rep.len() + pat.len(),
                    ));
                    assert(match_at(r1, pat, i - rep.len()));
                    assert(false);
                }
            }
        }
    } else {
        lemma_replace_eliminates(text.skip(1), pat, rep);
        let r1 = replace_spec(text.skip(1), pat, rep);
        assert(r == seq![text[0]] + r1);
        assert forall|i: int| !match_at(r, pat, i) by {
            if match_at(r, pat, i) {
                if i >= 1 {
                    assert(r.subrange(i, i + pat.len()) =~= r1.subrange(
                        i - 1,
                        i - 1 + pat.len(),
                    ));
                    assert(match_at(r1, pat, i - 1));
                    assert(false);
                } else {
                    assert forall|j: int, m: int|
                        0 <= j < pat.len() && 0 <= m < rep.len() implies r[j] != rep[m] by {
                        assert(r.subrange(0, pat.len() as int)[j] == r[j]);
                        assert(r[j] == pat[j]);
                    }
                    lemma_replace_prefix(text, pat, rep, pat.len() as int);
                    assert(r.take(pat.len() as int) =~= r.subrange(0, pat.len() as int));
                    assert(text.take(pat.len() as int) =~= text.subrange(0, pat.len() as int));
                    assert(match_at(text, pat, 0));
                    assert(false);
                }
            }
        }
    }
}

/// Substituting one marker cannot create an occurrence of another pattern,
/// provided that pattern shares no byte with the inserted replacement and
/// did not occur before.
pub proof fn lemma_replace_preserves_absence(
    text: Seq<u8>,
    pat: Seq<u8>,
    rep: Seq<u8>,
    other: Seq<u8>,
)
    requires
        pat.len() > 0,
        rep.len() > 0,
        other.len() > 0,
        bytes_disjoint(other, rep),
        !occurs(text, other),
    ensures
        !occurs(replace_spec(text, pat, rep), other),
    decreases text.len(),
{
    let r = replace_spec(text, pat, rep);
    if text.len() < pat.len() {
    } else if match_at(text, pat, 0) {
        lemma_skip_absence(text, other, pat.len() as int);
        lemma_replace_preserves_absence(text.skip(pat.len() as int), pat, rep, other);
        let r1 = replace_spec(text.skip(pat.len() as int), pat, rep);
        assert(r == rep + r1);
        assert forall|i: int| !match_at(r, other, i) by {
            if match_at(r, other, i) {
                assert(r.subrange(i, i + other.len())[0] == r[i]);
                if i < rep.len() {
                    assert(r[i] == rep[i]);
                    assert(r[i] == other[0]);
                    assert(false);
                } else {
                    assert(r.subrange(i, i + other.len()) =~= r1.subrange(
                        i - rep.len(),
                        i - rep.len() + other.len(),
                    ));
                    assert(match_at(r1, other, i - rep.len()));
                    assert(false);
                }
            }
        }
    } else {
        lemma_skip_absence(text, other, 1);
        lemma_replace_preserves_absence(text.skip(1), pat, rep, other);
        let r1 = replace_spec(text.skip(1), pat, rep);
        assert(r == seq![text[0]] + r1);
        assert forall|i: int| !match_at(r, other, i) by {
            if match_at(r, other, i) {
                if i >= 1 {
                    assert(r.subrange(i, i + other.len()) =~= r1.subrange(
                        i - 1,
                        i - 1 + other.len(),
                    ));
                    assert(match_at(r1, other, i - 1));
                    assert(false);
                } else {
                    assert forall|j: int, m: int|
                        0 <= j < other.len() && 0 <= m < rep.len() implies r[j] != rep[m] by {
                        assert(r.subrange(0, other.len() as int)[j] == r[j]);
                        assert(r[j] == other[j]);
                    }
                    lemma_replace_prefix(text, pat, rep, other.len() as int);
                    assert(r.take(other.len() as int) =~= r.subrange(0, other.len() as int));
                    assert(text.take(other.len() as int) =~= text.subrange(
                        0,
                        other.len() as int,
                    ));
                    assert(match_at(text, other, 0));
                    assert(false);
                }
            }
        }
    }
}

/// When every occurrence of the marker's first byte begins a full occurrence
/// of the marker, and the replacement avoids that byte, substitution leaves
/// no trace of the byte. This covers removal (an empty replacement).
pub proof fn lemma_replace_strips_lead_byte(text: Seq<u8>, pat: Seq<u8>, rep: Seq<u8>)
    requires
        pat.len() > 0,
        forall|m: int| 0 <= m < rep.len() ==> rep[m] != pat[0],
        lead_byte_discipline(text, pat),
    ensures
        forall|k: int|
            0 <= k < replace_spec(text, pat, rep).len() ==> replace_spec(text, pat, rep)[k]
                != pat[0],
    decreases text.len(),
{
    let r = replace_spec(text, pat, rep);
    if text.len() < pat.len() {
        assert forall|k: int| 0 <= k < r.len() implies r[k] != pat[0] by {
            if text[k] == pat[0] {
                assert(match_at(text, pat, k));
                assert(false);
            }
        }
    } else if match_at(text, pat, 0) {
        let tail = text.skip(pat.len() as int);
        assert forall|i: int| 0 <= i < tail.len() && tail[i] == pat[0] implies match_at(
            tail,
            pat,
            i,
        ) by {
            assert(text[pat.len() + i] == tail[i]);
            assert(match_at(text, pat, pat.len() + i));
            lemma_skip_match(text, pat, pat.len() as int, i);
        }
        lemma_replace_strips_lead_byte(tail, pat, rep);
        let r1 = replace_spec(tail, pat, rep);
        assert(r == rep + r1);
        assert forall|k: int| 0 <= k < r.len() implies r[k] != pat[0] by {
            if k < rep.len() {
                assert(r[k] == rep[k]);
            } else {
                assert(r[k] == r1[k - rep.len()]);
            }
        }
    } else {
        assert(text[0] != pat[0]);
        let tail = text.skip(1);
        assert forall|i: int| 0 <= i < tail.len() && tail[i] == pat[0] implies match_at(
            tail,
            pat,
            i,
        ) by {
            assert(text[1 + i] == tail[i]);
            assert(match_at(text, pat, 1 + i));
            lemma_skip_match(text, pat, 1, i);
        }
        lemma_replace_strips_lead_byte(tail, pat, rep);
        let r1 = replace_spec(tail, pat, rep);
        assert(r == seq![text[0]] + r1);
        assert forall|k: int| 0 <= k < r.len() implies r[k] != pat[0] by {
            if k >= 1 {
                assert(r[k] == r1[k - 1]);
            }
        }
    }
}

/// A text free of some byte of the pattern is free of the pattern.
pub proof fn lemma_no_byte_no_occurrence(s: Seq<u8>, pat: Seq<u8>, idx: int)
    requires
        0 <= idx < pat.len(),
        forall|k: int| 0 <= k < s.len() ==> s[k] != pat[idx],
    ensures
        !occurs(s, pat),
{
    assert forall|i: int| !match_at(s, pat, i) by {
        if match_at(s, pat, i) {
            assert(s.subrange(i, i + pat.len())[idx] == s[i + idx]);
        }
    }
}

/// Positions before the first match are emitted unchanged.
pub proof fn lemma_replace_untouched_prefix(text: Seq<u8>, pat: Seq<u8>, rep: Seq<u8>, k: int)
    requires
        pat.len() > 0,
        0 <= k <= text.len(),
        forall|i: int| 0 <= i < k ==> !match_at(text, pat, i),
    ensures
        replace_spec(text, pat, rep).len() >= k,
        replace_spec(text, pat, rep).take(k) == text.take(k),
    decreases text.len(),
{
    let r = replace_spec(text, pat, rep);
    if text.len() < pat.len() {
        assert(r.take(k) =~= text.take(k));
    } else if match_at(text, pat, 0) {
        assert(k == 0);
        assert(r.take(0) =~= text.take(0));
    } else {
        if k == 0 {
            assert(r.take(0) =~= text.take(0));
        } else {
            let tail = text.skip(1);
            assert forall|i: int| 0 <= i < k - 1 implies !match_at(tail, pat, i) by {
                lemma_skip_match(text, pat, 1, i);
            }
            lemma_replace_untouched_prefix(tail, pat, rep, k - 1);
            let r1 = replace_spec(tail, pat, rep);
            assert(r == seq![text[0]] + r1);
            assert(r.take(k) =~= seq![text[0]] + r1.take(k - 1));
            assert(text.take(k) =~= seq![text[0]] + tail.take(k - 1));
        }
    }
}

/// A pattern that shares no byte with the replaced marker survives
/// substitution: its occurrence is preserved, possibly shifted.
pub proof fn lemma_replace_keeps(text: Seq<u8>, pat: Seq<u8>, rep: Seq<u8>, q: Seq<u8>)
    requires
        pat.len() > 0,
        q.len() > 0,
        bytes_disjoint(pat, q),
        occurs(text, q),
    ensures
        occurs(replace_spec(text, pat, rep), q),
    decreases text.len(),
{
    let r = replace_spec(text, pat, rep);
    let w = choose|i: int| match_at(text, q, i);
    if text.len() < pat.len() {
    } else if match_at(text, pat, 0) {
        assert(text.subrange(w, w + q.len())[0] == text[w]);
        assert(text[w] == q[0]);
        if w < pat.len() {
            assert(text.subrange(0, pat.len() as int)[w] == text[w]);
            assert(text[w] == pat[w]);
            assert(false);
        }
        let tail = text.skip(pat.len() as int);
        lemma_skip_match(text, q, pat.len() as int, w - pat.len());
        assert(match_at(tail, q, w - pat.len()));
        lemma_replace_keeps(tail, pat, rep, q);
        let r1 = replace_spec(tail, pat, rep);
        let j = choose|j: int| match_at(r1, q, j);
        lemma_match_concat_right(rep, r1, q, j);
    } else {
        if w >= 1 {
            let tail = text.skip(1);
            lemma_skip_match(text, q, 1, w - 1);
            assert(match_at(tail, q, w - 1));
            lemma_replace_keeps(tail, pat, rep, q);
            let r1 = replace_spec(tail, pat, rep);
            let j = choose|j: int| match_at(r1, q, j);
            lemma_match_concat_right(seq![text[0]], r1, q, j);
        } else {
            assert forall|i: int| 0 <= i < q.len() implies !match_at(text, pat, i) by {
                if match_at(text, pat, i) {
                    assert(text.subrange(i, i + pat.len())[0] == text[i]);
                    assert(text[i] == pat[0]);
                    assert(text.subrange(0, q.len() as int)[i] == text[i]);
                    assert(text[i] == q[i]);
                    assert(false);
                }
            }
            lemma_replace_untouched_prefix(text, pat, rep, q.len() as int);
            assert(r.take(q.len() as int) =~= r.subrange(0, q.len() as int));
            assert(text.take(q.len() as int) =~= text.subrange(0, q.len() as int));
            assert(match_at(r, q, 0));
        }
    }
}

/// Ahead of the first guard byte, the result of a removal coincides with
/// the original text, unless that text begins with a match.
proof fn lemma_removal_prefix(text: Seq<u8>, pat: Seq<u8>, g: u8, k: int)
    requires
        pat.len() > 0,
        0 <= k <= replace_spec(text, pat, Seq::<u8>::empty()).len(),
        forall|j: int| 0 <= j < k ==> replace_spec(text, pat, Seq::<u8>::empty())[j] != g,
        forall|i: int| 0 < i < text.len() && match_at(text, pat, i) ==> text[i - 1] == g,
    ensures
        match_at(text, pat, 0) || (k <= text.len() && replace_spec(
            text,
            pat,
            Seq::<u8>::empty(),
        ).take(k) == text.take(k)),
    decreases text.len(),
{
    let r = replace_spec(text, pat, Seq::<u8>::empty());
    if text.len() < pat.len() {
        assert(r.take(k) =~= text.take(k));
    } else if match_at(text, pat, 0) {
    } else {
        if k == 0 {
            assert(r.take(0) =~= text.take(0));
        } else {
            let tail = text.skip(1);
            let r1 = replace_spec(tail, pat, Seq::<u8>::empty());
            assert(r == seq![text[0]] + r1);
            assert forall|i: int| 0 < i < tail.len() && match_at(tail, pat, i) implies tail[i - 1]
                == g by {
                lemma_skip_match(text, pat, 1, i);
                assert(match_at(text, pat, 1 + i));
                assert(tail[i - 1] == text[i]);
            }
            assert forall|j: int| 0 <= j < k - 1 implies r1[j] != g by {
                assert(r[j + 1] == r1[j]);
            }
            lemma_removal_prefix(tail, pat, g, k - 1);
            if match_at(tail, pat, 0) {
                lemma_skip_match(text, pat, 1, 0);
                assert(match_at(text, pat, 1));
                assert(text[0] == g);
                assert(r[0] == text[0]);
                assert(false);
            } else {
                assert(r.take(k) =~= seq![text[0]] + r1.take(k - 1));
                assert(text.take(k) =~= seq![text[0]] + tail.take(k - 1));
            }
        }
    }
}

/// Removal of a guarded marker cannot splice another pattern into
/// existence: when every inner occurrence of the marker is preceded by a
/// guard byte that the other pattern avoids, absence of the other pattern is
/// preserved.
pub proof fn lemma_removal_preserves_absence(text: Seq<u8>, pat: Seq<u8>, q: Seq<u8>, g: u8)
    requires
        pat.len() > 0,
        q.len() > 0,
        !occurs(text, q),
        forall|k: int| 0 <= k < q.len() ==> q[k] != g,
        forall|i: int| 0 < i < text.len() && match_at(text, pat, i) ==> text[i - 1] == g,
    ensures
        !occurs(replace_spec(text, pat, Seq::<u8>::empty()), q),
    decreases text.len(),
{
    let r = replace_spec(text, pat, Seq::<u8>::empty());
    if text.len() < pat.len() {
    } else if match_at(text, pat, 0) {
        let tail = text.skip(pat.len() as int);
        assert forall|i: int| 0 < i < tail.len() && match_at(tail, pat, i) implies tail[i - 1]
            == g by {
            lemma_skip_match(text, pat, pat.len() as int, i);
            assert(match_at(text, pat, pat.len() + i));
            assert(tail[i - 1] == text[pat.len() + i - 1]);
        }
        lemma_skip_absence(text, q, pat.len() as int);
        lemma_removal_preserves_absence(tail, pat, q, g);
        let r1 = replace_spec(tail, pat, Seq::<u8>::empty());
        assert(r == Seq::<u8>::empty() + r1);
        assert(r =~= r1);
    } else {
        let tail = text.skip(1);
        assert forall|i: int| 0 < i < tail.len() && match_at(tail, pat, i) implies tail[i - 1]
            == g by {
            lemma_skip_match(text, pat, 1, i);
            assert(match_at(text, pat, 1 + i));
            assert(tail[i - 1] == text[i]);
        }
        lemma_skip_absence(text, q, 1);
        lemma_removal_preserves_absence(tail, pat, q, g);
        let r1 = replace_spec(tail, pat, Seq::<u8>::empty());
        assert(r == seq![text[0]] + r1);
        assert forall|i: int| !match_at(r, q, i) by {
            if match_at(r, q, i) {
                if i >= 1 {
                    assert(r.subrange(i, i + q.len()) =~= r1.subrange(i - 1, i - 1 + q.len()));
                    assert(match_at(r1, q, i - 1));
                    assert(false);
                } else {
                    assert forall|j: int| 0 <= j < q.len() implies r[j] != g by {
                        assert(r.subrange(0, q.len() as int)[j] == r[j]);
                        assert(r[j] == q[j]);
                    }
                    lemma_removal_prefix(text, pat, g, q.len() as int);
                    assert(r.take(q.len() as int) =~= r.subrange(0, q.len() as int));
                    assert(text.take(q.len() as int) =~= text.subrange(0, q.len() as int));
                    assert(match_at(text, q, 0));
                    assert(false);
                }
            }
        }
    }
}

/// The view of an optional byte vector.
pub open spec fn opt_bytes_view(o: Option<Vec<u8>>) -> Option<Seq<u8>> {
    match o {
        Some(v) => Some(v@),
        None => None,
    }
}

/// Appends a copy of `src` to `dst`.
pub fn append_bytes(dst: &mut Vec<u8>, src: &Vec<u8>)
    ensures
        final(dst)@ == old(dst)@ + src@,
{
    proof {
        assert(dst@ =~= old(dst)@ + src@.take(0));
    }
    let mut j: usize = 0;
    while j < src.len()
        invariant
            0 <= j <= src@.len(),
            dst@ == old(dst)@ + src@.take(j as int),
        decreases src@.len() - j,
    {
        dst.push(src[j]);
        proof {
            assert(dst@ =~= old(dst)@ + src@.take(j + 1));
        }
        j += 1;
    }
    proof {
        assert(src@.take(src@.len() as int) =~= src@);
    }
}

/// Compares two byte vectors for equality.
pub fn bytes_eq(a: &Vec<u8>, b: &Vec<u8>) -> (r: bool)
    ensures
        r == (a@ == b@),
{
    if a.len() != b.len() {
        proof {
            if a@ == b@ {
                assert(a@.len() == b@.len());
            }
        }
        return false;
    }
    let mut j: usize = 0;
    while j < a.len()
        invariant
            a@.len() == b@.len(),
            0 <= j <= a@.len(),
            forall|k: int| 0 <= k < j ==> a@[k] == b@[k],
        decreases a@.len() - j,
    {
        if a[j] != b[j] {
            proof {
                if a@ == b@ {
                    assert(a@[j as int] == b@[j as int]);
                }
            }
            return false;
        }
        j += 1;
    }
    proof {
        assert(a@ =~= b@);
    }
    true
}

/// Copies the bytes of `s` between positions `a` and `b`.
pub fn subvec(s: &Vec<u8>, a: usize, b: usize) -> (r: Vec<u8>)
    requires
        a <= b <= s@.len(),
    ensures
        r@ == s@.subrange(a as int, b as int),
{
    let mut r: Vec<u8> = Vec::new();
    let mut j: usize = a;
    proof {
        assert(r@ =~= s@.subrange(a as int, a as int));
    }
    while j < b
        invariant
            a <= j <= b <= s@.len(),
            r@ == s@.subrange(a as int, j as int),
        decreases b - j,
    {
        r.push(s[j]);
        proof {
            assert(r@ =~= s@.subrange(a as int, j + 1));
        }
        j += 1;
    }
    r
}

/// Checks whether `pat` occurs in `text` at position `i`.
fn match_at_exec(text: &Vec<u8>, pat: &Vec<u8>, i: usize) -> (r: bool)
    requires
        i + pat@.len() <= text@.len(),
    ensures
        r == match_at(text@, pat@, i as int),
{
    let n = text.len();
    let mut j: usize = 0;
    while j < pat.len()
        invariant
            n == text@.len(),
            i + pat@.len() <= text@.len(),
            0 <= j <= pat@.len(),
            forall|k: int| 0 <= k < j ==> text@[i + k] == pat@[k],
        decreases pat@.len() - j,
    {
        proof {
            assert(i + j < n);
        }
        if text[i + j] != pat[j] {
            proof {
                let sub = text@.subrange(i as int, i + pat@.len());
                assert(sub[j as int] == text@[i + j]);
                assert(sub != pat@);
            }
            return false;
        }
        j += 1;
    }
    proof {
        assert(text@.subrange(i as int, i + pat@.len()) =~= pat@);
    }
    true
}

/// Whether `pat` occurs anywhere in `text`.
pub fn contains_pattern(text: &Vec<u8>, pat: &Vec<u8>) -> (r: bool)
    ensures
        r == occurs(text@, pat@),
{
    if pat.len() > text.len() {
        proof {
            assert forall|k: int| !match_at(text@, pat@, k) by {}
        }
        return false;
    }
    if pat.len() == 0 {
        proof {
            assert(text@.subrange(0, 0) =~= pat@);
            assert(match_at(text@, pat@, 0));
        }
        return true;
    }
    let n = text.len();
    let end = n - pat.len();
    let mut i: usize = 0;
    while i <= end
        invariant
            n == text@.len(),
            pat@.len() >= 1,
            pat@.len() <= text@.len(),
            end == text@.len() - pat@.len(),
            0 <= i <= end + 1,
            forall|k: int| 0 <= k < i ==> !match_at(text@, pat@, k),
        decreases end + 1 - i,
    {
        if match_at_exec(text, pat, i) {
            return true;
        }
        i += 1;
    }
    proof {
        assert forall|k: int| !match_at(text@, pat@, k) by {
            if k > end {
                assert(k + pat@.len() > text@.len());
            }
        }
    }
    false
}

/// Replaces every occurrence of `pat` in `text` by `rep`: the executable
/// counterpart of `replace_spec`.
pub fn replace_all(text: &Vec<u8>, pat: &Vec<u8>, rep: &Vec<u8>) -> (out: Vec<u8>)
    ensures
        out@ == replace_spec(text@, pat@, rep@),
{
    if pat.len() == 0 {
        return text.clone();
    }
    let mut out: Vec<u8> = Vec::new();
    let mut i: usize = 0;
    proof {
        assert(text@.skip(0) =~= text@);
        assert(out@ + replace_spec(text@, pat@, rep@) =~= replace_spec(text@, pat@, rep@));
    }
    while i < text.len()
        invariant
            pat@.len() > 0,
            0 <= i <= text@.len(),
            replace_spec(text@, pat@, rep@) == out@ + replace_spec(
                text@.skip(i as int),
                pat@,
                rep@,
            ),
        decreases text@.len() - i,
    {
        let remaining = text.len() - i;
        let ghost out_pre = out@;
        let ghost tail = text@.skip(i as int);
        if pat.len() <= remaining && match_at_exec(text, pat, i) {
            proof {
                lemma_skip_match(text@, pat@, i as int, 0);
                assert(match_at(tail, pat@, 0));
                assert(tail.skip(pat@.len() as int) =~= text@.skip(i + pat@.len()));
            }
            let mut j: usize = 0;
            while j < rep.len()
                invariant
                    0 <= j <= rep@.len(),
                    out@ == out_pre + rep@.take(j as int),
                decreases rep@.len() - j,
            {
                out.push(rep[j]);
                proof {
                    assert(out@ =~= out_pre + rep@.take(j + 1));
                }
                j += 1;
            }
            proof {
                assert(rep@.take(rep@.len() as int) =~= rep@);
                assert(out_pre + (rep@ + replace_spec(text@.skip(i + pat@.len()), pat@, rep@))
                    =~= out@ + replace_spec(text@.skip(i + pat@.len()), pat@, rep@));
            }
            i += pat.len();
        } else {
            proof {
                if pat@.len() <= remaining {
                    lemma_skip_match(text@, pat@, i as int, 0);
                    assert(!match_at(tail, pat@, 0));
                    assert(tail.skip(1) =~= text@.skip(i + 1));
                    assert(replace_spec(tail, pat@, rep@) == seq![tail[0]] + replace_spec(
                        text@.skip(i + 1),
                        pat@,
                        rep@,
                    ));
                } else {
                    assert(tail.len() < pat@.len());
                    assert(replace_spec(tail, pat@, rep@) == tail);
                    let tail1 = text@.skip(i + 1);
                    assert(tail1.len() < pat@.len());
                    assert(replace_spec(tail1, pat@, rep@) == tail1);
                    assert(tail =~= seq![tail[0]] + tail1);
                }
            }
            out.push(text[i]);
            proof {
                assert(out@ =~= out_pre + seq![tail[0]]);
                assert(out_pre + (seq![tail[0]] + replace_spec(text@.skip(i + 1), pat@, rep@))
                    =~= out@ + replace_spec(text@.skip(i + 1), pat@, rep@));
            }
            i += 1;
        }
    }
    proof {
        assert(text@.skip(text@.len() as int).len() == 0);
        assert(replace_spec(text@.skip(text@.len() as int), pat@, rep@)
            == text@.skip(text@.len() as int));
        assert(out@ + text@.skip(text@.len() as int) =~= out@);
    }
    out
}

} // verus!
