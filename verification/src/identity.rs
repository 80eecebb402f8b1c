//! Login-identity resolution over container-engine output: an explicit
//! override, else the primary engine's info output scanned for a username
//! line, else the secondary engine's login query read verbatim.

use vstd::prelude::*;
use crate::replace::{contains_pattern, occurs, opt_bytes_view, subvec};

verus! {

/// The marker of a username line in the primary engine's info output:
/// `Username`.
pub open spec fn username_marker() -> Seq<u8> {
    seq![85u8, 115, 101, 114, 110, 97, 109, 101]
}

/// ASCII whitespace.
pub open spec fn is_space(b: u8) -> bool {
    b == 32 || b == 9 || b == 10 || b == 11 || b == 12 || b == 13
}

/// `s` without its trailing whitespace.
pub open spec fn rstrip_spaces(s: Seq<u8>) -> Seq<u8>
    decreases s.len(),
{
    if s.len() > 0 && is_space(s.last()) {
        rstrip_spaces(s.drop_last())
    } else {
        s
    }
}

/// The maximal non-whitespace suffix of `s`.
pub open spec fn nonspace_suffix(s: Seq<u8>) -> Seq<u8>
    decreases s.len(),
{
    if s.len() > 0 && !is_space(s.last()) {
        nonspace_suffix(s.drop_last()) + seq![s.last()]
    } else {
        Seq::<u8>::empty()
    }
}

/// The last whitespace-delimited token of a line; empty when the line holds
/// none.
pub open spec fn last_token(s: Seq<u8>) -> Seq<u8> {
    nonspace_suffix(rstrip_spaces(s))
}

/// `s` split on `sep`; splitting empty text gives one empty piece.
pub open spec fn split_spec(s: Seq<u8>, sep: u8) -> Seq<Seq<u8>>
    decreases s.len(),
{
    if s.len() == 0 {
        seq![Seq::<u8>::empty()]
    } else if s[0] == sep {
        seq![Seq::<u8>::empty()] + split_spec(s.skip(1), sep)
    } else {
        let rest = split_spec(s.skip(1), sep);
        seq![seq![s[0]] + rest[0]] + rest.skip(1)
    }
}

/// A split has at least one piece.
proof fn lemma_split_len(s: Seq<u8>, sep: u8)
    ensures
        split_spec(s, sep).len() >= 1,
    decreases s.len(),
{
}

/// Left-to-right scan of output lines: each line containing the username
/// marker overwrites the candidate with its last token.
pub open spec fn scan_username(lines: Seq<Seq<u8>>, acc: Seq<u8>) -> Seq<u8>
    decreases lines.len(),
{
    if lines.len() == 0 {
        acc
    } else {
        let acc2 = if occurs(lines[0], username_marker()) {
            last_token(lines[0])
        } else {
            acc
        };
        scan_username(lines.skip(1), acc2)
    }
}

/// The username reported by the primary engine's info output: the last
/// whitespace token of the last username line; empty when there is none.
pub open spec fn docker_username(s: Seq<u8>) -> Seq<u8> {
    scan_username(split_spec(s, 10), Seq::<u8>::empty())
}

/// The primary login result: an override wins outright; otherwise the
/// username scanned from the info output, none when it comes up empty.
pub open spec fn docker_login_spec(ov: Option<Seq<u8>>, out: Seq<u8>) -> Option<Seq<u8>> {
    match ov {
        Some(v) => Some(v),
        None => {
            let u = docker_username(out);
            if u.len() == 0 {
                None
            } else {
                Some(u)
            }
        },
    }
}

/// Text up to the first line break.
pub open spec fn first_line(s: Seq<u8>) -> Seq<u8>
    decreases s.len(),
{
    if s.len() == 0 {
        Seq::<u8>::empty()
    } else if s[0] == 10 {
        Seq::<u8>::empty()
    } else {
        seq![s[0]] + first_line(s.skip(1))
    }
}

/// A line as `str::lines` yields it: one trailing carriage return stripped.
pub open spec fn strip_cr(l: Seq<u8>) -> Seq<u8> {
    if l.len() > 0 && l.last() == 13 {
        l.drop_last()
    } else {
        l
    }
}

/// The secondary login result: the first line of the login query's output,
/// verbatim; none when it is empty.
pub open spec fn podman_login_spec(out: Seq<u8>) -> Option<Seq<u8>> {
    let u = strip_cr(first_line(out));
    if u.len() == 0 {
        None
    } else {
        Some(u)
    }
}

/// The first piece of a split, adjusted: `x` prepended to it.
pub open spec fn prepend_first(x: Seq<u8>, l: Seq<Seq<u8>>) -> Seq<Seq<u8>> {
    seq![x + l[0]] + l.skip(1)
}

/// ASCII whitespace, executable.
fn is_space_exec(b: u8) -> (r: bool)
    ensures
        r == is_space(b),
{
    b == 32 || b == 9 || b == 10 || b == 11 || b == 12 || b == 13
}

/// A suffix holding only whitespace, preceded by non-whitespace, locates the
/// right strip.
proof fn lemma_rstrip(s: Seq<u8>, e: int)
    requires
        0 <= e <= s.len(),
        forall|m: int| e <= m < s.len() ==> is_space(s[m]),
        e > 0 ==> !is_space(s[e - 1]),
    ensures
        rstrip_spaces(s) == s.take(e),
    decreases s.len(),
{
    if s.len() == e {
        assert(s.take(e) =~= s);
    } else {
        assert(is_space(s[s.len() - 1]));
        lemma_rstrip(s.drop_last(), e);
        assert(s.drop_last().take(e) =~= s.take(e));
    }
}

/// A non-whitespace suffix preceded by whitespace is the maximal one.
proof fn lemma_nonspace_suffix_skip(t: Seq<u8>, k: int)
    requires
        0 <= k <= t.len(),
        forall|m: int| k <= m < t.len() ==> !is_space(t[m]),
        k > 0 ==> is_space(t[k - 1]),
    ensures
        nonspace_suffix(t) == t.skip(k),
    decreases t.len(),
{
    if t.len() == k {
        if k == 0 {
            assert(t.skip(0) =~= t);
        } else {
            assert(t.last() == t[k - 1]);
            assert(t.skip(k) =~= Seq::<u8>::empty());
        }
    } else {
        assert(!is_space(t[t.len() - 1]));
        lemma_nonspace_suffix_skip(t.drop_last(), k);
        assert(t.drop_last().skip(k) + seq![t.last()] =~= t.skip(k));
    }
}

/// The last whitespace-delimited token of a line, executable.
pub fn last_token_exec(line: &Vec<u8>) -> (r: Vec<u8>)
    ensures
        r@ == last_token(line@),
{
    let mut e: usize = line.len();
    while e > 0 && is_space_exec(line[e - 1])
        invariant
            0 <= e <= line@.len(),
            forall|m: int| e <= m < line@.len() ==> is_space(line@[m]),
        decreases e,
    {
        e -= 1;
    }
    proof {
        lemma_rstrip(line@, e as int);
    }
    let mut k: usize = e;
    while k > 0 && !is_space_exec(line[k - 1])
        invariant
            0 <= k <= e <= line@.len(),
            forall|m: int| k <= m < e ==> !is_space(line@[m]),
        decreases k,
    {
        k -= 1;
    }
    proof {
        let t = line@.take(e as int);
        assert forall|m: int| k <= m < t.len() implies !is_space(t[m]) by {
            assert(t[m] == line@[m]);
        }
        if k > 0 {
            assert(t[k - 1] == line@[k - 1]);
        }
        lemma_nonspace_suffix_skip(t, k as int);
        assert(t.skip(k as int) =~= line@.subrange(k as int, e as int));
    }
    subvec(line, k, e)
}

/// A character step keeps the scan unchanged.
proof fn lemma_scan_step_char(s: Seq<u8>, i: int, start: int, acc: Seq<u8>)
    requires
        0 <= start <= i < s.len(),
        s[i] != 10,
    ensures
        scan_username(prepend_first(s.subrange(start, i), split_spec(s.skip(i), 10)), acc)
            == scan_username(
            prepend_first(s.subrange(start, i + 1), split_spec(s.skip(i + 1), 10)),
            acc,
        ),
{
    let rest = split_spec(s.skip(i + 1), 10);
    lemma_split_len(s.skip(i + 1), 10);
    assert(s.skip(i)[0] == s[i]);
    assert(s.skip(i).skip(1) =~= s.skip(i + 1));
    assert(split_spec(s.skip(i), 10) == seq![seq![s[i]] + rest[0]] + rest.skip(1));
    assert(prepend_first(s.subrange(start, i), split_spec(s.skip(i), 10)) =~~= prepend_first(
        s.subrange(start, i + 1),
        rest,
    ));
}

/// A line-break step folds the finished line into the candidate.
proof fn lemma_scan_step_newline(s: Seq<u8>, i: int, start: int, acc: Seq<u8>)
    requires
        0 <= start <= i < s.len(),
        s[i] == 10,
    ensures
        scan_username(prepend_first(s.subrange(start, i), split_spec(s.skip(i), 10)), acc)
            == scan_username(
            split_spec(s.skip(i + 1), 10),
            if occurs(s.subrange(start, i), username_marker()) {
                last_token(s.subrange(start, i))
            } else {
                acc
            },
        ),
{
    let c = s.subrange(start, i);
    let r2 = split_spec(s.skip(i + 1), 10);
    lemma_split_len(s.skip(i + 1), 10);
    assert(s.skip(i)[0] == 10);
    assert(s.skip(i).skip(1) =~= s.skip(i + 1));
    assert(split_spec(s.skip(i), 10) == seq![Seq::<u8>::empty()] + r2);
    assert(prepend_first(c, seq![Seq::<u8>::empty()] + r2) =~~= seq![c] + r2);
    assert((seq![c] + r2).skip(1) =~= r2);
    assert((seq![c] + r2)[0] == c);
}

/// At the start nothing is folded yet.
proof fn lemma_scan_init(s: Seq<u8>)
    ensures
        docker_username(s) == scan_username(
            prepend_first(s.subrange(0, 0), split_spec(s.skip(0), 10)),
            Seq::<u8>::empty(),
        ),
{
    lemma_split_len(s, 10);
    assert(s.skip(0) =~= s);
    assert(prepend_first(s.subrange(0, 0), split_spec(s, 10)) =~~= split_spec(s, 10));
}

/// At the end the unfinished line is the last piece.
proof fn lemma_scan_end(s: Seq<u8>, start: int, acc: Seq<u8>)
    requires
        0 <= start <= s.len(),
    ensures
        scan_username(
            prepend_first(s.subrange(start, s.len() as int), split_spec(s.skip(s.len() as int), 10)),
            acc,
        ) == (if occurs(s.subrange(start, s.len() as int), username_marker()) {
            last_token(s.subrange(start, s.len() as int))
        } else {
            acc
        }),
{
    let c = s.subrange(start, s.len() as int);
    assert(s.skip(s.len() as int).len() == 0);
    assert(split_spec(s.skip(s.len() as int), 10) == seq![Seq::<u8>::empty()]);
    assert(prepend_first(c, seq![Seq::<u8>::empty()]) =~~= seq![c]);
    assert((seq![c]).skip(1) =~= Seq::<Seq<u8>>::empty());
    assert((seq![c])[0] == c);
    let acc2 = if occurs(c, username_marker()) {
        last_token(c)
    } else {
        acc
    };
    assert(scan_username(Seq::<Seq<u8>>::empty(), acc2) == acc2);
    assert(scan_username(seq![c], acc) == scan_username((seq![c]).skip(1), acc2));
}

/// Scans the primary engine's info output for the username it reports:
/// the last whitespace token of the last line containing the marker.
fn docker_username_exec(s: &Vec<u8>) -> (r: Vec<u8>)
    ensures
        r@ == docker_username(s@),
{
    let marker: Vec<u8> = vec![85u8, 115, 101, 114, 110, 97, 109, 101];
    proof {
        assert(marker@ =~= username_marker());
        lemma_scan_init(s@);
    }
    let mut acc: Vec<u8> = Vec::new();
    let mut start: usize = 0;
    let mut i: usize = 0;
    while i < s.len()
        invariant
            0 <= start <= i <= s@.len(),
            marker@ == username_marker(),
            docker_username(s@) == scan_username(
                prepend_first(s@.subrange(start as int, i as int), split_spec(s@.skip(i as int), 10)),
                acc@,
            ),
        decreases s@.len() - i,
    {
        if s[i] == 10 {
            let line = subvec(s, start, i);
            proof {
                lemma_scan_step_newline(s@, i as int, start as int, acc@);
                lemma_split_len(s@.skip(i + 1), 10);
                assert(prepend_first(
                    s@.subrange(i + 1, i + 1),
                    split_spec(s@.skip(i + 1), 10),
                ) =~~= split_spec(s@.skip(i + 1), 10));
            }
            if contains_pattern(&line, &marker) {
                acc = last_token_exec(&line);
            }
            i += 1;
            start = i;
        } else {
            proof {
                lemma_scan_step_char(s@, i as int, start as int, acc@);
            }
            i += 1;
        }
    }
    let line = subvec(s, start, s.len());
    proof {
        lemma_scan_end(s@, start as int, acc@);
    }
    if contains_pattern(&line, &marker) {
        acc = last_token_exec(&line);
    }
    acc
}

/// Resolves the primary engine's login: an explicit override wins without
/// any engine query; otherwise the engine's info output is scanned line by
/// line, and the last whitespace token of the last line containing the
/// username marker is the identity — none when no such line yields one.
pub fn getdockerlogin(env_override: Option<Vec<u8>>, info_output: &Vec<u8>) -> (r: Option<Vec<u8>>)
    ensures
        opt_bytes_view(r) == docker_login_spec(opt_bytes_view(env_override), info_output@),
{
    match env_override {
        Some(v) => Some(v),
        None => {
            let u = docker_username_exec(info_output);
            if u.len() == 0 {
                None
            } else {
                Some(u)
            }
        },
    }
}

/// Resolves the secondary engine's login from its login query's output: the
/// first line, verbatim; none when that line is empty.
pub fn getpodmanlogin(login_output: &Vec<u8>) -> (r: Option<Vec<u8>>)
    ensures
        opt_bytes_view(r) == podman_login_spec(login_output@),
{
    let mut e: usize = 0;
    while e < login_output.len() && login_output[e] != 10
        invariant
            0 <= e <= login_output@.len(),
            forall|m: int| 0 <= m < e ==> login_output@[m] != 10,
        decreases login_output@.len() - e,
    {
        e += 1;
    }
    proof {
        lemma_first_line_take(login_output@, e as int);
    }
    let mut end: usize = e;
    if end > 0 && login_output[end - 1] == 13 {
        end -= 1;
        proof {
            assert(login_output@.take(e as int).drop_last() =~= login_output@.take(end as int));
        }
    }
    proof {
        assert(strip_cr(first_line(login_output@)) == login_output@.take(end as int));
        assert(login_output@.subrange(0, end as int) =~= login_output@.take(end as int));
    }
    if end == 0 {
        None
    } else {
        Some(subvec(login_output, 0, end))
    }
}

/// A prefix free of line breaks, ended by one or by the text's end, is the
/// first line.
proof fn lemma_first_line_take(s: Seq<u8>, e: int)
    requires
        0 <= e <= s.len(),
        forall|m: int| 0 <= m < e ==> s[m] != 10,
        e < s.len() ==> s[e] == 10,
    ensures
        first_line(s) == s.take(e),
    decreases e,
{
    if e == 0 {
        assert(s.take(0) =~= Seq::<u8>::empty());
    } else {
        assert(s[0] != 10);
        assert forall|m: int| 0 <= m < e - 1 implies s.skip(1)[m] != 10 by {
            assert(s.skip(1)[m] == s[m + 1]);
        }
        lemma_first_line_take(s.skip(1), e - 1);
        assert(seq![s[0]] + s.skip(1).take(e - 1) =~= s.take(e));
    }
}

/// The identity fallback chain: the primary engine's result when it yields
/// one, else the secondary engine's.
pub fn getlogin(primary: Option<Vec<u8>>, fallback: Option<Vec<u8>>) -> (r: Option<Vec<u8>>)
    ensures
        primary is Some ==> opt_bytes_view(r) == opt_bytes_view(primary),
        primary is None ==> opt_bytes_view(r) == opt_bytes_view(fallback),
{
    match primary {
        Some(v) => Some(v),
        None => fallback,
    }
}

} // verus!
