//! Deterministic image-tag synthesis: a base label derived from the working
//! directory's path, a build-kind prefix, and an optional login identity.

use vstd::prelude::*;
use crate::replace::{append_bytes, bytes_eq, opt_bytes_view, subvec};

verus! {

/// The suffix of `s` after its last `sep`; the whole of `s` when no `sep`
/// occurs.
pub open spec fn last_segment(s: Seq<u8>, sep: u8) -> Seq<u8>
    decreases s.len(),
{
    if s.len() == 0 {
        Seq::<u8>::empty()
    } else if s.last() == sep {
        Seq::<u8>::empty()
    } else {
        last_segment(s.drop_last(), sep) + seq![s.last()]
    }
}

/// `s` without its last segment and without the separator before it; empty
/// when no separator occurs.
pub open spec fn strip_last_segment(s: Seq<u8>, sep: u8) -> Seq<u8>
    decreases s.len(),
{
    if s.len() == 0 {
        Seq::<u8>::empty()
    } else if s.last() == sep {
        s.drop_last()
    } else {
        strip_last_segment(s.drop_last(), sep)
    }
}

/// The conventional source-subdirectory name, `src`.
pub open spec fn src_name() -> Seq<u8> {
    seq![115u8, 114, 99]
}

/// The base label for tag synthesis: the final path segment of the working
/// directory, or the parent segment when the final one is the conventional
/// source-subdirectory name.
pub open spec fn base_label_spec(path: Seq<u8>) -> Seq<u8> {
    if last_segment(path, 47u8) == src_name() {
        last_segment(strip_last_segment(path, 47u8), 47u8)
    } else {
        last_segment(path, 47u8)
    }
}

/// The synthesized image tag: `identity/prefix+label` when an identity is
/// present, `prefix+label` when it is absent.
pub open spec fn tag_spec(prefix: Seq<u8>, label: Seq<u8>, identity: Option<Seq<u8>>) -> Seq<u8> {
    match identity {
        Some(l) => l + seq![47u8] + prefix + label,
        None => prefix + label,
    }
}

/// The category of build being performed.
#[derive(Clone, Copy, Debug, PartialEq, Eq, Structural)]
pub enum BuildKind {
    Dev,
    Test,
    Release,
    GenOnly,
}

/// The tag prefix of each build kind: `dev-` and `test-` for the development
/// and test flows, nothing for release and generation.
pub open spec fn kind_prefix_spec(k: BuildKind) -> Seq<u8> {
    match k {
        BuildKind::Dev => seq![100u8, 101, 118, 45],
        BuildKind::Test => seq![116u8, 101, 115, 116, 45],
        BuildKind::Release => Seq::<u8>::empty(),
        BuildKind::GenOnly => Seq::<u8>::empty(),
    }
}

impl BuildKind {
    /// The executable tag prefix of this kind.
    pub fn prefix(&self) -> (r: Vec<u8>)
        ensures
            r@ == kind_prefix_spec(*self),
    {
        match self {
            BuildKind::Dev => {
                let v: Vec<u8> = vec![100u8, 101, 118, 45];
                proof {
                    assert(v@ =~= kind_prefix_spec(*self));
                }
                v
            },
            BuildKind::Test => {
                let v: Vec<u8> = vec![116u8, 101, 115, 116, 45];
                proof {
                    assert(v@ =~= kind_prefix_spec(*self));
                }
                v
            },
            BuildKind::Release => {
                let v: Vec<u8> = Vec::new();
                v
            },
            BuildKind::GenOnly => {
                let v: Vec<u8> = Vec::new();
                v
            },
        }
    }
}

/// A suffix of `s` holding no separator and preceded by one is the last
/// segment.
proof fn lemma_last_segment_suffix(s: Seq<u8>, sep: u8, j: int)
    requires
        0 <= j <= s.len(),
        forall|m: int| j <= m < s.len() ==> s[m] != sep,
        j > 0 ==> s[j - 1] == sep,
    ensures
        last_segment(s, sep) == s.skip(j),
    decreases s.len(),
{
    if s.len() == j {
        if j == 0 {
            assert(s.skip(0) =~= s);
        } else {
            assert(s.last() == s[j - 1]);
            assert(s.skip(j) =~= Seq::<u8>::empty());
        }
    } else {
        assert(s[s.len() - 1] != sep);
        lemma_last_segment_suffix(s.drop_last(), sep, j);
        assert(s.drop_last().skip(j) + seq![s.last()] =~= s.skip(j));
    }
}

/// The text before such a separator is what remains after stripping the
/// last segment.
proof fn lemma_strip_last_segment_prefix(s: Seq<u8>, sep: u8, j: int)
    requires
        0 <= j <= s.len(),
        forall|m: int| j <= m < s.len() ==> s[m] != sep,
        j > 0 ==> s[j - 1] == sep,
    ensures
        j > 0 ==> strip_last_segment(s, sep) == s.take(j - 1),
        j == 0 ==> strip_last_segment(s, sep) == Seq::<u8>::empty(),
    decreases s.len(),
{
    if s.len() == j {
        if j > 0 {
            assert(s.last() == s[j - 1]);
            assert(s.drop_last() =~= s.take(j - 1));
        }
    } else {
        assert(s[s.len() - 1] != sep);
        lemma_strip_last_segment_prefix(s.drop_last(), sep, j);
        if j > 0 {
            assert(s.drop_last().take(j - 1) =~= s.take(j - 1));
        }
    }
}

/// The index just after the last separator in `s`; 0 when none occurs.
fn seg_start(s: &Vec<u8>, sep: u8) -> (j: usize)
    ensures
        0 <= j <= s@.len(),
        forall|m: int| j <= m < s@.len() ==> s@[m] != sep,
        j > 0 ==> s@[j - 1] == sep,
{
    let mut j: usize = s.len();
    while j > 0
        invariant
            j <= s@.len(),
            forall|m: int| j <= m < s@.len() ==> s@[m] != sep,
        decreases j,
    {
        if s[j - 1] == sep {
            return j;
        }
        j -= 1;
    }
    j
}

/// Synthesizes the image tag from the build-kind prefix, the working
/// directory's path, and the resolved login identity, in the form
/// `identity/prefix+label` or `prefix+label`. The base label is the last
/// path segment, or the parent segment when the last one is the
/// conventional source-subdirectory name.
pub fn generateimagetag(buildtype: &Vec<u8>, path: &Vec<u8>, login: Option<Vec<u8>>) -> (r: Option<
    Vec<u8>,
>)
    ensures
        match r {
            Some(v) => v@ == tag_spec(
                buildtype@,
                base_label_spec(path@),
                opt_bytes_view(login),
            ),
            None => false,
        },
{
    let j = seg_start(path, 47u8);
    proof {
        lemma_last_segment_suffix(path@, 47u8, j as int);
        lemma_strip_last_segment_prefix(path@, 47u8, j as int);
    }
    let seg = subvec(path, j, path.len());
    let src_v: Vec<u8> = vec![115u8, 114, 99];
    proof {
        assert(src_v@ =~= src_name());
        assert(seg@ == last_segment(path@, 47u8));
    }
    let label: Vec<u8>;
    if bytes_eq(&seg, &src_v) {
        if j > 0 {
            let parent_whole = subvec(path, 0, j - 1);
            proof {
                assert(parent_whole@ =~= path@.take(j - 1));
                assert(parent_whole@ == strip_last_segment(path@, 47u8));
            }
            let j2 = seg_start(&parent_whole, 47u8);
            proof {
                lemma_last_segment_suffix(parent_whole@, 47u8, j2 as int);
            }
            label = subvec(&parent_whole, j2, parent_whole.len());
            proof {
                assert(label@ == base_label_spec(path@));
            }
        } else {
            label = Vec::new();
            proof {
                assert(base_label_spec(path@) =~= Seq::<u8>::empty());
            }
        }
    } else {
        label = seg;
    }
    let mut out: Vec<u8> = Vec::new();
    match login {
        Some(l) => {
            append_bytes(&mut out, &l);
            out.push(47u8);
            append_bytes(&mut out, buildtype);
            append_bytes(&mut out, &label);
            proof {
                assert(out@ =~= l@ + seq![47u8] + buildtype@ + label@);
            }
            Some(out)
        },
        None => {
            append_bytes(&mut out, buildtype);
            append_bytes(&mut out, &label);
            proof {
                assert(out@ =~= buildtype@ + label@);
            }
            Some(out)
        },
    }
}

/// The base-label rule: the label is the directory's final path segment,
/// except that the conventional source-subdirectory name defers to the
/// parent segment.
pub proof fn lemma_base_label(path: Seq<u8>)
    ensures
        last_segment(path, 47u8) != src_name() ==> base_label_spec(path) == last_segment(
            path,
            47u8,
        ),
        last_segment(path, 47u8) == src_name() ==> base_label_spec(path) == last_segment(
            strip_last_segment(path, 47u8),
            47u8,
        ),
{
}

/// The synthesized tag of every build kind: with an identity it is
/// `identity/prefix+label`, without one `prefix+label`; it is never empty.
pub proof fn lemma_synthesized_tag(k: BuildKind, label: Seq<u8>, identity: Option<Seq<u8>>)
    requires
        label.len() > 0,
    ensures
        identity matches Some(l) ==> tag_spec(kind_prefix_spec(k), label, identity) == l + seq![
            47u8,
        ] + kind_prefix_spec(k) + label,
        identity is None ==> tag_spec(kind_prefix_spec(k), label, identity) == kind_prefix_spec(k)
            + label,
        tag_spec(kind_prefix_spec(k), label, identity).len() > 0,
{
}

} // verus!

