//! Dockerfile template rendering: an ordered sequence of literal marker
//! substitutions over a template, driven by the resolved build parameters.
//! The substitution order is: build image, runtime image, env handling,
//! then (release and generation flows) the secondary-source directives.

use vstd::prelude::*;
use crate::markers::{
    dev_image_marker, dev_image_marker_vec, env_copy_directive, env_copy_directive_vec,
    env_directive, env_directive_vec, env_hash_marker, env_hash_marker_vec, env_marker,
    env_marker_padded, env_marker_padded_vec, env_marker_vec, lib_copy_directive,
    lib_copy_directive_vec, lib_marker, lib_marker_vec, release_image_marker,
    release_image_marker_vec, runtime_marker, runtime_marker_vec, test_image_marker,
    test_image_marker_vec, test_run_directive, test_run_directive_vec, test_run_marker,
    test_run_marker_vec,
};
use crate::replace::{
    bytes_disjoint, lead_byte_discipline, lemma_no_byte_no_occurrence, lemma_replace_eliminates,
    lemma_replace_id, lemma_replace_intro, lemma_replace_keeps, lemma_replace_preserves_absence,
    lemma_replace_strips_lead_byte, occurs, replace_all, replace_spec,
};

verus! {

/// Env handling shared by the dev and test templates: with an env file the
/// marker becomes the env path; without one the padded marker is removed.
pub open spec fn env_step_spec(t: Seq<u8>, env_present: bool) -> Seq<u8> {
    if env_present {
        replace_spec(t, env_marker(), env_directive())
    } else {
        replace_spec(t, env_marker_padded(), Seq::<u8>::empty())
    }
}

/// The development template after image substitution, before env handling.
pub open spec fn dev_images_spec(t: Seq<u8>, build: Seq<u8>, run: Seq<u8>) -> Seq<u8> {
    replace_spec(replace_spec(t, dev_image_marker(), build), runtime_marker(), run)
}

/// The fully rendered development Dockerfile.
pub open spec fn dev_render_spec(t: Seq<u8>, build: Seq<u8>, run: Seq<u8>, env_present: bool) -> Seq<u8> {
    env_step_spec(dev_images_spec(t, build, run), env_present)
}

/// The fully rendered test Dockerfile.
pub open spec fn test_render_spec(t: Seq<u8>, test_image: Seq<u8>, env_present: bool) -> Seq<u8> {
    env_step_spec(replace_spec(t, test_image_marker(), test_image), env_present)
}

/// The secondary-source substitutions of the release template.
pub open spec fn lib_steps_spec(t: Seq<u8>) -> Seq<u8> {
    replace_spec(
        replace_spec(t, lib_marker(), lib_copy_directive()),
        test_run_marker(),
        test_run_directive(),
    )
}

/// The fully rendered release Dockerfile, also used by the generation flow.
/// Absent options leave their markers untouched: they stand on comment lines
/// and are inert.
pub open spec fn release_render_spec(
    t: Seq<u8>,
    build: Seq<u8>,
    run: Seq<u8>,
    env_present: bool,
    lib_present: bool,
) -> Seq<u8> {
    let b = replace_spec(replace_spec(t, release_image_marker(), build), runtime_marker(), run);
    let c = if env_present {
        replace_spec(b, env_hash_marker(), env_copy_directive())
    } else {
        b
    };
    if lib_present {
        lib_steps_spec(c)
    } else {
        c
    }
}

/// Renders the development template.
pub fn render_dev(
    template: &Vec<u8>,
    build_image: &Vec<u8>,
    runtime_image: &Vec<u8>,
    env_present: bool,
) -> (out: Vec<u8>)
    ensures
        out@ == dev_render_spec(template@, build_image@, runtime_image@, env_present),
{
    let a = replace_all(template, &dev_image_marker_vec(), build_image);
    let b = replace_all(&a, &runtime_marker_vec(), runtime_image);
    if env_present {
        replace_all(&b, &env_marker_vec(), &env_directive_vec())
    } else {
        let empty: Vec<u8> = Vec::new();
        replace_all(&b, &env_marker_padded_vec(), &empty)
    }
}

/// Renders the test template.
pub fn render_test(template: &Vec<u8>, test_image: &Vec<u8>, env_present: bool) -> (out: Vec<u8>)
    ensures
        out@ == test_render_spec(template@, test_image@, env_present),
{
    let a = replace_all(template, &test_image_marker_vec(), test_image);
    if env_present {
        replace_all(&a, &env_marker_vec(), &env_directive_vec())
    } else {
        let empty: Vec<u8> = Vec::new();
        replace_all(&a, &env_marker_padded_vec(), &empty)
    }
}

/// Renders the release template; the generation flow uses the same
/// rendering.
pub fn render_release(
    template: &Vec<u8>,
    build_image: &Vec<u8>,
    runtime_image: &Vec<u8>,
    env_present: bool,
    lib_present: bool,
) -> (out: Vec<u8>)
    ensures
        out@ == release_render_spec(
            template@,
            build_image@,
            runtime_image@,
            env_present,
            lib_present,
        ),
{
    let a = replace_all(template, &release_image_marker_vec(), build_image);
    let b = replace_all(&a, &runtime_marker_vec(), runtime_image);
    let c = if env_present {
        replace_all(&b, &env_hash_marker_vec(), &env_copy_directive_vec())
    } else {
        b
    };
    if lib_present {
        let d = replace_all(&c, &lib_marker_vec(), &lib_copy_directive_vec());
        replace_all(&d, &test_run_marker_vec(), &test_run_directive_vec())
    } else {
        c
    }
}

/// Rendering is the identity on marker-free text: re-rendering an already
/// rendered development Dockerfile with the same parameters reproduces it.
pub proof fn lemma_render_dev_id(t: Seq<u8>, build: Seq<u8>, run: Seq<u8>, env_present: bool)
    requires
        !occurs(t, dev_image_marker()),
        !occurs(t, runtime_marker()),
        env_present ==> !occurs(t, env_marker()),
        !env_present ==> !occurs(t, env_marker_padded()),
    ensures
        dev_render_spec(t, build, run, env_present) == t,
{
    lemma_replace_id(t, dev_image_marker(), build);
    lemma_replace_id(t, runtime_marker(), run);
    if env_present {
        lemma_replace_id(t, env_marker(), env_directive());
    } else {
        lemma_replace_id(t, env_marker_padded(), Seq::<u8>::empty());
    }
}

/// Rendering is the identity on marker-free text: the test variant.
pub proof fn lemma_render_test_id(t: Seq<u8>, test_image: Seq<u8>, env_present: bool)
    requires
        !occurs(t, test_image_marker()),
        env_present ==> !occurs(t, env_marker()),
        !env_present ==> !occurs(t, env_marker_padded()),
    ensures
        test_render_spec(t, test_image, env_present) == t,
{
    lemma_replace_id(t, test_image_marker(), test_image);
    if env_present {
        lemma_replace_id(t, env_marker(), env_directive());
    } else {
        lemma_replace_id(t, env_marker_padded(), Seq::<u8>::empty());
    }
}

/// Rendering is the identity on marker-free text: the release variant.
pub proof fn lemma_render_release_id(
    t: Seq<u8>,
    build: Seq<u8>,
    run: Seq<u8>,
    env_present: bool,
    lib_present: bool,
)
    requires
        !occurs(t, release_image_marker()),
        !occurs(t, runtime_marker()),
        env_present ==> !occurs(t, env_hash_marker()),
        lib_present ==> !occurs(t, lib_marker()) && !occurs(t, test_run_marker()),
    ensures
        release_render_spec(t, build, run, env_present, lib_present) == t,
{
    lemma_replace_id(t, release_image_marker(), build);
    lemma_replace_id(t, runtime_marker(), run);
    if env_present {
        lemma_replace_id(t, env_hash_marker(), env_copy_directive());
    }
    if lib_present {
        lemma_replace_id(t, lib_marker(), lib_copy_directive());
        lemma_replace_id(t, test_run_marker(), test_run_directive());
    }
}

/// After rendering the development template, no dev marker survives: the
/// substituted image names share no byte with the markers, and, when no env
/// file is present, every occurrence of the env marker's first byte in the
/// image-substituted text begins the padded env marker.
pub proof fn lemma_render_dev_marker_free(
    t: Seq<u8>,
    build: Seq<u8>,
    run: Seq<u8>,
    env_present: bool,
)
    requires
        build.len() > 0,
        run.len() > 0,
        bytes_disjoint(dev_image_marker(), build),
        bytes_disjoint(dev_image_marker(), run),
        bytes_disjoint(runtime_marker(), build),
        bytes_disjoint(runtime_marker(), run),
        !env_present ==> lead_byte_discipline(dev_images_spec(t, build, run), env_marker_padded()),
    ensures
        !occurs(dev_render_spec(t, build, run, env_present), dev_image_marker()),
        !occurs(dev_render_spec(t, build, run, env_present), runtime_marker()),
        !occurs(dev_render_spec(t, build, run, env_present), env_marker()),
        !occurs(dev_render_spec(t, build, run, env_present), env_marker_padded()),
{
    let a = replace_spec(t, dev_image_marker(), build);
    let b = replace_spec(a, runtime_marker(), run);
    let out = dev_render_spec(t, build, run, env_present);
    lemma_replace_eliminates(t, dev_image_marker(), build);
    lemma_replace_preserves_absence(a, runtime_marker(), run, dev_image_marker());
    lemma_replace_eliminates(a, runtime_marker(), run);
    if env_present {
        assert(bytes_disjoint(dev_image_marker(), env_directive()));
        assert(bytes_disjoint(runtime_marker(), env_directive()));
        assert(bytes_disjoint(env_marker(), env_directive()));
        lemma_replace_preserves_absence(b, env_marker(), env_directive(), dev_image_marker());
        lemma_replace_preserves_absence(b, env_marker(), env_directive(), runtime_marker());
        lemma_replace_eliminates(b, env_marker(), env_directive());
        lemma_no_padded_env_marker(out);
    } else {
        lemma_replace_strips_lead_byte(b, env_marker_padded(), Seq::<u8>::empty());
        assert(env_marker_padded()[0] == 73u8);
        assert(dev_image_marker()[9] == 73u8);
        assert(runtime_marker()[4] == 73u8);
        assert(env_marker()[0] == 73u8);
        lemma_no_byte_no_occurrence(out, dev_image_marker(), 9);
        lemma_no_byte_no_occurrence(out, runtime_marker(), 4);
        lemma_no_byte_no_occurrence(out, env_marker(), 0);
        lemma_no_byte_no_occurrence(out, env_marker_padded(), 0);
    }
}

/// A text without the bare env marker holds no padded one either.
proof fn lemma_no_padded_env_marker(out: Seq<u8>)
    requires
        !occurs(out, env_marker()),
    ensures
        !occurs(out, env_marker_padded()),
{
    assert forall|i: int| !crate::replace::match_at(out, env_marker_padded(), i) by {
        if crate::replace::match_at(out, env_marker_padded(), i) {
            assert(out.subrange(i, i + env_marker().len()) =~= out.subrange(
                i,
                i + env_marker_padded().len(),
            ).take(env_marker().len() as int));
            assert(env_marker_padded().take(env_marker().len() as int) =~= env_marker());
            assert(crate::replace::match_at(out, env_marker(), i));
        }
    }
}

/// After rendering the test template, no marker survives: the test variant
/// of the development law, under the same conditions.
pub proof fn lemma_render_test_marker_free(t: Seq<u8>, test_image: Seq<u8>, env_present: bool)
    requires
        test_image.len() > 0,
        bytes_disjoint(test_image_marker(), test_image),
        !env_present ==> lead_byte_discipline(
            replace_spec(t, test_image_marker(), test_image),
            env_marker_padded(),
        ),
    ensures
        !occurs(test_render_spec(t, test_image, env_present), test_image_marker()),
        !occurs(test_render_spec(t, test_image, env_present), env_marker()),
        !occurs(test_render_spec(t, test_image, env_present), env_marker_padded()),
{
    let a = replace_spec(t, test_image_marker(), test_image);
    let out = test_render_spec(t, test_image, env_present);
    lemma_replace_eliminates(t, test_image_marker(), test_image);
    if env_present {
        assert(bytes_disjoint(test_image_marker(), env_directive()));
        assert(bytes_disjoint(env_marker(), env_directive()));
        lemma_replace_preserves_absence(a, env_marker(), env_directive(), test_image_marker());
        lemma_replace_eliminates(a, env_marker(), env_directive());
        lemma_no_padded_env_marker(out);
    } else {
        lemma_replace_strips_lead_byte(a, env_marker_padded(), Seq::<u8>::empty());
        assert(env_marker_padded()[0] == 73u8);
        assert(test_image_marker()[10] == 73u8);
        assert(env_marker()[0] == 73u8);
        lemma_no_byte_no_occurrence(out, test_image_marker(), 10);
        lemma_no_byte_no_occurrence(out, env_marker(), 0);
        lemma_no_byte_no_occurrence(out, env_marker_padded(), 0);
    }
}

/// Rendering twice equals once: the test variant.
pub proof fn lemma_render_test_idempotent(t: Seq<u8>, test_image: Seq<u8>, env_present: bool)
    requires
        test_image.len() > 0,
        bytes_disjoint(test_image_marker(), test_image),
        !env_present ==> lead_byte_discipline(
            replace_spec(t, test_image_marker(), test_image),
            env_marker_padded(),
        ),
    ensures
        test_render_spec(test_render_spec(t, test_image, env_present), test_image, env_present)
            == test_render_spec(t, test_image, env_present),
{
    lemma_render_test_marker_free(t, test_image, env_present);
    lemma_render_test_id(test_render_spec(t, test_image, env_present), test_image, env_present);
}

/// Rendering twice equals once for the release rendering without optional
/// sections: the image markers are gone after the first pass, and the
/// optional markers are never touched.
pub proof fn lemma_render_release_plain_idempotent(t: Seq<u8>, build: Seq<u8>, run: Seq<u8>)
    requires
        build.len() > 0,
        run.len() > 0,
        bytes_disjoint(release_image_marker(), build),
        bytes_disjoint(release_image_marker(), run),
        bytes_disjoint(runtime_marker(), build),
        bytes_disjoint(runtime_marker(), run),
    ensures
        release_render_spec(
            release_render_spec(t, build, run, false, false),
            build,
            run,
            false,
            false,
        ) == release_render_spec(t, build, run, false, false),
{
    let a = replace_spec(t, release_image_marker(), build);
    let out = release_render_spec(t, build, run, false, false);
    lemma_replace_eliminates(t, release_image_marker(), build);
    lemma_replace_preserves_absence(a, runtime_marker(), run, release_image_marker());
    lemma_replace_eliminates(a, runtime_marker(), run);
    lemma_render_release_id(out, build, run, false, false);
}

/// Rendering twice with the same parameters equals rendering once: the
/// first rendering leaves no marker, so the second has nothing to replace.
pub proof fn lemma_render_dev_idempotent(
    t: Seq<u8>,
    build: Seq<u8>,
    run: Seq<u8>,
    env_present: bool,
)
    requires
        build.len() > 0,
        run.len() > 0,
        bytes_disjoint(dev_image_marker(), build),
        bytes_disjoint(dev_image_marker(), run),
        bytes_disjoint(runtime_marker(), build),
        bytes_disjoint(runtime_marker(), run),
        !env_present ==> lead_byte_discipline(dev_images_spec(t, build, run), env_marker_padded()),
    ensures
        dev_render_spec(dev_render_spec(t, build, run, env_present), build, run, env_present)
            == dev_render_spec(t, build, run, env_present),
{
    lemma_render_dev_marker_free(t, build, run, env_present);
    lemma_render_dev_id(dev_render_spec(t, build, run, env_present), build, run, env_present);
}

/// When no env file is present, the padded env marker is removed outright:
/// neither it nor the bare env marker survives the env step.
pub proof fn lemma_env_absent_no_marker(b: Seq<u8>)
    requires
        lead_byte_discipline(b, env_marker_padded()),
    ensures
        !occurs(env_step_spec(b, false), env_marker()),
        !occurs(env_step_spec(b, false), env_marker_padded()),
{
    lemma_replace_strips_lead_byte(b, env_marker_padded(), Seq::<u8>::empty());
    assert(env_marker_padded()[0] == 73u8);
    assert(env_marker()[0] == 73u8);
    lemma_no_byte_no_occurrence(env_step_spec(b, false), env_marker(), 0);
    lemma_no_byte_no_occurrence(env_step_spec(b, false), env_marker_padded(), 0);
}

/// When no env file is present, the env step leaves no dangling env path
/// either: with every inner occurrence of the padded marker preceded by a
/// guard byte that the env path avoids (a space before the marker, say),
/// its removal cannot splice the path text into existence.
pub proof fn lemma_env_absent_no_directive(b: Seq<u8>, g: u8)
    requires
        !occurs(b, env_directive()),
        forall|k: int| 0 <= k < env_directive().len() ==> env_directive()[k] != g,
        forall|i: int|
            0 < i < b.len() && crate::replace::match_at(b, env_marker_padded(), i) ==> b[i - 1]
                == g,
    ensures
        !occurs(env_step_spec(b, false), env_directive()),
{
    crate::replace::lemma_removal_preserves_absence(b, env_marker_padded(), env_directive(), g);
}

/// With no secondary source file (and no env file), the release rendering
/// contains neither the secondary copy directive nor the test-run directive,
/// provided the template contains neither and the image names share no byte
/// with them.
pub proof fn lemma_release_no_secondary(t: Seq<u8>, build: Seq<u8>, run: Seq<u8>)
    requires
        build.len() > 0,
        run.len() > 0,
        !occurs(t, lib_copy_directive()),
        !occurs(t, test_run_directive()),
        bytes_disjoint(lib_copy_directive(), build),
        bytes_disjoint(lib_copy_directive(), run),
        bytes_disjoint(test_run_directive(), build),
        bytes_disjoint(test_run_directive(), run),
    ensures
        !occurs(release_render_spec(t, build, run, false, false), lib_copy_directive()),
        !occurs(release_render_spec(t, build, run, false, false), test_run_directive()),
{
    let a = replace_spec(t, release_image_marker(), build);
    lemma_replace_preserves_absence(t, release_image_marker(), build, lib_copy_directive());
    lemma_replace_preserves_absence(t, release_image_marker(), build, test_run_directive());
    lemma_replace_preserves_absence(a, runtime_marker(), run, lib_copy_directive());
    lemma_replace_preserves_absence(a, runtime_marker(), run, test_run_directive());
}

/// With a secondary source file present, both secondary directives occur in
/// the rendered release Dockerfile: the copy marker becomes the copy
/// directive, the test marker (still present after the first substitution)
/// becomes the test-run directive, and the inserted copy directive shares no
/// byte with the test marker, so it survives the second substitution.
pub proof fn lemma_release_secondary_present(c: Seq<u8>)
    requires
        occurs(c, lib_marker()),
        occurs(replace_spec(c, lib_marker(), lib_copy_directive()), test_run_marker()),
    ensures
        occurs(lib_steps_spec(c), lib_copy_directive()),
        occurs(lib_steps_spec(c), test_run_directive()),
{
    let d1 = replace_spec(c, lib_marker(), lib_copy_directive());
    lemma_replace_intro(c, lib_marker(), lib_copy_directive());
    lemma_replace_intro(d1, test_run_marker(), test_run_directive());
    assert(bytes_disjoint(test_run_marker(), lib_copy_directive()));
    lemma_replace_keeps(d1, test_run_marker(), test_run_directive(), lib_copy_directive());
}

} // verus!
