//! Flow decisions: workspace location, parameter precedence, tag arguments,
//! engine invocation arguments, and the generation flow.

use roche::flow::{
    build_command_args, gen_dockerfile_action, locate_build_entrypoint, locate_test_entrypoint,
    resolve_image, resolve_tag_argument, BuildError, BuildParameters,
};
use roche::markers::{dev_image_marker_vec, env_directive_vec, env_marker_vec, runtime_marker_vec};
use roche::render::render_dev;
use roche::replace::contains_pattern;
use roche::tag::{generateimagetag, BuildKind};

#[test]
fn entrypoint_in_place_stays() {
    assert_eq!(locate_build_entrypoint(true, false), Ok(false));
    assert_eq!(locate_build_entrypoint(true, true), Ok(false));
}

#[test]
fn entrypoint_in_src_relocates() {
    assert_eq!(locate_build_entrypoint(false, true), Ok(true));
}

#[test]
fn missing_entrypoint_scenario_stops_before_any_engine_work() {
    // entrypoint absent from both the working directory and its src
    // subdirectory: the flow ends in the not-found error and no engine
    // invocation is assembled
    let r = locate_build_entrypoint(false, false);
    assert_eq!(r, Err(BuildError::EntrypointNotFound));
}

#[test]
fn test_flow_requires_library_entrypoint() {
    assert_eq!(locate_test_entrypoint(true), Ok(()));
    assert_eq!(locate_test_entrypoint(false), Err(BuildError::EntrypointNotFound));
}

#[test]
fn image_resolution_precedence() {
    let flag = Some(b"f".to_vec());
    let env = Some(b"e".to_vec());
    let d = b"d".to_vec();
    assert_eq!(resolve_image(flag.clone(), env.clone(), d.clone()), b"f".to_vec());
    assert_eq!(resolve_image(None, env, d.clone()), b"e".to_vec());
    assert_eq!(resolve_image(None, None, d), b"d".to_vec());
}

#[test]
fn parameters_resolve_by_precedence_and_are_well_formed() {
    let p = BuildParameters::resolve(
        None,
        Some(b"envimg".to_vec()),
        b"defimg".to_vec(),
        None,
        None,
        b"runimg".to_vec(),
        None,
        false,
        true,
    );
    assert_eq!(p.build_image, b"envimg".to_vec());
    assert_eq!(p.runtime_image, b"runimg".to_vec());
    assert_eq!(p.tag, None);
    assert!(!p.env_file_present);
    assert!(p.secondary_source_present);
}

#[test]
fn tag_argument_uses_user_tag_when_given() {
    let r = resolve_tag_argument(Some(b"mytag".to_vec()), &b"synth".to_vec());
    assert_eq!(r, b"-tmytag".to_vec());
}

#[test]
fn tag_argument_falls_back_to_synthesized() {
    let r = resolve_tag_argument(None, &b"alice/dev-myapp".to_vec());
    assert_eq!(r, b"-talice/dev-myapp".to_vec());
}

#[test]
fn build_invocation_arguments() {
    let args = build_command_args(b"-talice/dev-myapp".to_vec());
    assert_eq!(args.len(), 4);
    assert_eq!(args[0], b"build".to_vec());
    assert_eq!(args[1], b"-talice/dev-myapp".to_vec());
    assert_eq!(args[2], b"-f-".to_vec());
    assert_eq!(args[3], b".".to_vec());
}

#[test]
fn gen_flow_never_overwrites_existing_dockerfile() {
    // with a Dockerfile already present, the rendered text is withheld: the
    // pre-existing content stays untouched, byte for byte, and the refusal
    // is a warning, not an error exit
    let pre_existing = b"arbitrary content".to_vec();
    let rendered = b"FROM bimg AS build\n".to_vec();
    let r = gen_dockerfile_action(true, rendered);
    assert_eq!(r, Err(BuildError::DockerfileAlreadyExists));
    assert_eq!(pre_existing, b"arbitrary content".to_vec());
}

#[test]
fn gen_flow_writes_rendered_text_unchanged() {
    let rendered = b"FROM bimg AS build\n".to_vec();
    let r = gen_dockerfile_action(false, rendered.clone());
    assert_eq!(r, Ok(rendered));
}

#[test]
fn dev_flow_end_to_end_scenario() {
    // working directory /home/u/myapp, no env file, no secondary source,
    // tag flag omitted, identity alice
    let prefix = BuildKind::Dev.prefix();
    let tag =
        generateimagetag(&prefix, &b"/home/u/myapp".to_vec(), Some(b"alice".to_vec())).unwrap();
    assert_eq!(tag, b"alice/dev-myapp".to_vec());
    let tag_arg = resolve_tag_argument(None, &tag);
    assert_eq!(tag_arg, b"-talice/dev-myapp".to_vec());

    let mut template = b"FROM ".to_vec();
    template.extend_from_slice(&dev_image_marker_vec());
    template.extend_from_slice(b" AS build\nCOPY functions.rs ");
    template.extend_from_slice(&env_marker_vec());
    template.extend_from_slice(b" /dst/\nFROM ");
    template.extend_from_slice(&runtime_marker_vec());
    template.extend_from_slice(b"\n");

    let out = render_dev(&template, &b"quay.io/x/build:1".to_vec(), &b"quay.io/x/run:1".to_vec(), false);
    assert!(contains_pattern(&out, &b"quay.io/x/build:1".to_vec()));
    assert!(contains_pattern(&out, &b"quay.io/x/run:1".to_vec()));
    assert!(!contains_pattern(&out, &env_marker_vec()));
    assert!(!contains_pattern(&out, &env_directive_vec()));
    assert_eq!(
        out,
        b"FROM quay.io/x/build:1 AS build\nCOPY functions.rs /dst/\nFROM quay.io/x/run:1\n".to_vec()
    );
}

#[test]
fn release_flow_end_to_end_scenario_without_identity() {
    // identity resolution returned none: the release tag is the bare label
    let prefix = BuildKind::Release.prefix();
    let tag = generateimagetag(&prefix, &b"/home/u/myapp".to_vec(), None).unwrap();
    assert_eq!(tag, b"myapp".to_vec());
    let tag_arg = resolve_tag_argument(None, &tag);
    assert_eq!(tag_arg, b"-tmyapp".to_vec());
}
