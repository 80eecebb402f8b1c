//! Template rendering, checked on concrete templates.

use roche::markers::{
    dev_image_marker_vec, env_directive_vec, env_marker_padded_vec, env_marker_vec,
    lib_copy_directive_vec, lib_marker_vec, release_image_marker_vec, runtime_marker_vec,
    test_image_marker_vec, test_run_directive_vec, test_run_marker_vec,
};
use roche::render::{render_dev, render_release, render_test};
use roche::replace::{contains_pattern, replace_all};

fn cat(parts: &[&[u8]]) -> Vec<u8> {
    let mut v = Vec::new();
    for p in parts {
        v.extend_from_slice(p);
    }
    v
}

fn dev_template() -> Vec<u8> {
    cat(&[
        b"FROM ",
        &dev_image_marker_vec(),
        b" AS build\nCOPY functions.rs ",
        &env_marker_vec(),
        b" /app-build/src/\nFROM ",
        &runtime_marker_vec(),
        b"\nCMD [\"/app/main\"]\n",
    ])
}

fn test_template() -> Vec<u8> {
    cat(&[
        b"FROM ",
        &test_image_marker_vec(),
        b" AS build\nCOPY lib.rs ",
        &env_marker_vec(),
        b" /app-build/src/\nRUN cargo test --lib\n",
    ])
}

fn release_template() -> Vec<u8> {
    cat(&[
        b"FROM ",
        &release_image_marker_vec(),
        b" AS build\n#LIB_RS\n#TEST\n#ENV\nFROM ",
        &runtime_marker_vec(),
        b"\nCMD [\"/app/main\"]\n",
    ])
}

#[test]
fn replace_all_substitutes_every_occurrence() {
    let out = replace_all(&b"x ab y ab z".to_vec(), &b"ab".to_vec(), &b"C".to_vec());
    assert_eq!(out, b"x C y C z".to_vec());
}

#[test]
fn replace_all_with_absent_pattern_is_identity() {
    let out = replace_all(&b"plain text".to_vec(), &b"zz".to_vec(), &b"C".to_vec());
    assert_eq!(out, b"plain text".to_vec());
}

#[test]
fn replace_all_scans_left_to_right_without_overlap() {
    let out = replace_all(&b"aaa".to_vec(), &b"aa".to_vec(), &b"b".to_vec());
    assert_eq!(out, b"ba".to_vec());
}

#[test]
fn dev_render_substitutes_images_and_env() {
    let out = render_dev(&dev_template(), &b"bimg".to_vec(), &b"rimg".to_vec(), true);
    let expected = cat(&[
        b"FROM bimg AS build\nCOPY functions.rs ",
        &env_directive_vec(),
        b" /app-build/src/\nFROM rimg\nCMD [\"/app/main\"]\n",
    ]);
    assert_eq!(out, expected);
}

#[test]
fn dev_render_without_env_leaves_no_marker_and_no_directive() {
    let out = render_dev(&dev_template(), &b"bimg".to_vec(), &b"rimg".to_vec(), false);
    let expected =
        b"FROM bimg AS build\nCOPY functions.rs /app-build/src/\nFROM rimg\nCMD [\"/app/main\"]\n"
            .to_vec();
    assert_eq!(out, expected);
    assert!(!contains_pattern(&out, &env_marker_vec()));
    assert!(!contains_pattern(&out, &env_marker_padded_vec()));
    assert!(!contains_pattern(&out, &env_directive_vec()));
}

#[test]
fn dev_render_is_idempotent() {
    for env in [false, true] {
        let once = render_dev(&dev_template(), &b"bimg".to_vec(), &b"rimg".to_vec(), env);
        let twice = render_dev(&once, &b"bimg".to_vec(), &b"rimg".to_vec(), env);
        assert_eq!(twice, once);
    }
}

#[test]
fn test_render_substitutes_image() {
    let out = render_test(&test_template(), &b"timg".to_vec(), false);
    let expected =
        b"FROM timg AS build\nCOPY lib.rs /app-build/src/\nRUN cargo test --lib\n".to_vec();
    assert_eq!(out, expected);
}

#[test]
fn test_render_is_idempotent() {
    for env in [false, true] {
        let once = render_test(&test_template(), &b"timg".to_vec(), env);
        let twice = render_test(&once, &b"timg".to_vec(), env);
        assert_eq!(twice, once);
    }
}

#[test]
fn release_render_without_secondary_has_neither_directive() {
    let out = render_release(&release_template(), &b"bimg".to_vec(), &b"rimg".to_vec(), false, false);
    let expected =
        b"FROM bimg AS build\n#LIB_RS\n#TEST\n#ENV\nFROM rimg\nCMD [\"/app/main\"]\n".to_vec();
    assert_eq!(out, expected);
    assert!(!contains_pattern(&out, &lib_copy_directive_vec()));
    assert!(!contains_pattern(&out, &test_run_directive_vec()));
}

#[test]
fn release_render_with_secondary_has_both_directives() {
    let out = render_release(&release_template(), &b"bimg".to_vec(), &b"rimg".to_vec(), false, true);
    let expected = cat(&[
        b"FROM bimg AS build\n",
        &lib_copy_directive_vec(),
        b"\n",
        &test_run_directive_vec(),
        b"\n#ENV\nFROM rimg\nCMD [\"/app/main\"]\n",
    ]);
    assert_eq!(out, expected);
    assert!(contains_pattern(&out, &lib_copy_directive_vec()));
    assert!(contains_pattern(&out, &test_run_directive_vec()));
    assert!(!contains_pattern(&out, &lib_marker_vec()));
    assert!(!contains_pattern(&out, &test_run_marker_vec()));
}

#[test]
fn release_render_with_env_substitutes_env_copy() {
    let out = render_release(&release_template(), &b"bimg".to_vec(), &b"rimg".to_vec(), true, false);
    let expected =
        b"FROM bimg AS build\n#LIB_RS\n#TEST\nCOPY .env /app-build/src\nFROM rimg\nCMD [\"/app/main\"]\n"
            .to_vec();
    assert_eq!(out, expected);
}

#[test]
fn release_render_is_idempotent() {
    for env in [false, true] {
        for lib in [false, true] {
            let once =
                render_release(&release_template(), &b"bimg".to_vec(), &b"rimg".to_vec(), env, lib);
            let twice = render_release(&once, &b"bimg".to_vec(), &b"rimg".to_vec(), env, lib);
            assert_eq!(twice, once);
        }
    }
}

#[test]
fn markers_have_expected_text() {
    assert_eq!(dev_image_marker_vec(), b"DEV_BASE_IMAGE".to_vec());
    assert_eq!(runtime_marker_vec(), b"RUNTIME_IMAGE".to_vec());
    assert_eq!(test_image_marker_vec(), b"TEST_BASE_IMAGE".to_vec());
    assert_eq!(release_image_marker_vec(), b"BASE_IMAGE".to_vec());
    assert_eq!(lib_marker_vec(), b"#LIB_RS".to_vec());
    assert_eq!(test_run_marker_vec(), b"#TEST".to_vec());
    assert_eq!(env_directive_vec(), b"app-build/src/.env*".to_vec());
    assert_eq!(lib_copy_directive_vec(), b"COPY lib.rs /app-build/src".to_vec());
    assert_eq!(test_run_directive_vec(), b"RUN cargo test --lib --release".to_vec());
    let mut padded = env_marker_vec();
    padded.push(b' ');
    assert_eq!(env_marker_padded_vec(), padded);
    assert_eq!(env_marker_vec().len(), 11);
    assert_eq!(env_marker_vec()[0], b'I');
    assert_eq!(&env_marker_vec()[1..], b"NCLUDE_ENV");
}
