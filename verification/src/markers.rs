//! The marker tokens of the embedded Dockerfile templates and the directive
//! text substituted for them. Markers are unique literal tokens; rendering
//! replaces or removes them. Each constant exists as a specification
//! sequence and as an executable vector proved equal to it. Bytes are ASCII.

use vstd::prelude::*;

verus! {

/// Marker for the development build image: `DEV_BASE_IMAGE`.
pub open spec fn dev_image_marker() -> Seq<u8> {
    seq![68u8, 69, 86, 95, 66, 65, 83, 69, 95, 73, 77, 65, 71, 69]
}

/// Marker for the runtime image: `RUNTIME_IMAGE`.
pub open spec fn runtime_marker() -> Seq<u8> {
    seq![82u8, 85, 78, 84, 73, 77, 69, 95, 73, 77, 65, 71, 69]
}

/// Marker for the optional env-file copy in the dev and test templates:
/// `INCLUDE_ENV`.
pub open spec fn env_marker() -> Seq<u8> {
    seq![73u8, 78, 67, 76, 85, 68, 69, 95, 69, 78, 86]
}

/// The env marker with its trailing space, removed as a whole when no env
/// file is present.
pub open spec fn env_marker_padded() -> Seq<u8> {
    env_marker() + seq![32u8]
}

/// Path text substituted for the env marker when an env file is present:
/// `app-build/src/.env*`.
pub open spec fn env_directive() -> Seq<u8> {
    seq![97u8, 112, 112, 45, 98, 117, 105, 108, 100, 47, 115, 114, 99, 47, 46, 101, 110, 118, 42]
}

/// Marker for the test build image: `TEST_BASE_IMAGE`.
pub open spec fn test_image_marker() -> Seq<u8> {
    seq![84u8, 69, 83, 84, 95, 66, 65, 83, 69, 95, 73, 77, 65, 71, 69]
}

/// Marker for the release build image: `BASE_IMAGE`.
pub open spec fn release_image_marker() -> Seq<u8> {
    seq![66u8, 65, 83, 69, 95, 73, 77, 65, 71, 69]
}

/// Marker replaced by the secondary-source copy directive: `#LIB_RS`.
pub open spec fn lib_marker() -> Seq<u8> {
    seq![35u8, 76, 73, 66, 95, 82, 83]
}

/// Directive copying the secondary source file into the build stage:
/// `COPY lib.rs /app-build/src`.
pub open spec fn lib_copy_directive() -> Seq<u8> {
    seq![
        67u8, 79, 80, 89, 32, 108, 105, 98, 46, 114, 115, 32, 47, 97, 112, 112, 45, 98, 117,
        105, 108, 100, 47, 115, 114, 99,
    ]
}

/// Marker replaced by the test-run directive: `#TEST`.
pub open spec fn test_run_marker() -> Seq<u8> {
    seq![35u8, 84, 69, 83, 84]
}

/// Directive running the library tests in the build stage:
/// `RUN cargo test --lib --release`.
pub open spec fn test_run_directive() -> Seq<u8> {
    seq![
        82u8, 85, 78, 32, 99, 97, 114, 103, 111, 32, 116, 101, 115, 116, 32, 45, 45, 108, 105,
        98, 32, 45, 45, 114, 101, 108, 101, 97, 115, 101,
    ]
}

/// Marker for the optional env-file copy in the release template: `#ENV`.
pub open spec fn env_hash_marker() -> Seq<u8> {
    seq![35u8, 69, 78, 86]
}

/// Directive copying the env file in the release template:
/// `COPY .env /app-build/src`.
pub open spec fn env_copy_directive() -> Seq<u8> {
    seq![
        67u8, 79, 80, 89, 32, 46, 101, 110, 118, 32, 47, 97, 112, 112, 45, 98, 117, 105, 108,
        100, 47, 115, 114, 99,
    ]
}

/// Executable form of `dev_image_marker`.
pub fn dev_image_marker_vec() -> (r: Vec<u8>)
    ensures
        r@ == dev_image_marker(),
{
    let v: Vec<u8> = vec![68u8, 69, 86, 95, 66, 65, 83, 69, 95, 73, 77, 65, 71, 69];
    proof {
        assert(v@ =~= dev_image_marker());
    }
    v
}

/// Executable form of `runtime_marker`.
pub fn runtime_marker_vec() -> (r: Vec<u8>)
    ensures
        r@ == runtime_marker(),
{
    let v: Vec<u8> = vec![82u8, 85, 78, 84, 73, 77, 69, 95, 73, 77, 65, 71, 69];
    proof {
        assert(v@ =~= runtime_marker());
    }
    v
}

/// Executable form of `env_marker`.
pub fn env_marker_vec() -> (r: Vec<u8>)
    ensures
        r@ == env_marker(),
{
    let v: Vec<u8> = vec![73u8, 78, 67, 76, 85, 68, 69, 95, 69, 78, 86];
    proof {
        assert(v@ =~= env_marker());
    }
    v
}

/// Executable form of `env_marker_padded`.
pub fn env_marker_padded_vec() -> (r: Vec<u8>)
    ensures
        r@ == env_marker_padded(),
{
    let v: Vec<u8> = vec![73u8, 78, 67, 76, 85, 68, 69, 95, 69, 78, 86, 32];
    proof {
        assert(v@ =~= env_marker_padded());
    }
    v
}

/// Executable form of `env_directive`.
pub fn env_directive_vec() -> (r: Vec<u8>)
    ensures
        r@ == env_directive(),
{
    let v: Vec<u8> = vec![
        97u8, 112, 112, 45, 98, 117, 105, 108, 100, 47, 115, 114, 99, 47, 46, 101, 110, 118, 42,
    ];
    proof {
        assert(v@ =~= env_directive());
    }
    v
}

/// Executable form of `test_image_marker`.
pub fn test_image_marker_vec() -> (r: Vec<u8>)
    ensures
        r@ == test_image_marker(),
{
    let v: Vec<u8> = vec![84u8, 69, 83, 84, 95, 66, 65, 83, 69, 95, 73, 77, 65, 71, 69];
    proof {
        assert(v@ =~= test_image_marker());
    }
    v
}

/// Executable form of `release_image_marker`.
pub fn release_image_marker_vec() -> (r: Vec<u8>)
    ensures
        r@ == release_image_marker(),
{
    let v: Vec<u8> = vec![66u8, 65, 83, 69, 95, 73, 77, 65, 71, 69];
    proof {
        assert(v@ =~= release_image_marker());
    }
    v
}

/// Executable form of `lib_marker`.
pub fn lib_marker_vec() -> (r: Vec<u8>)
    ensures
        r@ == lib_marker(),
{
    let v: Vec<u8> = vec![35u8, 76, 73, 66, 95, 82, 83];
    proof {
        assert(v@ =~= lib_marker());
    }
    v
}

/// Executable form of `lib_copy_directive`.
pub fn lib_copy_directive_vec() -> (r: Vec<u8>)
    ensures
        r@ == lib_copy_directive(),
{
    let v: Vec<u8> = vec![
        67u8, 79, 80, 89, 32, 108, 105, 98, 46, 114, 115, 32, 47, 97, 112, 112, 45, 98, 117,
        105, 108, 100, 47, 115, 114, 99,
    ];
    proof {
        assert(v@ =~= lib_copy_directive());
    }
    v
}

/// Executable form of `test_run_marker`.
pub fn test_run_marker_vec() -> (r: Vec<u8>)
    ensures
        r@ == test_run_marker(),
{
    let v: Vec<u8> = vec![35u8, 84, 69, 83, 84];
    proof {
        assert(v@ =~= test_run_marker());
    }
    v
}

/// Executable form of `test_run_directive`.
pub fn test_run_directive_vec() -> (r: Vec<u8>)
    ensures
        r@ == test_run_directive(),
{
    let v: Vec<u8> = vec![
        82u8, 85, 78, 32, 99, 97, 114, 103, 111, 32, 116, 101, 115, 116, 32, 45, 45, 108, 105,
        98, 32, 45, 45, 114, 101, 108, 101, 97, 115, 101,
    ];
    proof {
        assert(v@ =~= test_run_directive());
    }
    v
}

/// Executable form of `env_hash_marker`.
pub fn env_hash_marker_vec() -> (r: Vec<u8>)
    ensures
        r@ == env_hash_marker(),
{
    let v: Vec<u8> = vec![35u8, 69, 78, 86];
    proof {
        assert(v@ =~= env_hash_marker());
    }
    v
}

/// Executable form of `env_copy_directive`.
pub fn env_copy_directive_vec() -> (r: Vec<u8>)
    ensures
        r@ == env_copy_directive(),
{
    let v: Vec<u8> = vec![
        67u8, 79, 80, 89, 32, 46, 101, 110, 118, 32, 47, 97, 112, 112, 45, 98, 117, 105, 108,
        100, 47, 115, 114, 99,
    ];
    proof {
        assert(v@ =~= env_copy_directive());
    }
    v
}

} // verus!
