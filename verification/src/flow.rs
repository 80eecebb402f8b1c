//! The decision logic of the build flows: parameter resolution with its
//! precedence, workspace location, tag-argument resolution, the engine build
//! invocation's arguments, and the non-destructive generation flow.

use vstd::prelude::*;
use crate::replace::{append_bytes, opt_bytes_view};

verus! {

/// Arguments of the project-generation flow, handed to the external
/// generator.
#[derive(Debug)]
pub struct PublicArgs {
    /// Git repository to clone the template from: a URL, a path, or an
    /// abbreviated `owner/repo` form.
    pub git: String,
    /// Branch to use when installing from git.
    pub branch: Option<String>,
    /// Directory to create, also the project name.
    pub name: Option<String>,
    /// Keep the project name as given instead of converting its case.
    pub force: bool,
    /// Enables more verbose output.
    pub verbose: bool,
}

/// The failure taxonomy of the build flows.
#[derive(Clone, Copy, Debug, PartialEq, Eq, Structural)]
pub enum BuildError {
    /// The required source file is missing from both checked locations.
    EntrypointNotFound,
    /// No container engine could be spawned at all.
    EngineUnreachable,
    /// Both engines were reachable but reported no login.
    NoIdentity,
    /// Writing to or reading from a spawned engine's streams failed.
    StreamFailure,
    /// The generation flow found an existing Dockerfile and refused to
    /// overwrite it.
    DockerfileAlreadyExists,
}

/// Resolution precedence of an image name: explicit flag, then environment
/// value, then the built-in default.
pub open spec fn precedence_spec(flag: Option<Seq<u8>>, env: Option<Seq<u8>>, default: Seq<u8>) -> Seq<u8> {
    match flag {
        Some(f) => f,
        None => match env {
            Some(e) => e,
            None => default,
        },
    }
}

/// Resolves an image name by precedence: flag over environment over default.
pub fn resolve_image(flag: Option<Vec<u8>>, env: Option<Vec<u8>>, default: Vec<u8>) -> (r: Vec<u8>)
    ensures
        r@ == precedence_spec(opt_bytes_view(flag), opt_bytes_view(env), default@),
{
    match flag {
        Some(f) => f,
        None => match env {
            Some(e) => e,
            None => default,
        },
    }
}

/// The parameters of one build invocation.
pub struct BuildParameters {
    /// The image the build stage runs in.
    pub build_image: Vec<u8>,
    /// The image the runtime stage runs in.
    pub runtime_image: Vec<u8>,
    /// The user-supplied tag, when one was given.
    pub tag: Option<Vec<u8>>,
    /// Whether an env file is present beside the entrypoint.
    pub env_file_present: bool,
    /// Whether the secondary source file is present.
    pub secondary_source_present: bool,
}

impl BuildParameters {
    /// Both image names resolved to non-empty text.
    pub open spec fn well_formed(&self) -> bool {
        self.build_image@.len() > 0 && self.runtime_image@.len() > 0
    }

    /// Builds the parameters of an invocation, resolving each image by
    /// precedence: flag over environment over built-in default.
    pub fn resolve(
        build_flag: Option<Vec<u8>>,
        build_env: Option<Vec<u8>>,
        build_default: Vec<u8>,
        runtime_flag: Option<Vec<u8>>,
        runtime_env: Option<Vec<u8>>,
        runtime_default: Vec<u8>,
        tag: Option<Vec<u8>>,
        env_file_present: bool,
        secondary_source_present: bool,
    ) -> (r: BuildParameters)
        requires
            build_default@.len() > 0,
            runtime_default@.len() > 0,
            build_flag matches Some(f) ==> f@.len() > 0,
            build_env matches Some(e) ==> e@.len() > 0,
            runtime_flag matches Some(f) ==> f@.len() > 0,
            runtime_env matches Some(e) ==> e@.len() > 0,
        ensures
            r.well_formed(),
            r.build_image@ == precedence_spec(
                opt_bytes_view(build_flag),
                opt_bytes_view(build_env),
                build_default@,
            ),
            r.runtime_image@ == precedence_spec(
                opt_bytes_view(runtime_flag),
                opt_bytes_view(runtime_env),
                runtime_default@,
            ),
            opt_bytes_view(r.tag) == opt_bytes_view(tag),
            r.env_file_present == env_file_present,
            r.secondary_source_present == secondary_source_present,
    {
        BuildParameters {
            build_image: resolve_image(build_flag, build_env, build_default),
            runtime_image: resolve_image(runtime_flag, runtime_env, runtime_default),
            tag,
            env_file_present,
            secondary_source_present,
        }
    }
}

/// The workspace-location decision: whether the flow proceeds in place,
/// relocates into the source subdirectory, or stops for want of the
/// required entrypoint. `Ok(true)` means relocate.
pub fn locate_build_entrypoint(present_in_cwd: bool, present_in_src: bool) -> (r: Result<
    bool,
    BuildError,
>)
    ensures
        present_in_cwd ==> r == Ok::<bool, BuildError>(false),
        !present_in_cwd && present_in_src ==> r == Ok::<bool, BuildError>(true),
        !present_in_cwd && !present_in_src ==> r == Err::<bool, BuildError>(
            BuildError::EntrypointNotFound,
        ),
{
    if present_in_cwd {
        Ok(false)
    } else if present_in_src {
        Ok(true)
    } else {
        Err(BuildError::EntrypointNotFound)
    }
}

/// The test flow's additional requirement, checked after the primary
/// entrypoint check succeeded: the library entrypoint must be present in the
/// (possibly relocated) working directory.
pub fn locate_test_entrypoint(lib_present: bool) -> (r: Result<(), BuildError>)
    ensures
        lib_present ==> r is Ok,
        !lib_present ==> r == Err::<(), BuildError>(BuildError::EntrypointNotFound),
{
    if lib_present {
        Ok(())
    } else {
        Err(BuildError::EntrypointNotFound)
    }
}

/// The tag argument handed to the engine: `-t` followed by the tag.
pub open spec fn tag_argument_spec(t: Seq<u8>) -> Seq<u8> {
    seq![45u8, 116] + t
}

/// Resolves the engine's tag argument: the user's tag when one was given,
/// else the synthesized one; never the bare flag.
pub fn resolve_tag_argument(user: Option<Vec<u8>>, synthesized: &Vec<u8>) -> (r: Vec<u8>)
    requires
        synthesized@.len() > 0,
        user matches Some(u) ==> u@.len() > 0,
    ensures
        user matches Some(u) ==> r@ == tag_argument_spec(u@),
        user is None ==> r@ == tag_argument_spec(synthesized@),
        r@.len() > 2,
{
    let mut out: Vec<u8> = Vec::new();
    out.push(45u8);
    out.push(116u8);
    proof {
        assert(out@ =~= seq![45u8, 116]);
    }
    match user {
        Some(u) => {
            append_bytes(&mut out, &u);
            out
        },
        None => {
            append_bytes(&mut out, synthesized);
            out
        },
    }
}

/// The engine build invocation's arguments: the build subcommand, the tag
/// argument, the flag reading the Dockerfile from standard input, and the
/// current directory as build context.
pub fn build_command_args(tag_argument: Vec<u8>) -> (r: Vec<Vec<u8>>)
    ensures
        r@.len() == 4,
        r@[0]@ == seq![98u8, 117, 105, 108, 100],
        r@[1]@ == tag_argument@,
        r@[2]@ == seq![45u8, 102, 45],
        r@[3]@ == seq![46u8],
{
    let build_word: Vec<u8> = vec![98u8, 117, 105, 108, 100];
    let stdin_flag: Vec<u8> = vec![45u8, 102, 45];
    let context: Vec<u8> = vec![46u8];
    let mut r: Vec<Vec<u8>> = Vec::new();
    r.push(build_word);
    r.push(tag_argument);
    r.push(stdin_flag);
    r.push(context);
    r
}

/// The generation flow's decision: it never overwrites an existing
/// Dockerfile — with one present the rendered text is withheld and the
/// condition reported; otherwise the text is released for writing, byte for
/// byte as rendered.
pub fn gen_dockerfile_action(dockerfile_exists: bool, rendered: Vec<u8>) -> (r: Result<
    Vec<u8>,
    BuildError,
>)
    ensures
        dockerfile_exists ==> r == Err::<Vec<u8>, BuildError>(BuildError::DockerfileAlreadyExists),
        !dockerfile_exists ==> (r matches Ok(v) && v@ == rendered@),
{
    if dockerfile_exists {
        Err(BuildError::DockerfileAlreadyExists)
    } else {
        Ok(rendered)
    }
}

} // verus!
