//! Build orchestration for container-based service projects: deterministic
//! image-tag derivation, Dockerfile template rendering by ordered marker
//! substitution, login-identity resolution over engine output, and the
//! decision logic of the build, test, release and generation flows.

pub mod flow;
pub mod identity;
pub mod markers;
pub mod render;
pub mod replace;
pub mod tag;

use vstd::prelude::*;

verus! {

} // verus!
