//! The configuration tree's health check and the binary file encoding.

use vstd::prelude::*;

verus! {

/// Which parts of the configuration tree exist as directories.
#[derive(Clone, Copy, Debug, PartialEq, Eq, Structural)]
pub struct OrchayStructure {
    pub root: bool,
    pub settings: bool,
    pub templates: bool,
    pub projects: bool,
}

/// The answer to an initialization check.
pub struct InitResponse {
    pub success: bool,
    pub data: InitStatusData,
}

/// Whether the tree is usable, and the per-directory detail.
pub struct InitStatusData {
    pub initialized: bool,
    pub status: OrchayStructure,
}

/// The tree counts as initialized when its root, its settings directory and
/// its projects directory all exist; templates are optional.
pub open spec fn spec_initialized(s: OrchayStructure) -> bool {
    s.root && s.settings && s.projects
}

/// Assemble the structure report from what a probe of the four directories
/// found.
pub fn check_orchay_structure(root: bool, settings: bool, templates: bool, projects: bool) -> (r:
    OrchayStructure)
    ensures
        r.root == root,
        r.settings == settings,
        r.templates == templates,
        r.projects == projects,
{
    OrchayStructure { root, settings, templates, projects }
}

/// The initialization answer for a probed structure: always a successful
/// answer, initialized exactly when root, settings and projects exist.
pub fn init_response(status: OrchayStructure) -> (r: InitResponse)
    ensures
        r.success == true,
        r.data.initialized == spec_initialized(status),
        r.data.status == status,
{
    let initialized = status.root && status.settings && status.projects;
    InitResponse { success: true, data: InitStatusData { initialized, status } }
}

/// What the standard base64 encoding of a run of bytes reads as.
pub uninterp spec fn base64_of(bytes: Seq<u8>) -> Seq<char>;

/// Relies on base64's `Engine::encode` with the `STANDARD` engine: the
/// padded standard alphabet, four output characters for every started block
/// of three input bytes, a result that depends on the bytes alone.
#[verifier::external_body]
fn base64_encode_slice(bytes: &[u8]) -> (r: String)
    requires
        bytes@.len() <= usize::MAX / 2,
    ensures
        r@ == base64_of(bytes@),
        r@.len() == 4 * ((bytes@.len() + 2) / 3),
{
    base64::Engine::encode(&base64::engine::general_purpose::STANDARD, bytes)
}

/// Encode a file's bytes for transport as text: the standard padded base64
/// of the bytes.
pub fn encode_base64(bytes: &Vec<u8>) -> (r: String)
    requires
        bytes@.len() <= usize::MAX / 2,
    ensures
        r@ == base64_of(bytes@),
        r@.len() == 4 * ((bytes@.len() + 2) / 3),
{
    base64_encode_slice(bytes.as_slice())
}

} // verus!
