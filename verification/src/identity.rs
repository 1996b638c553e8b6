//! Content-addressed identities of models and reviewed artifacts.

use vstd::prelude::*;
use vstd::string::*;

use crate::text::same_text;

verus! {

/// An artifact named by id, semantic version and content digest (the digest
/// in its `algorithm:hex` text form).
#[derive(Clone, Debug, PartialEq, Eq)]
pub struct ArtifactIdentity {
    pub id: String,
    pub version: String,
    pub digest: String,
}

/// Two identities name the same artifact.
pub open spec fn same_identity(a: ArtifactIdentity, b: ArtifactIdentity) -> bool {
    &&& a.id@ == b.id@
    &&& a.version@ == b.version@
    &&& a.digest@ == b.digest@
}

/// Field-wise identity comparison.
pub fn identity_eq(a: &ArtifactIdentity, b: &ArtifactIdentity) -> (r: bool)
    ensures
        r == same_identity(*a, *b),
{
    same_text(a.id.as_str(), b.id.as_str()) && same_text(a.version.as_str(), b.version.as_str())
        && same_text(a.digest.as_str(), b.digest.as_str())
}

/// A copy of an identity with the same texts.
pub fn copy_identity(a: &ArtifactIdentity) -> (r: ArtifactIdentity)
    ensures
        r == *a,
{
    ArtifactIdentity { id: a.id.clone(), version: a.version.clone(), digest: a.digest.clone() }
}

} // verus!
