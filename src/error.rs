use vstd::prelude::*;

verus! {

#[verifier::external_type_specification]
#[verifier::external_body]
pub struct ExJwtError(jsonwebtoken::errors::Error);

/// Why a run stopped before it was done.
#[derive(Debug)]
pub enum RunError {
    /// The application id is missing, or not a positive integer.
    GitHubAppId,
    /// The private key is missing, or its file could not be read.
    GitHubAppPrivateKey,
    /// The key was read but could not be decoded or signed with.
    GitHubAppPrivateKeyDecode(jsonwebtoken::errors::Error),
    /// No installation of the app grants access to the repository's owner.
    NoInstallation,
}

} // verus!
