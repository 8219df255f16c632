use vstd::prelude::*;

verus! {

/// A tag of the remote repository, as listed by its API.
#[derive(Clone, Debug)]
pub struct DistTag {
    pub name: String,
}

/// A published release of the remote.
#[derive(Clone, Debug)]
pub struct DistVersion {
    pub version: String,
}

} // verus!
