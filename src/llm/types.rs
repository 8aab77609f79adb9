//! Language models offered to the user.
use vstd::prelude::*;

verus! {

/// A model by name, with a short description (its size, for local models).
#[derive(Clone, Debug)]
pub struct LlmModel {
    pub name: String,
    pub description: String,
}

} // verus!
