//! Intermediate representation of configuration techniques, the lowering of
//! method calls into agent policy bundles, and the pieces of the policy
//! language's parser and of the relay's upstream forwarding that compute.

pub mod technique;
pub mod method_call;
pub mod parser;
pub mod upstream;
