//! A host-side core for driving a GPU: queue selection, resources, command
//! recording, compute pipelines and submission tokens, with a host model of
//! what each recorded operation does to the resources it names.

pub mod device;
pub mod words;
pub mod resource;
pub mod pipeline;
pub mod command;
pub mod execute;
pub mod sync;
pub mod laws;
