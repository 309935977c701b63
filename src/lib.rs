//! A builder for render graph descriptors: named passes, the pipelines each
//! pass runs in declaration order, queued textures and resource providers.

pub mod builder;
pub mod graph;
pub mod laws;
pub mod model;
pub mod name_map;
