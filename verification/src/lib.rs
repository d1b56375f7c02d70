//! Reads meshes, materials and skeletons out of a composed scene description.
#![allow(unused_imports)]

pub mod assets;
pub mod binding;
pub mod close;
pub mod error;
pub mod laws;
pub mod material;
pub mod mesh;
pub mod num;
pub mod path;
pub mod read;
pub mod scene;
pub mod skel;
pub mod stage;
pub mod table;
pub mod text;
pub mod times;
pub mod value;
