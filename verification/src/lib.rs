//! The decisions behind installing Python wheels into a conda environment.

pub mod category;
pub mod category_laws;
pub mod digest;
pub mod dist_info;
pub mod entry_laws;
pub mod entry_points;
pub mod error;
pub mod extraction;
pub mod extraction_laws;
pub mod hash;
pub mod hash_laws;
pub mod install;
pub mod link;
pub mod link_laws;
pub mod memory;
pub mod memory_laws;
pub mod package;
pub mod package_laws;
pub mod path;
pub mod path_laws;
pub mod record;
pub mod record_laws;
pub mod shebang;
pub mod shebang_laws;
pub mod stages;
pub mod stream_laws;
pub mod text;
pub mod text_laws;
