//! Decision logic of a desktop tool that files attendance folders into a
//! locally synchronised Google Drive: folder-name rules, path checks,
//! drive discovery, destination listings and the bookkeeping of a copy run.

pub mod copy_run;
pub mod drives;
pub mod listing;
pub mod names;
pub mod order;
pub mod paths;
pub mod sources;
pub mod text;
pub mod transfer;
