//! Verified core of the QwikPage low-code page designer backend.

pub mod pagination;
pub mod text;
pub mod page;
pub mod project;
pub mod group;
pub mod stamp;
pub mod page_store;
pub mod naming;
pub mod generator;
pub mod templates;
pub mod resource;
pub mod preferences;
pub mod api;
pub mod files;
pub mod helpers;
pub mod local_storage;
