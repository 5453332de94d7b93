//! Builds a private shadow directory that overlays a shared Electron runtime
//! with one application's own resources, and redirects the application's
//! executable path into that shadow directory.
//!
//! The modules here hold the verified logic: identity hashing, the overlay
//! plan and its invariants, and the flatpak resolution helpers. All
//! filesystem reads and writes are performed by the surrounding binary, which
//! hands directory listings in and carries the computed plan out.

pub mod entries;
pub mod flatpak;
pub mod overlay;
pub mod structure;
