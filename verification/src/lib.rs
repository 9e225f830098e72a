//! Keeps local font directories in step with the fonts that remote manifests publish.
//!
//! A project names a remote manifest and a local directory.  One pass over a
//! project reads the manifest, lists the directory, deletes the font files that
//! the manifest no longer names and downloads the ones that are missing.  The
//! modules here hold every decision of such a pass; reading, fetching, writing
//! and deleting are left to the caller, who performs the action that a machine
//! asks for and reports what came of it.

pub mod batch;
pub mod config;
pub mod enroll;
pub mod paths;
pub mod pattern;
pub mod project;
pub mod reconcile;
pub mod scan;
pub mod text;
pub mod sync;
