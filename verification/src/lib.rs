//! Builds Salesforce destructive-change manifests: added-file change records
//! are classified by path, grouped by metadata type, and rendered as the
//! `destructiveChanges.xml` package document.
pub mod aggregate;
pub mod classify;
pub mod forcedotcom;
pub mod ignorefile;
pub mod laws;
pub mod strings;
