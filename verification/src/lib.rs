//! Layered configuration.
//!
//! A program's configuration is assembled from ordered layers: defaults,
//! files, the environment, command-line flags. Each layer yields a *partial
//! value*, in which every field is present or absent. A later layer overrides
//! an earlier one field by field, and never turns a set field back into an
//! absent one. Once all layers are laid, the partial value is built into its
//! target, and every required field that is still absent is reported in one
//! error.
//!
//! - [`partial`] holds the two traits that pair a target with its partial
//!   type, and the laying of one source after the other.
//! - [`source`] holds the trait of everything a layer can be read from.
//! - [`field`] merges one field, and states the laws of merging.
//! - [`builder`] builds a target field by field and collects what is missing.
//! - [`env`] resolves one field from the several names it may have in the
//!   environment.
//! - [`serde_support`] tells the format of a configuration file and names what
//!   can go wrong with one.
//! - [`schema`] holds the rules by which a target's definition gives its
//!   partial type.
//! - [`error`] and [`notice`] hold the errors and the diagnostics, with the
//!   text of each.
//!
//! A partial type mirrors its target with every field an `Option`. Its
//! `override_with` lays field over field with [`field::override_field`], and
//! its `build` visits the fields with a [`builder::Builder`].
//!
//! The library reads no file and no environment and prints nothing: the
//! caller hands in what was read, and gets back values, errors and notices.
//! The executable functions carry contracts that Verus proves.
pub mod builder;
pub mod env;
pub mod error;
pub mod field;
pub mod notice;
pub mod partial;
pub mod schema;
pub mod serde_support;
pub mod source;

pub use error::{Error, MissingField};
pub use partial::{HasPartial, Partial};
pub use source::{ConfigPath, Source};
