//! Binding generation for a native timer module exposed through a C-style
//! ABI, together with the run savers, image handling and metadata that
//! accompany it.
//!
//! The heart of the crate is the intermediate representation of the ABI
//! ([`ir`]) and the per-class code emitters ([`java`]) that turn it into a
//! safe class hierarchy for a foreign runtime. The marshalling conventions
//! that the emitted code follows (handle lifecycle, string transfer, the
//! host callback layout) are modelled and proved in [`runtime`] and
//! [`bridge`].

pub mod text;
pub mod ir;
pub mod java;
pub mod java_wasm;
pub mod typescript;
pub mod bridge;
pub mod runtime;
pub mod decimal;
pub mod json;
pub mod image;
pub mod run;
pub mod run_metadata;
pub mod saver;
