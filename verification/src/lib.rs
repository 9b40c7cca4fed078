//! A build-orchestration library that extracts an ABI description from a
//! smart-contract project without altering the project's own files.
//!
//! The pipeline builds the contract, locates the single shared-library
//! artifact, enumerates its exported ABI entry-point symbols, stages a
//! disposable snapshot of the build description with a synthetic aggregator
//! member, runs the aggregator, stamps the project's metadata into the
//! captured document and persists it as `abi.json`.

pub mod artifact;
pub mod codegen;
pub mod docjson;
pub mod errors;
pub mod invoke;
pub mod manifest;
pub mod metadata;
pub mod pipeline;
pub mod symbols;
pub mod text;
