//! Data and state logic of the GINKGO benchmark dashboard: the enum
//! vocabulary, URL-fragment state, git commit bookkeeping and the
//! dashboard's load state machine, manifest handling for the synthetic
//! data generator, formula-variable resolution, the text side of vector
//! export, the command line, and the text helpers the views use.
pub mod text;
pub mod types;
pub mod visualization;
pub mod datagen;
pub mod data;
pub mod state_url;
pub mod export;
pub mod cli;
