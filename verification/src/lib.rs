//! The dependency resolution and fetch engine of a package manager.
//!
//! A set of requirements is turned into a set of resolved packages and
//! their content. The work is a graph of operations that is discovered as
//! it runs (`graph`); the operations are resolving a requirement and
//! fetching a package (`install`), each with one way of doing it for every
//! kind of requirement (`resolvers`) and of reference (`fetcher`). Archives
//! are kept in a cache under a key derived from the package (`cache`), and
//! what was resolved is kept in a lockfile (`lockfile`).
//!
//! The library decides and never touches the outside world: what has to be
//! read, asked or written is done by the caller, who hands the library
//! plain values, or the functions that do the reading, and acts on the
//! steps it gets back.
//!
//! What the engine guarantees is stated on the mathematical model of its
//! state: `graph_model` holds the model and the invariant that keeps an
//! operation from running before its dependencies have succeeded, and
//! `graph_progress` the invariant that keeps it from being forgotten once
//! they have; `graph_run` states what holds of every run, move by move.

// the engine
pub mod graph;
pub mod graph_model;
pub mod graph_progress;
pub mod graph_run;
pub mod keyed;

// what rides on it
pub mod cache;
pub mod fetcher;
pub mod install;
pub mod resolution;
pub mod resolvers;

// the lockfile
pub mod document;
pub mod lockfile;
pub mod lockfile_model;

// names, versions, repositories
pub mod git;
pub mod primitives;
pub mod semver;

// the project and its settings
pub mod commands;
pub mod config;
pub mod constraints;
pub mod manifest;
pub mod manifest_finder;
pub mod project;
pub mod settings;

// text, paths, archives
pub mod archive;
pub mod colors;
pub mod encoding;
pub mod error;
pub mod path;
pub mod path_iterators;
pub mod path_resolve;
pub mod patterns;
pub mod tar;
pub mod text;
