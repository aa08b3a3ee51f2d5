//! The linking core of a small knowledge base of topics, terms and sources.
//!
//! Entities of the three kinds are stored in a relational store, and so are
//! the associations between them: one junction table for each pair of
//! distinct kinds. This crate decides what is to be stored and never touches
//! the store. It hands out statements, takes the store's replies, and says
//! what comes next; the caller runs the statements. So every decision is a
//! function of plain values, and is proved to be the function it is meant
//! to be.
//!
//! - `kind` and `topology`: the kinds, and the junction table of each pair.
//! - `statement`: the statements, their texts and the values they bind.
//! - `store`: a mathematical picture of the store, which gives the
//!   statements their meaning.
//! - `resolver`: from names to identifiers.
//! - `writer`: from identifiers to the rows that associate them.
//! - `builder`: the linking of a new entity to the entities that its request
//!   names, statement by statement; `run` proves what every such linking
//!   brings about.
//! - `link`: the writing of rows for a caller who holds the identifiers;
//!   `link_run` proves what every such writing brings about.
//! - `payload`, `entity`, `report`, `response`: what comes in from a client,
//!   what is stored of a new entity, and what the client is told.

pub mod kind;
pub mod topology;
pub mod statement;
pub mod store;
pub mod writer;
pub mod payload;
pub mod entity;
pub mod report;
pub mod resolver;
pub mod builder;
pub mod run;
pub mod link;
pub mod link_run;
pub mod response;
