//! The verified core of an AI proxy that sits in front of a vector database:
//! model catalogue, store bookkeeping, replicated command application and the
//! decisions that surround model inference.
pub mod keyed;
pub mod models;
pub mod keyval;
pub mod errors;
pub mod table;
pub mod seqs;
pub mod store;
pub mod replication;
pub mod text;
pub mod images;
pub mod operations;
pub mod inference;
pub mod faces;
pub mod json;
pub mod processors;
pub mod manager;
pub mod pool;
pub mod config;
pub mod pipeline;
