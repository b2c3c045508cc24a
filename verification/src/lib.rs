//! ChatVault: verified core logic of the chat-attachment archive.
use vstd::prelude::*;

pub mod error;
pub mod cache;
pub mod candidates;
pub mod archive;
pub mod binding;
pub mod apply;
pub mod category;
pub mod event;
pub mod format;
pub mod hasher;
pub mod image_check;
pub mod ingest;
pub mod journal;
pub mod known;
pub mod jsonl;
pub mod mapping;
pub mod scan;
pub mod ordering;
pub mod publish;
pub mod query;
pub mod records;
pub mod text;
pub mod taskrun;
pub mod timeutil;
pub mod upload;
pub mod validation;
pub mod visibility;

verus! {

} // verus!
