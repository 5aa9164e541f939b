use vstd::prelude::*;

pub mod text;
pub mod matcher;
pub mod genre;
pub mod ranking;
pub mod discovery;
pub mod search;
pub mod cloud;
pub mod history;
pub mod downloads;
pub mod archive;
pub mod audius;
pub mod ytdlp;
pub mod providers;
pub mod error;
pub mod user;
pub mod library;
pub mod models;
pub mod commands;
pub mod sync;
pub mod charts;
pub mod imports;
pub mod stats;
pub mod media;
pub mod taste;

verus! {

} // verus!
