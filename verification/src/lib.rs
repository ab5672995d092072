use vstd::prelude::*;

pub mod access;
pub mod collab;
pub mod comment_routes;
pub mod comments;
pub mod doc_routes;
pub mod docs;
pub mod grants;
pub mod http;
pub mod ids;
pub mod inbox;
pub mod markdown;
pub mod metrics;
pub mod notifications;
pub mod order;
pub mod placement;
pub mod reindex;
pub mod seqs;
pub mod startup;
pub mod sweep;
pub mod tasks;
pub mod text;
pub mod time;
pub mod tree;

verus! {

} // verus!
