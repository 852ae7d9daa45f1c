use vstd::prelude::*;

pub mod identity;
pub mod model;
pub mod text;
pub mod store;
pub mod posts;
pub mod post_ops;
pub mod comments;
pub mod comment_ops;
pub mod follows;
pub mod admin;
pub mod admin_ops;
pub mod search;
pub mod trending;
pub mod laws;

verus! {

} // verus!
