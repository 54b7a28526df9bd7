pub mod text;
pub mod classify;
pub mod retry;
pub mod model;
pub mod discovery;
pub mod github;
pub mod collect;
pub mod link;
