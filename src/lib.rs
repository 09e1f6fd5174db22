//! A feed reader for the Gemini protocol: the response codec, the feed
//! document parser, the redirect and certificate-trust decisions of the
//! fetcher, and the line protocol spoken with clients.

pub mod text;
pub mod protocol;
pub mod feed;
pub mod codec;
pub mod fetch;
pub mod trust;
pub mod session;
pub mod sync;
