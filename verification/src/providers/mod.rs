//! The scheduling providers: the requests the library builds for each and
//! how it reads their replies. Sending the requests is left to the caller.
pub mod common;
pub mod zernio;
pub mod buffer;
pub mod ayrshare;
pub mod outstand;
pub mod publer;
pub mod substack;
pub mod upload_post;
pub mod webhook;
pub mod mastodon;
