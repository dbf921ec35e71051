//! Pulling images and videos out of posts at the highest resolution on offer.
//!
//! The same media can be had through several channels of differing quality. The
//! private web API gives clean structure (carousel layout, captions, video URLs)
//! but caps stills at 720 pixels in width. The page of a post quotes the
//! full-size stills but has no usable structure. So structure is taken from the
//! API and resolution from the page, and the two are matched on the number of the
//! asset that stands in every CDN URL.
//!
//! This library decides and computes; it does no input or output. It shapes the
//! requests to send, reads the replies, plans downloads, and keeps the accounts.
pub mod accounts;
pub mod calendar;
pub mod cdn;
pub mod client;
pub mod cookie;
pub mod download;
pub mod encode;
pub mod error;
pub mod json;
pub mod login;
pub mod number;
pub mod pattern;
pub mod post;
pub mod profile;
pub mod reply;
pub mod scan;
pub mod search;
pub mod shortcode;
pub mod text;
pub mod timeline;
pub mod username;
