//! Reading web feeds: RSS and Atom documents, and HTML pages that link to
//! them, turned into one feed record and its entries in document order.

pub mod date;
pub mod error;
pub mod feedparser;
pub mod html;
pub mod markdown;
pub mod resolver;
pub mod text;
pub mod xml;
