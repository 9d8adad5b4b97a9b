//! What can go wrong while a feed is fetched and read.

use crate::text::from_chars;
use vstd::prelude::*;

verus! {

/// A failure of a fetch or of a parse.
#[derive(Debug, Clone, PartialEq, Eq)]
pub enum FeedError {
    /// The transport could not complete the request to `url`.
    Transport { url: String, reason: String },
    /// The request to `url` was answered with a status outside 200..=299.
    Status { url: String, code: u16 },
    /// The document is not well-formed XML.
    MalformedDocument { reason: String },
    /// The HTML page is too large for feed discovery.
    OversizeInput,
    /// The HTML page at `url` led to no feed.
    NoFeedFound { url: String },
}

/// A failure as plain values. What the XML parser had to say of a malformed
/// document is not part of it.
pub enum FeedErrorView {
    Transport { url: Seq<char>, reason: Seq<char> },
    Status { url: Seq<char>, code: u16 },
    MalformedDocument,
    OversizeInput,
    NoFeedFound { url: Seq<char> },
}

impl View for FeedError {
    type V = FeedErrorView;

    open spec fn view(&self) -> FeedErrorView {
        match self {
            FeedError::Transport { url, reason } => FeedErrorView::Transport {
                url: url@,
                reason: reason@,
            },
            FeedError::Status { url, code } => FeedErrorView::Status { url: url@, code: *code },
            FeedError::MalformedDocument { reason } => FeedErrorView::MalformedDocument,
            FeedError::OversizeInput => FeedErrorView::OversizeInput,
            FeedError::NoFeedFound { url } => FeedErrorView::NoFeedFound { url: url@ },
        }
    }
}

/// The character of a decimal digit.
pub open spec fn digit(d: nat) -> char {
    ((0x30 + d) as u8) as char
}

/// The decimal numeral of `n`, without leading zeros.
pub open spec fn decimal(n: nat) -> Seq<char>
    decreases n,
{
    if n < 10 {
        seq![digit(n)]
    } else {
        decimal(n / 10).push(digit(n % 10))
    }
}

/// Appends the decimal numeral of `n` to `out`.
pub fn push_decimal(n: u16, out: &mut Vec<char>)
    ensures
        final(out)@ == old(out)@ + decimal(n as nat),
    decreases n,
{
    if n >= 10 {
        push_decimal(n / 10, out);
    }
    let d: u8 = (n % 10) as u8;
    out.push((0x30u8 + d) as char);
    assert(final(out)@ =~= old(out)@ + decimal(n as nat));
}

/// The text shown for an answer to `url` with the status `code`.
pub open spec fn status_message(url: Seq<char>, code: u16) -> Seq<char> {
    "Request to \""@ + url + "\" returned status code "@ + decimal(code as nat)
}

/// The text shown when the page at `url` led to no feed.
pub open spec fn no_feed_message(url: Seq<char>) -> Seq<char> {
    "No embedded RSS/Atom feed links found at \""@ + url + "\""@
}

impl FeedError {
    /// The text shown to a user for this error. For a failed transport and a
    /// malformed document it is the reason that came with it.
    pub fn message(&self) -> (text: String)
        ensures
            text@ == match self {
                FeedError::Transport { url, reason } => reason@,
                FeedError::Status { url, code } => status_message(url@, *code),
                FeedError::MalformedDocument { reason } => reason@,
                FeedError::OversizeInput =>
                    "The input string length was too large to fit in a `u32`"@,
                FeedError::NoFeedFound { url } => no_feed_message(url@),
            },
    {
        match self {
            FeedError::Transport { url, reason } => reason.clone(),
            FeedError::Status { url, code } => {
                let mut digits: Vec<char> = Vec::new();
                push_decimal(*code, &mut digits);
                assert(digits@ =~= decimal(*code as nat));
                let mut text = String::from_str("Request to \"");
                text.append(url.as_str());
                text.append("\" returned status code ");
                text.append(from_chars(&digits).as_str());
                text
            },
            FeedError::MalformedDocument { reason } => reason.clone(),
            FeedError::OversizeInput => String::from_str(
                "The input string length was too large to fit in a `u32`",
            ),
            FeedError::NoFeedFound { url } => {
                let mut text = String::from_str("No embedded RSS/Atom feed links found at \"");
                text.append(url.as_str());
                text.append("\"");
                text
            },
        }
    }
}

} // verus!
