//! Telling HTML from feed XML, and finding the feeds that an HTML page links to.

use crate::text::{
    contains, has_substring, is_whitespace, lemma_spaces_end, matches_at, occurs_at, spaces_end,
    to_chars,
};
use tl::ParseError as DomError;
use vstd::prelude::*;
use vstd::std_specs::convert::FromSpecImpl;
use vstd::std_specs::iter::IteratorSpec;
use vstd::string::StringSliceAdditionalSpecFns;

verus! {

/// The longest input, in bytes, that the HTML parser can address.
pub const MAX_HTML_BYTES: u64 = 0xFFFF_FFFF;

/// Whether `s`, after its leading whitespace, starts like an HTML document.
/// The doctype is matched in one spelling only, the tag in two.
pub open spec fn is_html_text(s: Seq<char>) -> bool {
    let at = spaces_end(s, 0);
    occurs_at(s, at, "<!DOCTYPE html"@) || occurs_at(s, at, "<html"@) || occurs_at(s, at, "<HTML"@)
}

/// The length of the longest of the three openings.
pub const OPENING_LENGTH: usize = 14;

/// What follows the leading whitespace of `s`, cut to `limit` characters.
pub open spec fn head_of(s: Seq<char>, limit: nat) -> Seq<char> {
    let at = spaces_end(s, 0);
    if at + limit <= s.len() {
        s.subrange(at, at + limit)
    } else {
        s.subrange(at, s.len() as int)
    }
}

/// Reads what follows the leading whitespace of `content`, `limit` characters
/// at most, and nothing beyond.
pub fn read_head(content: &str, limit: usize) -> (head: Vec<char>)
    ensures
        head@ == head_of(content@, limit as nat),
{
    let ghost s = content@;
    let ghost at = spaces_end(s, 0);
    let mut it = content.chars();
    let mut head: Vec<char> = Vec::new();
    let mut skipping = true;
    let ghost mut k: int = 0;
    proof {
        lemma_spaces_end(s, 0);
    }
    loop
        invariant
            0 <= k <= s.len(),
            at == spaces_end(s, 0),
            0 <= at <= s.len(),
            it.obeys_prophetic_iter_laws(),
            it.remaining() == s.skip(k),
            head@.len() <= limit,
            skipping ==> head@.len() == 0 && k <= at && spaces_end(s, k) == at,
            !skipping ==> k == at + head@.len() && head@ == s.subrange(at, k),
        ensures
            head@ == head_of(s, limit as nat),
        decreases s.len() - k,
    {
        if head.len() >= limit {
            assert(head@ =~= s.subrange(at, at + limit));
            break;
        }
        match it.next() {
            None => {
                assert(k == s.len());
                assert(head@ =~= s.subrange(at, s.len() as int));
                break;
            },
            Some(c) => {
                assert(c == s[k]);
                assert(s.skip(k).drop_first() =~= s.skip(k + 1));
                if skipping && is_whitespace(c) {
                    proof {
                        lemma_spaces_end(s, k + 1);
                    }
                } else {
                    assert(skipping ==> at == k);
                    skipping = false;
                    head.push(c);
                    assert(head@ =~= s.subrange(at, k + 1));
                }
                proof {
                    k = k + 1;
                }
            },
        }
    }
    head
}

/// An opening of at most `limit` characters stands after the leading
/// whitespace of `s` exactly if it stands at the start of the head.
proof fn lemma_head_decides(s: Seq<char>, limit: nat, p: Seq<char>)
    requires
        p.len() <= limit,
    ensures
        occurs_at(head_of(s, limit), 0, p) == occurs_at(s, spaces_end(s, 0), p),
{
    let at = spaces_end(s, 0);
    let head = head_of(s, limit);
    lemma_spaces_end(s, 0);
    if p.len() <= head.len() {
        assert(head.subrange(0, p.len() as int) =~= s.subrange(at, at + p.len()));
    }
}

/// Classifies a text payload as HTML (true) or not by its first characters.
pub fn is_html(content: &str) -> (r: bool)
    ensures
        r == is_html_text(content@),
{
    let head = read_head(content, OPENING_LENGTH);
    let doctype = to_chars("<!DOCTYPE html");
    let lower = to_chars("<html");
    let upper = to_chars("<HTML");
    proof {
        reveal_strlit("<!DOCTYPE html");
        reveal_strlit("<html");
        reveal_strlit("<HTML");
        lemma_head_decides(content@, OPENING_LENGTH as nat, doctype@);
        lemma_head_decides(content@, OPENING_LENGTH as nat, lower@);
        lemma_head_decides(content@, OPENING_LENGTH as nat, upper@);
    }
    matches_at(&head, 0, &doctype) || matches_at(&head, 0, &lower) || matches_at(&head, 0, &upper)
}

/// Why discovery could not be set up.
#[derive(Debug, Clone, Copy, PartialEq, Eq, PartialOrd, Ord, Structural)]
pub enum ParseError {
    /// The input string length was too large to fit in a `u32`
    TooLarge,
}

impl ParseError {
    /// The text shown to a user for this error.
    pub fn message(&self) -> (text: String)
        ensures
            text@ == "The input string length was too large to fit in a `u32`"@,
    {
        String::from_str("The input string length was too large to fit in a `u32`")
    }
}

#[verifier::external_type_specification]
#[verifier::external_body]
pub struct ExDomError(DomError);

impl From<DomError> for ParseError {
    fn from(value: DomError) -> (r: ParseError) {
        ParseError::TooLarge
    }
}

impl FromSpecImpl<DomError> for ParseError {
    open spec fn obeys_from_spec() -> bool {
        true
    }

    open spec fn from_spec(value: DomError) -> ParseError {
        ParseError::TooLarge
    }
}

/// What `str::to_lowercase` returns for a text.
pub uninterp spec fn lowercase(s: Seq<char>) -> Seq<char>;

/// `str::to_lowercase`: the lowercase form of `s`.
#[verifier::external_body]
pub(crate) fn to_lowercase(s: &str) -> (r: String)
    ensures
        r@ == lowercase(s@),
{
    s.to_lowercase()
}

/// The serialization of the URL that `url::Url::join` gives for `reference`
/// against the parsed `base`; `None` where `base` is no absolute URL or the
/// reference cannot be resolved against it.
pub uninterp spec fn url_joined(base: Seq<char>, reference: Seq<char>) -> Option<Seq<char>>;

/// `url::Url::join` on `url::Url::parse(base)`: resolves `reference` against
/// `base` and hands back the resulting URL as text.
#[verifier::external_body]
pub(crate) fn join_url(base: &str, reference: &str) -> (r: Option<String>)
    ensures
        r.deep_view() == url_joined(base@, reference@),
{
    url::Url::parse(base).ok()?.join(reference).ok().map(String::from)
}

/// For each element of the document `input` that `selector` matches, in the
/// order in which `tl`'s query iterator yields them, the values of its
/// attributes `first` and `second` (`None` where the element lacks the
/// attribute or the attribute has no value).
pub uninterp spec fn html_selected(
    input: Seq<char>,
    selector: Seq<char>,
    first: Seq<char>,
    second: Seq<char>,
) -> Seq<(Option<Seq<char>>, Option<Seq<char>>)>;

/// `tl::parse` with default options, then `VDom::query_selector`: fails exactly
/// when `input` is longer than `u32::MAX` bytes, and otherwise lists two
/// attribute values of every selected element.
#[verifier::external_body]
pub(crate) fn select_attributes<'a>(
    input: &'a str,
    selector: &'a str,
    first: &'a str,
    second: &'a str,
) -> (r: Result<Vec<(Option<String>, Option<String>)>, DomError>)
    ensures
        r is Err <==> input.spec_bytes().len() > MAX_HTML_BYTES,
        r matches Ok(found) ==> found.deep_view() == html_selected(
            input@,
            selector@,
            first@,
            second@,
        ),
{
    let dom = tl::parse(input, tl::ParserOptions::default())?;
    let parser = dom.parser();
    let value = |tag: Option<&tl::HTMLTag<'a>>, key: &'a str|
        tag.and_then(|t| t.attributes().get(key).flatten().map(|b| b.as_utf8_str().into_owned()));
    Ok(dom.query_selector(selector).into_iter().flatten().map(|handle| {
        let tag = handle.get(parser).and_then(tl::Node::as_tag);
        (value(tag, first), value(tag, second))
    }).collect())
}

/// Whether a link's `type` names a feed: lowercased, it mentions `atom` or `rss`.
pub open spec fn is_feed_type(kind: Seq<char>) -> bool {
    has_substring(lowercase(kind), "atom"@) || has_substring(lowercase(kind), "rss"@)
}

/// The feed URL that one selected element contributes: its `href` resolved
/// against `base`, provided its `type` names a feed.
pub open spec fn link_target(
    tag: (Option<Seq<char>>, Option<Seq<char>>),
    base: Seq<char>,
) -> Option<Seq<char>> {
    match tag {
        (Some(kind), Some(href)) => if is_feed_type(kind) {
            url_joined(base, href)
        } else {
            None
        },
        _ => None,
    }
}

/// The feed URLs that the selected elements contribute, in their order.
pub open spec fn discovered(
    tags: Seq<(Option<Seq<char>>, Option<Seq<char>>)>,
    base: Seq<char>,
) -> Seq<Seq<char>>
    decreases tags.len(),
{
    if tags.len() == 0 {
        Seq::empty()
    } else {
        match link_target(tags.last(), base) {
            Some(url) => discovered(tags.drop_last(), base).push(url),
            None => discovered(tags.drop_last(), base),
        }
    }
}

/// The views of a sequence of strings.
pub open spec fn string_views(v: Seq<String>) -> Seq<Seq<char>> {
    v.map_values(|s: String| s@)
}

/// A single-pass cursor over the feed URLs found in an HTML page.
pub struct Parser {
    urls: Vec<String>,
    position: usize,
}

impl Parser {
    /// The URLs that the cursor has not handed out yet.
    pub closed spec fn remaining(&self) -> Seq<Seq<char>> {
        if self.position <= self.urls@.len() {
            string_views(self.urls@).skip(self.position as int)
        } else {
            Seq::empty()
        }
    }

    /// Scans `input` for alternate feed links and resolves each against `url`.
    pub fn new(input: &str, url: &str) -> (r: Result<Parser, ParseError>)
        ensures
            r is Err <==> input.spec_bytes().len() > MAX_HTML_BYTES,
            r matches Err(e) ==> e == ParseError::TooLarge,
            r matches Ok(parser) ==> parser.remaining() == discovered(
                html_selected(input@, "link[rel='alternate']"@, "type"@, "href"@),
                url@,
            ),
    {
        match select_attributes(input, "link[rel='alternate']", "type", "href") {
            Ok(found) => {
                let urls = Self::feed_urls(&found, url);
                assert(string_views(urls@).skip(0) =~= string_views(urls@));
                Ok(Parser { urls, position: 0 })
            },
            Err(e) => Err(ParseError::from(e)),
        }
    }

    /// Keeps the links whose type names a feed and resolves their targets.
    pub fn feed_urls(found: &Vec<(Option<String>, Option<String>)>, url: &str) -> (urls: Vec<
        String,
    >)
        ensures
            string_views(urls@) == discovered(found.deep_view(), url@),
    {
        let mut urls: Vec<String> = Vec::new();
        let mut i: usize = 0;
        assert(found.deep_view().take(0) =~= Seq::empty());
        assert(string_views(urls@) =~= Seq::empty());
        while i < found.len()
            invariant
                0 <= i <= found.len(),
                string_views(urls@) == discovered(found.deep_view().take(i as int), url@),
            decreases found.len() - i,
        {
            let ghost tags = found.deep_view();
            let ghost before = string_views(urls@);
            assert(tags.take(i + 1).drop_last() =~= tags.take(i as int));
            assert(tags.take(i + 1).last() == found@[i as int].deep_view());
            let tag = &found[i];
            match (&tag.0, &tag.1) {
                (Some(kind), Some(href)) => {
                    if Self::is_feed(kind.as_str()) {
                        match join_url(url, href.as_str()) {
                            Some(target) => {
                                assert(string_views(urls@.push(target)) =~= before.push(target@));
                                urls.push(target);
                            },
                            None => {},
                        }
                    }
                },
                _ => {},
            }
            i += 1;
        }
        assert(found.deep_view().take(i as int) =~= found.deep_view());
        urls
    }

    /// Whether a link's `type` attribute names a feed.
    pub fn is_feed(link_type: &str) -> (r: bool)
        ensures
            r == is_feed_type(link_type@),
    {
        let lowered = to_chars(to_lowercase(link_type).as_str());
        let atom = to_chars("atom");
        let rss = to_chars("rss");
        contains(&lowered, &atom) || contains(&lowered, &rss)
    }

    /// Hands out the next feed URL, in document order; `None` once all are out.
    pub fn next(&mut self) -> (r: Option<String>)
        ensures
            old(self).remaining().len() == 0 ==> r is None && final(self).remaining() == old(
                self,
            ).remaining(),
            old(self).remaining().len() > 0 ==> r.deep_view() == Some(old(self).remaining()[0])
                && final(self).remaining() == old(self).remaining().drop_first(),
    {
        if self.position < self.urls.len() {
            let url = self.urls[self.position].clone();
            proof {
                let all = string_views(self.urls@);
                assert(all.skip(self.position as int).drop_first() =~= all.skip(
                    self.position + 1,
                ));
            }
            self.position = self.position + 1;
            Some(url)
        } else {
            None
        }
    }
}

} // verus!
