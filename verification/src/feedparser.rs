//! Reading feed documents: the feed's own record, and one record per entry.

use crate::date::{
    current_instant, date_of, parse_date, AttemptFault, DateError, UtcInstant, MISSING_DATE,
};
use crate::error::FeedError;
use crate::markdown::{
    lemma_summary_is_short_and_single_line, render_html, rendered, summarize, summarized,
};
use crate::text::{normalize_and_truncate, normalized, same_text};
use crate::xml::{
    attribute, attribute_value, describe_error, find_named, first_named, has_name, name_views,
    parse_tree, subtree_end, subtree_limit, text_at, text_of_first, tree_view, xml_tree, NodeView,
    XmlNode,
};
use vstd::prelude::*;

verus! {

/// The longest title, in characters.
pub const TITLE_LIMIT: usize = 256;

/// The URL of an entry in which no link was found.
pub const NO_URL: &'static str = "NOURL";

/// One subscription.
#[derive(Debug, Clone, PartialEq, Eq)]
pub struct FeedItem {
    pub title: String,
    pub description: String,
    pub url: String,
    pub feed_url: String,
    pub author: String,
    pub slug: String,
}

/// A subscription as plain values.
pub struct FeedItemView {
    pub title: Seq<char>,
    pub description: Seq<char>,
    pub url: Seq<char>,
    pub feed_url: Seq<char>,
    pub author: Seq<char>,
    pub slug: Seq<char>,
}

impl View for FeedItem {
    type V = FeedItemView;

    open spec fn view(&self) -> FeedItemView {
        FeedItemView {
            title: self.title@,
            description: self.description@,
            url: self.url@,
            feed_url: self.feed_url@,
            author: self.author@,
            slug: self.slug@,
        }
    }
}

/// One item of a feed.
#[derive(Debug, Clone, PartialEq, Eq)]
pub struct FeedEntry {
    pub title: String,
    pub author: String,
    pub url: String,
    pub text: String,
    pub date: UtcInstant,
    pub description: String,
    pub lastupdated: UtcInstant,
    pub seen: bool,
    pub filepath: Option<String>,
}

/// An entry as plain values.
pub struct FeedEntryView {
    pub title: Seq<char>,
    pub author: Seq<char>,
    pub url: Seq<char>,
    pub text: Seq<char>,
    pub date: UtcInstant,
    pub description: Seq<char>,
    pub lastupdated: UtcInstant,
    pub seen: bool,
    pub filepath: Option<Seq<char>>,
}

impl View for FeedEntry {
    type V = FeedEntryView;

    open spec fn view(&self) -> FeedEntryView {
        FeedEntryView {
            title: self.title@,
            author: self.author@,
            url: self.url@,
            text: self.text@,
            date: self.date,
            description: self.description@,
            lastupdated: self.lastupdated,
            seen: self.seen,
            filepath: self.filepath.deep_view(),
        }
    }
}

/// What `slug::slugify` makes of a text.
pub uninterp spec fn slug_of(text: Seq<char>) -> Seq<char>;

/// The characters of a slug: `a` to `z`, `0` to `9` and `-`.
pub open spec fn is_slug_char(c: char) -> bool {
    let u = c as u32;
    (0x61 <= u <= 0x7A) || (0x30 <= u <= 0x39) || u == 0x2D
}

/// The shape of a slug: only `a` to `z`, `0` to `9` and `-`, never two `-` in
/// a row, and no `-` at either end.
pub open spec fn is_slug(s: Seq<char>) -> bool {
    &&& forall|i: int| 0 <= i < s.len() ==> is_slug_char(#[trigger] s[i])
    &&& forall|i: int| 0 <= i < s.len() - 1 ==> !(#[trigger] s[i] == '-' && s[i + 1] == '-')
    &&& s.len() > 0 ==> s[0] != '-' && s.last() != '-'
}

/// `slug::slugify`: the slug of `text`. It holds only `a` to `z`, `0` to `9`
/// and `-`, never two `-` in a row, and no `-` at either end.
#[verifier::external_body]
pub(crate) fn slugify(text: &str) -> (r: String)
    ensures
        r@ == slug_of(text@),
        is_slug(r@),
{
    slug::slugify(text)
}

/// The scheme, lower-cased and without the colon, of the absolute URL that
/// `url::Url::parse` reads from a text; `None` where it reads none.
pub uninterp spec fn url_scheme(text: Seq<char>) -> Option<Seq<char>>;

/// `url::Url::parse`, then `url::Url::scheme`.
#[verifier::external_body]
pub(crate) fn scheme_of(text: &str) -> (r: Option<String>)
    ensures
        r.deep_view() == url_scheme(text@),
{
    url::Url::parse(text).ok().map(|u| u.scheme().to_string())
}

/// A vector of one name.
pub fn one_name(a: &'static str) -> (names: Vec<&'static str>)
    ensures
        name_views(names@) == seq![a@],
{
    let names = vec![a];
    assert(name_views(names@) =~= seq![a@]);
    names
}

/// A vector of two names.
pub fn two_names(a: &'static str, b: &'static str) -> (names: Vec<&'static str>)
    ensures
        name_views(names@) == seq![a@, b@],
{
    let names = vec![a, b];
    assert(name_views(names@) =~= seq![a@, b@]);
    names
}

/// A vector of four names.
pub fn four_names(a: &'static str, b: &'static str, c: &'static str, d: &'static str) -> (names:
    Vec<&'static str>)
    ensures
        name_views(names@) == seq![a@, b@, c@, d@],
{
    let names = vec![a, b, c, d];
    assert(name_views(names@) =~= seq![a@, b@, c@, d@]);
    names
}

/// The normalized text of the first `title` in `from..to`; empty where there
/// is no such node or it has no text.
pub open spec fn title_in(doc: Seq<NodeView>, from: int, to: int) -> Seq<char> {
    match text_at(doc, first_named(doc, from, to, seq!["title"@])) {
        Some(raw) => normalized(raw, TITLE_LIMIT as nat),
        None => Seq::empty(),
    }
}

/// The author named by the first node in `from..to` that has one of `names`:
/// the text of the first `name` in its subtree, else its own text, else
/// `fallback`; `fallback` too where there is no such node.
pub open spec fn author_in(
    doc: Seq<NodeView>,
    from: int,
    to: int,
    names: Seq<Seq<char>>,
    fallback: Seq<char>,
) -> Seq<char> {
    match first_named(doc, from, to, names) {
        Some(at) => match text_at(
            doc,
            first_named(doc, at, subtree_limit(doc, at), seq!["name"@]),
        ) {
            Some(name) => name,
            None => match doc[at].text {
                Some(own) => own,
                None => fallback,
            },
        },
        None => fallback,
    }
}

/// What a feed-level `link` node points to: its text, else its `href`.
pub open spec fn text_or_href(node: NodeView) -> Option<Seq<char>> {
    match node.text {
        Some(text) => Some(text),
        None => attribute_value(node, "href"@),
    }
}

/// The site link of a feed: what the first `link` of the document points to,
/// else the feed's own address.
pub open spec fn feed_link(doc: Seq<NodeView>, feed_url: Seq<char>) -> Seq<char> {
    match first_named(doc, 0, doc.len() as int, seq!["link"@]) {
        Some(at) => match text_or_href(doc[at]) {
            Some(target) => target,
            None => feed_url,
        },
        None => feed_url,
    }
}

/// The description of a feed: the raw text of the first `description` or
/// `subtitle`, else the title.
pub open spec fn feed_description(doc: Seq<NodeView>) -> Seq<char> {
    match text_at(
        doc,
        first_named(doc, 0, doc.len() as int, seq!["description"@, "subtitle"@]),
    ) {
        Some(raw) => raw,
        None => title_in(doc, 0, doc.len() as int),
    }
}

/// The record of the feed that a document describes.
pub open spec fn feed_of(doc: Seq<NodeView>, feed_url: Seq<char>) -> FeedItemView {
    let title = title_in(doc, 0, doc.len() as int);
    FeedItemView {
        title,
        description: feed_description(doc),
        url: feed_link(doc, feed_url),
        feed_url,
        author: author_in(doc, 0, doc.len() as int, seq!["author"@], title),
        slug: slug_of(title),
    }
}

/// A copy of the text that a search found, or of `fallback`.
pub fn text_or(found: Option<&String>, fallback: &str) -> (r: String)
    ensures
        r@ == match found {
            Some(text) => text@,
            None => fallback@,
        },
{
    match found {
        Some(text) => text.clone(),
        None => String::from_str(fallback),
    }
}

/// The normalized title found in `from..to`.
pub fn find_title(nodes: &Vec<XmlNode>, from: usize, to: usize) -> (title: String)
    ensures
        title@ == title_in(tree_view(nodes@), from as int, to as int),
{
    let names = one_name("title");
    match text_of_first(nodes, from, to, &names) {
        Some(raw) => normalize_and_truncate(raw.as_str(), TITLE_LIMIT),
        None => String::new(),
    }
}

/// The author found in `from..to` under one of `names`, or `fallback`.
pub fn find_author(
    nodes: &Vec<XmlNode>,
    from: usize,
    to: usize,
    names: &Vec<&'static str>,
    fallback: &str,
) -> (author: String)
    ensures
        author@ == author_in(
            tree_view(nodes@),
            from as int,
            to as int,
            name_views(names@),
            fallback@,
        ),
{
    match find_named(nodes, from, to, names) {
        Some(at) => {
            let inner = one_name("name");
            let end = subtree_end(nodes, at);
            match text_of_first(nodes, at, end, &inner) {
                Some(name) => name.clone(),
                None => text_or(nodes[at].text.as_ref(), fallback),
            }
        },
        None => String::from_str(fallback),
    }
}

/// The feed's record, read from the nodes of its document.
pub fn feed_from_tree(nodes: &Vec<XmlNode>, feed_url: &str) -> (feed: FeedItem)
    ensures
        feed@ == feed_of(tree_view(nodes@), feed_url@),
        is_slug(feed@.slug),
{
    let end = nodes.len();
    let title = find_title(nodes, 0, end);
    let description = text_or(
        text_of_first(nodes, 0, end, &two_names("description", "subtitle")),
        title.as_str(),
    );
    let url = match find_named(nodes, 0, end, &one_name("link")) {
        Some(at) => {
            let node = &nodes[at];
            match node.text.as_ref() {
                Some(text) => text.clone(),
                None => text_or(attribute(node, "href"), feed_url),
            }
        },
        None => String::from_str(feed_url),
    };
    let author = find_author(nodes, 0, end, &one_name("author"), title.as_str());
    let slug = slugify(title.as_str());
    FeedItem { title, description, url, feed_url: String::from_str(feed_url), author, slug }
}

/// Parses a feed document into the feed's record. `feed_url` is the address
/// the document was fetched from.
pub fn parse(doc: &str, feed_url: &str) -> (r: Result<FeedItem, FeedError>)
    ensures
        match r {
            Ok(feed) => xml_tree(doc@) matches Some(tree) && feed@ == feed_of(tree, feed_url@)
                && is_slug(feed@.slug),
            Err(e) => xml_tree(doc@) is None && e is MalformedDocument,
        },
{
    match parse_tree(doc) {
        Ok(nodes) => Ok(feed_from_tree(&nodes, feed_url)),
        Err(e) => Err(FeedError::MalformedDocument { reason: describe_error(&e) }),
    }
}

/// Whether `text` is an absolute URL with the scheme `http` or `https`.
pub open spec fn is_web_url(text: Seq<char>) -> bool {
    match url_scheme(text) {
        Some(scheme) => scheme == "http"@ || scheme == "https"@,
        None => false,
    }
}

/// Whether a node can give an entry its URL: an `id` whose text is a web URL,
/// an `enclosure` whose `url` attribute is a web URL, or any `link`.
pub open spec fn is_link_candidate(node: NodeView) -> bool {
    ||| node.name == "id"@ && (node.text matches Some(text) && is_web_url(text))
    ||| node.name == "enclosure"@ && (attribute_value(node, "url"@) matches Some(target)
        && is_web_url(target))
    ||| node.name == "link"@
}

/// The first index in `from..to` whose node can give an entry its URL.
pub open spec fn first_link(doc: Seq<NodeView>, from: int, to: int) -> Option<int>
    decreases to - from,
{
    if from < 0 || from >= to || from >= doc.len() {
        None
    } else if is_link_candidate(doc[from]) {
        Some(from)
    } else {
        first_link(doc, from + 1, to)
    }
}

/// The URL that a node gives: its text, else its `url` attribute, else its
/// `href` attribute.
pub open spec fn link_value(node: NodeView) -> Option<Seq<char>> {
    match node.text {
        Some(text) => Some(text),
        None => match attribute_value(node, "url"@) {
            Some(target) => Some(target),
            None => attribute_value(node, "href"@),
        },
    }
}

/// The URL of the entry whose nodes are `from..to`.
pub open spec fn entry_link(doc: Seq<NodeView>, from: int, to: int) -> Seq<char> {
    match first_link(doc, from, to) {
        Some(at) => match link_value(doc[at]) {
            Some(target) => target,
            None => NO_URL@,
        },
        None => NO_URL@,
    }
}

/// The raw content of the entry whose nodes are `from..to`: the text of its
/// first `content` or `encoded`.
pub open spec fn raw_content(doc: Seq<NodeView>, from: int, to: int) -> Option<Seq<char>> {
    text_at(doc, first_named(doc, from, to, seq!["content"@, "encoded"@]))
}

/// The raw description of the entry whose nodes are `from..to`: the text of
/// its first `description` or `summary`.
pub open spec fn raw_description(doc: Seq<NodeView>, from: int, to: int) -> Option<Seq<char>> {
    text_at(doc, first_named(doc, from, to, seq!["description"@, "summary"@]))
}

/// The body of an entry: its content rendered as markdown, else its
/// description rendered, else nothing. HTML that the converter cannot take
/// stands as it is.
pub open spec fn body_of(content: Option<Seq<char>>, description: Option<Seq<char>>) -> Seq<char> {
    match content {
        Some(html) => rendered(html),
        None => match description {
            Some(html) => rendered(html),
            None => Seq::empty(),
        },
    }
}

/// The summary of an entry: made from its description where it has one, else
/// from its body.
pub open spec fn summary_of(content: Option<Seq<char>>, description: Option<Seq<char>>) -> Seq<
    char,
> {
    match description {
        Some(html) => summarized(rendered(html)),
        None => summarized(body_of(content, description)),
    }
}

/// The date text of the entry whose nodes are `from..to`: the text of its
/// first `published`, `updated`, `date` or `pubDate`, else the stand-in date.
pub open spec fn date_text(doc: Seq<NodeView>, from: int, to: int) -> Seq<char> {
    match text_at(
        doc,
        first_named(doc, from, to, seq!["published"@, "updated"@, "date"@, "pubDate"@]),
    ) {
        Some(text) => text,
        None => MISSING_DATE@,
    }
}

/// The instant that a date text stands for; the epoch where it stands for
/// none.
pub open spec fn date_or_epoch(text: Seq<char>) -> UtcInstant {
    match date_of(text) {
        Ok(instant) => instant,
        Err(_) => UtcInstant { seconds: 0, nanos: 0 },
    }
}

/// The record of the entry rooted at index `at`, taken in at the time `now`.
pub open spec fn entry_of(
    doc: Seq<NodeView>,
    at: int,
    default_author: Seq<char>,
    now: UtcInstant,
) -> FeedEntryView {
    let to = subtree_limit(doc, at);
    let content = raw_content(doc, at, to);
    let description = raw_description(doc, at, to);
    FeedEntryView {
        title: title_in(doc, at, to),
        author: author_in(doc, at, to, seq!["author"@, "creator"@], default_author),
        url: entry_link(doc, at, to),
        text: body_of(content, description),
        date: date_or_epoch(date_text(doc, at, to)),
        description: summary_of(content, description),
        lastupdated: now,
        seen: false,
        filepath: None,
    }
}

/// Whether a node starts an entry: it is called `item` or `entry`.
pub open spec fn is_entry(node: NodeView) -> bool {
    seq!["item"@, "entry"@].contains(node.name)
}

/// The indices below `upto` at which entries start, in document order.
pub open spec fn entry_positions(doc: Seq<NodeView>, upto: int) -> Seq<int>
    decreases upto,
{
    if upto <= 0 || upto > doc.len() {
        Seq::empty()
    } else if is_entry(doc[upto - 1]) {
        entry_positions(doc, upto - 1).push(upto - 1)
    } else {
        entry_positions(doc, upto - 1)
    }
}

/// Entries as plain values.
pub open spec fn entry_views(entries: Seq<FeedEntry>) -> Seq<FeedEntryView> {
    entries.map_values(|e: FeedEntry| e@)
}

/// `entries` are the records of the entries of `doc`, one per `item` or
/// `entry` node and in document order, each taken in at its own time.
pub open spec fn are_entries_of(
    entries: Seq<FeedEntryView>,
    doc: Seq<NodeView>,
    upto: int,
    default_author: Seq<char>,
) -> bool {
    let starts = entry_positions(doc, upto);
    &&& entries.len() == starts.len()
    &&& forall|i: int|
        0 <= i < entries.len() ==> #[trigger] entries[i] == entry_of(
            doc,
            starts[i],
            default_author,
            entries[i].lastupdated,
        )
}

/// Whether `text` is an absolute URL with the scheme `http` or `https`.
pub fn has_web_scheme(text: &str) -> (r: bool)
    ensures
        r == is_web_url(text@),
{
    match scheme_of(text) {
        Some(scheme) => same_text(scheme.as_str(), "http") || same_text(scheme.as_str(), "https"),
        None => false,
    }
}

/// Whether a node can give an entry its URL.
pub fn can_link(node: &XmlNode) -> (r: bool)
    ensures
        r == is_link_candidate(node@),
{
    proof {
        reveal_strlit("id");
        reveal_strlit("enclosure");
        reveal_strlit("link");
        assert("id"@.len() == 2 && "enclosure"@.len() == 9 && "link"@.len() == 4);
    }
    if same_text(node.name.as_str(), "id") {
        match node.text.as_ref() {
            Some(text) => has_web_scheme(text.as_str()),
            None => false,
        }
    } else if same_text(node.name.as_str(), "enclosure") {
        match attribute(node, "url") {
            Some(target) => has_web_scheme(target.as_str()),
            None => false,
        }
    } else {
        same_text(node.name.as_str(), "link")
    }
}

/// The first node in `from..to`, in document order, that can give an entry
/// its URL.
pub fn find_link(nodes: &Vec<XmlNode>, from: usize, to: usize) -> (r: Option<usize>)
    ensures
        r matches Some(at) ==> from <= at < to && at < nodes.len(),
        match r {
            Some(at) => first_link(tree_view(nodes@), from as int, to as int) == Some(at as int),
            None => first_link(tree_view(nodes@), from as int, to as int) is None,
        },
{
    let ghost doc = tree_view(nodes@);
    let mut at: usize = from;
    while at < to && at < nodes.len()
        invariant
            from <= at,
            doc == tree_view(nodes@),
            first_link(doc, from as int, to as int) == first_link(doc, at as int, to as int),
        decreases nodes.len() - at,
    {
        if can_link(&nodes[at]) {
            return Some(at);
        }
        at += 1;
    }
    None
}

/// The URL of the entry whose nodes are `from..to`.
pub fn find_entry_url(nodes: &Vec<XmlNode>, from: usize, to: usize) -> (url: String)
    ensures
        url@ == entry_link(tree_view(nodes@), from as int, to as int),
{
    match find_link(nodes, from, to) {
        Some(at) => {
            let node = &nodes[at];
            match node.text.as_ref() {
                Some(text) => text.clone(),
                None => match attribute(node, "url") {
                    Some(target) => target.clone(),
                    None => text_or(attribute(node, "href"), NO_URL),
                },
            }
        },
        None => String::from_str(NO_URL),
    }
}

/// The summary and the body of the entry whose nodes are `from..to`.
pub fn get_description_content(nodes: &Vec<XmlNode>, from: usize, to: usize) -> (r: (
    String,
    String,
))
    ensures
        r.0@ == summary_of(
            raw_content(tree_view(nodes@), from as int, to as int),
            raw_description(tree_view(nodes@), from as int, to as int),
        ),
        r.1@ == body_of(
            raw_content(tree_view(nodes@), from as int, to as int),
            raw_description(tree_view(nodes@), from as int, to as int),
        ),
{
    let content = text_of_first(nodes, from, to, &two_names("content", "encoded"));
    let description = text_of_first(nodes, from, to, &two_names("description", "summary"));
    let content_text = match content {
        Some(html) => render_html(html.as_str()),
        None => match description {
            Some(html) => render_html(html.as_str()),
            None => String::new(),
        },
    };
    let description_text = match description {
        Some(html) => summarize(render_html(html.as_str()).as_str()),
        None => summarize(content_text.as_str()),
    };
    (description_text, content_text)
}

/// The record of the entry rooted at `at`, taken in at the time `now`.
pub fn entry_at(nodes: &Vec<XmlNode>, at: usize, default_author: &str, now: UtcInstant) -> (entry:
    FeedEntry)
    requires
        at < nodes.len(),
    ensures
        entry@ == entry_of(tree_view(nodes@), at as int, default_author@, now),
{
    let to = subtree_end(nodes, at);
    let (description, text) = get_description_content(nodes, at, to);
    let dates = four_names("published", "updated", "date", "pubDate");
    let datestr = text_or(text_of_first(nodes, at, to, &dates), MISSING_DATE);
    let author = find_author(nodes, at, to, &two_names("author", "creator"), default_author);
    let url = find_entry_url(nodes, at, to);
    let date = match parse_date(datestr.as_str()) {
        Ok(instant) => instant,
        Err(_) => UtcInstant::default(),
    };
    FeedEntry {
        title: find_title(nodes, at, to),
        author,
        url,
        text,
        date,
        description,
        lastupdated: now,
        seen: false,
        filepath: None,
    }
}

/// One record per `item` or `entry` of the document, in document order, each
/// stamped with the time at which it was taken in.
pub fn entries_from_tree(nodes: &Vec<XmlNode>, default_author: &str) -> (entries: Vec<FeedEntry>)
    ensures
        are_entries_of(
            entry_views(entries@),
            tree_view(nodes@),
            nodes@.len() as int,
            default_author@,
        ),
{
    let ghost doc = tree_view(nodes@);
    let starts = two_names("item", "entry");
    let mut entries: Vec<FeedEntry> = Vec::new();
    let mut at: usize = 0;
    while at < nodes.len()
        invariant
            0 <= at <= nodes.len(),
            doc == tree_view(nodes@),
            name_views(starts@) == seq!["item"@, "entry"@],
            are_entries_of(entry_views(entries@), doc, at as int, default_author@),
        decreases nodes.len() - at,
    {
        if has_name(&nodes[at], &starts) {
            let entry = entry_at(nodes, at, default_author, current_instant());
            proof {
                let before = entry_views(entries@);
                let after = entry_views(entries@.push(entry));
                assert(after =~= before.push(entry@));
                assert forall|i: int| 0 <= i < after.len() implies #[trigger] after[i] == entry_of(
                    doc,
                    entry_positions(doc, at + 1)[i],
                    default_author@,
                    after[i].lastupdated,
                ) by {
                    if i < before.len() {
                        assert(after[i] == before[i]);
                    }
                }
            }
            entries.push(entry);
        }
        at += 1;
    }
    entries
}

/// Parses a feed document into one record per entry, in document order.
/// `defaultauthor` names the author of entries that name none.
pub fn get_feed_entries_doc(doctxt: &str, defaultauthor: &str) -> (r: Result<
    Vec<FeedEntry>,
    FeedError,
>)
    ensures
        match r {
            Ok(entries) => xml_tree(doctxt@) matches Some(doc) && are_entries_of(
                entry_views(entries@),
                doc,
                doc.len() as int,
                defaultauthor@,
            ),
            Err(e) => xml_tree(doctxt@) is None && e is MalformedDocument,
        },
{
    match parse_tree(doctxt) {
        Ok(nodes) => Ok(entries_from_tree(&nodes, defaultauthor)),
        Err(e) => Err(FeedError::MalformedDocument { reason: describe_error(&e) }),
    }
}

/// An entry whose date could not be read, for the record: the entry takes the
/// epoch for its date and is kept.
#[derive(Debug, Clone, PartialEq, Eq)]
pub struct DateFailure {
    /// The URL of the entry.
    pub url: String,
    /// The date text and what the attempts on it reported.
    pub error: DateError,
}

/// A date failure as plain values.
pub struct FailedDateView {
    pub url: Seq<char>,
    pub input: Seq<char>,
    pub faults: Seq<AttemptFault>,
}

impl View for DateFailure {
    type V = FailedDateView;

    open spec fn view(&self) -> FailedDateView {
        FailedDateView { url: self.url@, input: self.error.input@, faults: self.error.faults@ }
    }
}

/// The date failure of the entry rooted at index `at`: none where its date
/// text is read, else the entry's URL, the date text and the faults.
pub open spec fn date_failure_of(doc: Seq<NodeView>, at: int) -> Option<FailedDateView> {
    let to = subtree_limit(doc, at);
    match date_of(date_text(doc, at, to)) {
        Ok(_) => None,
        Err(faults) => Some(
            FailedDateView {
                url: entry_link(doc, at, to),
                input: date_text(doc, at, to),
                faults,
            },
        ),
    }
}

/// The date failures of the entries that start below `upto`, in document
/// order.
pub open spec fn date_failures_of(doc: Seq<NodeView>, upto: int) -> Seq<FailedDateView>
    decreases upto,
{
    if upto <= 0 || upto > doc.len() {
        Seq::empty()
    } else if is_entry(doc[upto - 1]) {
        match date_failure_of(doc, upto - 1) {
            Some(failure) => date_failures_of(doc, upto - 1).push(failure),
            None => date_failures_of(doc, upto - 1),
        }
    } else {
        date_failures_of(doc, upto - 1)
    }
}

/// Date failures as plain values.
pub open spec fn failure_views(failures: Seq<DateFailure>) -> Seq<FailedDateView> {
    failures.map_values(|f: DateFailure| f@)
}

/// The date failure of the entry rooted at `at`, if its date cannot be read.
pub fn date_failure_at(nodes: &Vec<XmlNode>, at: usize) -> (r: Option<DateFailure>)
    requires
        at < nodes.len(),
    ensures
        match r {
            Some(failure) => date_failure_of(tree_view(nodes@), at as int) == Some(failure@),
            None => date_failure_of(tree_view(nodes@), at as int) is None,
        },
{
    let to = subtree_end(nodes, at);
    let dates = four_names("published", "updated", "date", "pubDate");
    let datestr = text_or(text_of_first(nodes, at, to, &dates), MISSING_DATE);
    match parse_date(datestr.as_str()) {
        Ok(_) => None,
        Err(error) => Some(DateFailure { url: find_entry_url(nodes, at, to), error }),
    }
}

/// The date failures of the document's entries, in document order.
pub fn date_failures(nodes: &Vec<XmlNode>) -> (failures: Vec<DateFailure>)
    ensures
        failure_views(failures@) == date_failures_of(tree_view(nodes@), nodes@.len() as int),
{
    let ghost doc = tree_view(nodes@);
    let starts = two_names("item", "entry");
    let mut failures: Vec<DateFailure> = Vec::new();
    let mut at: usize = 0;
    assert(failure_views(failures@) =~= Seq::empty());
    while at < nodes.len()
        invariant
            0 <= at <= nodes.len(),
            doc == tree_view(nodes@),
            name_views(starts@) == seq!["item"@, "entry"@],
            failure_views(failures@) == date_failures_of(doc, at as int),
        decreases nodes.len() - at,
    {
        if has_name(&nodes[at], &starts) {
            match date_failure_at(nodes, at) {
                Some(failure) => {
                    let ghost before = failure_views(failures@);
                    assert(failure_views(failures@.push(failure)) =~= before.push(failure@));
                    failures.push(failure);
                },
                None => {},
            }
        }
        at += 1;
    }
    failures
}

/// The entries of a feed document whose date cannot be read, each with its
/// URL, in document order. These are the entries that `get_feed_entries_doc`
/// dates at the epoch.
pub fn get_date_failures_doc(doctxt: &str) -> (r: Result<Vec<DateFailure>, FeedError>)
    ensures
        match r {
            Ok(failures) => xml_tree(doctxt@) matches Some(doc) && failure_views(failures@)
                == date_failures_of(doc, doc.len() as int),
            Err(e) => xml_tree(doctxt@) is None && e is MalformedDocument,
        },
{
    match parse_tree(doctxt) {
        Ok(nodes) => Ok(date_failures(&nodes)),
        Err(e) => Err(FeedError::MalformedDocument { reason: describe_error(&e) }),
    }
}

/// An entry has a date failure exactly if its date text cannot be read, and
/// then, and only then, its date is the epoch by default; the failure names
/// the entry's own URL.
pub proof fn lemma_date_failure_marks_the_default(
    doc: Seq<NodeView>,
    at: int,
    default_author: Seq<char>,
    now: UtcInstant,
)
    ensures
        ({
            let to = subtree_limit(doc, at);
            let entry = entry_of(doc, at, default_author, now);
            match date_failure_of(doc, at) {
                Some(failure) => date_of(date_text(doc, at, to)) is Err && entry.date == (UtcInstant {
                    seconds: 0,
                    nanos: 0,
                }) && failure.url == entry.url,
                None => date_of(date_text(doc, at, to)) == Ok::<UtcInstant, Seq<AttemptFault>>(
                    entry.date,
                ),
            }
        }),
{
}

/// A search by name finds the first node in document order: `found` has one
/// of the names, and no node of the range before it has.
pub proof fn lemma_first_named_is_first(
    doc: Seq<NodeView>,
    from: int,
    to: int,
    names: Seq<Seq<char>>,
    found: int,
)
    requires
        0 <= from <= found < to,
        found < doc.len(),
        names.contains(doc[found].name),
        forall|k: int| from <= k < found ==> !names.contains(#[trigger] doc[k].name),
    ensures
        first_named(doc, from, to, names) == Some(found),
    decreases found - from,
{
    if from < found {
        lemma_first_named_is_first(doc, from + 1, to, names, found);
    }
}

/// What a search by name returns lies in the range, has one of the names, and
/// comes before every other such node of the range.
pub proof fn lemma_first_named_found(doc: Seq<NodeView>, from: int, to: int, names: Seq<Seq<char>>)
    requires
        0 <= from,
    ensures
        match first_named(doc, from, to, names) {
            Some(found) => from <= found < to && found < doc.len() && names.contains(
                doc[found].name,
            ) && forall|k: int| from <= k < found ==> !names.contains(#[trigger] doc[k].name),
            None => forall|k: int|
                from <= k < to && k < doc.len() ==> !names.contains(#[trigger] doc[k].name),
        },
    decreases to - from,
{
    if from < to && from < doc.len() && !names.contains(doc[from].name) {
        lemma_first_named_found(doc, from + 1, to, names);
    }
}

/// An entry takes its URL from the first candidate in document order: where
/// the node at `found` is a candidate and no node of the entry before it is,
/// the URL is what `found` gives, whatever follows it. So of an `id` with a web
/// URL and a `link`, the one that stands first decides.
pub proof fn lemma_entry_url_first_in_document_order(
    doc: Seq<NodeView>,
    from: int,
    to: int,
    found: int,
)
    requires
        0 <= from <= found < to,
        found < doc.len(),
        is_link_candidate(doc[found]),
        forall|k: int| from <= k < found ==> !is_link_candidate(#[trigger] doc[k]),
    ensures
        first_link(doc, from, to) == Some(found),
        entry_link(doc, from, to) == match link_value(doc[found]) {
            Some(target) => target,
            None => NO_URL@,
        },
    decreases found - from,
{
    if from < found {
        lemma_entry_url_first_in_document_order(doc, from + 1, to, found);
    }
}

/// An entry without any candidate node has the URL `NOURL`.
pub proof fn lemma_entry_url_missing(doc: Seq<NodeView>, from: int, to: int)
    requires
        0 <= from,
        forall|k: int| from <= k < to && k < doc.len() ==> !is_link_candidate(#[trigger] doc[k]),
    ensures
        entry_link(doc, from, to) == NO_URL@,
    decreases to - from,
{
    if from < to && from < doc.len() {
        lemma_entry_url_missing(doc, from + 1, to);
    }
}

/// An author named inside an entry overrides the default: the entry's first
/// `author` or `creator` decides, by the text of the first `name` in its
/// subtree, else by its own text. The default is used only where that node has
/// neither, or where the entry has no such node.
pub proof fn lemma_entry_author_precedence(
    doc: Seq<NodeView>,
    at: int,
    default_author: Seq<char>,
    now: UtcInstant,
)
    ensures
        ({
            let to = subtree_limit(doc, at);
            let author = entry_of(doc, at, default_author, now).author;
            match first_named(doc, at, to, seq!["author"@, "creator"@]) {
                Some(node) => match text_at(
                    doc,
                    first_named(doc, node, subtree_limit(doc, node), seq!["name"@]),
                ) {
                    Some(name) => author == name,
                    None => match doc[node].text {
                        Some(own) => author == own,
                        None => author == default_author,
                    },
                },
                None => author == default_author,
            }
        }),
{
}

/// A feed that names no author has its title for author.
pub proof fn lemma_feed_author_defaults_to_title(doc: Seq<NodeView>, feed_url: Seq<char>)
    requires
        first_named(doc, 0, doc.len() as int, seq!["author"@]) is None,
    ensures
        feed_of(doc, feed_url).author == feed_of(doc, feed_url).title,
{
}

/// The address a feed was fetched from is kept as it was given, whatever the
/// document says.
pub proof fn lemma_feed_url_verbatim(doc: Seq<NodeView>, feed_url: Seq<char>)
    ensures
        feed_of(doc, feed_url).feed_url == feed_url,
{
}

/// Content comes before description for the body of an entry, description
/// before body for its summary; and the summary is a summary in either case:
/// 280 characters at most, and no newline.
pub proof fn lemma_entry_content_precedence(
    doc: Seq<NodeView>,
    at: int,
    default_author: Seq<char>,
    now: UtcInstant,
)
    ensures
        ({
            let to = subtree_limit(doc, at);
            let entry = entry_of(doc, at, default_author, now);
            &&& raw_content(doc, at, to) matches Some(html) ==> entry.text == rendered(html)
            &&& raw_content(doc, at, to) is None ==> (raw_description(doc, at, to) matches Some(
                html,
            ) ==> entry.text == rendered(html))
            &&& raw_content(doc, at, to) is None && raw_description(doc, at, to) is None
                ==> entry.text == Seq::<char>::empty()
            &&& raw_description(doc, at, to) matches Some(html) ==> entry.description == summarized(
                rendered(html),
            )
            &&& raw_description(doc, at, to) is None ==> entry.description == summarized(entry.text)
            &&& entry.description.len() <= 280
            &&& forall|i: int|
                0 <= i < entry.description.len() ==> #[trigger] entry.description[i] != '\n'
        }),
{
    let to = subtree_limit(doc, at);
    match raw_description(doc, at, to) {
        Some(html) => {
            lemma_summary_is_short_and_single_line(rendered(html));
        },
        None => {
            lemma_summary_is_short_and_single_line(
                body_of(raw_content(doc, at, to), raw_description(doc, at, to)),
            );
        },
    }
}

/// A title, of a feed or of an entry, has 256 characters at most.
pub proof fn lemma_title_is_short(doc: Seq<NodeView>, from: int, to: int)
    ensures
        title_in(doc, from, to).len() <= TITLE_LIMIT,
{
}

/// A new entry is unseen and has no file yet, and it carries the time it was
/// taken in at.
pub proof fn lemma_entry_starts_unseen(
    doc: Seq<NodeView>,
    at: int,
    default_author: Seq<char>,
    now: UtcInstant,
)
    ensures
        !entry_of(doc, at, default_author, now).seen,
        entry_of(doc, at, default_author, now).filepath is None,
        entry_of(doc, at, default_author, now).lastupdated == now,
{
}

/// Entries keep the order of the document: the positions at which they start
/// are those of the `item` and `entry` nodes, each once and in ascending
/// order.
pub proof fn lemma_entries_in_document_order(doc: Seq<NodeView>, upto: int)
    requires
        0 <= upto <= doc.len(),
    ensures
        forall|i: int|
            0 <= i < entry_positions(doc, upto).len() ==> 0 <= #[trigger] entry_positions(
                doc,
                upto,
            )[i] < upto && is_entry(doc[entry_positions(doc, upto)[i]]),
        forall|i: int, j: int|
            0 <= i < j < entry_positions(doc, upto).len() ==> entry_positions(doc, upto)[i]
                < entry_positions(doc, upto)[j],
        forall|k: int|
            0 <= k < upto && is_entry(#[trigger] doc[k]) ==> entry_positions(doc, upto).contains(k),
    decreases upto,
{
    if upto > 0 {
        lemma_entries_in_document_order(doc, upto - 1);
        let before = entry_positions(doc, upto - 1);
        let all = entry_positions(doc, upto);
        assert forall|k: int| 0 <= k < upto && is_entry(#[trigger] doc[k]) implies all.contains(
            k,
        ) by {
            if k < upto - 1 {
                let i = choose|i: int| 0 <= i < before.len() && before[i] == k;
                assert(all[i] == k);
            } else {
                assert(all[all.len() - 1] == k);
            }
        }
    }
}

} // verus!
