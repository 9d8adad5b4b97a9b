//! From HTML content to the lightweight markup of an entry's body and to its
//! plain one-line summary.

use crate::text::{from_chars, same_text, to_chars, truncate, truncated};
use html5ever::tendril::TendrilSink;
use html5ever::ParseOpts;
use markup5ever_rcdom::{NodeData, RcDom};
use vstd::prelude::*;

verus! {

/// The longest summary, in characters.
pub const SUMMARY_LIMIT: usize = 280;

/// What every markdown rule puts in place of a match: the text of its first
/// group.
pub const KEEP_INNER: &'static str = "$1";

/// The nodes of the document that `html5ever::parse_document` builds from an
/// HTML text, each before its children and the children in their order: for
/// each node its local name (empty for anything but an element) and the number
/// of its children.
pub uninterp spec fn html_shape(html: Seq<char>) -> Seq<(Seq<char>, usize)>;

/// `html5ever::parse_document` into a `markup5ever_rcdom::RcDom` with default
/// options, the way the markdown converter parses its input; the tree is then
/// listed node by node.
#[verifier::external_body]
pub(crate) fn html_outline(html: &str) -> (r: Vec<(String, usize)>)
    ensures
        r.deep_view() == html_shape(html@),
{
    let sink = html5ever::parse_document(RcDom::default(), ParseOpts::default());
    let dom = sink.from_utf8().read_from(&mut html.as_bytes()).unwrap_or_default();
    let mut outline = Vec::new();
    let mut pending = Vec::from([dom.document.clone()]);
    while let Some(node) = pending.pop() {
        let name = match node.data {
            NodeData::Element { ref name, .. } => name.local.to_string(),
            _ => String::new(),
        };
        outline.push((name, node.children.borrow().len()));
        pending.extend(node.children.borrow().iter().rev().cloned());
    }
    outline
}

/// Whether an element of this name is a list.
pub open spec fn is_list_name(name: Seq<char>) -> bool {
    name == "ul"@ || name == "ol"@ || name == "menu"@
}

/// Whether an element of this name is a table cell.
pub open spec fn is_cell_name(name: Seq<char>) -> bool {
    name == "td"@ || name == "th"@
}

/// Whether the children of an element called `name` stand in a list, given
/// whether the element itself does: a list opens one, a table cell closes it.
pub open spec fn listed_below(name: Seq<char>, listed: bool) -> bool {
    if is_list_name(name) {
        true
    } else if is_cell_name(name) {
        false
    } else {
        listed
    }
}

/// The open ancestors without those at the end whose children have all come.
/// An ancestor is held as the number of its children still to come and
/// whether those children stand in a list.
pub open spec fn unfinished(open: Seq<(usize, bool)>) -> Seq<(usize, bool)>
    decreases open.len(),
{
    if open.len() > 0 && open.last().0 == 0 {
        unfinished(open.drop_last())
    } else {
        open
    }
}

/// The open ancestors after one more child of the innermost has come.
pub open spec fn counted(open: Seq<(usize, bool)>) -> Seq<(usize, bool)> {
    if open.len() > 0 && open.last().0 > 0 {
        open.drop_last().push(((open.last().0 - 1) as usize, open.last().1))
    } else {
        open
    }
}

/// Whether every `li` among the nodes from index `at` on stands in a list,
/// `open` being the ancestors that are open when the node at `at` comes.
pub open spec fn items_listed_from(
    shape: Seq<(Seq<char>, usize)>,
    at: int,
    open: Seq<(usize, bool)>,
) -> bool
    decreases shape.len() - at,
{
    if at < 0 || at >= shape.len() {
        true
    } else {
        let ready = unfinished(open);
        let listed = ready.len() > 0 && ready.last().1;
        if shape[at].0 == "li"@ && !listed {
            false
        } else {
            items_listed_from(
                shape,
                at + 1,
                counted(ready).push((shape[at].1, listed_below(shape[at].0, listed))),
            )
        }
    }
}

/// Whether every `li` of a document stands in a list: among its ancestors
/// called `ul`, `ol`, `menu`, `td` or `th` there is one, and the nearest is no
/// table cell. The markdown converter keeps its place in the output by byte
/// positions, and a list item outside any list moves the output under them.
pub open spec fn items_are_listed(shape: Seq<(Seq<char>, usize)>) -> bool {
    items_listed_from(shape, 0, Seq::empty())
}

/// Drops the ancestors at the end of `open` whose children have all come.
pub fn drop_finished(open: &mut Vec<(usize, bool)>)
    ensures
        final(open)@ == unfinished(old(open)@),
{
    while open.len() > 0 && open[open.len() - 1].0 == 0
        invariant
            unfinished(open@) == unfinished(old(open)@),
        decreases open.len(),
    {
        open.pop();
    }
}

/// Whether every `li` of the outlined document stands in a list.
pub fn items_listed(outline: &Vec<(String, usize)>) -> (r: bool)
    ensures
        r == items_are_listed(outline.deep_view()),
{
    let ghost shape = outline.deep_view();
    let mut open: Vec<(usize, bool)> = Vec::new();
    let mut at: usize = 0;
    while at < outline.len()
        invariant
            0 <= at <= outline.len(),
            shape == outline.deep_view(),
            items_are_listed(shape) == items_listed_from(shape, at as int, open@),
        decreases outline.len() - at,
    {
        drop_finished(&mut open);
        let name = outline[at].0.as_str();
        let arity = outline[at].1;
        assert(shape[at as int] == (name@, arity));
        let listed = open.len() > 0 && open[open.len() - 1].1;
        if same_text(name, "li") && !listed {
            return false;
        }
        if open.len() > 0 && open[open.len() - 1].0 > 0 {
            let top = open.pop().unwrap();
            open.push((top.0 - 1, top.1));
        }
        let below = if same_text(name, "ul") || same_text(name, "ol") || same_text(name, "menu") {
            true
        } else if same_text(name, "td") || same_text(name, "th") {
            false
        } else {
            listed
        };
        open.push((arity, below));
        at += 1;
    }
    true
}

/// What `html2md_bulletty::parse_html` makes of an HTML text.
pub uninterp spec fn markdown_of(html: Seq<char>) -> Seq<char>;

/// `html2md_bulletty::parse_html`: the markdown rendering of `html`. The
/// converter writes into one buffer and remembers byte positions in it; the
/// only step that takes bytes away before such a position is the one for a
/// `li` that finds no list above it, after which an insertion at a remembered
/// position can fall outside the buffer or inside a character. Documents with
/// such a `li` are left out.
#[verifier::external_body]
pub(crate) fn html_to_markdown(html: &str) -> (r: String)
    requires
        items_are_listed(html_shape(html@)),
    ensures
        r@ == markdown_of(html@),
{
    html2md_bulletty::parse_html(html)
}

/// The markdown rendering of an HTML text; none where the text holds a list
/// item outside any list, which the converter cannot take.
pub open spec fn converted(html: Seq<char>) -> Option<Seq<char>> {
    if items_are_listed(html_shape(html)) {
        Some(markdown_of(html))
    } else {
        None
    }
}

/// The text shown for an HTML text: its markdown rendering, or the text as it
/// is where it has none.
pub open spec fn rendered(html: Seq<char>) -> Seq<char> {
    match converted(html) {
        Some(markdown) => markdown,
        None => html,
    }
}

/// Converts an HTML text to markdown, where the converter can take it.
pub fn convert_html(html: &str) -> (r: Option<String>)
    ensures
        r.deep_view() == converted(html@),
{
    let outline = html_outline(html);
    if items_listed(&outline) {
        Some(html_to_markdown(html))
    } else {
        None
    }
}

/// The text shown for an HTML text.
pub fn render_html(html: &str) -> (r: String)
    ensures
        r@ == rendered(html@),
{
    match convert_html(html) {
        Some(markdown) => markdown,
        None => String::from_str(html),
    }
}

/// What `regex::Regex::replace_all` returns for `text` when every match of
/// `pattern` is replaced by `replacement`; `None` where `regex::Regex::new`
/// does not accept the pattern.
pub uninterp spec fn regex_replaced(
    pattern: Seq<char>,
    text: Seq<char>,
    replacement: Seq<char>,
) -> Option<Seq<char>>;

/// `regex::Regex::new` on `pattern`, then `regex::Regex::replace_all` on
/// `text` with `replacement`.
#[verifier::external_body]
pub(crate) fn replace_all(pattern: &str, text: &str, replacement: &str) -> (r: Option<String>)
    ensures
        r.deep_view() == regex_replaced(pattern@, text@, replacement@),
{
    regex::Regex::new(pattern).ok().map(|re| re.replace_all(text, replacement).into_owned())
}

/// The markdown rules, in the order in which they are applied: bold, italic,
/// inline code, strikethrough, headings, images, links, blockquote markers,
/// horizontal rules, code fences.
pub open spec fn markdown_rules() -> Seq<Seq<char>> {
    seq![
        r"\*\*(.*?)\*\*"@,
        r"\*(.*?)\*"@,
        r"`(.*?)`"@,
        r"~~(.*?)~~"@,
        r"#+\s*"@,
        r"!\[(.*?)\]\(.*?\)"@,
        r"\[(.*?)\]\(.*?\)"@,
        r">+\s*"@,
        r"[-*_=]{3,}"@,
        r"`{3}.*?`{3}"@,
    ]
}

/// The views of a sequence of string slices.
pub open spec fn pattern_views(patterns: Seq<&'static str>) -> Seq<Seq<char>> {
    patterns.map_values(|p: &'static str| p@)
}

/// The markdown rules, in the order in which they are applied.
pub fn markdown_patterns() -> (patterns: Vec<&'static str>)
    ensures
        pattern_views(patterns@) == markdown_rules(),
{
    let patterns = vec![
        r"\*\*(.*?)\*\*",
        r"\*(.*?)\*",
        r"`(.*?)`",
        r"~~(.*?)~~",
        r"#+\s*",
        r"!\[(.*?)\]\(.*?\)",
        r"\[(.*?)\]\(.*?\)",
        r">+\s*",
        r"[-*_=]{3,}",
        r"`{3}.*?`{3}",
    ];
    assert(pattern_views(patterns@) =~= markdown_rules());
    patterns
}

/// `text` after one rule: every match replaced by its inner text. A pattern
/// that is no regular expression leaves the text as it is.
pub open spec fn rewritten(text: Seq<char>, pattern: Seq<char>) -> Seq<char> {
    match regex_replaced(pattern, text, KEEP_INNER@) {
        Some(out) => out,
        None => text,
    }
}

/// `text` after the rules, applied one after another to the same buffer.
pub open spec fn stripped(text: Seq<char>, rules: Seq<Seq<char>>) -> Seq<char>
    decreases rules.len(),
{
    if rules.len() == 0 {
        text
    } else {
        rewritten(stripped(text, rules.drop_last()), rules.last())
    }
}

/// `text` with its markdown syntax removed.
pub open spec fn strip_markdown(text: Seq<char>) -> Seq<char> {
    stripped(text, markdown_rules())
}

/// The buffer after one rule, given what the replacement returned: the new
/// text, or the old one where there is no new one.
pub fn settle(buffer: String, outcome: Option<String>) -> (r: String)
    ensures
        r@ == match outcome {
            Some(out) => out@,
            None => buffer@,
        },
{
    match outcome {
        Some(out) => out,
        None => buffer,
    }
}

/// Removes markdown syntax from `input`, rule by rule, keeping the inner text.
pub fn strip_markdown_tags(input: &str) -> (result: String)
    ensures
        result@ == strip_markdown(input@),
{
    let patterns = markdown_patterns();
    let mut result = String::from_str(input);
    let mut i: usize = 0;
    while i < patterns.len()
        invariant
            0 <= i <= patterns.len(),
            pattern_views(patterns@) == markdown_rules(),
            result@ == stripped(input@, markdown_rules().take(i as int)),
        decreases patterns.len() - i,
    {
        let ghost rules = markdown_rules();
        assert(rules.take(i + 1).drop_last() =~= rules.take(i as int));
        assert(rules.take(i + 1).last() == patterns@[i as int]@);
        let outcome = replace_all(patterns[i], result.as_str(), KEEP_INNER);
        result = settle(result, outcome);
        i += 1;
    }
    assert(markdown_rules().take(i as int) =~= markdown_rules());
    result
}

/// `s` without any occurrence of `c`.
pub open spec fn without(s: Seq<char>, c: char) -> Seq<char>
    decreases s.len(),
{
    if s.len() == 0 {
        s
    } else if s.last() == c {
        without(s.drop_last(), c)
    } else {
        without(s.drop_last(), c).push(s.last())
    }
}

/// Removes every occurrence of `c` from `s`.
pub fn remove_char(s: &Vec<char>, c: char) -> (out: Vec<char>)
    ensures
        out@ == without(s@, c),
{
    let mut out: Vec<char> = Vec::new();
    let mut i: usize = 0;
    assert(s@.take(0) =~= Seq::empty());
    while i < s.len()
        invariant
            0 <= i <= s.len(),
            out@ == without(s@.take(i as int), c),
        decreases s.len() - i,
    {
        assert(s@.take(i + 1).drop_last() =~= s@.take(i as int));
        if s[i] != c {
            out.push(s[i]);
        }
        i += 1;
    }
    assert(s@.take(i as int) =~= s@);
    out
}

/// The summary of a markdown text: markdown syntax removed, then newlines
/// removed, then cut to the summary limit.
pub open spec fn summarized(markdown: Seq<char>) -> Seq<char> {
    truncated(without(strip_markdown(markdown), '\n'), SUMMARY_LIMIT as nat)
}

/// The plain one-line summary of a markdown text.
pub fn summarize(markdown: &str) -> (summary: String)
    ensures
        summary@ == summarized(markdown@),
{
    let plain = strip_markdown_tags(markdown);
    let line = remove_char(&to_chars(plain.as_str()), '\n');
    from_chars(&truncate(&line, SUMMARY_LIMIT))
}

/// `without(s, c)` holds no `c`.
pub proof fn lemma_without_is_free(s: Seq<char>, c: char)
    ensures
        forall|i: int| 0 <= i < without(s, c).len() ==> #[trigger] without(s, c)[i] != c,
    decreases s.len(),
{
    if s.len() > 0 {
        let rest = without(s.drop_last(), c);
        lemma_without_is_free(s.drop_last(), c);
        assert forall|i: int| 0 <= i < without(s, c).len() implies #[trigger] without(s, c)[i]
            != c by {
            if i < rest.len() {
                assert(without(s, c)[i] == rest[i]);
            }
        }
    }
}

/// A summary has at most 280 characters and no newline, whatever the text.
pub proof fn lemma_summary_is_short_and_single_line(markdown: Seq<char>)
    ensures
        summarized(markdown).len() <= SUMMARY_LIMIT,
        forall|i: int|
            0 <= i < summarized(markdown).len() ==> #[trigger] summarized(markdown)[i] != '\n',
{
    let line = without(strip_markdown(markdown), '\n');
    lemma_without_is_free(strip_markdown(markdown), '\n');
    assert forall|i: int| 0 <= i < summarized(markdown).len() implies #[trigger] summarized(
        markdown,
    )[i] != '\n' by {
        assert(summarized(markdown)[i] == line[i]);
    }
}

} // verus!
