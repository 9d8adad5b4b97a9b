use bulletty_feed::markdown::{
    convert_html, drop_finished, items_listed, markdown_patterns, remove_char, render_html,
    settle, strip_markdown_tags, summarize,
};

#[test]
fn rules_come_in_their_order() {
    let patterns = markdown_patterns();
    assert_eq!(patterns.len(), 10);
    assert_eq!(patterns[0], r"\*\*(.*?)\*\*");
    assert_eq!(patterns[1], r"\*(.*?)\*");
    assert_eq!(patterns[9], r"`{3}.*?`{3}");
}

#[test]
fn every_rule_is_a_regular_expression() {
    for pattern in markdown_patterns() {
        assert!(regex::Regex::new(pattern).is_ok(), "{}", pattern);
    }
}

#[test]
fn bold_is_stripped_before_italic() {
    assert_eq!(strip_markdown_tags("**bold**"), "bold");
    assert_eq!(strip_markdown_tags("*it*"), "it");
    assert_eq!(strip_markdown_tags("a **b** *c* d"), "a b c d");
}

#[test]
fn images_links_headings_quotes_and_rules() {
    assert_eq!(strip_markdown_tags("![alt](http://x/y.png)"), "alt");
    assert_eq!(strip_markdown_tags("[text](http://x)"), "text");
    assert_eq!(strip_markdown_tags("## Heading"), "Heading");
    assert_eq!(strip_markdown_tags("> quoted"), "quoted");
    assert_eq!(strip_markdown_tags("a\n-----\nb"), "a\n\nb");
    assert_eq!(strip_markdown_tags("~~gone~~ `code`"), "gone code");
    assert_eq!(strip_markdown_tags("plain text"), "plain text");
    assert_eq!(strip_markdown_tags(""), "");
}

#[test]
fn settle_keeps_the_buffer_where_nothing_came_back() {
    assert_eq!(settle("old".to_string(), Some("new".to_string())), "new");
    assert_eq!(settle("old".to_string(), None), "old");
}

#[test]
fn remove_char_drops_every_occurrence() {
    let text: Vec<char> = "\na\n\nb\n".chars().collect();
    assert_eq!(remove_char(&text, '\n'), vec!['a', 'b']);
    assert_eq!(remove_char(&Vec::new(), '\n'), Vec::<char>::new());
    assert_eq!(remove_char(&vec!['x'], 'y'), vec!['x']);
}

#[test]
fn summary_is_stripped_single_line_and_short() {
    assert_eq!(
        summarize("# Title\n\nSome **bold** text\nnext line"),
        "TitleSome bold textnext line"
    );
    let long: String = std::iter::repeat("é\n").take(400).collect();
    let summary = summarize(&long);
    assert_eq!(summary.chars().count(), 280);
    assert!(summary.chars().all(|c| c == 'é'));
}

#[test]
fn summary_strips_markdown_before_it_cuts() {
    let mut text: String = std::iter::repeat('a').take(278).collect();
    text.push_str("**bc**d");
    let summary = summarize(&text);
    let mut expected: String = std::iter::repeat('a').take(278).collect();
    expected.push_str("bc");
    assert_eq!(summary, expected);
}

fn outline(nodes: &[(&str, usize)]) -> Vec<(String, usize)> {
    nodes.iter().map(|(name, arity)| (name.to_string(), *arity)).collect()
}

#[test]
fn html_is_converted_to_markdown() {
    assert_eq!(convert_html("<p>Hi <b>there</b></p>"), Some("Hi **there**".to_string()));
    assert_eq!(convert_html("plain"), Some("plain".to_string()));
    assert_eq!(convert_html(""), Some("".to_string()));
    assert_eq!(
        convert_html("<a href=\"https://example.org/\">link</a>"),
        Some("[link](https://example.org/)".to_string())
    );
}

#[test]
fn list_items_inside_lists_are_converted() {
    assert_eq!(
        convert_html("<ul><li>a</li><li>b</li></ul>"),
        Some("* a\n* b".to_string())
    );
    assert_eq!(
        convert_html("<ol><li>a</li><li>b</li></ol>"),
        Some("1. a\n2. b".to_string())
    );
    assert!(convert_html("<blockquote><ul><li>é</li></ul></blockquote>").is_some());
    assert!(convert_html("<table><tr><td><ul><li>x</li></ul></td></tr></table>").is_some());
    assert!(convert_html("<ul><li><a href=\"u\"><b>x</b></a></li></ul>").is_some());
}

#[test]
fn list_items_outside_any_list_are_not_handed_to_the_converter() {
    for html in [
        "<blockquote><li></li></blockquote>",
        "<blockquote><li>é</li></blockquote>",
        "<li>alone</li>",
        "<p>text</p><a href=\"u\"> <li>x</li></a>",
        "<b>é<li>x</li></b>",
        "<table><tr><td><li>x</li></td></tr></table>",
        "<ul><li><table><tr><td><li>x</li></td></tr></table></li></ul>",
        "<ul></ul><LI>after</LI>",
    ] {
        assert_eq!(convert_html(html), None, "{}", html);
        assert_eq!(render_html(html), html);
    }
}

#[test]
fn outlines_are_read_with_their_ancestors() {
    assert!(items_listed(&outline(&[])));
    assert!(items_listed(&outline(&[("", 1), ("html", 1), ("body", 1), ("p", 0)])));
    assert!(items_listed(&outline(&[("", 1), ("ul", 2), ("li", 0), ("li", 0)])));
    assert!(items_listed(&outline(&[("", 1), ("ol", 1), ("div", 1), ("li", 0)])));
    assert!(items_listed(&outline(&[("", 1), ("menu", 1), ("li", 1), ("li", 0)])));
    assert!(!items_listed(&outline(&[("li", 0)])));
    assert!(!items_listed(&outline(&[("", 2), ("ul", 1), ("li", 0), ("li", 0)])));
    assert!(!items_listed(&outline(&[("", 1), ("ul", 1), ("td", 1), ("li", 0)])));
    assert!(items_listed(&outline(&[("", 1), ("td", 1), ("ul", 1), ("li", 0)])));
    assert!(!items_listed(&outline(&[("", 1), ("ul", 0), ("li", 0)])));
    assert!(!items_listed(&outline(&[("", 1), ("UL", 1), ("li", 0)])));
    assert!(items_listed(&outline(&[("", 1), ("ul", 1), ("LI", 0)])));
    assert!(items_listed(&outline(&[("", 2), ("ul", 1), ("li", 2), ("b", 0), ("i", 0), ("p", 0)])));
    assert!(!items_listed(&outline(&[("", 2), ("ul", 1), ("p", 0), ("li", 0)])));
}

#[test]
fn finished_ancestors_are_dropped_from_the_end() {
    let mut open = vec![(1, true), (0, false), (0, true)];
    drop_finished(&mut open);
    assert_eq!(open, vec![(1, true)]);
    let mut open = vec![(0, true), (2, false)];
    drop_finished(&mut open);
    assert_eq!(open, vec![(0, true), (2, false)]);
    let mut open: Vec<(usize, bool)> = vec![(0, true)];
    drop_finished(&mut open);
    assert!(open.is_empty());
}

fn all_documents(tokens: &[&str], length: usize) -> Vec<String> {
    let mut documents = vec![String::new()];
    let mut last = vec![String::new()];
    for _ in 0..length {
        let mut next = Vec::new();
        for prefix in &last {
            for token in tokens {
                next.push(format!("{}{}", prefix, token));
            }
        }
        documents.extend(next.iter().cloned());
        last = next;
    }
    documents
}

#[test]
fn every_small_document_is_rendered() {
    let tokens = [
        "<li>", "<ul>", "</ul>", "<blockquote>", "<a href=u>", "<b>", "</b>", "é", "\n ",
        "<table><tr><td>", "<p>", "<pre>",
    ];
    let mut converted = 0;
    let mut kept = 0;
    for html in all_documents(&tokens, 4) {
        match convert_html(&html) {
            Some(_) => converted += 1,
            None => {
                kept += 1;
                assert_eq!(render_html(&html), html);
            }
        }
    }
    assert!(converted > 0 && kept > 0);
}

#[test]
fn every_small_list_in_quotes_and_styles_is_rendered() {
    let tokens = ["<li>", "</li>", "<ol>", "<q>", "</q>", "<i> ", "</i>", "ü", "<code>", "<h1>"];
    for html in all_documents(&tokens, 4) {
        let wrapped = format!("<ul><li>x<blockquote>{}</blockquote></li></ul>", html);
        assert_eq!(render_html(&wrapped).is_empty(), false, "{}", wrapped);
    }
}
