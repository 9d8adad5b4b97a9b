use bulletty_feed::date::{parse_date, UtcInstant};
use bulletty_feed::feedparser::{get_feed_entries_doc, parse};
use bulletty_feed::markdown::strip_markdown_tags;
use chrono::{DateTime, TimeZone, Utc};

fn instant(t: &DateTime<Utc>) -> UtcInstant {
    UtcInstant {
        seconds: t.timestamp(),
        nanos: t.timestamp_subsec_nanos(),
    }
}

#[test]
fn test_strip_markdown_tags() {
    let input = "**bold** *italic* `code` ~~strike~~ [link](url) ![image](url) # heading > blockquote\n---\n";
    let expected = "bold italic code strike link image heading blockquote\n\n";
    assert_eq!(strip_markdown_tags(input), expected);
}

#[test]
fn test_parse_date_various_formats() {
    let datetime_strings = [
        "2024-01-01T12:00:00Z",             // RFC3339 UTC
        "2024-01-01T13:00:00+01:00",        // RFC3339 with offset
        "2024-02-29 09:00:00",              // Naive datetime
        "2023-11-20",                       // Naive date
        "Mon, 01 Jan 2024 12:00:00 +0000",  // RFC2822
        "Sun, 31 August 2025 07:00:00 GMT", // Full Month
        "Wed, 02 May 2025 07:00:00 GMT",    // Impossible, as 2025-05-02 was a Friday
        "Invalid Date String",              // Invalid format
    ];

    let expected = [
        Some(
            DateTime::parse_from_rfc3339("2024-01-01T12:00:00+00:00")
                .unwrap()
                .with_timezone(&Utc),
        ),
        Some(
            DateTime::parse_from_rfc3339("2024-01-01T12:00:00+00:00")
                .unwrap()
                .with_timezone(&Utc),
        ), // 13:00+01:00 == 12:00Z
        Some(Utc.with_ymd_and_hms(2024, 2, 29, 9, 0, 0).unwrap()),
        Some(Utc.with_ymd_and_hms(2023, 11, 20, 0, 0, 0).unwrap()),
        Some(Utc.with_ymd_and_hms(2024, 1, 1, 12, 0, 0).unwrap()),
        Some(Utc.with_ymd_and_hms(2025, 8, 31, 7, 0, 0).unwrap()),
        Some(Utc.with_ymd_and_hms(2025, 5, 2, 7, 0, 0).unwrap()),
        None,
    ];

    for (input, expected_str) in datetime_strings.iter().zip(expected.iter()) {
        let result = parse_date(input);
        match expected_str {
            Some(exp) => match result {
                Ok(ref dt) => assert_eq!(*dt, instant(exp), "Failed on input: {input}"),
                Err(e) => panic!("Expected Ok for input: {input} - Error: {e:?}"),
            },
            None => assert!(result.is_err(), "Expected error for input: {input}"),
        }
    }
}

#[test]
fn parses_rss2_channel_fields() {
    let xml = r#"<?xml version="1.0" encoding="UTF-8"?>
<rss version="2.0">
  <channel>
    <title>Example RSS</title>
    <link>https://example.com/</link>
    <description>RSS description</description>
    <author>Alice</author>
    <item>
      <title>Item 1</title>
      <link>https://example.com/item1</link>
      <description>Item 1 description</description>
      <author>alice@example.com (Alice)</author>
    </item>
  </channel>
</rss>"#;

    let feed = parse(xml, "NOURL").expect("failed to parse RSS 2.0");
    assert_eq!(feed.title, "Example RSS");
    assert_eq!(feed.description, "RSS description");
    assert_eq!(feed.url, "https://example.com/");
    assert!(feed.author.contains("Alice"));
}

#[test]
fn parses_atom_feed_fields() {
    let xml = r#"<?xml version="1.0" encoding="utf-8"?>
<feed xmlns="http://www.w3.org/2005/Atom">
  <title>Example Atom</title>
  <subtitle>Atom description</subtitle>
  <link href="https://example.org/"/>
  <author>
    <name>Bob</name>
  </author>
  <id>urn:uuid:60a76c80-d399-11d9-b93C-0003939e0af6</id>
  <updated>2003-12-13T18:30:02Z</updated>
</feed>"#;

    let feed = parse(xml, "NOURL").expect("failed to parse Atom");
    assert_eq!(feed.title, "Example Atom");
    assert_eq!(feed.description, "Atom description");
    assert_eq!(feed.url, "https://example.org/");
    assert_eq!(feed.author, "Bob");
}

#[test]
fn rss_missing_link_uses_default_url() {
    let xml = r#"<?xml version="1.0" encoding="UTF-8"?>
<rss version="2.0">
  <channel>
    <title>No Link RSS</title>
    <description>No link here</description>
    <author>Carol</author>
  </channel>
</rss>"#;

    let feed = parse(xml, "NOURL").expect("failed to parse RSS without link");
    assert_eq!(feed.title, "No Link RSS");
    assert_eq!(feed.description, "No link here");
    assert_eq!(feed.url, "NOURL");
    assert!(feed.author.contains("Carol"));
}

#[test]
fn rss_missing_author_uses_feed_title() {
    let xml = r#"<?xml version="1.0" encoding="UTF-8"?>
<rss version="2.0">
  <channel>
    <title>No Author RSS</title>
    <description>No author here</description>
  </channel>
</rss>"#;

    let feed = parse(xml, "NOURL").expect("failed to parse RSS without author");
    assert_eq!(feed.title, "No Author RSS");
    assert_eq!(feed.description, "No author here");
    assert_eq!(feed.author, "No Author RSS");
}

#[test]
fn get_feed_entries_doc_parses_rss_items_variants() {
    let xml = r#"<?xml version="1.0" encoding="UTF-8"?>
 <rss version="2.0" xmlns:content="http://purl.org/rss/1.0/modules/content/" xmlns:dc="http://purl.org/dc/elements/1.1/">
   <channel>
     <title>Example RSS</title>
     <link>https://example.com/</link>
     <description>RSS description</description>
     <author>Carol</author>
     <item>
       <title>Item A</title>
       <link>https://example.com/a</link>
       <description>Item A description</description>
       <pubDate>Mon, 01 Jan 2024 12:00:00 +0000</pubDate>
       <content:encoded>Item A content</content:encoded>
     </item>
     <item>
       <title>Item B</title>
       <id>https://example.com/b</id>
       <dc:date>2024-03-10T09:30:00Z</dc:date>
       <description>Item B description</description>
     </item>
   </channel>
 </rss>"#;

    let entries = get_feed_entries_doc(xml, "Carol").expect("failed to parse RSS entries");
    assert_eq!(entries.len(), 2);

    // Item A: prefers content:encoded for text, description for description, channel-level author
    let a = &entries[0];
    assert_eq!(a.title, "Item A");
    assert_eq!(a.url, "https://example.com/a");
    assert_eq!(a.author, "Carol");
    assert_eq!(a.text, "Item A content");
    assert_eq!(a.description, "Item A description");
    let expected_a_date = parse_date("Mon, 01 Jan 2024 12:00:00 +0000").unwrap();
    assert_eq!(a.date, expected_a_date);

    // Item B: no content:encoded, uses description for both text and description, dc:date supported
    let b = &entries[1];
    assert_eq!(b.title, "Item B");
    assert_eq!(b.url, "https://example.com/b");
    assert_eq!(b.author, "Carol");
    assert_eq!(b.text, "Item B description");
    assert_eq!(b.description, "Item B description");
    let expected_b_date = instant(
        &DateTime::parse_from_rfc3339("2024-03-10T09:30:00Z")
            .unwrap()
            .with_timezone(&Utc),
    );
    assert_eq!(b.date, expected_b_date);
}

#[test]
fn get_feed_entries_doc_parses_atom_entries_variants() {
    let xml = r#"<?xml version="1.0" encoding="utf-8"?>
 <feed xmlns="http://www.w3.org/2005/Atom">
   <title>Example Atom</title>
   <link href="https://example.org/"/>
   <author>
     <name>Bob</name>
   </author>
   <id>urn:uuid:feedid</id>
   <updated>2024-01-01T00:00:00Z</updated>
   <entry>
     <title>Entry 1</title>
     <id>https://example.org/e1</id>
     <summary>Summary 1</summary>
     <content>Entry 1 content</content>
     <published>2024-02-01T10:00:00Z</published>
   </entry>
   <entry>
     <title>Entry 2</title>
     <id>https://example.org/e2</id>
     <content>Entry 2 content</content>
     <updated>2024-02-05T11:30:00Z</updated>
     <author>
       <name>Alice</name>
     </author>
   </entry>
   <entry>
     <title>Entry 3</title>
     <link rel="alternate" href="https://example.org/e3" type="text/html"/>
     <id>https://example.org/e3</id>
     <content>Entry 3 content</content>
     <updated>2024-02-05T11:30:00Z</updated>
     <author>
       <name>Alice</name>
     </author>
   </entry>
 </feed>"#;

    let entries = get_feed_entries_doc(xml, "Bob").expect("failed to parse Atom entries");
    assert_eq!(entries.len(), 3);

    // Entry 1: uses summary for description, content for text, published for date, id for URL, feed-level author
    let e1 = &entries[0];
    assert_eq!(e1.title, "Entry 1");
    assert_eq!(e1.url, "https://example.org/e1");
    assert_eq!(e1.author, "Bob");
    assert_eq!(e1.text, "Entry 1 content");
    assert_eq!(e1.description, "Summary 1");
    let expected_e1_date = instant(
        &DateTime::parse_from_rfc3339("2024-02-01T10:00:00Z")
            .unwrap()
            .with_timezone(&Utc),
    );
    assert_eq!(e1.date, expected_e1_date);

    // Entry 2: no summary -> description falls back to content, updated for date, id for URL
    let e2 = &entries[1];
    assert_eq!(e2.title, "Entry 2");
    assert_eq!(e2.url, "https://example.org/e2");
    assert_eq!(e2.author, "Alice");
    assert_eq!(e2.text, "Entry 2 content");
    assert_eq!(e2.description, "Entry 2 content");
    let expected_e2_date = instant(
        &DateTime::parse_from_rfc3339("2024-02-05T11:30:00Z")
            .unwrap()
            .with_timezone(&Utc),
    );
    assert_eq!(e2.date, expected_e2_date);

    // Entry 3: both link tags
    let e3 = &entries[2];
    assert_eq!(e3.title, "Entry 3");
    assert_eq!(e3.url, "https://example.org/e3");
    assert_eq!(e3.author, "Alice");
    assert_eq!(e3.text, "Entry 3 content");
    assert_eq!(e3.description, "Entry 3 content");
    let expected_e3_date = instant(
        &DateTime::parse_from_rfc3339("2024-02-05T11:30:00Z")
            .unwrap()
            .with_timezone(&Utc),
    );
    assert_eq!(e3.date, expected_e3_date);
}

#[test]
fn get_feed_entries_doc_parses_atom_entry_level_author_overrides_feed() {
    let xml = r#"<?xml version="1.0" encoding="utf-8"?>
<feed xmlns="http://www.w3.org/2005/Atom">
  <title>Example Atom</title>
  <link href="https://example.org/"/>
  <author>
    <name>Feed Author</name>
  </author>
  <id>urn:uuid:feedid</id>
  <updated>2024-01-01T00:00:00Z</updated>

  <entry>
    <title>Entry Has Own Author</title>
    <id>https://example.org/own</id>
    <author>
      <name>Alice</name>
    </author>
    <content>Own author content</content>
    <published>2024-02-01T10:00:00Z</published>
  </entry>

  <entry>
    <title>Entry Falls Back To Feed Author</title>
    <id>https://example.org/fallback</id>
    <content>No entry author here</content>
    <updated>2024-02-05T11:30:00Z</updated>
  </entry>
</feed>"#;

    let entries = get_feed_entries_doc(xml, "Feed Author")
        .expect("failed to parse Atom entries with entry-level authors");
    assert_eq!(entries.len(), 2);

    let e1 = &entries[0];
    assert_eq!(e1.title, "Entry Has Own Author");
    assert_eq!(e1.url, "https://example.org/own");
    assert_eq!(e1.author, "Alice"); // entry-level author should override feed-level author

    let e2 = &entries[1];
    assert_eq!(e2.title, "Entry Falls Back To Feed Author");
    assert_eq!(e2.url, "https://example.org/fallback");
    assert_eq!(e2.author, "Feed Author"); // falls back to feed-level author
}

#[test]
fn get_feed_entries_doc_parses_rss_item_level_author_overrides_channel() {
    let xml = r#"<?xml version="1.0" encoding="UTF-8"?>
<rss version="2.0" xmlns:dc="http://purl.org/dc/elements/1.1/">
  <channel>
    <title>Example RSS</title>
    <link>https://example.com/</link>
    <description>RSS description</description>
    <author>Channel Author</author>
    <item>
      <title>Item With Author</title>
      <link>https://example.com/with-author</link>
      <description>Has its own author</description>
      <author>Alice</author>
      <pubDate>Mon, 01 Jan 2024 12:00:00 +0000</pubDate>
    </item>
    <item>
      <title>Item With DC Creator</title>
      <link>https://example.com/with-dc-creator</link>
      <description>Has dc:creator</description>
      <dc:creator>Dave</dc:creator>
      <dc:date>2024-02-01T10:00:00Z</dc:date>
    </item>
  </channel>
</rss>"#;

    let entries = get_feed_entries_doc(xml, "Channel Author")
        .expect("failed to parse RSS entries with entry-level authors");
    assert_eq!(entries.len(), 2);

    let a = &entries[0];
    assert_eq!(a.title, "Item With Author");
    assert_eq!(a.url, "https://example.com/with-author");
    assert_eq!(a.author, "Alice"); // item-level <author> should override channel author

    let b = &entries[1];
    assert_eq!(b.title, "Item With DC Creator");
    assert_eq!(b.url, "https://example.com/with-dc-creator");
    assert_eq!(b.author, "Dave"); // entry-level <dc:creator> should override channel author
}

#[test]
fn get_feed_entries_youtube_style() {
    let xml = r#"<?xml version="1.0" encoding="UTF-8"?>
<feed xmlns:yt="http://www.youtube.com/xml/schemas/2015" xmlns:media="http://search.yahoo.com/mrss/" xmlns="http://www.w3.org/2005/Atom">
 <link rel="self" href="http://www.youtube.com/feeds/videos.xml?channel_id=channelID"/>
 <id>yt:channel:rqM0Ym_NbK1fqeQG2VIohg</id>
 <yt:channelId>rqM0Ym_NbK1fqeQG2VIohg</yt:channelId>
 <title>Some Youtube Channel</title>
 <link rel="alternate" href="https://www.youtube.com/channel/SomeYoutubeChannel"/>
 <author>
  <name>Some Youtube Author</name>
  <uri>https://www.youtube.com/channel/SomeYoutubeChannel</uri>
 </author>
 <published>2019-01-12T00:02:33+00:00</published>
 <entry>
  <id>yt:video:videoId</id>
  <yt:videoId>videoId</yt:videoId>
  <yt:channelId>channelId</yt:channelId>
  <title>Video Title</title>
  <link rel="alternate" href="https://www.youtube.com/watch?v=VIDEOID"/>
  <author>
   <name>Some Youtube Author</name>
   <uri>https://www.youtube.com/channel/SomeYoutubeChannel</uri>
  </author>
  <published>2025-12-05T13:34:36+00:00</published>
  <updated>2025-12-05T17:01:19+00:00</updated>
  <media:group>
   <media:title>Video Title</media:title>
   <media:content url="https://www.youtube.com/v/VIDEOID?version=3" type="application/x-shockwave-flash" width="640" height="390"/>
   <media:thumbnail url="https://i2.ytimg.com/vi/VIDEOID/hqdefault.jpg" width="480" height="360"/>
   <media:description>This is a description!</media:description>
   <media:community>
    <media:starRating count="1012" average="5.00" min="1" max="5"/>
    <media:statistics views="30006"/>
   </media:community>
  </media:group>
 </entry> 
</feed>"#;

    let entries = get_feed_entries_doc(xml, "Channel Author")
        .expect("failed to parse feed youtube style");
    assert_eq!(entries.len(), 1);

    let entry = &entries[0];

    assert_eq!(entry.title, "Video Title");
    assert_eq!(entry.url, "https://www.youtube.com/watch?v=VIDEOID");
    assert_eq!(entry.author, "Some Youtube Author");
    assert_eq!(entry.description, "This is a description!");
}

#[test]
fn get_feed_entries_podcast_style() {
    let xml = r#"<?xml version="1.0" encoding="UTF-8"?>
<rss version="2.0" xmlns:itunes="http://www.itunes.com/dtds/podcast-1.0.dtd" xmlns:googleplay="http://www.google.com/schemas/play-podcasts/1.0" xmlns:atom="http://www.w3.org/2005/Atom" xmlns:media="http://search.yahoo.com/mrss/" xmlns:content="http://purl.org/rss/1.0/modules/content/">
  <channel>
    <atom:link href="https://podcast_link.com" rel="self" type="application/rss+xml"/>
    <title>Podcast Title</title>
    <link>https://podcast_link.com</link>
    <item>
      <title>Podcast Entry Title</title>
      <description>Podcast Entry Description</description>
      <pubDate>Fri, 05 Dec 2025 18:27:00 -0000</pubDate>
      <itunes:episodeType>full</itunes:episodeType>
      <itunes:author>Podcast Author</itunes:author>
      <itunes:image href="https://podcast_link.com/thumbnail"/>
      <itunes:subtitle></itunes:subtitle>
      <itunes:summary>Podcast Entry Description #1</itunes:summary>
      <content:encoded>Podcast Content Data</content:encoded>
      <itunes:duration>4634</itunes:duration>
      <itunes:explicit>no</itunes:explicit>
      <guid isPermaLink="false"><![CDATA[1bae995c-d208-11f0-8bf7-cb6936959f42]]></guid>
      <enclosure url="https://podcast_link.com/audio" length="0" type="audio/mpeg"/>
    </item>
  </channel>
</rss>"#;

    let entries = get_feed_entries_doc(xml, "Channel Author")
        .expect("failed to parse feed podcasty style");
    assert_eq!(entries.len(), 1);

    let entry = &entries[0];

    assert_eq!(entry.title, "Podcast Entry Title");
    assert_eq!(entry.url, "https://podcast_link.com/audio");
    assert_eq!(entry.author, "Podcast Author");
    assert_eq!(entry.description, "Podcast Entry Description");
}
