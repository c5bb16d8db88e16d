use podsync::feed::{parse_episode_data, parse_feed, parse_feed_data, FeedChannel, FeedError, FeedItem};

const RSS: &str = r#"<?xml version="1.0" encoding="UTF-8"?>
<rss version="2.0" xmlns:itunes="http://www.itunes.com/dtds/podcast-1.0.dtd">
<channel>
<title>The Daily</title>
<link>https://example.com</link>
<description>News every day</description>
<itunes:author>Someone</itunes:author>
<itunes:explicit>Clean</itunes:explicit>
<item>
<title>Second</title>
<enclosure url="https://example.com/2.mp3" length="1" type="audio/mpeg"/>
<guid>ep-2</guid>
<description>The second one</description>
<pubDate>Thu, 05 Aug 2016 06:00:00 -0400</pubDate>
<itunes:duration>1:02:03</itunes:duration>
</item>
<item>
<title>First</title>
<pubDate>not a date</pubDate>
<itunes:duration>1:ab:03</itunes:duration>
</item>
</channel>
</rss>"#;

#[test]
fn parse_feed_reads_channel_and_items() {
    let pod = parse_feed(RSS.as_bytes(), "https://example.com/feed", 42).ok().unwrap();
    assert_eq!(pod.title, "The Daily");
    assert_eq!(pod.url, "https://example.com/feed");
    assert_eq!(pod.description, Some("News every day".to_string()));
    assert_eq!(pod.author, Some("Someone".to_string()));
    assert_eq!(pod.explicit, Some(false));
    assert_eq!(pod.last_checked, 42);
    assert_eq!(pod.episodes.len(), 2);
    let second = &pod.episodes[0];
    assert_eq!(second.title, "Second");
    assert_eq!(second.url, "https://example.com/2.mp3");
    assert_eq!(second.guid, "ep-2");
    assert_eq!(second.description, "The second one");
    assert_eq!(second.pubdate, Some(1470391200));
    assert_eq!(second.duration, Some(3723));
    let first = &pod.episodes[1];
    assert_eq!(first.title, "First");
    assert_eq!(first.url, "");
    assert_eq!(first.guid, "");
    assert_eq!(first.description, "");
    assert_eq!(first.pubdate, None);
    assert_eq!(first.duration, None);
}

#[test]
fn parse_feed_rejects_non_feed() {
    match parse_feed(b"this is not xml", "u", 0) {
        Err(FeedError::Malformed) => {}
        _ => panic!("expected a malformed feed"),
    }
}

#[test]
fn pubdate_fallback_for_loose_dates() {
    let item = FeedItem {
        title: None,
        enclosure_url: None,
        guid: None,
        description: None,
        pub_date: Some("Thu, 6 July 2017 15:30:00 PDT".to_string()),
        duration: Some("45".to_string()),
    };
    let ep = parse_episode_data(&item);
    assert_eq!(ep.pubdate, Some(1499380200));
    assert_eq!(ep.duration, Some(45));
    assert_eq!(ep.title, "");
}

#[test]
fn parse_feed_data_defaults() {
    let channel = FeedChannel {
        title: String::new(),
        description: String::new(),
        author: None,
        explicit: Some("YES".to_string()),
        items: vec![],
    };
    let pod = parse_feed_data(&channel, "u", 7);
    assert_eq!(pod.title, "");
    assert_eq!(pod.description, Some(String::new()));
    assert_eq!(pod.author, None);
    assert_eq!(pod.explicit, Some(true));
    assert!(pod.episodes.is_empty());
}
