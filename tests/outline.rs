use podsync::model::PodcastFeed;
use podsync::outline::{feeds_from_outlines, filter_new_feeds, import_opml, podcast_import, OutlineEntry, OutlineError};

const OPML: &str = r#"<opml version="2.0"><head><title>Feeds</title></head><body>
<outline text="Text only" type="rss" xmlUrl="https://a.example/feed"/>
<outline text="Text" title="Titled" type="rss" xmlUrl="https://b.example/feed"/>
<outline text="" title="" type="rss" xmlUrl="https://c.example/feed"/>
<outline text="A folder"/>
</body></opml>"#;

#[test]
fn import_reads_feeds_with_title_fallback() {
    let feeds = podcast_import(OPML).ok().unwrap();
    assert_eq!(
        feeds,
        vec![
            PodcastFeed::new(None, "https://a.example/feed".to_string(), Some("Text only".to_string())),
            PodcastFeed::new(None, "https://b.example/feed".to_string(), Some("Titled".to_string())),
            PodcastFeed::new(None, "https://c.example/feed".to_string(), None),
        ]
    );
    let again = import_opml(OPML.to_string()).ok().unwrap();
    assert_eq!(again.len(), 3);
}

#[test]
fn import_rejects_malformed_document() {
    assert!(matches!(podcast_import("<not opml"), Err(OutlineError::Malformed)));
}

#[test]
fn feeds_from_entries() {
    let entries = vec![
        OutlineEntry { text: "t".to_string(), title: Some(String::new()), xml_url: Some("u".to_string()) },
        OutlineEntry { text: "x".to_string(), title: None, xml_url: None },
    ];
    let feeds = feeds_from_outlines(&entries);
    assert_eq!(feeds, vec![PodcastFeed::new(None, "u".to_string(), Some("t".to_string()))]);
}

#[test]
fn import_skips_stored_urls() {
    let feeds = vec![
        PodcastFeed::new(None, "a".to_string(), None),
        PodcastFeed::new(None, "b".to_string(), Some("B".to_string())),
        PodcastFeed::new(None, "c".to_string(), None),
    ];
    let stored = vec!["b".to_string(), "z".to_string()];
    let kept = filter_new_feeds(&feeds, &stored);
    assert_eq!(
        kept,
        vec![PodcastFeed::new(None, "a".to_string(), None), PodcastFeed::new(None, "c".to_string(), None)]
    );
    assert_eq!(filter_new_feeds(&feeds, &Vec::new()).len(), 3);
}

#[test]
fn export_lists_each_podcast() {
    let pod = podsync::model::Podcast {
        id: 1,
        title: "The Daily".to_string(),
        sort_title: "daily".to_string(),
        url: "https://d.example/feed".to_string(),
        description: None,
        author: None,
        explicit: None,
        last_checked: 0,
        episodes: vec![],
        image_url: None,
    };
    let entries = podsync::outline::export_outlines(&vec![pod]);
    assert_eq!(entries.len(), 1);
    assert_eq!(entries[0].text, "The Daily");
    assert_eq!(entries[0].title, Some("The Daily".to_string()));
    assert_eq!(entries[0].xml_url, Some("https://d.example/feed".to_string()));
}
