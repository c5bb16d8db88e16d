use podsync::batch::{feed_message, BatchSync, Completion, FeedMessage};
use podsync::feed::FeedError;
use podsync::model::{PodcastFeed, PodcastNoId};

fn podcast(url: &str) -> PodcastNoId {
    PodcastNoId {
        title: "T".to_string(),
        url: url.to_string(),
        description: None,
        author: None,
        explicit: None,
        last_checked: 0,
        episodes: vec![],
    }
}

#[test]
fn one_failed_feed_of_five() {
    let mut batch = BatchSync::new(5);
    let completions = vec![
        Completion::Committed { added: 2, updated: 0 },
        Completion::Committed { added: 0, updated: 1 },
        Completion::Failed("feed 3".to_string()),
        Completion::Committed { added: 1, updated: 1 },
        Completion::Committed { added: 0, updated: 0 },
    ];
    for c in completions {
        assert!(!batch.is_finished());
        batch.record(c);
    }
    assert!(batch.is_finished());
    assert_eq!(batch.committed, 4);
    assert_eq!(batch.failed, vec!["feed 3".to_string()]);
    assert_eq!(batch.added, 3);
    assert_eq!(batch.updated, 2);
    assert!(!batch.is_success());
}

#[test]
fn batch_without_failures_succeeds() {
    let mut batch = BatchSync::new(1);
    batch.record(Completion::Committed { added: 0, updated: 0 });
    assert!(batch.is_finished());
    assert!(batch.is_success());
    assert!(BatchSync::new(0).is_finished());
}

#[test]
fn fetch_results_become_messages() {
    let known = PodcastFeed::new(Some(4), "u".to_string(), None);
    assert!(matches!(feed_message(known, Ok(podcast("u"))), FeedMessage::SyncData(4, _)));
    let new = PodcastFeed::new(None, "v".to_string(), None);
    assert!(matches!(feed_message(new, Ok(podcast("v"))), FeedMessage::NewData(_)));
    let failing = PodcastFeed::new(Some(4), "w".to_string(), Some("W".to_string()));
    match feed_message(failing, Err(FeedError::NoResponse)) {
        FeedMessage::Error(f) => assert_eq!(f.url, "w"),
        _ => panic!("expected an error"),
    }
}
