use podsync::model::{Episode, EpisodeNoId};
use podsync::reconcile::{check_for_updates, plan_writes, reconcile, EpisodeAction, EpisodeWrite};

fn incoming(title: &str, url: &str, guid: &str, pubdate: Option<i64>) -> EpisodeNoId {
    EpisodeNoId {
        title: title.to_string(),
        url: url.to_string(),
        guid: guid.to_string(),
        description: "desc".to_string(),
        pubdate,
        duration: Some(60),
    }
}

fn stored(id: i64, title: &str, url: &str, guid: &str, pubdate: Option<i64>) -> Episode {
    Episode {
        id,
        pod_id: 1,
        title: title.to_string(),
        url: url.to_string(),
        guid: guid.to_string(),
        description: "desc".to_string(),
        pubdate,
        duration: Some(60),
        path: None,
        played: false,
        hidden: false,
        last_position: 0,
        image_url: None,
    }
}

fn store(ep: &EpisodeNoId, id: i64) -> Episode {
    Episode {
        id,
        pod_id: 1,
        title: ep.title.clone(),
        url: ep.url.clone(),
        guid: ep.guid.clone(),
        description: ep.description.clone(),
        pubdate: ep.pubdate,
        duration: ep.duration,
        path: None,
        played: false,
        hidden: false,
        last_position: 0,
        image_url: None,
    }
}

/// Applies the writes of one sync to a store, as storage would.
fn apply(stored: &mut Vec<Episode>, feed: &[EpisodeNoId], writes: &[EpisodeWrite]) {
    for w in writes {
        match w {
            EpisodeWrite::Insert(j) => {
                let id = 100 + stored.len() as i64;
                stored.push(store(&feed[*j], id));
            }
            EpisodeWrite::Update(id, j) => {
                let pos = stored.iter().position(|e| e.id == *id).unwrap();
                let mut ep = store(&feed[*j], *id);
                ep.hidden = stored[pos].hidden;
                ep.played = stored[pos].played;
                stored[pos] = ep;
            }
        }
    }
}

#[test]
fn second_sync_of_same_feed_writes_nothing() {
    let mut db = vec![stored(1, "Old", "u0", "g0", Some(10)), stored(2, "Renamed", "u1", "g1", Some(20))];
    let feed = vec![
        incoming("New", "u2", "g2", Some(30)),
        incoming("Episode 1", "u1", "g1", Some(20)),
        incoming("No guid", "u3", "", None),
    ];
    let first = plan_writes(&db, &feed);
    assert_eq!(first.len(), 3);
    apply(&mut db, &feed, &first);
    let second = plan_writes(&db, &feed);
    assert!(second.is_empty());
    let actions = reconcile(&db, &feed);
    assert!(actions.iter().all(|a| matches!(a, EpisodeAction::Unchanged(_))));
}

#[test]
fn guid_match_wins_over_other_fields() {
    let db = vec![stored(7, "Title", "url", "abc", Some(5)), stored(8, "Other", "other-url", "zzz", Some(9))];
    let feed = vec![incoming("Other", "other-url", "abc", Some(9))];
    let actions = reconcile(&db, &feed);
    assert!(matches!(actions[0], EpisodeAction::Update(7)));
}

#[test]
fn guid_match_with_duplicates_takes_last_stored() {
    let db = vec![stored(1, "A", "a", "dup", None), stored(2, "B", "b", "dup", None)];
    let feed = vec![incoming("B", "b", "dup", None)];
    let actions = reconcile(&db, &feed);
    assert!(matches!(actions[0], EpisodeAction::Unchanged(2)));
}

#[test]
fn fallback_title_and_url_match() {
    let db = vec![stored(3, "Show", "file.mp3", "", Some(100))];
    let feed = vec![incoming("Show", "file.mp3", "", Some(200))];
    let actions = reconcile(&db, &feed);
    assert!(matches!(actions[0], EpisodeAction::Update(3)));
    let dateless = vec![incoming("Show", "file.mp3", "", None)];
    assert!(matches!(reconcile(&db, &dateless)[0], EpisodeAction::Update(3)));
}

#[test]
fn fallback_title_only_is_new() {
    let db = vec![stored(3, "Show", "file.mp3", "", Some(100))];
    let feed = vec![incoming("Show", "other.mp3", "", Some(200))];
    assert!(matches!(reconcile(&db, &feed)[0], EpisodeAction::Insert));
}

#[test]
fn fallback_title_and_date_match() {
    let db = vec![stored(3, "Show", "file.mp3", "", Some(100))];
    let feed = vec![incoming("Show", "moved.mp3", "", Some(100))];
    assert!(matches!(reconcile(&db, &feed)[0], EpisodeAction::Update(3)));
}

#[test]
fn fallback_takes_first_stored_match() {
    let db = vec![stored(4, "Show", "file.mp3", "", None), stored(5, "Show", "file.mp3", "", None)];
    let feed = vec![incoming("Show", "file.mp3", "", None)];
    assert!(matches!(reconcile(&db, &feed)[0], EpisodeAction::Unchanged(4)));
}

#[test]
fn hidden_episode_is_not_inserted_again() {
    let mut hidden = stored(9, "Gone", "gone.mp3", "g9", Some(1));
    hidden.hidden = true;
    let mut hidden_no_guid = stored(10, "Also gone", "also.mp3", "", None);
    hidden_no_guid.hidden = true;
    let db = vec![hidden, hidden_no_guid];
    let feed = vec![incoming("Gone", "gone.mp3", "g9", Some(1)), incoming("Also gone", "also.mp3", "", None)];
    let actions = reconcile(&db, &feed);
    assert!(matches!(actions[0], EpisodeAction::Unchanged(9)));
    assert!(matches!(actions[1], EpisodeAction::Unchanged(10)));
    assert!(plan_writes(&db, &feed).is_empty());
}

#[test]
fn new_feed_is_written_oldest_first() {
    let feed = vec![
        incoming("Third", "u3", "g3", Some(3)),
        incoming("Second", "u2", "g2", Some(2)),
        incoming("First", "u1", "g1", Some(1)),
    ];
    let writes = plan_writes(&Vec::new(), &feed);
    let order: Vec<usize> = writes
        .iter()
        .map(|w| match w {
            EpisodeWrite::Insert(j) => *j,
            EpisodeWrite::Update(_, j) => *j + 1000,
        })
        .collect();
    assert_eq!(order, vec![2, 1, 0]);
}

#[test]
fn check_for_updates_compares_every_field() {
    let old = stored(1, "T", "u", "g", Some(5));
    let same = incoming("T", "u", "g", Some(5));
    assert!(!check_for_updates(&old, &same));
    let mut changed = incoming("T", "u", "g", Some(5));
    changed.description = "other".to_string();
    assert!(check_for_updates(&old, &changed));
    let mut dur = incoming("T", "u", "g", Some(5));
    dur.duration = None;
    assert!(check_for_updates(&old, &dur));
    let no_date_old = stored(1, "T", "u", "g", None);
    let no_date_new = incoming("T", "u", "g", None);
    assert!(!check_for_updates(&no_date_old, &no_date_new));
}
