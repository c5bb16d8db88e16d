use vstd::prelude::*;

verus! {

/// The id type used for stored podcasts and episodes.
pub type PodcastDBId = i64;

/// An episode as it is stored: it has a durable id and belongs to one
/// podcast. `pubdate` is a Unix timestamp in seconds, `duration` is in
/// seconds.
#[derive(Debug, Clone)]
pub struct Episode {
    pub id: PodcastDBId,
    pub pod_id: PodcastDBId,
    pub title: String,
    pub url: String,
    pub guid: String,
    pub description: String,
    pub pubdate: Option<i64>,
    pub duration: Option<i64>,
    pub path: Option<String>,
    pub played: bool,
    pub hidden: bool,
    pub last_position: i64,
    pub image_url: Option<String>,
}

/// An episode read from a feed, before it has been stored.
#[derive(Debug, Clone, PartialEq, Eq)]
pub struct EpisodeNoId {
    pub title: String,
    pub url: String,
    pub guid: String,
    pub description: String,
    pub pubdate: Option<i64>,
    pub duration: Option<i64>,
}

/// A stored podcast with its episodes. `sort_title` is derived from
/// `title` when the podcast is read.
#[derive(Debug, Clone)]
pub struct Podcast {
    pub id: PodcastDBId,
    pub title: String,
    pub sort_title: String,
    pub url: String,
    pub description: Option<String>,
    pub author: Option<String>,
    pub explicit: Option<bool>,
    pub last_checked: i64,
    pub episodes: Vec<Episode>,
    pub image_url: Option<String>,
}

/// A podcast read from a feed, before it has been stored.
#[derive(Debug, Clone, PartialEq, Eq)]
pub struct PodcastNoId {
    pub title: String,
    pub url: String,
    pub description: Option<String>,
    pub author: Option<String>,
    pub explicit: Option<bool>,
    pub last_checked: i64,
    pub episodes: Vec<EpisodeNoId>,
}

/// A newly stored episode, with the title of its podcast, for
/// notifications.
#[derive(Debug, Clone)]
pub struct NewEpisode {
    pub id: PodcastDBId,
    pub pod_id: PodcastDBId,
    pub title: String,
    pub pod_title: String,
    pub selected: bool,
}

/// What a synchronisation wrote: the inserted episodes and the ids of
/// the episodes updated in place.
#[derive(Debug)]
pub struct SyncResult {
    pub added: Vec<NewEpisode>,
    pub updated: Vec<i64>,
}

/// A subscription: the stored id if it is known, the feed url and a
/// display title if one is known.
#[derive(Debug, Clone, PartialEq, Eq)]
pub struct PodcastFeed {
    pub id: Option<i64>,
    pub url: String,
    pub title: Option<String>,
}

impl PodcastFeed {
    pub fn new(id: Option<i64>, url: String, title: Option<String>) -> (r: Self)
        ensures
            r.id == id,
            r.url == url,
            r.title == title,
    {
        PodcastFeed { id, url, title }
    }
}

} // verus!
