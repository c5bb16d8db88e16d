use vstd::prelude::*;

use crate::model::{EpisodeNoId, PodcastNoId};
use crate::text::{duration_of, duration_to_int, explicit_flag, explicit_of, lower_of};
use rfc822_sanitizer::parse_from_rfc2822_with_fallback;
use rss::extension::itunes::{
    ITunesChannelExtension as ChannelExt, ITunesItemExtension as ItemExt,
};
use rss::{Channel, Enclosure, Guid};

verus! {

#[verifier::external_type_specification]
#[verifier::external_body]
pub struct ExRssError(rss::Error);

/// The Unix timestamp of a publish date, read as RFC 2822 with a
/// sanitising fallback for non-conforming dates.
pub uninterp spec fn rfc2822_timestamp(s: Seq<char>) -> Option<i64>;

/// Relies on `rfc822_sanitizer::parse_from_rfc2822_with_fallback`, and on
/// `chrono::DateTime::timestamp` for the seconds of the date it returns.
#[verifier::external_body]
fn pubdate_timestamp(s: &str) -> (r: Option<i64>)
    ensures
        r == rfc2822_timestamp(s@),
{
    match parse_from_rfc2822_with_fallback(s) {
        Ok(date) => Some(date.timestamp()),
        Err(_) => None,
    }
}

/// Why a feed could not be had.
#[derive(Debug, Clone, Copy, PartialEq, Eq)]
pub enum FeedError {
    /// No response came, after every attempt.
    NoResponse,
    /// The document is not a feed.
    Malformed,
}

/// The fields of a feed item that an episode is made of, each as the
/// feed gives it, if it gives it.
#[derive(Debug, Clone)]
pub struct FeedItem {
    pub title: Option<String>,
    pub enclosure_url: Option<String>,
    pub guid: Option<String>,
    pub description: Option<String>,
    pub pub_date: Option<String>,
    pub duration: Option<String>,
}

/// The fields of a feed channel that a podcast is made of.
#[derive(Debug, Clone)]
pub struct FeedChannel {
    pub title: String,
    pub description: String,
    pub author: Option<String>,
    pub explicit: Option<String>,
    pub items: Vec<FeedItem>,
}

/// The fields of a feed item: title, enclosure url, guid, description,
/// publish date and duration, each as the feed gives it, if it does.
pub type ItemView = (
    Option<Seq<char>>,
    Option<Seq<char>>,
    Option<Seq<char>>,
    Option<Seq<char>>,
    Option<Seq<char>>,
    Option<Seq<char>>,
);

/// The fields of a feed channel: title, description, author, explicit
/// flag text, and its items in document order.
pub type ChannelView = (Seq<char>, Seq<char>, Option<Seq<char>>, Option<Seq<char>>, Seq<ItemView>);

pub open spec fn text_view(t: Option<String>) -> Option<Seq<char>> {
    match t {
        Some(s) => Some(s@),
        None => None,
    }
}

pub open spec fn item_view(i: FeedItem) -> ItemView {
    (
        text_view(i.title),
        text_view(i.enclosure_url),
        text_view(i.guid),
        text_view(i.description),
        text_view(i.pub_date),
        text_view(i.duration),
    )
}

pub open spec fn channel_view(c: FeedChannel) -> ChannelView {
    (
        c.title@,
        c.description@,
        text_view(c.author),
        text_view(c.explicit),
        c.items@.map_values(|i: FeedItem| item_view(i)),
    )
}

/// The channel that the RSS reader reads from a document, or `None` when
/// it refuses the document.
pub uninterp spec fn rss_channel(bytes: Seq<u8>) -> Option<ChannelView>;

/// The fields of an item as the RSS reader gives them, in the order of
/// `ItemView`.
pub type ItemFields = (
    Option<String>,
    Option<String>,
    Option<String>,
    Option<String>,
    Option<String>,
    Option<String>,
);

/// The fields of a channel as the RSS reader gives them: title,
/// description, author, explicit flag text and items.
pub type ChannelFields = (String, String, Option<String>, Option<String>, Vec<ItemFields>);

pub open spec fn item_fields_view(f: ItemFields) -> ItemView {
    (text_view(f.0), text_view(f.1), text_view(f.2), text_view(f.3), text_view(f.4), text_view(f.5))
}

pub open spec fn fields_view(f: ChannelFields) -> ChannelView {
    (
        f.0@,
        f.1@,
        text_view(f.2),
        text_view(f.3),
        f.4@.map_values(|i: ItemFields| item_fields_view(i)),
    )
}

/// Relies on `rss::Channel::read_from`: it accepts or refuses the document
/// depending on its bytes alone; the fields are those of the channel it
/// reads (the itunes author, explicit and duration values), its items in
/// order.
#[verifier::external_body]
fn read_channel(bytes: &[u8]) -> (r: Result<ChannelFields, rss::Error>)
    ensures
        r is Ok <==> rss_channel(bytes@) is Some,
        r matches Ok(f) ==> rss_channel(bytes@) == Some(fields_view(f)),
{
    let c = Channel::read_from(bytes)?;
    let (s, x) = (|t| Option::map(t, String::from), c.itunes_ext());
    let items = c.items().iter().map(|i| (
        s(i.title()), s(i.enclosure().map(Enclosure::url)), s(i.guid().map(Guid::value)),
        s(i.description()), s(i.pub_date()), s(i.itunes_ext().and_then(ItemExt::duration)),
    ));
    Ok((
        c.title().into(), c.description().into(),
        s(x.and_then(ChannelExt::author)), s(x.and_then(ChannelExt::explicit)),
        items.collect(),
    ))
}

fn item_of_fields(f: &ItemFields) -> (r: FeedItem)
    ensures
        item_view(r) == item_fields_view(*f),
{
    FeedItem {
        title: owned_text(&f.0),
        enclosure_url: owned_text(&f.1),
        guid: owned_text(&f.2),
        description: owned_text(&f.3),
        pub_date: owned_text(&f.4),
        duration: owned_text(&f.5),
    }
}

/// The channel record of the fields that the RSS reader gave.
fn channel_of_fields(f: ChannelFields) -> (r: FeedChannel)
    ensures
        channel_view(r) == fields_view(f),
{
    let (title, description, author, explicit, fields) = f;
    let mut items: Vec<FeedItem> = Vec::new();
    let mut k: usize = 0;
    while k < fields.len()
        invariant
            k <= fields@.len(),
            items@.len() == k,
            forall|j: int| 0 <= j < k ==> #[trigger] item_view(items@[j]) == item_fields_view(fields@[j]),
        decreases fields@.len() - k,
    {
        items.push(item_of_fields(&fields[k]));
        k = k + 1;
    }
    let r = FeedChannel { title, description, author, explicit, items };
    assert(channel_view(r).4 =~= fields_view(f).4);
    r
}

pub open spec fn text_or_empty(t: Option<Seq<char>>) -> Seq<char> {
    match t {
        Some(s) => s,
        None => Seq::empty(),
    }
}

/// The publish timestamp of an item: `None` without a date, or with one
/// that cannot be read.
pub open spec fn item_pubdate(item: ItemView) -> Option<i64> {
    match item.4 {
        Some(d) => rfc2822_timestamp(d),
        None => None,
    }
}

/// The duration of an item in seconds, when its text is one.
pub open spec fn item_duration(item: ItemView) -> Option<i64> {
    match item.5 {
        Some(d) => match duration_of(d) {
            Some(v) => Some(v as i64),
            None => None,
        },
        None => None,
    }
}

/// Whether `ep` is the episode that `item` describes.
pub open spec fn episode_of_item(item: ItemView, ep: EpisodeNoId) -> bool {
    &&& ep.title@ == text_or_empty(item.0)
    &&& ep.url@ == text_or_empty(item.1)
    &&& ep.guid@ == text_or_empty(item.2)
    &&& ep.description@ == text_or_empty(item.3)
    &&& ep.pubdate == item_pubdate(item)
    &&& ep.duration == item_duration(item)
}

/// Whether `p` is the podcast that `channel` describes, read from `url`
/// at `last_checked`.
pub open spec fn podcast_of_channel(
    channel: ChannelView,
    url: Seq<char>,
    last_checked: i64,
    p: PodcastNoId,
) -> bool {
    &&& p.title@ == channel.0
    &&& p.url@ == url
    &&& text_view(p.description) == Some(channel.1)
    &&& text_view(p.author) == channel.2
    &&& p.explicit == (match channel.3 {
        Some(e) => explicit_of(lower_of(e)),
        None => None,
    })
    &&& p.last_checked == last_checked
    &&& p.episodes@.len() == channel.4.len()
    &&& forall|k: int|
        0 <= k < channel.4.len() ==> episode_of_item(channel.4[k], #[trigger] p.episodes@[k])
}

fn owned_or_empty(t: &Option<String>) -> (r: String)
    ensures
        r@ == text_or_empty(text_view(*t)),
{
    match t {
        Some(s) => s.clone(),
        None => String::new(),
    }
}

fn owned_text(t: &Option<String>) -> (r: Option<String>)
    ensures
        text_view(r) == text_view(*t),
{
    match t {
        Some(s) => Some(s.clone()),
        None => None,
    }
}

/// Makes an episode of a feed item. Missing text fields become empty; a
/// publish date or duration that cannot be read becomes `None`.
pub fn parse_episode_data(item: &FeedItem) -> (r: EpisodeNoId)
    ensures
        episode_of_item(item_view(*item), r),
{
    let pubdate = match &item.pub_date {
        Some(d) => pubdate_timestamp(d.as_str()),
        None => None,
    };
    let duration = match &item.duration {
        Some(d) => match duration_to_int(Some(d.as_str())) {
            Some(v) => Some(v as i64),
            None => None,
        },
        None => None,
    };
    EpisodeNoId {
        title: owned_or_empty(&item.title),
        url: owned_or_empty(&item.enclosure_url),
        guid: owned_or_empty(&item.guid),
        description: owned_or_empty(&item.description),
        pubdate,
        duration,
    }
}

/// Makes a podcast of a feed channel read from `url` at `last_checked`.
pub fn parse_feed_data(channel: &FeedChannel, url: &str, last_checked: i64) -> (r: PodcastNoId)
    ensures
        podcast_of_channel(channel_view(*channel), url@, last_checked, r),
{
    let explicit = match &channel.explicit {
        Some(e) => explicit_flag(e.as_str()),
        None => None,
    };
    let ghost items = channel_view(*channel).4;
    let mut episodes: Vec<EpisodeNoId> = Vec::new();
    let mut k: usize = 0;
    while k < channel.items.len()
        invariant
            k <= channel.items@.len(),
            items == channel.items@.map_values(|i: FeedItem| item_view(i)),
            episodes@.len() == k,
            forall|j: int| 0 <= j < k ==> episode_of_item(items[j], #[trigger] episodes@[j]),
        decreases channel.items@.len() - k,
    {
        episodes.push(parse_episode_data(&channel.items[k]));
        k = k + 1;
    }
    PodcastNoId {
        title: channel.title.clone(),
        url: String::from_str(url),
        description: Some(channel.description.clone()),
        author: owned_text(&channel.author),
        explicit,
        last_checked,
        episodes,
    }
}

/// Reads a feed document fetched from `url` at `last_checked`. It fails
/// with `Malformed` exactly when the RSS reader refuses the document;
/// otherwise the podcast is made of the channel that the reader reads.
pub fn parse_feed(bytes: &[u8], url: &str, last_checked: i64) -> (r: Result<
    PodcastNoId,
    FeedError,
>)
    ensures
        r is Ok <==> rss_channel(bytes@) is Some,
        r matches Err(e) ==> e is Malformed,
        r matches Ok(p) ==> podcast_of_channel(rss_channel(bytes@)->Some_0, url@, last_checked, p),
{
    match read_channel(bytes) {
        Ok(fields) => Ok(parse_feed_data(&channel_of_fields(fields), url, last_checked)),
        Err(_) => Err(FeedError::Malformed),
    }
}

} // verus!
