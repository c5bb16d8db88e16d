use vstd::prelude::*;

use crate::model::{Podcast, PodcastFeed};

verus! {

#[verifier::external_type_specification]
#[verifier::external_body]
pub struct ExOpmlError(opml::Error);

/// One top-level entry of an outline document, with the attributes that
/// a subscription is made of.
#[derive(Debug, Clone)]
pub struct OutlineEntry {
    pub text: String,
    pub title: Option<String>,
    pub xml_url: Option<String>,
}

/// The attributes of an outline entry: text, title and feed url.
pub type OutlineView = (Seq<char>, Option<Seq<char>>, Option<Seq<char>>);

/// A subscription: stored id, feed url and title.
pub type FeedView = (Option<i64>, Seq<char>, Option<Seq<char>>);

pub open spec fn opt_text(t: Option<String>) -> Option<Seq<char>> {
    match t {
        Some(s) => Some(s@),
        None => None,
    }
}

pub open spec fn outline_view(e: OutlineEntry) -> OutlineView {
    (e.text@, opt_text(e.title), opt_text(e.xml_url))
}

pub open spec fn outline_views(es: Seq<OutlineEntry>) -> Seq<OutlineView> {
    es.map_values(|e: OutlineEntry| outline_view(e))
}

pub open spec fn feed_view(f: PodcastFeed) -> FeedView {
    (f.id, f.url@, opt_text(f.title))
}

pub open spec fn feed_views(fs: Seq<PodcastFeed>) -> Seq<FeedView> {
    fs.map_values(|f: PodcastFeed| feed_view(f))
}

/// The top-level outlines of an outline document, in document order, or
/// `None` when the document is not accepted.
pub uninterp spec fn opml_outlines(xml: Seq<char>) -> Option<Seq<OutlineView>>;

/// Relies on `opml::OPML::from_str`: it accepts or refuses the document
/// depending on its text alone; the entries are the outlines of its
/// body, in order.
#[verifier::external_body]
fn read_outlines(xml: &str) -> (r: Result<Vec<OutlineEntry>, opml::Error>)
    ensures
        r is Ok <==> opml_outlines(xml@) is Some,
        r matches Ok(v) ==> opml_outlines(xml@) == Some(outline_views(v@)),
{
    let doc = opml::OPML::from_str(xml)?;
    Ok(
        doc.body.outlines.into_iter().map(
            |o| OutlineEntry { text: o.text, title: o.title, xml_url: o.xml_url },
        ).collect(),
    )
}

/// Why an outline document could not be imported.
#[derive(Debug, Clone, Copy, PartialEq, Eq)]
pub enum OutlineError {
    /// The document is not an outline document.
    Malformed,
}

/// The display title of an outline entry: its title attribute when that
/// is set and not empty, else its text when that is not empty.
pub open spec fn entry_title(e: OutlineView) -> Option<Seq<char>> {
    match e.1 {
        Some(t) if t.len() > 0 => Some(t),
        _ => if e.0.len() > 0 {
            Some(e.0)
        } else {
            None
        },
    }
}

/// The subscriptions of a list of outline entries: one for each entry
/// with a feed url, in order, with no stored id.
pub open spec fn feeds_of(es: Seq<OutlineView>) -> Seq<FeedView>
    decreases es.len(),
{
    if es.len() == 0 {
        Seq::empty()
    } else {
        let rest = feeds_of(es.drop_last());
        let e = es.last();
        match e.2 {
            Some(url) => rest.push((None, url, entry_title(e))),
            None => rest,
        }
    }
}

fn copy_text(t: &Option<String>) -> (r: Option<String>)
    ensures
        opt_text(r) == opt_text(*t),
{
    match t {
        Some(s) => Some(s.clone()),
        None => None,
    }
}

/// Makes the subscriptions of a list of outline entries.
pub fn feeds_from_outlines(outlines: &Vec<OutlineEntry>) -> (r: Vec<PodcastFeed>)
    ensures
        feed_views(r@) == feeds_of(outline_views(outlines@)),
{
    let mut feeds: Vec<PodcastFeed> = Vec::new();
    let mut k: usize = 0;
    while k < outlines.len()
        invariant
            k <= outlines@.len(),
            feed_views(feeds@) == feeds_of(outline_views(outlines@.take(k as int))),
        decreases outlines@.len() - k,
    {
        let e = &outlines[k];
        proof {
            let vs = outline_views(outlines@.take(k + 1));
            assert(vs.drop_last() =~= outline_views(outlines@.take(k as int)));
            assert(vs.last() == outline_view(outlines@[k as int]));
        }
        if let Some(url) = &e.xml_url {
            let title = match &e.title {
                Some(t) if !t.as_str().is_empty() => Some(t.clone()),
                _ => if e.text.as_str().is_empty() {
                    None
                } else {
                    Some(e.text.clone())
                },
            };
            let ghost before = feeds@;
            feeds.push(PodcastFeed::new(None, url.clone(), title));
            assert(feed_views(feeds@) =~= feed_views(before).push(feed_view(feeds@.last())));
        }
        k = k + 1;
    }
    assert(outlines@.take(outlines@.len() as int) =~= outlines@);
    feeds
}

/// Reads the subscriptions of an outline document. Entries without a feed
/// url are left out; the title falls back to the entry's text.
pub fn podcast_import(xml: &str) -> (r: Result<Vec<PodcastFeed>, OutlineError>)
    ensures
        r is Ok <==> opml_outlines(xml@) is Some,
        r matches Ok(v) ==> feed_views(v@) == feeds_of(opml_outlines(xml@)->Some_0),
{
    match read_outlines(xml) {
        Ok(outlines) => Ok(feeds_from_outlines(&outlines)),
        Err(_) => Err(OutlineError::Malformed),
    }
}

/// Reads the subscriptions of an outline document, as `podcast_import`.
pub fn import_opml(xml: String) -> (r: Result<Vec<PodcastFeed>, OutlineError>)
    ensures
        r is Ok <==> opml_outlines(xml@) is Some,
        r matches Ok(v) ==> feed_views(v@) == feeds_of(opml_outlines(xml@)->Some_0),
{
    podcast_import(xml.as_str())
}

/// The subscriptions whose feed url is not among `stored_urls`, in order.
pub open spec fn unknown_feeds(fs: Seq<FeedView>, stored_urls: Seq<Seq<char>>) -> Seq<FeedView>
    decreases fs.len(),
{
    if fs.len() == 0 {
        Seq::empty()
    } else {
        let rest = unknown_feeds(fs.drop_last(), stored_urls);
        if stored_urls.contains(fs.last().1) {
            rest
        } else {
            rest.push(fs.last())
        }
    }
}

fn copy_feed(f: &PodcastFeed) -> (r: PodcastFeed)
    ensures
        feed_view(r) == feed_view(*f),
{
    PodcastFeed::new(f.id, f.url.clone(), copy_text(&f.title))
}

/// Leaves out the subscriptions whose feed url is already stored, so
/// that an import never adds a feed twice.
pub fn filter_new_feeds(feeds: &Vec<PodcastFeed>, stored_urls: &Vec<String>) -> (r: Vec<
    PodcastFeed,
>)
    ensures
        feed_views(r@) == unknown_feeds(
            feed_views(feeds@),
            stored_urls@.map_values(|u: String| u@),
        ),
{
    let ghost urls = stored_urls@.map_values(|u: String| u@);
    let mut out: Vec<PodcastFeed> = Vec::new();
    let mut k: usize = 0;
    while k < feeds.len()
        invariant
            k <= feeds@.len(),
            urls == stored_urls@.map_values(|u: String| u@),
            feed_views(out@) == unknown_feeds(feed_views(feeds@.take(k as int)), urls),
        decreases feeds@.len() - k,
    {
        let f = &feeds[k];
        let mut known = false;
        let mut i: usize = 0;
        while i < stored_urls.len()
            invariant
                i <= stored_urls@.len(),
                urls == stored_urls@.map_values(|u: String| u@),
                known == exists|j: int| 0 <= j < i && #[trigger] urls[j] == f.url@,
            decreases stored_urls@.len() - i,
        {
            assert(urls[i as int] == stored_urls@[i as int]@);
            if stored_urls[i] == f.url {
                known = true;
            }
            i = i + 1;
        }
        proof {
            let vs = feed_views(feeds@.take(k + 1));
            assert(vs.drop_last() =~= feed_views(feeds@.take(k as int)));
            assert(vs.last() == feed_view(feeds@[k as int]));
            if urls.contains(f.url@) {
                let j = choose|j: int| 0 <= j < urls.len() && urls[j] == f.url@;
                assert(urls[j] == f.url@);
            }
        }
        if !known {
            let ghost before = out@;
            out.push(copy_feed(f));
            assert(feed_views(out@) =~= feed_views(before).push(feed_view(out@.last())));
        }
        k = k + 1;
    }
    assert(feeds@.take(feeds@.len() as int) =~= feeds@);
    out
}

/// The outline entries that list stored podcasts, one for each, in order:
/// the podcast's title as text and title, its url as feed url.
pub fn export_outlines(podcasts: &Vec<Podcast>) -> (r: Vec<OutlineEntry>)
    ensures
        r@.len() == podcasts@.len(),
        forall|k: int|
            0 <= k < podcasts@.len() ==> #[trigger] outline_view(r@[k]) == (
                podcasts@[k].title@,
                Some(podcasts@[k].title@),
                Some(podcasts@[k].url@),
            ),
{
    let mut out: Vec<OutlineEntry> = Vec::new();
    let mut k: usize = 0;
    while k < podcasts.len()
        invariant
            k <= podcasts@.len(),
            out@.len() == k,
            forall|j: int|
                0 <= j < k ==> #[trigger] outline_view(out@[j]) == (
                    podcasts@[j].title@,
                    Some(podcasts@[j].title@),
                    Some(podcasts@[j].url@),
                ),
        decreases podcasts@.len() - k,
    {
        let p = &podcasts[k];
        out.push(
            OutlineEntry {
                text: p.title.clone(),
                title: Some(p.title.clone()),
                xml_url: Some(p.url.clone()),
            },
        );
        k = k + 1;
    }
    out
}

} // verus!
