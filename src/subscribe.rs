use vstd::prelude::*;

use crate::rss::{Rss, RssError, feed_of_text, result_view};

verus! {

/// A feed to follow, with the tags given to its entries.
pub struct SubscribedRSS {
    pub rss_url: String,
    pub tags: Vec<String>,
}

/// Why a feed could not be read.
#[derive(Clone, Copy, Debug, PartialEq, Eq, Structural)]
pub enum SubscribedError {
    /// The feed's text is not a usable RSS or Atom document.
    RssError(RssError),
    /// The feed could not be fetched.
    WorkerError,
}

pub open spec fn strs_of(v: Seq<&str>) -> Seq<Seq<char>> {
    v.map_values(|t: &str| t@)
}

impl SubscribedRSS {
    pub fn new(rss_url: &str, tags: Vec<&str>) -> (r: Self)
        ensures
            r.rss_url@ == rss_url@,
            r.tags@.map_values(|t: String| t@) == strs_of(tags@),
    {
        let mut out: Vec<String> = Vec::new();
        let mut i: usize = 0;
        while i < tags.len()
            invariant
                i <= tags@.len(),
                out@.map_values(|t: String| t@) == strs_of(tags@.subrange(0, i as int)),
            decreases tags@.len() - i,
        {
            let t = String::from_str(tags[i]);
            let ghost before = out@;
            out.push(t);
            assert(out@.map_values(|t: String| t@) =~= before.map_values(|t: String| t@).push(t@));
            assert(strs_of(tags@.subrange(0, i + 1)) =~= strs_of(tags@.subrange(0, i as int)).push(
                tags@[i as int]@,
            ));
            i = i + 1;
        }
        assert(tags@.subrange(0, i as int) =~= tags@);
        SubscribedRSS { rss_url: String::from_str(rss_url), tags: out }
    }
}

pub open spec fn opt_text_view(o: Option<&str>) -> Option<Seq<char>> {
    match o {
        Some(t) => Some(t@),
        None => None,
    }
}

/// What reading a feed gives: its parsed document, or why there is none.
pub open spec fn feed_from_fetch(fetched: Option<Seq<char>>) -> Result<
    crate::rss::FeedModel,
    SubscribedError,
> {
    match fetched {
        None => Err(SubscribedError::WorkerError),
        Some(text) => match feed_of_text(text) {
            Ok(f) => Ok(f),
            Err(e) => Err(SubscribedError::RssError(e)),
        },
    }
}

impl SubscribedRSS {
    /// The feed in the text that a fetch of `rss_url` returned, or `None`
    /// where the fetch failed.
    pub fn into_rss(fetched: Option<&str>) -> (r: Result<Rss, SubscribedError>)
        ensures
            match r {
                Ok(f) => feed_from_fetch(opt_text_view(fetched)) == Ok::<
                    crate::rss::FeedModel,
                    SubscribedError,
                >(f@),
                Err(e) => feed_from_fetch(opt_text_view(fetched)) == Err::<
                    crate::rss::FeedModel,
                    SubscribedError,
                >(e),
            },
    {
        match fetched {
            None => Err(SubscribedError::WorkerError),
            Some(text) => {
                let parsed = Rss::from_xml(text);
                proof {
                    assert(result_view(parsed) == feed_of_text(text@));
                }
                match parsed {
                    Ok(f) => Ok(f),
                    Err(e) => Err(SubscribedError::RssError(e)),
                }
            },
        }
    }
}

/// The feeds that a pass follows.
pub fn get_subscribe_list() -> (r: Vec<SubscribedRSS>)
    ensures
        r@.len() == 1,
        r@[0].rss_url@ == "https://web.dev/feed.xml"@,
        r@[0].tags@.map_values(|t: String| t@) == seq!["web"@],
{
    let web = SubscribedRSS::new("https://web.dev/feed.xml", vec!["web"]);
    assert(strs_of(seq!["web"]) =~= seq!["web"@]);
    vec![web]
}

} // verus!
