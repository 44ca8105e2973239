use vstd::prelude::*;

pub use crate::subscribe::SubscribedRSS;

verus! {

/// The full list of feeds to follow.
pub fn get_subscribe_list() -> (r: Vec<SubscribedRSS>)
    ensures
        r@.len() == 2,
        r@[0].rss_url@ == "https://en.shinyaigeek.dev/rss.xml"@,
        r@[0].tags@.map_values(|t: String| t@) == seq!["mine"@, "web"@],
        r@[1].rss_url@ == "https://web.dev/feed.xml"@,
        r@[1].tags@.map_values(|t: String| t@) == seq!["web"@],
{
    let mine = SubscribedRSS::new("https://en.shinyaigeek.dev/rss.xml", vec!["mine", "web"]);
    let web = SubscribedRSS::new("https://web.dev/feed.xml", vec!["web"]);
    assert(crate::subscribe::strs_of(seq!["mine", "web"]) =~= seq!["mine"@, "web"@]);
    assert(crate::subscribe::strs_of(seq!["web"]) =~= seq!["web"@]);
    vec![mine, web]
}

} // verus!
