use vstd::prelude::*;

use crate::copies::{copy_opt_string, copy_strings};
use crate::rss::RssItem;

verus! {

/// The record handed to the downstream store for one new entry.
pub struct StoreSchema {
    pub blog_title: String,
    pub article_title: String,
    pub rss_url: String,
    pub tags: Vec<String>,
    pub description: String,
    pub read: bool,
    /// The entry's id, under which the store may recognise a delivery it has seen.
    pub guid: String,
    pub link: Option<String>,
    /// Milliseconds since the Unix epoch.
    pub published_date: Option<u64>,
}

impl StoreSchema {
    pub fn new(
        guid: String,
        blog_title: String,
        article_title: String,
        rss_url: String,
        tags: Vec<String>,
        description: String,
        link: &Option<String>,
        published_date: &Option<u64>,
    ) -> (r: Self)
        ensures
            r.guid == guid,
            r.blog_title == blog_title,
            r.article_title == article_title,
            r.rss_url == rss_url,
            r.tags == tags,
            r.description == description,
            !r.read,
            r.link == *link,
            r.published_date == *published_date,
    {
        StoreSchema {
            blog_title,
            article_title,
            rss_url,
            tags,
            description,
            read: false,
            guid,
            link: copy_opt_string(link),
            published_date: *published_date,
        }
    }

    /// The record for an entry of the feed at `rss_url`, published at `published`.
    pub fn from_item(item: &RssItem, rss_url: &String, tags: &Vec<String>, published: Option<u64>) -> (r:
        Self)
        ensures
            r.guid == item.id,
            r.blog_title == item.blog_title,
            r.article_title == item.article_title,
            r.rss_url == *rss_url,
            r.tags@ == tags@,
            r.description == item.description,
            !r.read,
            r.link == item.article_url,
            r.published_date == published,
    {
        StoreSchema::new(
            item.id.clone(),
            item.blog_title.clone(),
            item.article_title.clone(),
            rss_url.clone(),
            copy_strings(tags),
            item.description.clone(),
            &item.article_url,
            &published,
        )
    }
}

} // verus!
