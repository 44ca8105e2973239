use feed_sync::rss::RssError;
use feed_sync::subscribe::{SubscribedError, SubscribedRSS};
use feed_sync::sync::{FeedPass, SyncAction, SyncError, SyncEvent, SyncStage};

const FEED: &str = "<rss><channel><title>T</title><item><title>A</title><description>a</description><guid>1</guid><pubDate>d1</pubDate></item><item><title>B</title><description>b</description><guid>2</guid><pubDate>d2</pubDate></item><item><title>C</title><description>c</description><guid>3</guid><pubDate>d3</pubDate></item></channel></rss>";

fn pass() -> FeedPass {
    FeedPass::new(SubscribedRSS::new("https://example.com/feed.xml", vec!["web"]))
}

fn fetched(p: &mut FeedPass, text: &str) -> SyncAction {
    match p.pending_action() {
        SyncAction::ReadWatermark(url) => assert_eq!(url, "https://example.com/feed.xml"),
        _ => panic!("expected a watermark read"),
    }
    match p.step(SyncEvent::WatermarkRead(Some(10))) {
        SyncAction::Fetch(url) => assert_eq!(url, "https://example.com/feed.xml"),
        _ => panic!("expected a fetch"),
    }
    p.step(SyncEvent::Fetched(Some(text.to_string())))
}

#[test]
fn failed_delivery_does_not_stop_the_others() {
    let mut p = pass();
    match fetched(&mut p, FEED) {
        SyncAction::ReadDates(texts) => assert_eq!(
            texts,
            vec![Some("d1".to_string()), Some("d2".to_string()), Some("d3".to_string())]
        ),
        _ => panic!("expected the dates to read"),
    }
    let mut guids = Vec::new();
    let mut action = p.step(SyncEvent::DatesRead(vec![Some(11), Some(12), Some(13)]));
    for accepted in [true, false, true] {
        match action {
            SyncAction::Deliver(rec) => {
                assert_eq!(rec.rss_url, "https://example.com/feed.xml");
                assert_eq!(rec.tags, vec!["web".to_string()]);
                guids.push(rec.guid);
            }
            _ => panic!("expected a delivery"),
        }
        action = p.step(SyncEvent::Delivered(accepted));
    }
    assert_eq!(guids, vec!["1".to_string(), "2".to_string(), "3".to_string()]);
    match action {
        SyncAction::WriteWatermark(url, m) => {
            assert_eq!(url, "https://example.com/feed.xml");
            assert_eq!(m, 13);
        }
        _ => panic!("expected the watermark write"),
    }
    assert!(matches!(p.step(SyncEvent::WatermarkWritten), SyncAction::Finish));
    let out = p.outcome();
    assert_eq!(out.items_delivered, 2);
    assert_eq!(out.items_failed, 1);
    assert_eq!(out.error, None);
}

#[test]
fn only_new_entries_are_delivered() {
    let mut p = pass();
    fetched(&mut p, FEED);
    let action = p.step(SyncEvent::DatesRead(vec![Some(9), Some(10), Some(12)]));
    match action {
        SyncAction::Deliver(rec) => {
            assert_eq!(rec.guid, "3");
            assert_eq!(rec.published_date, Some(12));
            assert_eq!(rec.article_title, "C");
            assert_eq!(rec.blog_title, "T");
            assert_eq!(rec.description, "c");
            assert!(!rec.read);
        }
        _ => panic!("expected a delivery"),
    }
    assert!(matches!(p.step(SyncEvent::Delivered(true)), SyncAction::WriteWatermark(_, 12)));
}

#[test]
fn nothing_new_still_keeps_the_watermark() {
    let mut p = pass();
    fetched(&mut p, FEED);
    let action = p.step(SyncEvent::DatesRead(vec![None, Some(3), None]));
    assert!(matches!(action, SyncAction::WriteWatermark(_, 10)));
}

#[test]
fn fetch_failure_ends_the_pass_without_a_write() {
    let mut p = pass();
    p.step(SyncEvent::WatermarkRead(None));
    assert!(matches!(p.step(SyncEvent::Fetched(None)), SyncAction::Finish));
    assert_eq!(p.stage, SyncStage::Done);
    assert_eq!(p.outcome().error, Some(SyncError::Feed(SubscribedError::WorkerError)));
}

#[test]
fn parse_failure_ends_the_pass_without_a_write() {
    let mut p = pass();
    assert!(matches!(fetched(&mut p, "<rss>"), SyncAction::Finish));
    assert_eq!(p.outcome().error, Some(SyncError::Feed(SubscribedError::RssError(RssError::MalformedXml))));
}

#[test]
fn unexpected_events_change_nothing() {
    let mut p = pass();
    assert!(matches!(p.step(SyncEvent::Delivered(true)), SyncAction::ReadWatermark(_)));
    assert_eq!(p.stage, SyncStage::ReadWatermark);
    assert_eq!(p.cursor, 0);
}

#[test]
fn short_date_report_leaves_the_rest_undated() {
    let mut p = pass();
    fetched(&mut p, FEED);
    let action = p.step(SyncEvent::DatesRead(vec![Some(20)]));
    match action {
        SyncAction::Deliver(rec) => assert_eq!(rec.guid, "1"),
        _ => panic!("expected a delivery"),
    }
    assert!(matches!(p.step(SyncEvent::Delivered(true)), SyncAction::WriteWatermark(_, 20)));
}

#[test]
fn reading_a_fetch_outcome() {
    assert!(matches!(SubscribedRSS::into_rss(None), Err(SubscribedError::WorkerError)));
    assert!(matches!(
        SubscribedRSS::into_rss(Some("<rss/>")),
        Err(SubscribedError::RssError(feed_sync::rss::RssError::MissingElement(
            feed_sync::rss::RequiredElement::Channel
        )))
    ));
    let feed = SubscribedRSS::into_rss(Some("<feed><title>T</title></feed>"));
    assert_eq!(feed.unwrap().blog_title, "T");
}

#[test]
fn failed_watermark_read_ends_the_pass_before_any_delivery() {
    let mut p = pass();
    assert!(matches!(p.step(SyncEvent::StoreFailed), SyncAction::Finish));
    assert_eq!(p.stage, SyncStage::Done);
    let out = p.outcome();
    assert_eq!(out.error, Some(SyncError::Store));
    assert_eq!(out.items_delivered, 0);
}

#[test]
fn failed_watermark_write_is_reported() {
    let mut p = pass();
    fetched(&mut p, FEED);
    let mut action = p.step(SyncEvent::DatesRead(vec![Some(9), Some(11), Some(12)]));
    while let SyncAction::Deliver(_) = action {
        action = p.step(SyncEvent::Delivered(true));
    }
    assert!(matches!(action, SyncAction::WriteWatermark(_, 12)));
    assert!(matches!(p.step(SyncEvent::StoreFailed), SyncAction::Finish));
    let out = p.outcome();
    assert_eq!(out.items_delivered, 2);
    assert_eq!(out.error, Some(SyncError::Store));
}
