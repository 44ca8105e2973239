use vstd::prelude::*;

use crate::rss::{RssItem, items_view};
use crate::store::StoreSchema;
use crate::subscribe::{SubscribedError, SubscribedRSS, feed_from_fetch};
use crate::watermark::{filter_new, new_positions, next_mark};
use crate::xml::opt_str_view;

verus! {

/// Where one feed's pass stands.
#[derive(Clone, Copy, Debug, PartialEq, Eq, Structural)]
pub enum SyncStage {
    ReadWatermark,
    Fetch,
    ReadDates,
    Deliver,
    WriteWatermark,
    Done,
}

/// Why a feed's pass stopped early.
#[derive(Clone, Copy, Debug, PartialEq, Eq, Structural)]
pub enum SyncError {
    /// The feed could not be fetched, or its text is not a usable document.
    Feed(SubscribedError),
    /// The watermark store could not be read or written.
    Store,
}

/// What the caller reports back after carrying out an action.
pub enum SyncEvent {
    /// The stored watermark, in milliseconds since the Unix epoch, if any.
    WatermarkRead(Option<u64>),
    /// The feed's text, or `None` where the fetch failed.
    Fetched(Option<String>),
    /// The publication time of each entry, in entry order; `None` where the
    /// entry has no date or its date could not be read.
    DatesRead(Vec<Option<u64>>),
    /// Whether the last record was accepted by the store.
    Delivered(bool),
    WatermarkWritten,
    /// The watermark store failed to carry out the read or the write.
    StoreFailed,
}

/// What the caller is to do next.
pub enum SyncAction {
    ReadWatermark(String),
    Fetch(String),
    /// Turn each date text into milliseconds since the Unix epoch.
    ReadDates(Vec<Option<String>>),
    Deliver(StoreSchema),
    WriteWatermark(String, u64),
    Finish,
}

/// One feed's pass: read its watermark, fetch and parse it, pick the new
/// entries, deliver each of them, then store the next watermark.
pub struct FeedPass {
    pub subscription: SubscribedRSS,
    pub stage: SyncStage,
    pub previous: Option<u64>,
    pub items: Vec<RssItem>,
    pub published: Vec<Option<u64>>,
    pub new_items: Vec<usize>,
    pub next_watermark: Option<u64>,
    /// How many of the new entries have been handed to the store.
    pub cursor: usize,
    pub delivered: usize,
    pub failed: usize,
    pub error: Option<SyncError>,
}

/// The part of a pass that deliveries move.
pub struct DeliveryModel {
    pub stage: SyncStage,
    pub cursor: nat,
    pub delivered: nat,
    pub failed: nat,
    pub new_count: nat,
    pub next_watermark: Option<u64>,
}

/// The stage that follows once `cursor` new entries have been handed on.
pub open spec fn stage_after(cursor: nat, new_count: nat, next_watermark: Option<u64>) -> SyncStage {
    if cursor < new_count {
        SyncStage::Deliver
    } else if next_watermark is Some {
        SyncStage::WriteWatermark
    } else {
        SyncStage::Done
    }
}

/// The pass after the store has answered one delivery.
pub open spec fn after_delivery(m: DeliveryModel, accepted: bool) -> DeliveryModel {
    DeliveryModel {
        stage: stage_after(m.cursor + 1, m.new_count, m.next_watermark),
        cursor: m.cursor + 1,
        delivered: m.delivered + if accepted {
            1nat
        } else {
            0nat
        },
        failed: m.failed + if accepted {
            0nat
        } else {
            1nat
        },
        ..m
    }
}

/// The pass after the store has answered a run of deliveries.
pub open spec fn after_deliveries(m: DeliveryModel, answers: Seq<bool>) -> DeliveryModel
    decreases answers.len(),
{
    if answers.len() == 0 {
        m
    } else {
        after_delivery(after_deliveries(m, answers.drop_last()), answers.last())
    }
}

/// The publication times used for `n` entries: those reported, and none for
/// an entry that the report does not reach.
pub open spec fn dates_for(reported: Seq<Option<u64>>, n: nat) -> Seq<Option<u64>> {
    Seq::new(n, |i: int| if i < reported.len() { reported[i] } else { None })
}

/// How a pass moves on an event: an event that the present stage does not
/// wait on changes nothing.
pub open spec fn transition(o: FeedPass, e: SyncEvent, n: FeedPass) -> bool {
    &&& n.subscription == o.subscription
    &&& match (o.stage, e) {
        (SyncStage::ReadWatermark, SyncEvent::WatermarkRead(p)) => {
            &&& n.stage == SyncStage::Fetch
            &&& n.previous == p
            &&& n.cursor == o.cursor
            &&& n.error is None
        },
        (SyncStage::Fetch, SyncEvent::Fetched(fetched)) => match feed_from_fetch(opt_str_view(fetched)) {
            Err(err) => {
                &&& n.stage == SyncStage::Done
                &&& n.error == Some(SyncError::Feed(err))
                &&& n.cursor == o.cursor
            },
            Ok(feed) => {
                &&& n.stage == SyncStage::ReadDates
                &&& items_view(n.items@) == feed.items
                &&& n.previous == o.previous
                &&& n.cursor == o.cursor
                &&& n.error is None
            },
        },
        (SyncStage::ReadDates, SyncEvent::DatesRead(v)) => {
            &&& n.items == o.items
            &&& n.previous == o.previous
            &&& n.published@ == dates_for(v@, o.items@.len())
            &&& n.new_items@ == new_positions(n.published@, o.previous)
            &&& n.next_watermark == next_mark(n.published@, o.previous)
            &&& n.stage == stage_after(0, n.new_items@.len(), n.next_watermark)
            &&& n.cursor == 0
            &&& n.error is None
        },
        (SyncStage::Deliver, SyncEvent::Delivered(accepted)) => {
            &&& n.deliveries() == after_delivery(o.deliveries(), accepted)
            &&& n.items == o.items
            &&& n.published == o.published
            &&& n.new_items == o.new_items
            &&& n.previous == o.previous
            &&& n.error == o.error
        },
        (SyncStage::ReadWatermark, SyncEvent::StoreFailed) => {
            &&& n.stage == SyncStage::Done
            &&& n.error == Some(SyncError::Store)
            &&& n.cursor == o.cursor
        },
        (SyncStage::WriteWatermark, SyncEvent::WatermarkWritten) => {
            &&& n.stage == SyncStage::Done
            &&& n.deliveries().cursor == o.deliveries().cursor
            &&& n.delivered == o.delivered
            &&& n.failed == o.failed
            &&& n.error == o.error
        },
        (SyncStage::WriteWatermark, SyncEvent::StoreFailed) => {
            &&& n.stage == SyncStage::Done
            &&& n.cursor == o.cursor
            &&& n.delivered == o.delivered
            &&& n.failed == o.failed
            &&& n.error == Some(SyncError::Store)
        },
        _ => n == o,
    }
}

/// What became of one feed in a pass.
pub struct FeedOutcome {
    pub source_url: String,
    pub items_delivered: usize,
    pub items_failed: usize,
    pub error: Option<SyncError>,
}

impl FeedPass {
    pub open spec fn wf(&self) -> bool {
        &&& self.cursor <= self.new_items@.len() <= usize::MAX
        &&& self.delivered + self.failed == self.cursor
        &&& (self.stage == SyncStage::Deliver || self.stage == SyncStage::WriteWatermark) ==> {
            &&& self.published@.len() == self.items@.len()
            &&& forall|k: int|
                0 <= k < self.new_items@.len() ==> (#[trigger] self.new_items@[k]) < self.items@.len()
        }
        &&& self.stage == SyncStage::Deliver ==> self.cursor < self.new_items@.len()
        &&& self.stage == SyncStage::WriteWatermark ==> self.next_watermark is Some
        &&& self.stage != SyncStage::Done ==> self.error is None
    }

    pub open spec fn deliveries(&self) -> DeliveryModel {
        DeliveryModel {
            stage: self.stage,
            cursor: self.cursor as nat,
            delivered: self.delivered as nat,
            failed: self.failed as nat,
            new_count: self.new_items@.len(),
            next_watermark: self.next_watermark,
        }
    }

    /// Whether `rec` is the record for the new entry at `k`.
    pub open spec fn is_record_for(&self, k: int, rec: StoreSchema) -> bool {
        let i = self.new_items@[k] as int;
        let item = self.items@[i];
        &&& rec.guid == item.id
        &&& rec.blog_title == item.blog_title
        &&& rec.article_title == item.article_title
        &&& rec.rss_url == self.subscription.rss_url
        &&& rec.tags@ == self.subscription.tags@
        &&& rec.description == item.description
        &&& !rec.read
        &&& rec.link == item.article_url
        &&& rec.published_date == self.published@[i]
    }

    /// Whether `a` is what the pass asks for in its present stage.
    pub open spec fn is_pending(&self, a: SyncAction) -> bool {
        match self.stage {
            SyncStage::ReadWatermark => a matches SyncAction::ReadWatermark(u) && u
                == self.subscription.rss_url,
            SyncStage::Fetch => a matches SyncAction::Fetch(u) && u == self.subscription.rss_url,
            SyncStage::ReadDates => a matches SyncAction::ReadDates(v) && v@.len()
                == self.items@.len() && forall|i: int|
                0 <= i < v@.len() ==> opt_str_view(#[trigger] v@[i]) == opt_str_view(
                    self.items@[i].published_date,
                ),
            SyncStage::Deliver => a matches SyncAction::Deliver(rec) && self.is_record_for(
                self.cursor as int,
                rec,
            ),
            SyncStage::WriteWatermark => a matches SyncAction::WriteWatermark(u, m) && u
                == self.subscription.rss_url && self.next_watermark == Some(m),
            SyncStage::Done => a is Finish,
        }
    }

    /// A pass over `subscription` that has not started.
    pub fn new(subscription: SubscribedRSS) -> (r: Self)
        ensures
            r.wf(),
            r.subscription == subscription,
            r.stage == SyncStage::ReadWatermark,
            r.cursor == 0,
            r.error is None,
    {
        FeedPass {
            subscription,
            stage: SyncStage::ReadWatermark,
            previous: None,
            items: Vec::new(),
            published: Vec::new(),
            new_items: Vec::new(),
            next_watermark: None,
            cursor: 0,
            delivered: 0,
            failed: 0,
            error: None,
        }
    }

    /// Takes in what the caller reports and answers with the next action.
    pub fn step(&mut self, event: SyncEvent) -> (r: SyncAction)
        requires
            old(self).wf(),
        ensures
            final(self).wf(),
            transition(*old(self), event, *final(self)),
            final(self).is_pending(r),
    {
        match (self.stage, event) {
            (SyncStage::ReadWatermark, SyncEvent::WatermarkRead(p)) => {
                self.previous = p;
                self.stage = SyncStage::Fetch;
            },
            (SyncStage::Fetch, SyncEvent::Fetched(fetched)) => {
                let parsed = match &fetched {
                    Some(text) => SubscribedRSS::into_rss(Some(text.as_str())),
                    None => SubscribedRSS::into_rss(None),
                };
                match parsed {
                    Ok(feed) => {
                        self.items = feed.items;
                        self.stage = SyncStage::ReadDates;
                    },
                    Err(err) => {
                        self.error = Some(SyncError::Feed(err));
                        self.stage = SyncStage::Done;
                    },
                }
            },
            (SyncStage::ReadDates, SyncEvent::DatesRead(v)) => {
                let mut published: Vec<Option<u64>> = Vec::new();
                let mut i: usize = 0;
                while i < self.items.len()
                    invariant
                        i <= self.items@.len(),
                        published@ =~= dates_for(v@, self.items@.len()).subrange(0, i as int),
                    decreases self.items@.len() - i,
                {
                    let d = if i < v.len() {
                        v[i]
                    } else {
                        None
                    };
                    published.push(d);
                    i = i + 1;
                }
                assert(published@ =~= dates_for(v@, self.items@.len()));
                let decision = filter_new(&published, self.previous);
                self.published = published;
                self.new_items = decision.new_items;
                self.next_watermark = decision.next_watermark;
                self.cursor = 0;
                self.delivered = 0;
                self.failed = 0;
                proof {
                    assert forall|k: int| 0 <= k < self.new_items@.len() implies (#[trigger] self.new_items@[k])
                        < self.items@.len() by {
                        lemma_positions_in_range(self.published@, self.previous, k);
                    }
                }
                self.stage = if self.new_items.len() > 0 {
                    SyncStage::Deliver
                } else if self.next_watermark.is_some() {
                    SyncStage::WriteWatermark
                } else {
                    SyncStage::Done
                };
            },
            (SyncStage::Deliver, SyncEvent::Delivered(accepted)) => {
                if accepted {
                    self.delivered = self.delivered + 1;
                } else {
                    self.failed = self.failed + 1;
                }
                self.cursor = self.cursor + 1;
                self.stage = if self.cursor < self.new_items.len() {
                    SyncStage::Deliver
                } else if self.next_watermark.is_some() {
                    SyncStage::WriteWatermark
                } else {
                    SyncStage::Done
                };
            },
            (SyncStage::ReadWatermark, SyncEvent::StoreFailed) => {
                self.error = Some(SyncError::Store);
                self.stage = SyncStage::Done;
            },
            (SyncStage::WriteWatermark, SyncEvent::WatermarkWritten) => {
                self.stage = SyncStage::Done;
            },
            (SyncStage::WriteWatermark, SyncEvent::StoreFailed) => {
                self.error = Some(SyncError::Store);
                self.stage = SyncStage::Done;
            },
            _ => {},
        }
        self.pending_action()
    }

    /// What became of the feed so far.
    pub fn outcome(&self) -> (r: FeedOutcome)
        ensures
            r.source_url == self.subscription.rss_url,
            r.items_delivered == self.delivered,
            r.items_failed == self.failed,
            r.error == self.error,
    {
        FeedOutcome {
            source_url: self.subscription.rss_url.clone(),
            items_delivered: self.delivered,
            items_failed: self.failed,
            error: self.error,
        }
    }

    /// The action that the pass waits on.
    pub fn pending_action(&self) -> (r: SyncAction)
        requires
            self.wf(),
        ensures
            self.is_pending(r),
    {
        match self.stage {
            SyncStage::ReadWatermark => SyncAction::ReadWatermark(self.subscription.rss_url.clone()),
            SyncStage::Fetch => SyncAction::Fetch(self.subscription.rss_url.clone()),
            SyncStage::ReadDates => {
                let mut texts: Vec<Option<String>> = Vec::new();
                let mut i: usize = 0;
                while i < self.items.len()
                    invariant
                        i <= self.items@.len(),
                        texts@.len() == i,
                        forall|j: int|
                            0 <= j < i ==> opt_str_view(#[trigger] texts@[j]) == opt_str_view(
                                self.items@[j].published_date,
                            ),
                    decreases self.items@.len() - i,
                {
                    let t = match &self.items[i].published_date {
                        Some(d) => Some(d.clone()),
                        None => None,
                    };
                    texts.push(t);
                    i = i + 1;
                }
                SyncAction::ReadDates(texts)
            },
            SyncStage::Deliver => {
                let i = self.new_items[self.cursor];
                SyncAction::Deliver(
                    StoreSchema::from_item(
                        &self.items[i],
                        &self.subscription.rss_url,
                        &self.subscription.tags,
                        self.published[i],
                    ),
                )
            },
            SyncStage::WriteWatermark => {
                let m = match self.next_watermark {
                    Some(m) => m,
                    None => 0,
                };
                SyncAction::WriteWatermark(self.subscription.rss_url.clone(), m)
            },
            SyncStage::Done => SyncAction::Finish,
        }
    }
}

proof fn lemma_positions_in_range(published: Seq<Option<u64>>, previous: Option<u64>, k: int)
    requires
        0 <= k < new_positions(published, previous).len(),
    ensures
        new_positions(published, previous)[k] < published.len(),
    decreases published.len(),
{
    if published.len() > 0 {
        let prev = new_positions(published.drop_last(), previous);
        if k < prev.len() {
            lemma_positions_in_range(published.drop_last(), previous, k);
        }
    }
}

proof fn lemma_deliveries_progress(m: DeliveryModel, answers: Seq<bool>)
    requires
        m.cursor == 0,
        m.delivered == 0,
        m.failed == 0,
        answers.len() <= m.new_count,
    ensures
        after_deliveries(m, answers).cursor == answers.len(),
        after_deliveries(m, answers).delivered + after_deliveries(m, answers).failed
            == answers.len(),
        after_deliveries(m, answers).new_count == m.new_count,
        after_deliveries(m, answers).next_watermark == m.next_watermark,
        answers.len() > 0 ==> after_deliveries(m, answers).stage == stage_after(
            answers.len(),
            m.new_count,
            m.next_watermark,
        ),
    decreases answers.len(),
{
    if answers.len() > 0 {
        lemma_deliveries_progress(m, answers.drop_last());
    }
}

/// A failed delivery stops nothing: whatever the store answers, each new
/// entry in turn is handed to it, and once the last one has been answered
/// the pass goes on to store its watermark (or ends, where it has none).
pub proof fn lemma_failed_delivery_isolated(m: DeliveryModel, answers: Seq<bool>)
    requires
        m.stage == SyncStage::Deliver,
        m.cursor == 0,
        m.delivered == 0,
        m.failed == 0,
        answers.len() == m.new_count,
        m.new_count > 0,
    ensures
        forall|k: int|
            0 <= k < answers.len() ==> (#[trigger] after_deliveries(m, answers.take(k))).stage
                == SyncStage::Deliver && after_deliveries(m, answers.take(k)).cursor == k,
        after_deliveries(m, answers).cursor == m.new_count,
        after_deliveries(m, answers).delivered + after_deliveries(m, answers).failed == m.new_count,
        after_deliveries(m, answers).stage == if m.next_watermark is Some {
            SyncStage::WriteWatermark
        } else {
            SyncStage::Done
        },
{
    assert forall|k: int| 0 <= k < answers.len() implies (#[trigger] after_deliveries(
        m,
        answers.take(k),
    )).stage == SyncStage::Deliver && after_deliveries(m, answers.take(k)).cursor == k by {
        lemma_deliveries_progress(m, answers.take(k));
    }
    lemma_deliveries_progress(m, answers);
}

} // verus!
