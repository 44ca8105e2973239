use vstd::prelude::*;

verus! {

/// Publication times and watermarks are milliseconds since the Unix epoch.
pub open spec fn later_of(a: Option<u64>, b: Option<u64>) -> Option<u64> {
    match (a, b) {
        (Some(x), Some(y)) => Some(if x >= y { x } else { y }),
        (Some(x), None) => Some(x),
        (None, y) => y,
    }
}

/// Whether an entry published at `published` is new against `previous`.
pub open spec fn is_new(published: Option<u64>, previous: Option<u64>) -> bool {
    match previous {
        None => true,
        Some(t) => match published {
            Some(p) => p > t,
            None => false,
        },
    }
}

/// The positions of the new entries, in document order.
pub open spec fn new_positions(published: Seq<Option<u64>>, previous: Option<u64>) -> Seq<usize>
    decreases published.len(),
{
    if published.len() == 0 {
        Seq::empty()
    } else {
        let prev = new_positions(published.drop_last(), previous);
        if is_new(published.last(), previous) {
            prev.push((published.len() - 1) as usize)
        } else {
            prev
        }
    }
}

/// The latest of `previous` and every publication time present.
pub open spec fn next_mark(published: Seq<Option<u64>>, previous: Option<u64>) -> Option<u64>
    decreases published.len(),
{
    if published.len() == 0 {
        previous
    } else {
        later_of(next_mark(published.drop_last(), previous), published.last())
    }
}

/// The outcome of comparing a feed's entries with its stored watermark.
pub struct WatermarkDecision {
    /// Positions of the new entries, in document order.
    pub new_items: Vec<usize>,
    /// The watermark to store once the new entries have been handed on.
    pub next_watermark: Option<u64>,
}

/// Picks the entries published after `previous` (all of them where the feed
/// was never synced) and the watermark that follows this pass.
pub fn filter_new(published: &Vec<Option<u64>>, previous: Option<u64>) -> (r: WatermarkDecision)
    ensures
        r.new_items@ == new_positions(published@, previous),
        r.next_watermark == next_mark(published@, previous),
{
    let mut new_items: Vec<usize> = Vec::new();
    let mut mark = previous;
    let mut i: usize = 0;
    while i < published.len()
        invariant
            i <= published@.len(),
            new_items@ == new_positions(published@.subrange(0, i as int), previous),
            mark == next_mark(published@.subrange(0, i as int), previous),
        decreases published@.len() - i,
    {
        assert(published@.subrange(0, i + 1).drop_last() =~= published@.subrange(0, i as int));
        let p = published[i];
        let fresh = match previous {
            None => true,
            Some(t) => match p {
                Some(x) => x > t,
                None => false,
            },
        };
        if fresh {
            new_items.push(i);
        }
        mark = match (mark, p) {
            (Some(x), Some(y)) => Some(if x >= y { x } else { y }),
            (Some(x), None) => Some(x),
            (None, y) => y,
        };
        i = i + 1;
    }
    assert(published@.subrange(0, i as int) =~= published@);
    WatermarkDecision { new_items, next_watermark: mark }
}

proof fn lemma_mark_bounds(published: Seq<Option<u64>>, previous: Option<u64>)
    ensures
        previous is Some ==> next_mark(published, previous) is Some && previous.unwrap()
            <= next_mark(published, previous).unwrap(),
        forall|i: int|
            0 <= i < published.len() && (#[trigger] published[i]) is Some ==> next_mark(
                published,
                previous,
            ) is Some && published[i].unwrap() <= next_mark(published, previous).unwrap(),
    decreases published.len(),
{
    if published.len() > 0 {
        lemma_mark_bounds(published.drop_last(), previous);
        assert forall|i: int|
            0 <= i < published.len() && (#[trigger] published[i]) is Some implies next_mark(
                published,
                previous,
            ) is Some && published[i].unwrap() <= next_mark(published, previous).unwrap() by {
            if i < published.len() - 1 {
                assert(published.drop_last()[i] == published[i]);
            }
        }
    }
}

proof fn lemma_none_new_below(published: Seq<Option<u64>>, mark: u64)
    requires
        forall|i: int|
            0 <= i < published.len() && (#[trigger] published[i]) is Some ==> published[i].unwrap()
                <= mark,
    ensures
        new_positions(published, Some(mark)).len() == 0,
    decreases published.len(),
{
    if published.len() > 0 {
        let d = published.drop_last();
        assert forall|i: int| 0 <= i < d.len() && (#[trigger] d[i]) is Some implies d[i].unwrap() <= mark by {
            assert(d[i] == published[i]);
        }
        lemma_none_new_below(d, mark);
        assert(published.last() == published[published.len() - 1]);
    }
}

/// Filtering the same entries again against the watermark that a pass
/// produced finds nothing new, wherever that watermark exists.
pub proof fn lemma_refilter_finds_nothing(published: Seq<Option<u64>>, previous: Option<u64>)
    requires
        next_mark(published, previous) is Some,
    ensures
        new_positions(published, next_mark(published, previous)).len() == 0,
{
    lemma_mark_bounds(published, previous);
    lemma_none_new_below(published, next_mark(published, previous).unwrap());
}

/// A pass never moves an existing watermark backwards.
pub proof fn lemma_watermark_never_regresses(published: Seq<Option<u64>>, previous: u64)
    ensures
        next_mark(published, Some(previous)) is Some,
        previous <= next_mark(published, Some(previous)).unwrap(),
{
    lemma_mark_bounds(published, Some(previous));
}

} // verus!
