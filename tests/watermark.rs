use feed_sync::watermark::filter_new;

const JAN_1_2024: u64 = 1_704_067_200_000;
const DEC_31_2023: u64 = 1_703_980_800_000;
const FEB_1_2024: u64 = 1_706_745_600_000;

#[test]
fn only_entries_after_the_watermark_are_new() {
    let d = filter_new(&vec![Some(DEC_31_2023), Some(FEB_1_2024)], Some(JAN_1_2024));
    assert_eq!(d.new_items, vec![1]);
    assert_eq!(d.next_watermark, Some(FEB_1_2024));
}

#[test]
fn never_synced_feed_takes_everything() {
    let d = filter_new(&vec![Some(5), None, Some(9), Some(7)], None);
    assert_eq!(d.new_items, vec![0, 1, 2, 3]);
    assert_eq!(d.next_watermark, Some(9));
}

#[test]
fn never_synced_feed_without_dates_has_no_watermark() {
    let d = filter_new(&vec![None, None], None);
    assert_eq!(d.new_items, vec![0, 1]);
    assert_eq!(d.next_watermark, None);
}

#[test]
fn undated_entries_are_not_new_after_a_sync() {
    let d = filter_new(&vec![None, Some(11)], Some(10));
    assert_eq!(d.new_items, vec![1]);
    assert_eq!(d.next_watermark, Some(11));
}

#[test]
fn ties_on_the_watermark_are_old_and_ties_between_entries_kept() {
    let d = filter_new(&vec![Some(10), Some(12), Some(12)], Some(10));
    assert_eq!(d.new_items, vec![1, 2]);
    assert_eq!(d.next_watermark, Some(12));
}

#[test]
fn refiltering_with_the_next_watermark_finds_nothing() {
    let published = vec![Some(3), None, Some(8)];
    let first = filter_new(&published, None);
    assert_eq!(first.new_items.len(), 3);
    let second = filter_new(&published, first.next_watermark);
    assert!(second.new_items.is_empty());
    assert_eq!(second.next_watermark, Some(8));
}

#[test]
fn watermark_never_moves_back() {
    let d = filter_new(&vec![Some(1), Some(2)], Some(100));
    assert!(d.new_items.is_empty());
    assert_eq!(d.next_watermark, Some(100));
    let empty = filter_new(&vec![], Some(100));
    assert_eq!(empty.next_watermark, Some(100));
}

#[test]
fn largest_timestamps_are_handled() {
    let d = filter_new(&vec![Some(u64::MAX), Some(0)], Some(u64::MAX - 1));
    assert_eq!(d.new_items, vec![0]);
    assert_eq!(d.next_watermark, Some(u64::MAX));
}
