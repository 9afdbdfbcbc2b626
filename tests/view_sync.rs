use image_sieve::sync::{empty_status_text, PublishAction, ScanPhase, Synchronizer};
use image_sieve::view::{contains_index, find_event, plan_view, toggle_take_over, EventRange};

#[test]
fn selected_item_first_then_similars_and_two_prefetches() {
    // A=0 with similar items B=1 and C=2; 3 is an image, 4 is not, 5 and 6 are images.
    let similars = vec![1usize, 2];
    let is_image = vec![true, true, true, true, false, true, true];
    let plan = plan_view(0, &similars, &is_image);
    assert_eq!(plan.rows, vec![0, 1, 2]);
    assert_eq!(plan.prefetch, vec![3, 5]);
}

#[test]
fn similars_keep_stored_order_and_rows_map_to_items() {
    let similars = vec![4usize, 1];
    let is_image = vec![true; 6];
    let plan = plan_view(2, &similars, &is_image);
    assert_eq!(plan.rows, vec![2, 4, 1]);
    assert_eq!(plan.rows.len(), 1 + similars.len());
    // 3 and 5 come after the selection and are not among the rows.
    assert_eq!(plan.prefetch, vec![3, 5]);
}

#[test]
fn prefetch_stops_at_end_of_collection() {
    let plan = plan_view(1, &vec![], &vec![true, true, true]);
    assert_eq!(plan.rows, vec![1]);
    assert_eq!(plan.prefetch, vec![2]);
    let last = plan_view(2, &vec![], &vec![true, true, true]);
    assert!(last.prefetch.is_empty());
}

#[test]
fn contains_index_finds_members_only() {
    assert!(contains_index(&vec![3, 7], 7));
    assert!(!contains_index(&vec![3, 7], 5));
    assert!(!contains_index(&vec![], 0));
}

#[test]
fn first_event_holding_the_day() {
    let events = vec![
        EventRange { name: String::from("Trip"), first_day: 10, last_day: 20 },
        EventRange { name: String::from("Party"), first_day: 15, last_day: 15 },
    ];
    assert_eq!(find_event(&events, 15), Some(0));
    assert_eq!(find_event(&events, 10), Some(0));
    assert_eq!(find_event(&events, 21), None);
    assert_eq!(find_event(&vec![], 1), None);
}

fn run_scan_steps(s: &mut Synchronizer) {
    assert_eq!(s.phase(), Some(ScanPhase::LoadPersisted));
    assert_eq!(s.advance(), Some(ScanPhase::Rescan));
    assert_eq!(s.advance(), Some(ScanPhase::Group));
    assert_eq!(s.advance(), Some(ScanPhase::Publish));
    assert_eq!(s.advance(), None);
}

#[test]
fn empty_directory_shows_no_images_found() {
    let mut s = Synchronizer::new();
    s.synchronize("/photos/empty");
    let job = s.take_next().unwrap();
    assert_eq!(job.seq, 0);
    assert_eq!(job.path, "/photos/empty");
    run_scan_steps(&mut s);
    let p = s.complete(0).unwrap();
    assert_eq!(p.seq, 0);
    assert_eq!(p.num_items, 0);
    assert_eq!(p.action, PublishAction::ShowEmpty);
    assert_eq!(empty_status_text(), "No images found");
}

#[test]
fn scans_run_and_publish_in_submission_order() {
    let mut s = Synchronizer::new();
    s.synchronize("/a");
    let first = s.take_next().unwrap();
    // Requests arriving while a scan runs wait for it.
    s.synchronize("/b");
    s.synchronize("/c");
    assert!(s.take_next().is_none());
    assert_eq!(s.submitted(), 3);
    assert_eq!(first.path, "/a");
    run_scan_steps(&mut s);
    assert_eq!(s.complete(4).unwrap().seq, 0);
    let second = s.take_next().unwrap();
    assert_eq!((second.seq, second.path.as_str()), (1, "/b"));
    run_scan_steps(&mut s);
    let p = s.complete(2).unwrap();
    assert_eq!((p.seq, p.action), (1, PublishAction::SelectFirst));
    let third = s.take_next().unwrap();
    assert_eq!((third.seq, third.path.as_str()), (2, "/c"));
    run_scan_steps(&mut s);
    assert_eq!(s.complete(1).unwrap().seq, 2);
    assert!(s.take_next().is_none());
    assert!(s.complete(0).is_none());
}

#[test]
fn toggling_a_row_flips_its_item() {
    let plan = plan_view(1, &vec![3], &vec![true; 4]);
    let mut take_over = vec![true, true, true, false];
    assert!(toggle_take_over(&plan.rows, 1, &mut take_over));
    assert_eq!(take_over, vec![true, true, true, true]);
    assert!(!toggle_take_over(&plan.rows, 0, &mut take_over));
    assert_eq!(take_over, vec![true, false, true, true]);
}

#[test]
fn scan_is_not_published_before_its_last_step() {
    let mut s = Synchronizer::new();
    assert_eq!(s.phase(), None);
    assert_eq!(s.advance(), None);
    s.synchronize("/x");
    s.take_next().unwrap();
    assert!(s.complete(3).is_none());
    s.advance();
    s.advance();
    assert!(s.complete(3).is_none());
    s.advance();
    let p = s.complete(3).unwrap();
    assert_eq!((p.seq, p.num_items, p.action), (0, 3, PublishAction::SelectFirst));
    assert_eq!(s.phase(), None);
}
