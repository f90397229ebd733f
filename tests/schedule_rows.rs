use raytracer::schedule::{
    dither_seed, progress_hundredths, row_seed, ProgressClock, RenderSchedule, Step,
    REPORT_INTERVAL_NS,
};

#[test]
fn rows_go_out_in_order_within_limit() {
    let mut s = RenderSchedule::new(3, 2);
    assert_eq!(s.next_step(), Step::Dispatch(0));
    s.dispatched();
    assert_eq!(s.next_step(), Step::Dispatch(1));
    s.dispatched();
    assert_eq!(s.next_step(), Step::Poll);
    assert!(s.finished(1));
    assert_eq!(s.rows_done(), 1);
    assert_eq!(s.next_step(), Step::Dispatch(2));
    s.dispatched();
    assert_eq!(s.next_step(), Step::Wait);
    assert!(s.finished(0));
    assert!(s.finished(2));
    assert_eq!(s.next_step(), Step::Finished);
    assert_eq!(s.rows_done(), 3);
}

#[test]
fn result_taken_once_and_only_after_dispatch() {
    let mut s = RenderSchedule::new(4, 1);
    assert!(!s.finished(0));
    s.dispatched();
    assert!(!s.finished(1));
    assert!(!s.finished(9));
    assert!(s.finished(0));
    assert!(!s.finished(0));
    assert_eq!(s.rows_done(), 1);
}

#[test]
fn empty_image_is_finished() {
    let s = RenderSchedule::new(0, 4);
    assert_eq!(s.next_step(), Step::Finished);
}

#[test]
fn machine_schedule_has_a_worker() {
    let s = RenderSchedule::with_available_workers(10);
    assert!(s.limit() >= 1);
    assert_eq!(s.next_step(), Step::Dispatch(0));
}

#[test]
fn seeds() {
    assert_eq!(row_seed(0), 31);
    assert_eq!(row_seed(5), 36);
    assert_eq!(dither_seed(), 97);
}

#[test]
fn progress_rounding() {
    assert_eq!(progress_hundredths(1, 3), 3333);
    assert_eq!(progress_hundredths(2, 3), 6667);
    assert_eq!(progress_hundredths(1, 8), 1250);
    assert_eq!(progress_hundredths(0, 7), 0);
    assert_eq!(progress_hundredths(7, 7), 10000);
}

#[test]
fn progress_clock_reports_after_interval() {
    let mut c = ProgressClock::new(1000);
    assert!(!c.observe(1000 + REPORT_INTERVAL_NS));
    assert_eq!(c.last, 1000);
    assert!(c.observe(1001 + REPORT_INTERVAL_NS));
    assert_eq!(c.last, 1001 + REPORT_INTERVAL_NS);
    assert!(!c.observe(5));
}
