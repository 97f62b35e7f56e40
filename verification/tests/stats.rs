use rtlog::stats::{classify, StatsWindow, SPARK_WINDOW};

#[test]
fn classify_finds_error_and_warn_in_any_case() {
    assert_eq!(classify("An ERROR occurred"), (true, false));
    assert_eq!(classify("error"), (true, false));
    assert_eq!(classify("eRrOr!"), (true, false));
    assert_eq!(classify("Warning: disk"), (false, true));
    assert_eq!(classify("WARN and Error"), (true, true));
    assert_eq!(classify("all fine"), (false, false));
    assert_eq!(classify(""), (false, false));
    assert_eq!(classify("erro"), (false, false));
    assert_eq!(classify("war n"), (false, false));
    assert_eq!(classify("xxwarnxx terrorist"), (true, true));
}

#[test]
fn classify_folds_ascii_only() {
    // U+212A KELVIN SIGN and other non-ASCII letters are left alone
    assert_eq!(classify("ÉRROR"), (false, false));
    assert_eq!(classify("é error"), (true, false));
}

#[test]
fn new_window_is_empty_and_dated_back() {
    let w = StatsWindow::new(1000);
    assert_eq!(SPARK_WINDOW, 60);
    assert_eq!(w.err_buckets.len(), 60);
    assert_eq!(w.warn_buckets.len(), 60);
    assert!(w.err_buckets.iter().all(|&c| c == 0));
    assert!(w.warn_buckets.iter().all(|&c| c == 0));
    assert_eq!(w.bucket_epoch_sec, 941);
    assert_eq!(StatsWindow::new(10).bucket_epoch_sec, 0);
    assert_eq!(StatsWindow::new(59).bucket_epoch_sec, 0);
    assert_eq!(StatsWindow::new(60).bucket_epoch_sec, 1);
}

#[test]
fn bump_raises_newest_slot() {
    let mut w = StatsWindow::new(100);
    w.bump_bucket(true);
    w.bump_bucket(true);
    w.bump_bucket(false);
    assert_eq!(w.err_buckets[59], 2);
    assert_eq!(w.warn_buckets[59], 1);
    assert_eq!(w.err_buckets[58], 0);
    assert_eq!(w.bucket_epoch_sec, 41);
}

#[test]
fn bump_saturates() {
    let mut w = StatsWindow::new(100);
    w.err_buckets[59] = u16::MAX - 1;
    w.bump_bucket(true);
    assert_eq!(w.err_buckets[59], u16::MAX);
    w.bump_bucket(true);
    assert_eq!(w.err_buckets[59], u16::MAX);
}

#[test]
fn update_buckets_shifts_by_elapsed_seconds() {
    let mut w = StatsWindow::new(100);
    for i in 0..60 {
        w.err_buckets[i] = (i + 1) as u16;
        w.warn_buckets[i] = (100 + i) as u16;
    }
    let epoch = w.bucket_epoch_sec;
    w.update_buckets(epoch + 3);
    assert_eq!(w.bucket_epoch_sec, epoch + 3);
    assert_eq!(w.err_buckets.len(), 60);
    for i in 0..57 {
        assert_eq!(w.err_buckets[i], (i + 4) as u16);
        assert_eq!(w.warn_buckets[i], (103 + i) as u16);
    }
    for i in 57..60 {
        assert_eq!(w.err_buckets[i], 0);
        assert_eq!(w.warn_buckets[i], 0);
    }
}

#[test]
fn update_buckets_by_one_second_clears_newest_only() {
    let mut w = StatsWindow::new(100);
    w.bump_bucket(true);
    let epoch = w.bucket_epoch_sec;
    w.update_buckets(epoch + 1);
    assert_eq!(w.err_buckets[59], 0);
    assert_eq!(w.err_buckets[58], 1);
}

#[test]
fn update_buckets_after_long_gap_clears_everything() {
    let mut w = StatsWindow::new(100);
    for i in 0..60 {
        w.err_buckets[i] = 7;
        w.warn_buckets[i] = 9;
    }
    let epoch = w.bucket_epoch_sec;
    w.update_buckets(epoch + 60);
    assert!(w.err_buckets.iter().all(|&c| c == 0));
    assert!(w.warn_buckets.iter().all(|&c| c == 0));
    for i in 0..60 {
        w.err_buckets[i] = 7;
    }
    w.update_buckets(u64::MAX);
    assert!(w.err_buckets.iter().all(|&c| c == 0));
    assert_eq!(w.bucket_epoch_sec, u64::MAX);
}

#[test]
fn update_buckets_ignores_clock_that_has_not_moved() {
    let mut w = StatsWindow::new(100);
    w.bump_bucket(true);
    w.bump_bucket(false);
    let before = w;
    w.update_buckets(before.bucket_epoch_sec);
    assert_eq!(w.err_buckets, before.err_buckets);
    assert_eq!(w.bucket_epoch_sec, before.bucket_epoch_sec);
    w.update_buckets(0);
    assert_eq!(w.err_buckets, before.err_buckets);
    assert_eq!(w.warn_buckets, before.warn_buckets);
    assert_eq!(w.bucket_epoch_sec, before.bucket_epoch_sec);
}

#[test]
fn record_counts_line_in_each_class() {
    let mut w = StatsWindow::new(100);
    w.record("error and warning");
    w.record("just an Error");
    w.record("nothing");
    assert_eq!(w.err_buckets[59], 2);
    assert_eq!(w.warn_buckets[59], 1);
}
