use moq::table::Table;
use moq::util::bandwidth_estimator::{BandwidthEstimator, Sample, MIN_SAMPLE_INTERVAL};
use moq::util::cross_layer_metrics::{CrossLayerManager, CrossLayerMetrics, MAX_HISTORY};
use moq::util::quic_metrics::{Averages, DurationSummary, MediaQoSReporter};

#[test]
fn samples_hold_all_bytes() {
    let mut e = BandwidthEstimator::new(0);
    e.record_bytes(100);
    assert_eq!(e.update(MIN_SAMPLE_INTERVAL - 1), None);
    e.record_bytes(50);
    assert_eq!(e.bytes_since_last_sample(), 150);
    assert_eq!(
        e.update(MIN_SAMPLE_INTERVAL),
        Some(Sample { bytes: 150, elapsed: MIN_SAMPLE_INTERVAL })
    );
    assert_eq!(e.bytes_since_last_sample(), 0);
    assert_eq!(e.update(3 * MIN_SAMPLE_INTERVAL), None);
    e.record_bytes(1);
    assert_eq!(
        e.update(3 * MIN_SAMPLE_INTERVAL),
        Some(Sample { bytes: 1, elapsed: 2 * MIN_SAMPLE_INTERVAL })
    );
    e.record_bytes(7);
    e.reset(9);
    assert_eq!(e.bytes_since_last_sample(), 0);
    assert_eq!(e.last_sample_time, 9);
    assert_eq!(MIN_SAMPLE_INTERVAL, 100_000_000);
}

#[test]
fn an_estimator_knows_its_path_where_that_is_kept() {
    let mut e = BandwidthEstimator::new(0);
    e.update_quic_metrics(5, 6, 7, 1, 2);
    assert_eq!(e.cross_layer_metrics(), None);
    let mut e = BandwidthEstimator::with_cross_layer(0);
    assert_eq!(e.cross_layer_metrics(), Some(CrossLayerMetrics::default()));
    e.update_quic_metrics(5, 6, 7, 1, 2);
    let m = e.cross_layer_metrics().unwrap();
    assert_eq!((m.rtt_min, m.rtt_current, m.cwnd, m.bytes_in_flight), (5, 5, 6, 7));
    assert_eq!((m.mss, m.queue_length), (1200, 0));
}

#[test]
fn an_estimator_that_starts_over_knows_nothing() {
    let mut e = BandwidthEstimator::with_cross_layer(0);
    e.record_bytes(10);
    e.update_quic_metrics(250_000_000, 24000, 7, 1, 4);
    e.reset(5);
    assert_eq!(e.bytes_since_last_sample(), 0);
    assert_eq!(e.last_sample_time, 5);
    let m = e.cross_layer_metrics().unwrap();
    assert_eq!((m.cwnd, m.bytes_in_flight), (10000, 0));
    assert_eq!((m.rtt_current, m.rtt_min), (50_000_000, 10_000_000));
    let manager = e.cross_layer_manager.as_ref().unwrap();
    assert!(manager.rtt_history.is_empty() && manager.loss_history.is_empty());
    let mut e = BandwidthEstimator::new(0);
    e.reset(5);
    assert_eq!(e.cross_layer_metrics(), None);
}

#[test]
fn the_least_round_trip_time_of_the_last_measurements() {
    let mut m = CrossLayerManager::new();
    m.update_from_quic(30, 1, 1, 0, 0);
    m.update_from_quic(10, 1, 1, 2, 4);
    m.update_from_quic(20, 1, 1, 0, 0);
    assert_eq!(m.get_metrics().rtt_min, 10);
    assert_eq!(m.get_metrics().rtt_current, 20);
    assert_eq!(m.loss_history, vec![(2, 4)]);
    for i in 0..MAX_HISTORY {
        m.update_from_quic(100 + i as u128, 1, 1, i as u64, 9);
    }
    assert_eq!(m.rtt_history.len(), 100);
    assert_eq!(m.get_metrics().rtt_min, 100);
    assert_eq!(m.loss_history.len(), 100);
    assert_eq!(m.loss_history[0], (0, 9));
    assert_eq!(m.loss_history[99], (99, 9));
}

#[test]
fn packets_are_counted() {
    let m = CrossLayerMetrics::default();
    assert_eq!((m.rtt_min, m.rtt_current, m.cwnd), (10_000_000, 50_000_000, 10_000));
    assert_eq!(m.packets_in_cwnd(), 8);
    assert_eq!(m.packets_needed(0), 0);
    assert_eq!(m.packets_needed(1), 1);
    assert_eq!(m.packets_needed(1200), 1);
    assert_eq!(m.packets_needed(1201), 2);
}

#[test]
fn frames_that_are_left_out_are_missing() {
    let mut q = MediaQoSReporter::new(0);
    let t = String::from("1.m4s");
    q.record_frame_rendered(&t, 5, None, 0, None);
    q.record_frame_rendered(&t, 6, None, 0, None);
    q.record_frame_rendered(&t, 10, None, 0, None);
    q.record_frame_rendered(&t, 2, None, 0, None);
    let s = q.stats(&t);
    assert_eq!((s.total_frames, s.missing_frames), (4, 3));
    assert_eq!(s.last_sequence, Some(2));
    q.record_missing_frames(&t, 0);
    q.record_missing_frames(&t, 2);
    q.record_missing_frames(&t, u64::MAX);
    assert_eq!(q.stats(&t).missing_frames, u64::MAX);
    q.record_decoder_drop(&t, 4);
    assert_eq!(q.stats(&t).decoder_dropped, 4);
}

#[test]
fn frames_add_to_the_averages() {
    let mut q = MediaQoSReporter::new(0);
    let t = String::from("v");
    let s = q.record_frame_rendered(&t, 0, Some(100), 130, Some(0));
    assert_eq!((s.latency, s.gaps), (Some(30), None));
    let s = q.record_frame_rendered(&t, 1, Some(200), 180, Some(42));
    assert_eq!((s.latency, s.gaps), (None, Some((50, 42))));
    let s = q.record_frame_rendered(&t, 2, None, 190, None);
    assert_eq!((s.latency, s.gaps), (None, None));
    let s = q.record_frame_rendered(&t, 3, None, 200, Some(41));
    assert_eq!(s.gaps, None);
    let s = q.record_frame_rendered(&t, 4, None, 199, Some(50));
    assert_eq!(s.gaps, None);
}

#[test]
fn stalls_and_the_first_delay_count() {
    let mut q = MediaQoSReporter::new(0);
    let t = String::from("v");
    assert!(!q.record_playback_stall(&t, 0));
    assert!(q.track_names().is_empty());
    assert!(q.record_playback_stall(&t, 5));
    assert!(q.record_playback_stall(&t, 6));
    q.record_startup_delay(&t, 70);
    q.record_startup_delay(&t, 80);
    let summary = DurationSummary { last: 6, mean: 5, min: 5, max: 6, samples: 2 };
    let averages = Averages {
        frame_latency: None,
        playback_jitter: None,
        stall_duration: Some(summary),
    };
    let r = q.report(&t, averages);
    assert_eq!(r.track, "v");
    assert_eq!((r.stall_events, r.total_stall_time), (2, 11));
    assert_eq!(r.startup_delay, Some(70));
    assert_eq!(r.averages, averages);
    assert_eq!((r.total_frames, r.missing_frames, r.decoder_dropped), (0, 0, 0));
}

#[test]
fn what_has_been_counted_is_reported_until_it_is_forgotten() {
    let mut q = MediaQoSReporter::new(0);
    let names: Vec<String> = ["a", "b", "c", "d", "e", "f"].map(String::from).to_vec();
    q.record_frame_rendered(&names[0], 1, None, 5, None);
    q.record_decoder_drop(&names[1], 0);
    q.record_missing_frames(&names[1], 0);
    q.record_decoder_drop(&names[2], 3);
    q.record_startup_delay(&names[3], 9);
    q.record_score(&names[4]);
    q.record_playback_stall(&names[5], 4);
    q.clear_track(&names[0]);
    q.clear_track(&names[2]);
    q.record_missing_frames(&names[2], 2);
    let latency = DurationSummary { last: 1, mean: 1, min: 1, max: 1, samples: 1 };
    let some = Averages {
        frame_latency: Some(latency),
        playback_jitter: None,
        stall_duration: None,
    };
    let none = Averages { frame_latency: None, playback_jitter: None, stall_duration: None };
    let mut averages = Table::new();
    averages.insert(names[3].clone(), some);
    let mut first = q.snapshot(&averages);
    let mut second = q.snapshot(&averages);
    first.sort_by(|a, b| a.track.cmp(&b.track));
    second.sort_by(|a, b| a.track.cmp(&b.track));
    let tracks: Vec<&str> = first.iter().map(|r| r.track.as_str()).collect();
    assert_eq!(tracks, vec!["c", "d", "e", "f"]);
    assert_eq!(format!("{:?}", first), format!("{:?}", second));
    assert_eq!((first[0].decoder_dropped, first[0].missing_frames), (0, 2));
    assert_eq!((first[1].startup_delay, first[1].averages), (Some(9), some));
    assert_eq!((first[2].total_frames, first[2].averages), (0, none));
    assert_eq!((first[3].stall_events, first[3].total_stall_time), (1, 4));
    q.clear_all();
    assert!(q.snapshot(&averages).is_empty());
}

#[test]
fn tracks_are_counted_apart() {
    let mut q = MediaQoSReporter::new(0);
    let a = String::from("a");
    let b = String::from("b");
    q.record_missing_frames(&a, 1);
    q.record_missing_frames(&b, 2);
    let mut names = q.track_names();
    names.sort();
    assert_eq!(names, vec!["a", "b"]);
    q.clear_track(&a);
    assert_eq!(q.track_names(), vec!["b"]);
    assert_eq!(q.stats(&a).missing_frames, 0);
    assert_eq!(q.stats(&b).missing_frames, 2);
    q.clear_all();
    assert!(q.track_names().is_empty());
}

#[test]
fn reports_are_due_after_the_interval() {
    let mut q = MediaQoSReporter::new(0);
    assert!(q.report_due(0));
    assert!(q.report_due(0));
    let mut q = MediaQoSReporter::with_report_interval(10, 5);
    assert!(!q.report_due(14));
    assert!(q.report_due(15));
    assert!(!q.report_due(24));
    assert!(q.report_due(25));
    q.set_report_interval(Some(1), 30);
    assert!(!q.report_due(30));
    q.set_report_interval(None, 30);
    assert!(q.report_due(30));
}

#[test]
fn a_table_holds_one_value_for_each_key() {
    let one = String::from("1");
    let two = String::from("2");
    let mut t: Table<String, &str> = Table::new();
    assert_eq!(t.insert(one.clone(), "a"), None);
    assert_eq!(t.insert(two.clone(), "b"), None);
    assert_eq!(t.insert(one.clone(), "c"), Some("a"));
    assert_eq!(t.get(&one), Some(&"c"));
    assert!(t.contains(&two));
    assert_eq!(t.remove(&one), Some("c"));
    assert_eq!(t.remove(&one), None);
    assert_eq!(t.get(&one), None);
    assert_eq!(t.names(), vec!["2"]);
}

#[test]
fn the_metrics_of_a_path_can_be_changed() {
    let mut m = CrossLayerManager::new();
    m.get_metrics_mut().queue_length = 7;
    assert_eq!(m.get_metrics().queue_length, 7);
    m.update_from_quic(30, 5000, 100, 1, 10);
    assert_eq!(m.get_metrics().queue_length, 7);
    assert_eq!(m.get_metrics().cwnd, 5000);
}
