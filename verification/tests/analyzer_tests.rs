use korgi_beats::analyzer::AudioAnalyzer;

#[test]
fn intervals_of_sorted_beats() {
    assert_eq!(AudioAnalyzer::beat_intervals(&vec![100, 600, 1100, 1700]), vec![500, 500, 600]);
}

#[test]
fn intervals_of_short_lists_are_empty() {
    assert!(AudioAnalyzer::beat_intervals(&vec![]).is_empty());
    assert!(AudioAnalyzer::beat_intervals(&vec![42]).is_empty());
}

#[test]
fn mode_bin_picks_most_frequent_50ms_bin() {
    // 510 and 540 share the 500 bin; 620 is alone in the 600 bin.
    assert_eq!(AudioAnalyzer::interval_mode_bin(&vec![510, 620, 540]), Some(500));
    assert_eq!(AudioAnalyzer::interval_mode_bin(&vec![49]), Some(0));
}

#[test]
fn mode_bin_of_no_intervals_is_none() {
    assert_eq!(AudioAnalyzer::interval_mode_bin(&vec![]), None);
}

#[test]
fn mode_bin_tie_returns_a_most_frequent_bin() {
    let r = AudioAnalyzer::interval_mode_bin(&vec![100, 200, 120, 230]).unwrap();
    assert!(r == 100 || r == 200);
}

#[test]
fn onset_spacing_rule() {
    assert!(AudioAnalyzer::onset_spacing_ok(None, 0));
    assert!(!AudioAnalyzer::onset_spacing_ok(Some(1000), 1120));
    assert!(AudioAnalyzer::onset_spacing_ok(Some(1000), 1121));
    assert!(!AudioAnalyzer::onset_spacing_ok(Some(1000), 900));
}

#[test]
fn pick_salient_beats_keeps_strongest_spaced_beats_in_time_order() {
    // Strongest first: 5000, then 5100 (too close), 1000, 9000, 3000.
    let ranked = vec![5000, 5100, 1000, 9000, 3000];
    assert_eq!(AudioAnalyzer::pick_salient_beats(&ranked, 1500, 5), vec![1000, 3000, 5000, 9000]);
}

#[test]
fn pick_salient_beats_respects_max_count() {
    let ranked = vec![4000, 1000, 7000, 10000];
    assert_eq!(AudioAnalyzer::pick_salient_beats(&ranked, 500, 2), vec![1000, 4000]);
    assert!(AudioAnalyzer::pick_salient_beats(&ranked, 500, 0).is_empty());
}

#[test]
fn pick_salient_beats_gap_is_strict() {
    assert_eq!(AudioAnalyzer::pick_salient_beats(&vec![1000, 1300], 300, 5), vec![1000]);
    assert_eq!(AudioAnalyzer::pick_salient_beats(&vec![1000, 1301], 300, 5), vec![1000, 1301]);
}

#[test]
fn select_beats_uses_a_sixth_of_the_span() {
    // Last onset at 6000 ms: gap is 1000 ms.
    let ranked = vec![3000, 3900, 1000, 5000, 2100, 6000];
    assert_eq!(AudioAnalyzer::select_beats(&ranked, 6000), vec![1000, 3000, 5000]);
}

#[test]
fn select_beats_relaxes_spacing_when_too_few() {
    // Last onset at 12000 ms: gap 2000 keeps only 12000 and 9000 -> retry at 1000.
    let ranked = vec![12000, 10500, 9000, 10200];
    assert_eq!(AudioAnalyzer::select_beats(&ranked, 12000), vec![9000, 10500, 12000]);
}

#[test]
fn select_beats_floor_gap_is_300ms() {
    // Gap 300 keeps only 100 and 401, so the pass is repeated at 150.
    let ranked = vec![100, 350, 401, 700];
    assert_eq!(AudioAnalyzer::pick_salient_beats(&ranked, 300, 5), vec![100, 401]);
    assert_eq!(AudioAnalyzer::select_beats(&ranked, 700), vec![100, 350, 700]);
}

#[test]
fn select_beats_returns_at_most_five() {
    let ranked: Vec<u64> = (0..20).map(|i| i * 10_000).collect();
    assert_eq!(AudioAnalyzer::select_beats(&ranked, 190_000).len(), 5);
}
