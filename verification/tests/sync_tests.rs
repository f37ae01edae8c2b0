use murmur::media::screen::ScreenShare;
use murmur::media::sync::{ntp_estimate, AudioSync, ClockProbe, ClockProbeResponse};

#[test]
fn ntp_estimate_example() {
    // sent at 1000, received remotely at 1600, answered at 1700, back at 1300 local
    // rtt = (1300 - 1000) - (1700 - 1600) = 200, one way 100
    // offset = ((1600 - 1000) + (1700 - 1300)) / 2 = 500
    assert_eq!(ntp_estimate(1000, 1600, 1700, 1300), (100, 500));
    assert_eq!(ntp_estimate(0, 0, 0, 0), (0, 0));
    // halves round toward zero
    assert_eq!(ntp_estimate(0, 0, 0, 3), (1, -1));
}

#[test]
fn fresh_sync_state() {
    let s = AudioSync::new();
    assert_eq!(s.alignment_delay_us(), 100_000);
    assert_eq!(s.next_probe_seq(), 0);
    assert!(s.peer_estimates("p").is_none());
    assert!(!s.peer_is_synced("p"));
    assert_eq!(s.playback_delay_for_peer("p"), 100_000);
    assert_eq!(s.remote_to_local_us("p", 12345), 12345);
}

#[test]
fn probes_take_sequence_numbers() {
    let mut s = AudioSync::new();
    s.add_peer("p");
    let a = s.create_probe("p");
    let b = s.create_probe("q");
    assert_eq!((a.seq, b.seq), (0, 1));
    assert_eq!(s.next_probe_seq(), 2);
    assert_eq!(s.peer_estimates("p"), Some((0, 0, 0)));
    assert!(s.peer_estimates("q").is_none());
}

#[test]
fn probe_answer_echoes() {
    let s = AudioSync::new();
    let r = s.handle_probe(&ClockProbe { seq: 7, t1_us: 42 });
    assert_eq!(r.seq, 7);
    assert_eq!(r.t1_us, 42);
    assert_eq!(r.t2_us, r.t3_us);
}

#[test]
fn first_measurement_sets_estimates_and_alignment() {
    let mut s = AudioSync::new();
    s.add_peer("p");
    let probe = s.create_probe("p");
    let resp = ClockProbeResponse { seq: probe.seq, t1_us: 1000, t2_us: 1600, t3_us: 1700 };
    // one way 30 ms: rtt = (61100 - 1000) - 100 = 60000
    s.handle_probe_response_at("p", &resp, 61_100, 0, 0);
    let (lat, _off, count) = s.peer_estimates("p").unwrap();
    assert_eq!(lat, 30_000);
    assert_eq!(count, 1);
    // alignment = max(50 ms, latency + 20 ms) = 50 ms
    assert_eq!(s.alignment_delay_us(), 50_000);
    assert_eq!(s.playback_delay_for_peer("p"), 20_000);
    s.remove_peer("p");
    assert!(s.peer_estimates("p").is_none());
    assert_eq!(s.alignment_delay_us(), 50_000);
}

#[test]
fn long_latency_raises_alignment() {
    let mut s = AudioSync::new();
    s.add_peer("far");
    s.add_peer("near");
    let p1 = s.create_probe("far");
    // one way 100 ms
    s.handle_probe_response_at("far", &ClockProbeResponse { seq: p1.seq, t1_us: 0, t2_us: 0, t3_us: 0 }, 200_000, 0, 0);
    let p2 = s.create_probe("near");
    // one way 10 ms
    s.handle_probe_response_at("near", &ClockProbeResponse { seq: p2.seq, t1_us: 0, t2_us: 0, t3_us: 0 }, 20_000, 0, 0);
    assert_eq!(s.alignment_delay_us(), 120_000);
    // every stream plays at the alignment delay after it was sent
    assert_eq!(s.playback_delay_for_peer("far") + 100_000, 120_000);
    assert_eq!(s.playback_delay_for_peer("near") + 10_000, 120_000);
    assert!(!s.peer_is_synced("far"));
}

#[test]
fn screen_share_states() {
    let mut s = ScreenShare::new();
    assert!(!s.is_active());
    assert_eq!(s.dimensions(), (0, 0));
    s.start();
    assert!(s.is_active());
    assert_eq!(s.dimensions(), (1920, 1080));
    s.stop();
    assert!(!s.is_active());
    assert_eq!(s.dimensions(), (1920, 1080));
}
