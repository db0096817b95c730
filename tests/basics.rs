use video_engine::abr::{select_level, Ema};
use video_engine::components::{LiveStreamPlayer, VideoOnDemand};
use video_engine::content_id::Cid;
use video_engine::media::{check_status, flush_range, select_sinks, Config, StatusDecision, TimeRange, Track};
use video_engine::text::push_decimal_bytes;
use video_engine::timecode::seconds_to_timecode;

fn cid(s: &str) -> Cid {
    Cid { text: s.to_string() }
}

fn track(name: &str, codec: &str, bandwidth: u64) -> Track {
    Track {
        name: name.to_string(),
        codec: codec.to_string(),
        bandwidth,
        initialization_segment: cid(&format!("init-{}", name)),
    }
}

fn ladder() -> Vec<Track> {
    vec![
        track("audio", "audio/mp4", 64000),
        track("v1", "video/mp4; v1", 500000),
        track("v2", "video/mp4; v2", 1500000),
        track("v3", "video/mp4; v3", 3000000),
    ]
}

#[test]
fn timecode_conversion() {
    assert_eq!(seconds_to_timecode(3_725_400), (1, 2, 5));
    assert_eq!(seconds_to_timecode(59_600), (0, 1, 0));
    assert_eq!(seconds_to_timecode(0), (0, 0, 0));
}

#[test]
fn timecode_rounds_halves_up_and_spans_days() {
    assert_eq!(seconds_to_timecode(499), (0, 0, 0));
    assert_eq!(seconds_to_timecode(500), (0, 0, 1));
    assert_eq!(seconds_to_timecode(3_599_500), (1, 0, 0));
    assert_eq!(seconds_to_timecode(360_000_000), (100, 0, 0));
    assert_eq!(seconds_to_timecode(u64::MAX).1 < 60, true);
}

#[test]
fn abr_step_up() {
    assert_eq!(select_level(&ladder(), 1_600_000), 2);
}

#[test]
fn abr_clamp() {
    assert_eq!(select_level(&ladder(), 10_000_000), 3);
}

#[test]
fn abr_ties_take_the_higher_level() {
    assert_eq!(select_level(&ladder(), 1_500_000), 2);
    assert_eq!(select_level(&ladder(), 1_499_999), 1);
    assert_eq!(select_level(&ladder(), 0), 1);
}

#[test]
fn abr_level_never_drops_as_average_rises() {
    let mut last = 1;
    for avg in [0u128, 400_000, 500_000, 1_000_000, 1_500_000, 2_999_999, 3_000_000, 9_000_000] {
        let l = select_level(&ladder(), avg);
        assert!(l >= last);
        assert!(l >= 1 && l <= 3);
        last = l;
    }
}

#[test]
fn ema_measures_and_smooths() {
    let mut e = Ema::new(300);
    assert_eq!(e.average(), None);
    e.record(1000, 5);
    assert_eq!(e.average(), None);
    e.start_timer(0);
    e.record(200_000, 1000);
    assert_eq!(e.average(), Some(1_600_000));
    e.start_timer(1000);
    e.record(100_000, 2000);
    assert_eq!(e.average(), Some(1_360_000));
    e.start_timer(5000);
    e.record(10, 5000);
    assert_eq!(e.average(), Some((300 * 80_000 + 700 * 1_360_000) / 1000));
}

#[test]
fn flush_triggers() {
    let cfg = Config::standard();
    let ranges = vec![TimeRange { start: 10_000, end: 35_000 }];
    assert_eq!(check_status(&ranges, 30_000, None, cfg), StatusDecision::Flush);
    let (start, end) = flush_range(&ranges, 30_000, cfg);
    assert_eq!((start, end), (10_000, 22_000));
    assert!(end >= 30_000 - cfg.back_buffer_ms);
}

#[test]
fn full_flush_when_back_buffer_is_short() {
    let cfg = Config::standard();
    let ranges = vec![TimeRange { start: 10_000, end: 12_000 }, TimeRange { start: 20_000, end: 25_000 }];
    assert_eq!(flush_range(&ranges, 15_000, cfg), (10_000, 25_000));
    assert_eq!(flush_range(&Vec::new(), 0, cfg), (0, 0));
}

#[test]
fn status_rules_in_order() {
    let cfg = Config::standard();
    let r = vec![TimeRange { start: 45_000, end: 60_000 }];
    assert_eq!(check_status(&r, 50_000, Some(60_000), cfg), StatusDecision::EndOfVideo);
    assert_eq!(check_status(&r, 50_000, Some(100_000), cfg), StatusDecision::Load);
    let r = vec![TimeRange { start: 45_000, end: 70_000 }];
    assert_eq!(check_status(&r, 50_000, Some(100_000), cfg), StatusDecision::Timeout);
    assert_eq!(check_status(&r, 50_000, None, cfg), StatusDecision::Load);
    assert_eq!(check_status(&r, 53_001, Some(100_000), cfg), StatusDecision::Flush);
    assert_eq!(check_status(&Vec::new(), 0, Some(100_000), cfg), StatusDecision::Load);
}

#[test]
fn sinks_for_first_supported_tracks() {
    let t = ladder();
    assert_eq!(select_sinks(&t, &vec![true, true, true, true]), Some((0, 1)));
    assert_eq!(select_sinks(&t, &vec![true, false, true, true]), Some((0, 2)));
    assert_eq!(select_sinks(&t, &vec![false, true, true, true]), None);
    assert_eq!(select_sinks(&t, &vec![true, false, false, false]), None);
}

#[test]
fn decimal_bytes() {
    let mut v = b"x".to_vec();
    push_decimal_bytes(&mut v, 90210);
    assert_eq!(v, b"x90210".to_vec());
    let mut v = Vec::new();
    push_decimal_bytes(&mut v, 0);
    assert_eq!(v, b"0".to_vec());
}

#[test]
fn cid_decodes_binary_form() {
    let text = "QmYwAPJzv5CZsnA625s3Xf2nemtYgPpHdWEz79ojWnPbdG";
    let c = <cid::Cid as std::convert::TryFrom<&str>>::try_from(text).unwrap();
    let decoded = Cid::decode(&c.to_bytes()).unwrap();
    assert_eq!(decoded.text, text);
    assert!(decoded.same(&cid(text)));
    assert!(!decoded.same(&cid("QmOther")));
}

#[test]
fn non_cid_payloads_do_not_decode() {
    assert!(Cid::decode(&b"Stopping".to_vec()).is_none());
    assert!(Cid::decode(&Vec::new()).is_none());
}

#[test]
fn pages_hold_their_topic() {
    let p = LiveStreamPlayer::create(LiveStreamPlayer { topic: "live".to_string() });
    assert_eq!(p.rendered(true), Some("live".to_string()));
    assert_eq!(p.rendered(false), None);
    assert_eq!(p.destroy(), "live");
    let _ = VideoOnDemand::create();
}
