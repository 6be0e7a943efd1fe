use stasis::path::FilePath;
use stasis::report::{
    build_report, build_report_now, can_count, cutoff_ms, epoch_ms, estimated_watts,
    format_duration, read_all_episodes, record_line, render_report, report_data_path,
    report_path_in,
};
use stasis::report::{Episode, EpisodeKind, ReportRange, ReportRecorder, ReportSummary};

const WEEK_MS: u64 = 604_800_000;

fn episode(kind: EpisodeKind, start: u64, end: u64) -> Episode {
    Episode { kind, start, end }
}

fn path(text: &str) -> FilePath {
    FilePath { bytes: text.as_bytes().to_vec() }
}

#[test]
fn format_duration_basic() {
    assert_eq!(format_duration(0), "0s");
    assert_eq!(format_duration(45_000), "45s");
    assert_eq!(format_duration(60_000), "1m");
    assert_eq!(format_duration(3_660_000), "1h 1m");
    assert_eq!(format_duration(19_152_000), "5h 19m");
}

#[test]
fn format_duration_edges() {
    assert_eq!(format_duration(999), "0s");
    assert_eq!(format_duration(59_999), "59s");
    assert_eq!(format_duration(3_599_999), "59m");
    assert_eq!(format_duration(3_600_000), "1h 0m");
    assert_eq!(format_duration(u64::MAX), "5124095576030h 25m");
}

#[test]
fn summary_aggregates_kinds() {
    let mut s = ReportSummary::default();
    s.add(&Episode {
        kind: EpisodeKind::LowPower,
        start: 0,
        end: 3_600_000,
    });
    s.add(&Episode {
        kind: EpisodeKind::LowPower,
        start: 0,
        end: 1_800_000,
    });
    s.add(&Episode {
        kind: EpisodeKind::Suspend,
        start: 0,
        end: 7_200_000,
    });
    assert_eq!(s.low_power_ms, 5_400_000); // 1.5h
    assert_eq!(s.suspend_ms, 7_200_000); // 2h
    assert_eq!(s.episode_count, 3);
}

#[test]
fn summary_keeps_display_off_apart() {
    let mut s = ReportSummary::default();
    s.add(&episode(EpisodeKind::DisplayOff, 5, 12));
    assert_eq!(s.display_off_ms, 7);
    assert_eq!(s.low_power_ms, 0);
    assert_eq!(s.suspend_ms, 0);
    assert_eq!(s.confidence(), "low (estimated)");
}

#[test]
fn watts_give_the_energy_estimate() {
    assert_eq!(estimated_watts(EpisodeKind::DisplayOff), 10);
    assert_eq!(estimated_watts(EpisodeKind::LowPower), 15);
    assert_eq!(estimated_watts(EpisodeKind::Suspend), 30);
    // 15W * 1h / 1000 = 0.015 kWh
    let kwh = estimated_watts(EpisodeKind::LowPower) as f64 * 3_600_000f64 / 3_600_000.0 / 1000.0;
    assert!((kwh - 0.015).abs() < 0.001);
}

#[test]
fn empty_summary_has_zero_durations() {
    let s = ReportSummary::default();
    assert_eq!(s.display_off_ms, 0);
    assert_eq!(s.low_power_ms, 0);
    assert_eq!(s.suspend_ms, 0);
    assert_eq!(s.episode_count, 0);
    assert_eq!(s.confidence(), "none");
}

#[test]
fn render_report_with_data() {
    let mut s = ReportSummary::default();
    s.add(&Episode {
        kind: EpisodeKind::LowPower,
        start: 0,
        end: 8_100_000, // 2h 15m
    });
    let out = render_report(ReportRange::Today, &s, "0.03");
    assert!(out.contains("Low power:     2h 15m"));
    assert!(out.contains("Estimated energy saved"));
}

#[test]
fn render_report_exact_text() {
    let mut s = ReportSummary::default();
    s.add(&episode(EpisodeKind::DisplayOff, 0, 45_000));
    s.add(&episode(EpisodeKind::Suspend, 0, 7_200_000));
    assert_eq!(
        render_report(ReportRange::Week, &s, "0.06"),
        "Stasis Report\n\nThis Week\n  Display off:   45s\n  Low power:     0s\n  \
         Suspended:     2h 0m\n\n  Estimated energy saved: 0.06 kWh\n  \
         Estimate confidence:    low (estimated)\n"
    );
    assert_eq!(
        render_report(ReportRange::Today, &ReportSummary::default(), "0.00"),
        "Stasis Report\n\nToday\n  Display off:   0s\n  Low power:     0s\n  \
         Suspended:     0s\n\n  (no idle episodes recorded yet)\n"
    );
}

#[test]
fn cutoffs() {
    assert_eq!(cutoff_ms(ReportRange::Today, 900, Some(300)), 300);
    assert_eq!(cutoff_ms(ReportRange::Today, 900, None), 900);
    assert_eq!(cutoff_ms(ReportRange::Week, 900, Some(300)), 0);
    assert_eq!(cutoff_ms(ReportRange::Week, WEEK_MS + 7, None), 7);
}

#[test]
fn report_clips_and_drops() {
    let episodes = vec![
        episode(EpisodeKind::Suspend, 0, 99),
        episode(EpisodeKind::Suspend, 40, 150),
        episode(EpisodeKind::DisplayOff, 120, 125),
        episode(EpisodeKind::LowPower, 100, 100),
    ];
    let report = build_report(ReportRange::Today, Some(&episodes), 200, Some(100)).unwrap();
    assert_eq!(report.suspend_ms, 50);
    assert_eq!(report.display_off_ms, 5);
    assert_eq!(report.low_power_ms, 0);
    assert_eq!(report.episode_count, 3);
    let week = build_report(ReportRange::Week, Some(&episodes), 200, Some(100)).unwrap();
    assert_eq!(week.suspend_ms, 209);
    assert_eq!(week.episode_count, 4);
}

#[test]
fn report_without_a_data_file() {
    assert_eq!(
        build_report(ReportRange::Today, None, 200, Some(100)),
        Err("could not determine state directory".to_string())
    );
    assert_eq!(
        build_report_now(ReportRange::Week, None, 200),
        Some(Err("could not determine state directory".to_string()))
    );
}

#[test]
fn totals_add_up() {
    let a = vec![episode(EpisodeKind::Suspend, 0, 30)];
    let b = vec![episode(EpisodeKind::Suspend, 5, 30), episode(EpisodeKind::LowPower, 0, 7)];
    let both: Vec<Episode> = a.iter().chain(b.iter()).copied().collect();
    let ra = build_report(ReportRange::Week, Some(&a), 100, None).unwrap();
    let rb = build_report(ReportRange::Week, Some(&b), 100, None).unwrap();
    let r = build_report(ReportRange::Week, Some(&both), 100, None).unwrap();
    assert_eq!(r.suspend_ms, ra.suspend_ms + rb.suspend_ms);
    assert_eq!(r.low_power_ms, ra.low_power_ms + rb.low_power_ms);
    assert_eq!(r.episode_count, ra.episode_count + rb.episode_count);
}

#[test]
fn today_counts_no_more_than_the_week() {
    let now = 2 * WEEK_MS;
    let episodes = vec![
        episode(EpisodeKind::Suspend, now - WEEK_MS - 10, now - WEEK_MS + 10),
        episode(EpisodeKind::Suspend, now - 1000, now - 10),
    ];
    let today = build_report(ReportRange::Today, Some(&episodes), now, Some(now - 500)).unwrap();
    let week = build_report(ReportRange::Week, Some(&episodes), now, Some(now - 500)).unwrap();
    assert_eq!(today.suspend_ms, 490);
    assert_eq!(week.suspend_ms, 1000);
}

#[test]
fn uncountable_episodes_are_found() {
    let backwards = vec![episode(EpisodeKind::LowPower, 50, 40)];
    assert!(!can_count(&backwards, 0));
    assert!(can_count(&backwards, 41));
    assert_eq!(build_report_now(ReportRange::Week, Some(&backwards), 100), None);
    let huge = vec![
        episode(EpisodeKind::LowPower, 0, u64::MAX),
        episode(EpisodeKind::LowPower, 0, 1),
    ];
    assert!(!can_count(&huge, 0));
    assert!(can_count(&huge, 2));
    let apart = vec![
        episode(EpisodeKind::LowPower, 0, u64::MAX),
        episode(EpisodeKind::Suspend, 0, 1),
    ];
    assert!(can_count(&apart, 0));
}

#[test]
fn week_report_of_the_moment() {
    let now = 2 * WEEK_MS;
    let episodes = vec![episode(EpisodeKind::Suspend, now - WEEK_MS - 10, now - WEEK_MS + 10)];
    let report = build_report_now(ReportRange::Week, Some(&episodes), now).unwrap().unwrap();
    assert_eq!(report.suspend_ms, 10);
}

#[test]
fn today_report_of_the_moment() {
    let now = std::time::SystemTime::now()
        .duration_since(std::time::UNIX_EPOCH)
        .unwrap()
        .as_millis() as u64;
    let episodes = vec![
        episode(EpisodeKind::Suspend, now - 2 * WEEK_MS, now - WEEK_MS),
        episode(EpisodeKind::LowPower, now, now + 10_000),
    ];
    let report = build_report_now(ReportRange::Today, Some(&episodes), now).unwrap().unwrap();
    assert_eq!(report.suspend_ms, 0);
    assert_eq!(report.low_power_ms, 10_000);
    assert_eq!(report.episode_count, 1);
}

#[test]
fn clock_readings() {
    assert_eq!(epoch_ms(Some(1_234_567_890_000)), 1_234_567_890_000);
    assert_eq!(epoch_ms(None), 0);
    assert_eq!(epoch_ms(Some((1u128 << 64) + 5)), 5);
}

#[test]
fn data_path_below_known_directories() {
    let state = Some(path("/s"));
    let home = Some(path("/home/alice/"));
    assert_eq!(report_path_in(state, home.clone()).unwrap().bytes, b"/s/stasis/report.jsonl");
    assert_eq!(
        report_path_in(None, home).unwrap().bytes,
        b"/home/alice/.local/state/stasis/report.jsonl"
    );
    assert!(report_path_in(None, None).is_none());
}

#[test]
fn data_path_of_this_user() {
    let state = dirs::state_dir().or_else(|| dirs::home_dir().map(|h| h.join(".local/state")));
    let expected = state.map(|dir| dir.join("stasis").join("report.jsonl"));
    let expected = expected.map(|path| path.into_os_string().into_encoded_bytes());
    assert_eq!(report_data_path().map(|path| path.bytes), expected);
    match report_data_path() {
        Some(found) => {
            assert!(found.bytes.ends_with(b"/stasis/report.jsonl"));
            assert_eq!(ReportRecorder::new().path().bytes, found.bytes);
            assert_eq!(ReportRecorder::default().path().bytes, found.bytes);
        }
        None => assert_eq!(ReportRecorder::new().path().bytes, b"report.jsonl"),
    }
}

#[test]
fn recorder_falls_back_to_a_relative_path() {
    assert_eq!(ReportRecorder::with_path(None).path().bytes, b"report.jsonl");
    assert_eq!(ReportRecorder::with_path(Some(path("/x"))).path().bytes, b"/x");
}

#[test]
fn recorder_completes_episodes() {
    let mut r = ReportRecorder::with_path(None);
    assert_eq!(r.end(EpisodeKind::Suspend, 10), None);
    r.start(EpisodeKind::Suspend, 10);
    r.start(EpisodeKind::LowPower, 11);
    assert_eq!(r.end(EpisodeKind::Suspend, 30), Some(episode(EpisodeKind::Suspend, 10, 30)));
    assert_eq!(r.end(EpisodeKind::Suspend, 31), None);
    assert_eq!(r.end(EpisodeKind::LowPower, 5), Some(episode(EpisodeKind::LowPower, 11, 11)));
}

#[test]
fn recorder_keeps_the_latest_start() {
    let mut r = ReportRecorder::with_path(None);
    r.start(EpisodeKind::DisplayOff, 10);
    r.start(EpisodeKind::DisplayOff, 20);
    assert_eq!(r.end(EpisodeKind::DisplayOff, 25), Some(episode(EpisodeKind::DisplayOff, 20, 25)));
}

#[test]
fn recorder_flushes_every_open_episode() {
    let mut r = ReportRecorder::with_path(None);
    r.start(EpisodeKind::Suspend, 10);
    r.start(EpisodeKind::DisplayOff, 20);
    assert_eq!(
        r.flush(30),
        vec![episode(EpisodeKind::DisplayOff, 20, 30), episode(EpisodeKind::Suspend, 10, 30)]
    );
    assert_eq!(r.flush(40), vec![]);
    assert_eq!(r.end(EpisodeKind::Suspend, 50), None);
}

fn encode(e: &Episode) -> String {
    let kind = match e.kind {
        EpisodeKind::DisplayOff => "d",
        EpisodeKind::LowPower => "l",
        EpisodeKind::Suspend => "s",
    };
    format!("{kind} {} {}", e.start, e.end)
}

fn decode(line: &str) -> Option<Episode> {
    let mut parts = line.split(' ');
    let kind = match parts.next()? {
        "d" => EpisodeKind::DisplayOff,
        "l" => EpisodeKind::LowPower,
        "s" => EpisodeKind::Suspend,
        _ => return None,
    };
    let start = parts.next()?.parse().ok()?;
    let end = parts.next()?.parse().ok()?;
    Some(Episode { kind, start, end })
}

#[test]
fn recorded_episodes_are_read_back() {
    let episodes = vec![
        episode(EpisodeKind::Suspend, 1, 2),
        episode(EpisodeKind::DisplayOff, 3, 40),
        episode(EpisodeKind::LowPower, 5, 5),
    ];
    let mut text = String::new();
    for e in &episodes {
        text.push_str(&record_line(Some(encode(e))));
    }
    assert_eq!(read_all_episodes(Some(text.as_str()), decode), episodes);
}

fn json_line(e: &Episode) -> Option<String> {
    let kind = match e.kind {
        EpisodeKind::DisplayOff => "display_off",
        EpisodeKind::LowPower => "low_power",
        EpisodeKind::Suspend => "suspend",
    };
    let mut map = serde_json::Map::new();
    map.insert("kind".to_string(), serde_json::Value::from(kind));
    map.insert("start".to_string(), serde_json::Value::from(e.start));
    map.insert("end".to_string(), serde_json::Value::from(e.end));
    serde_json::to_string(&serde_json::Value::Object(map)).ok()
}

fn json_episode(line: &str) -> Option<Episode> {
    let value: serde_json::Value = serde_json::from_str(line).ok()?;
    let kind = match value.get("kind")?.as_str()? {
        "display_off" => EpisodeKind::DisplayOff,
        "low_power" => EpisodeKind::LowPower,
        "suspend" => EpisodeKind::Suspend,
        _ => return None,
    };
    Some(Episode { kind, start: value.get("start")?.as_u64()?, end: value.get("end")?.as_u64()? })
}

#[test]
fn an_appended_episode_follows_what_was_read_before() {
    let texts = [
        "",
        "\n",
        "not json\n",
        "{\"kind\":\"low_power\",\"start\":1234567890000,\"end\":1234567950000}\n",
        "{\"kind\":\"suspend\",\"start\":1,\"end\":2}\n\n{\"kind\":\"other\"}\n",
    ];
    let episodes = [
        episode(EpisodeKind::DisplayOff, 0, u64::MAX),
        episode(EpisodeKind::LowPower, 7, 7),
        episode(EpisodeKind::Suspend, 3, 40),
    ];
    for text in texts {
        for e in episodes {
            let before = read_all_episodes(Some(text), json_episode);
            let longer = format!("{text}{}", record_line(json_line(&e)));
            let mut expected = before.clone();
            expected.push(e);
            assert_eq!(read_all_episodes(Some(longer.as_str()), json_episode), expected);
        }
    }
    assert_eq!(
        read_all_episodes(Some(texts[3]), json_episode),
        vec![episode(EpisodeKind::LowPower, 1_234_567_890_000, 1_234_567_950_000)]
    );
}

#[test]
fn bad_lines_are_passed_over() {
    let text = "\n  s 1 2 \r\nnonsense\n\n\t\nl 3 4";
    assert_eq!(
        read_all_episodes(Some(text), decode),
        vec![episode(EpisodeKind::Suspend, 1, 2), episode(EpisodeKind::LowPower, 3, 4)]
    );
    assert_eq!(read_all_episodes(None, decode), vec![]);
    assert_eq!(read_all_episodes(Some(""), decode), vec![]);
    assert_eq!(record_line(None), "\n");
    assert_eq!(record_line(Some("x".to_string())), "x\n");
}
