use ksm_import::chart::{chart_path, is_score_file, ChartPathError, ScoreFile};
use ksm_import::digest::{chart_digest, HashCache};
use ksm_import::importer::{decimal_text, Importer, Progress, Step};
use ksm_import::schema::{version_19, InsertRoutine};
use ksm_import::score::{Gauge, KsmScore, LineError};

fn percent_text(g: &Gauge) -> String {
    g.percent.iter().collect()
}

fn gauge_of(g: &Gauge) -> f64 {
    percent_text(g).parse::<f64>().unwrap() / 100.0
}

fn strings(parts: &[&str]) -> Vec<String> {
    parts.iter().map(|s| s.to_string()).collect()
}

fn score_file(parts: &[&str]) -> ScoreFile {
    ScoreFile { display: parts.join("/"), components: strings(parts) }
}

#[test]
fn parses_hard_gauge_line() {
    let s = KsmScore::from_str("hard,normal,normal,on,on,on=1000000,2,0,98.50").unwrap();
    assert_eq!(s.score, 1000000);
    assert_eq!(s.badge, 2);
    assert_eq!(s.miss, 0);
    assert_eq!(s.crit, 0);
    assert_eq!(s.near, 0);
    assert_eq!(percent_text(&s.gauge), "98.50");
    assert_eq!(gauge_of(&s.gauge), 0.985);
    assert!(s.hard);
}

#[test]
fn parses_normal_gauge_line_with_low_badge() {
    let s = KsmScore::from_str("normal,normal,normal,on,on,on=875000,1,3,72,9").unwrap();
    assert_eq!(s.score, 875000);
    assert_eq!(s.badge, 1);
    assert_eq!(s.miss, 1);
    assert_eq!(percent_text(&s.gauge), "72");
    assert_eq!(gauge_of(&s.gauge), 0.72);
    assert!(!s.hard);
}

#[test]
fn gauge_is_field_over_hundred() {
    let s = KsmScore::from_str("normal,normal,normal,on,on,on=1,5,0,0.125").unwrap();
    assert_eq!(gauge_of(&s.gauge), 0.00125);
    assert_eq!(s.miss, 0);
    let s = KsmScore::from_str("normal,normal,normal,on,on,on=1,0,0,100").unwrap();
    assert_eq!(gauge_of(&s.gauge), 1.0);
    assert_eq!(s.miss, 1);
}

#[test]
fn rejects_unsupported_profiles() {
    for line in [
        "",
        "easy,normal,normal,on,on,on=1,2,0,50",
        "hard,normal,normal,on,on,off=1,2,0,50",
        "normal,hard,normal,on,on,on=1,2,0,50",
        "HARD,normal,normal,on,on,on=1,2,0,50",
    ] {
        assert_eq!(KsmScore::from_str(line).err(), Some(LineError::UnsupportedEntry));
    }
}

#[test]
fn reports_each_format_error() {
    assert_eq!(KsmScore::from_str("hard,normal,normal,on,on,on").err(), Some(LineError::MissingStats));
    assert_eq!(KsmScore::from_str("hard,normal,normal,on,on,on=1,2,0").err(), Some(LineError::MissingField));
    assert_eq!(KsmScore::from_str("hard,normal,normal,on,on,on=x,2,0,50").err(), Some(LineError::InvalidScore));
    assert_eq!(KsmScore::from_str("hard,normal,normal,on,on,on=4294967296,2,0,50").err(), Some(LineError::InvalidScore));
    assert_eq!(KsmScore::from_str("hard,normal,normal,on,on,on=1,2,0,5.0.1").err(), Some(LineError::InvalidGauge));
    assert_eq!(KsmScore::from_str("hard,normal,normal,on,on,on=1,2,0,").err(), Some(LineError::InvalidGauge));
    assert_eq!(KsmScore::from_str("hard,normal,normal,on,on,on=1,-2,0,50").err(), Some(LineError::InvalidBadge));
    assert_eq!(LineError::UnsupportedEntry.message(), "unsupported score entry");
}

#[test]
fn stats_are_everything_after_the_first_equals() {
    assert_eq!(
        KsmScore::from_str("hard,normal,normal,on,on,on=1,2,0,50=7").err(),
        Some(LineError::InvalidGauge)
    );
    assert_eq!(
        KsmScore::from_str("hard,normal,normal,on,on,on=1,2=3,0,50").err(),
        Some(LineError::InvalidBadge)
    );
    let s = KsmScore::from_str("hard,normal,normal,on,on,on=1,2,0,50,x=y").unwrap();
    assert_eq!(percent_text(&s.gauge), "50");
}

#[test]
fn gauge_accepts_float_text() {
    let cases: [(&str, f64); 9] = [
        ("1e2", 1.0),
        ("9.85E1", 98.5 / 100.0),
        ("-50", -0.5),
        ("5.", 0.05),
        ("2.5e-1", 0.25 / 100.0),
        ("+1E+2", 1.0),
        ("98.500000000000000000000", 98.5 / 100.0),
        ("123456789012345678901234567890", 1.2345678901234568e29 / 100.0),
        ("0.000000000000000000000001", 1e-24 / 100.0),
    ];
    for (text, expected) in cases {
        let line = format!("hard,normal,normal,on,on,on=1,2,0,{}", text);
        let s = KsmScore::from_str(&line).unwrap();
        assert_eq!(percent_text(&s.gauge), text);
        assert_eq!(gauge_of(&s.gauge), expected);
    }
    for text in ["inf", "-Infinity", "NaN", "+nan", "INF"] {
        let line = format!("normal,normal,normal,on,on,on=1,2,0,{}", text);
        let s = KsmScore::from_str(&line).unwrap();
        assert_eq!(percent_text(&s.gauge), text);
    }
}

#[test]
fn gauge_rejects_non_float_text() {
    for text in ["", ".", "+", "-", "e5", "1e", "1e+", "1.2.3", "1e2e3", "in", "infinit", "nana", "0x10", " 1"] {
        let line = format!("hard,normal,normal,on,on,on=1,2,0,{}", text);
        assert_eq!(KsmScore::from_str(&line).err(), Some(LineError::InvalidGauge), "{}", text);
        assert!(text.parse::<f64>().is_err(), "{}", text);
    }
}

#[test]
fn accepts_largest_score_and_plus_sign() {
    let s = KsmScore::from_str("hard,normal,normal,on,on,on=4294967295,+3,0,+.5").unwrap();
    assert_eq!(s.score, 4294967295);
    assert_eq!(s.badge, 3);
    assert_eq!(gauge_of(&s.gauge), 0.005);
}

#[test]
fn derives_chart_path() {
    let p = chart_path(&strings(&["/", "ksm", "score", "player", "pack", "song", "exh.ksc"])).unwrap();
    assert_eq!(p, strings(&["/", "ksm", "songs", "pack", "song", "exh.ksh"]));
    let p = chart_path(&strings(&["ksm", "score", "p", "pack", "song.v2.KSC"])).unwrap();
    assert_eq!(p, strings(&["songs", "p", "pack", "song.v2.ksh"]));
}

#[test]
fn chart_path_needs_five_components() {
    assert_eq!(chart_path(&strings(&["score", "p", "pack", "a.ksc"])), Err(ChartPathError::TooShallow));
}

#[test]
fn filters_score_file_names() {
    assert!(is_score_file(&"a.ksc".to_string()));
    assert!(is_score_file(&"B.KsC".to_string()));
    assert!(is_score_file(&"x.y.ksc".to_string()));
    assert!(!is_score_file(&".ksc".to_string()));
    assert!(!is_score_file(&"ksc".to_string()));
    assert!(!is_score_file(&"a.kscx".to_string()));
    assert!(!is_score_file(&"a.ksh".to_string()));
}

#[test]
fn digests_with_sha1() {
    let d = chart_digest(&b"abc".to_vec());
    assert_eq!(d, "a9993e364706816aba3e25717850c26c9cd0d89d");
}

#[test]
fn cache_returns_stored_digest() {
    let mut cache = HashCache::new();
    let key = "/ksm/songs/a.ksh".to_string();
    assert_eq!(cache.lookup(&key), None);
    let d = cache.digest_and_store(&key, &b"abc".to_vec());
    assert_eq!(d, "a9993e364706816aba3e25717850c26c9cd0d89d");
    assert_eq!(cache.lookup(&key), Some(d.clone()));
    assert_eq!(cache.lookup(&key), Some(d));
}

#[test]
fn preseeded_cache_hit_needs_no_contents() {
    let mut cache = HashCache::new();
    let key = "/ksm/songs/b.ksh".to_string();
    cache.insert(key.clone(), "seeded".to_string());
    cache.insert("/other".to_string(), "x".to_string());
    assert_eq!(cache.lookup(&key), Some("seeded".to_string()));
    assert_eq!(cache.lookup(&"/missing".to_string()), None);
}

#[test]
fn digest_for_reads_only_on_a_miss() {
    let mut cache = HashCache::new();
    let key = "/ksm/songs/c.ksh".to_string();
    assert_eq!(cache.digest_for(&key, None), None);
    let d = cache.digest_for(&key, Some(&b"abc".to_vec())).unwrap();
    assert_eq!(d, "a9993e364706816aba3e25717850c26c9cd0d89d");
    assert_eq!(cache.digest_for(&key, None), Some(d.clone()));
    assert_eq!(cache.digest_for(&key, Some(&b"changed".to_vec())), Some(d));
}

#[test]
fn builds_version_19_row() {
    let s = KsmScore::from_str("hard,normal,normal,on,on,on=1000000,2,0,98.50").unwrap();
    let r = version_19(&s, 1600000000, "abc".to_string());
    assert_eq!(r.score, 1000000);
    assert_eq!(r.miss, 0);
    assert_eq!(percent_text(&r.gauge), "98.50");
    assert_eq!(r.gauge_type, 1);
    assert_eq!(r.timestamp, 1600000000);
    assert_eq!(r.chart_hash, "abc");
    assert_eq!(r.replay, "");
    assert_eq!(r.user_name, "");
    assert!(r.local_score && !r.mirror && !r.random);
    assert_eq!((r.window_perfect, r.window_good, r.window_hold, r.window_miss, r.window_slam), (46, 92, 138, 250, 84));
    let n = KsmScore::from_str("normal,normal,normal,on,on,on=5,0,0,1").unwrap();
    assert_eq!(InsertRoutine::Version19.row(&n, 7, String::new()).gauge_type, 0);
}

#[test]
fn selects_routine_by_version() {
    assert_eq!(InsertRoutine::for_version(19), Some(InsertRoutine::Version19));
    assert_eq!(InsertRoutine::for_version(18), None);
    assert_eq!(InsertRoutine::for_version(0), None);
}

fn open(step: Step) -> ScoreFile {
    match step {
        Step::Open(f) => f,
        _ => panic!("expected a file"),
    }
}

fn finished(step: Step) -> (u32, u32, Vec<String>) {
    match step {
        Step::Emit(Progress::Finished(s)) => (s.scores_found, s.scores_imported, s.fail_messages),
        _ => panic!("expected the summary"),
    }
}

#[test]
fn scenario_single_score_imported() {
    let mut imp = Importer::new();
    let files = vec![score_file(&["/", "r", "score", "u", "p", "s", "a.ksc"])];
    assert!(matches!(imp.start(Ok(19), Ok(files)), Progress::Started));
    let f = open(imp.next_file());
    let s = imp.import_line(&f, "hard,normal,normal,on,on,on=1000000,2,0,98.50").unwrap();
    let row = version_19(&s, 10, "h".to_string());
    assert_eq!((row.score, row.miss, row.gauge_type), (1000000, 0, 1));
    assert_eq!(gauge_of(&row.gauge), 0.985);
    imp.insert_result(Ok(()));
    assert_eq!(imp.scores_imported(), 1);
    assert!(matches!(imp.file_done(), Progress::Advanced { done: 1, total: 1 }));
    let (found, imported, msgs) = finished(imp.next_file());
    assert_eq!((found, imported), (1, 1));
    assert!(msgs.is_empty());
    assert!(matches!(imp.next_file(), Step::Done));
}

#[test]
fn scenario_missing_chart_fails_one_entry() {
    let mut imp = Importer::new();
    imp.start(Ok(19), Ok(vec![score_file(&["/", "r", "score", "u", "p", "s", "a.ksc"])]));
    let f = open(imp.next_file());
    assert!(imp.import_line(&f, "hard,normal,normal,on,on,on=1000000,2,0,98.50").is_some());
    imp.insert_result(Err("File does not exist".to_string()));
    imp.file_done();
    let (_, imported, msgs) = finished(imp.next_file());
    assert_eq!(imported, 0);
    assert_eq!(msgs, vec!["Score insert failed: File does not exist".to_string()]);
}

#[test]
fn scenario_unsupported_version_errors_before_any_file() {
    let mut imp = Importer::new();
    imp.start(Ok(18), Ok(vec![score_file(&["a.ksc"]), score_file(&["b.ksc"])]));
    match imp.next_file() {
        Step::Emit(Progress::Errored(m)) => assert_eq!(m, "Unsupported DB version: 18"),
        _ => panic!("expected an error"),
    }
    assert!(matches!(imp.next_file(), Step::Done));
}

#[test]
fn start_failures_are_reported() {
    let mut a = Importer::new();
    match a.start(Err("db".to_string()), Err("ksm".to_string())) {
        Progress::Errored(m) => assert_eq!(m, "DB Error: 'db', KSM Path error: 'ksm'"),
        _ => panic!("expected an error"),
    }
    assert!(matches!(a.next_file(), Step::Done));
    let mut b = Importer::new();
    match b.start(Ok(19), Err("no score dir".to_string())) {
        Progress::Errored(m) => assert_eq!(m, "no score dir"),
        _ => panic!("expected an error"),
    }
    let mut c = Importer::new();
    match c.start(Err("bad db".to_string()), Ok(vec![])) {
        Progress::Errored(m) => assert_eq!(m, "bad db"),
        _ => panic!("expected an error"),
    }
}

#[test]
fn per_item_failures_do_not_stop_the_run() {
    let mut imp = Importer::new();
    let files = vec![score_file(&["x", "one.ksc"]), score_file(&["x", "two.ksc"]), score_file(&["x", "three.ksc"])];
    imp.start(Ok(19), Ok(files));
    let mut fractions = Vec::new();
    let f = open(imp.next_file());
    assert_eq!(f.display, "x/three.ksc");
    assert!(imp.import_line(&f, "bad line").is_none());
    assert!(imp.import_line(&f, "normal,normal,normal,on,on,on=9,3,0,50").is_some());
    imp.insert_result(Ok(()));
    fractions.push(imp.file_done());
    let f = open(imp.next_file());
    imp.file_unreadable(&f, "denied");
    fractions.push(imp.file_done());
    let _ = open(imp.next_file());
    fractions.push(imp.file_done());
    let got: Vec<(u32, u32)> = fractions
        .into_iter()
        .map(|p| match p {
            Progress::Advanced { done, total } => (done, total),
            _ => panic!("expected progress"),
        })
        .collect();
    assert_eq!(got, vec![(1, 3), (2, 3), (3, 3)]);
    let (found, imported, msgs) = finished(imp.next_file());
    assert_eq!((found, imported), (3, 1));
    assert_eq!(
        msgs,
        vec![
            "Score parse failed in \"x/three.ksc\": unsupported score entry, in line \"bad line\"".to_string(),
            "Failed to open \"x/two.ksc\": denied".to_string(),
        ]
    );
}

#[test]
fn empty_run_finishes_at_once() {
    let mut imp = Importer::new();
    imp.start(Ok(7), Ok(vec![]));
    let (found, imported, msgs) = finished(imp.next_file());
    assert_eq!((found, imported, msgs.len()), (0, 0, 0));
}

#[test]
fn writes_decimal_text() {
    assert_eq!(decimal_text(0), "0");
    assert_eq!(decimal_text(7), "7");
    assert_eq!(decimal_text(10), "10");
    assert_eq!(decimal_text(19), "19");
    assert_eq!(decimal_text(u32::MAX), "4294967295");
}
