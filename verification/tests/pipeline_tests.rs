use orbit::enrich::{
    enrich_all, enrich_one, lookup_key, EnrichOutcome, LookupResponse, MetadataRecord,
};
use orbit::limit::Limiter;
use orbit::pipeline::run_pipeline;
use orbit::scan::{scan, ScanEntry};
use orbit::sink::Store;

fn chars(s: &str) -> Vec<char> {
    s.chars().collect()
}

fn string_of(v: &[char]) -> String {
    v.iter().collect()
}

fn response(title: &str, year: &str, indicator: &str) -> LookupResponse {
    LookupResponse {
        title: chars(title),
        year: chars(year),
        runtime: chars("117 min"),
        genre: chars("Horror, Sci-Fi"),
        plot: chars("The crew of a commercial spacecraft encounters a deadly lifeform."),
        poster_url: chars("http://example.test/alien.jpg"),
        rating: chars("8.5"),
        external_id: chars("tt0078748"),
        response: chars(indicator),
    }
}

fn record(path: &str, title: &str) -> MetadataRecord {
    MetadataRecord {
        path: chars(path),
        title: chars(title),
        year: chars("1979"),
        runtime: chars("117 min"),
        genre: chars("Horror, Sci-Fi"),
        plot: chars("A deadly lifeform."),
        poster_url: chars("http://example.test/alien.jpg"),
        rating: chars("8.5"),
        external_id: chars("tt0078748"),
        found: true,
    }
}

#[test]
fn positive_reply_is_forwarded() {
    let out = enrich_one(chars("/m/Alien (1979).mkv"), Some(response("Alien", "1979", "True")));
    match out {
        EnrichOutcome::Forward(rec) => {
            assert!(rec.found);
            assert_eq!(string_of(&rec.path), "/m/Alien (1979).mkv");
            assert_eq!(string_of(&rec.title), "Alien");
            assert_eq!(string_of(&rec.year), "1979");
        }
        _ => panic!("a positive match must be forwarded"),
    }
}

#[test]
fn negative_reply_is_reported_as_no_match() {
    let out = enrich_one(chars("/m/Misnamed.mkv"), Some(response("", "", "False")));
    match out {
        EnrichOutcome::NoMatch(path) => assert_eq!(string_of(&path), "/m/Misnamed.mkv"),
        _ => panic!("a negative match must be dropped with a no-match report"),
    }
}

#[test]
fn empty_indicator_is_negative() {
    let out = enrich_one(chars("/m/Odd.mkv"), Some(response("Odd", "2001", "")));
    assert!(matches!(out, EnrichOutcome::NoMatch(_)));
}

#[test]
fn transport_failure_is_reported() {
    let out = enrich_one(chars("/m/Alien.mkv"), None);
    match out {
        EnrichOutcome::TransportFailure(path) => assert_eq!(string_of(&path), "/m/Alien.mkv"),
        _ => panic!("a failed lookup must be dropped with a transport report"),
    }
}

#[test]
fn only_positive_replies_reach_the_sink() {
    let entries = vec![
        ScanEntry { path: chars("/m/A.mkv"), name: chars("A.mkv") },
        ScanEntry { path: chars("/m/B.mkv"), name: chars("B.mkv") },
        ScanEntry { path: chars("/m/C.mkv"), name: chars("C.mkv") },
    ];
    let cands = scan(&entries);
    let replies = vec![
        Some(response("A", "2000", "True")),
        Some(response("B", "2001", "False")),
        None,
    ];
    let recs = enrich_all(&cands, &replies);
    assert_eq!(recs.len(), 1);
    assert_eq!(string_of(&recs[0].path), "/m/A.mkv");
    assert!(recs[0].found);
}

#[test]
fn lookup_key_appends_title_to_base() {
    let key = lookup_key(&chars("https://lookup.test/?t="), &chars("Alien"));
    assert_eq!(string_of(&key), "https://lookup.test/?t=Alien");
}

#[test]
fn limiter_never_admits_more_than_bound() {
    let mut limiter = Limiter::new(3);
    let mut admitted = 0;
    for _ in 0..10 {
        if limiter.try_start() {
            admitted += 1;
        }
        assert!(limiter.in_flight <= limiter.bound);
    }
    assert_eq!(admitted, 3);
    assert!(limiter.finish());
    assert!(limiter.try_start());
    assert_eq!(limiter.in_flight, 3);
}

#[test]
fn limiter_finish_frees_a_slot() {
    let mut limiter = Limiter::new(1);
    assert!(limiter.try_start());
    assert!(!limiter.try_start());
    assert!(limiter.finish());
    assert!(limiter.try_start());
    assert!(!limiter.finish() || limiter.in_flight == 0);
}

#[test]
fn store_insert_is_ignored_on_duplicate_path() {
    let mut store = Store::new();
    assert!(store.insert(&record("/m/Alien.mkv", "Alien")));
    assert!(!store.insert(&record("/m/Alien.mkv", "Alien")));
    assert_eq!(store.len(), 1);
}

#[test]
fn progress_feed_counts_accepted_records_from_one() {
    let mut store = Store::new();
    let recs = vec![
        record("/m/A.mkv", "A"),
        record("/m/A.mkv", "A"),
        record("/m/B.mkv", "B"),
    ];
    let progress = store.run_sink(&recs);
    assert_eq!(store.len(), 2);
    assert_eq!(progress.len(), 2);
    assert_eq!(progress[0].index, 1);
    assert_eq!(progress[1].index, 2);
}

#[test]
fn record_summary_layout() {
    let rec = record("/m/Alien.mkv", "Alien");
    assert_eq!(
        string_of(&rec.summary()),
        "Alien (1979) -- 117 min\nHorror, Sci-Fi\nA deadly lifeform."
    );
}

#[test]
fn end_to_end_single_match() {
    let entries = vec![
        ScanEntry { path: chars("/m/Alien (1979).mkv"), name: chars("Alien (1979).mkv") },
        ScanEntry { path: chars("/m/Alien-trailer.mkv"), name: chars("Alien-trailer.mkv") },
        ScanEntry { path: chars("/m/.hidden.mkv"), name: chars(".hidden.mkv") },
        ScanEntry { path: chars("/m/notavideo.txt"), name: chars("notavideo.txt") },
    ];
    let cands = scan(&entries);
    assert_eq!(cands.len(), 1);
    assert_eq!(string_of(&cands[0].title()), "Alien");

    let replies = vec![Some(response("Alien", "1979", "True"))];
    let mut store = Store::new();
    let progress = run_pipeline(&entries, &replies, &mut store);
    assert_eq!(store.len(), 1);
    assert_eq!(string_of(&store.rows[0].path), "/m/Alien (1979).mkv");
    assert_eq!(string_of(&store.rows[0].title), "Alien");
    assert_eq!(string_of(&store.rows[0].year), "1979");
    assert_eq!(progress.len(), 1);
    assert_eq!(progress[0].index, 1);
}

#[test]
fn duplicate_candidate_in_one_run_leaves_one_row() {
    let entries = vec![
        ScanEntry { path: chars("/m/Alien (1979).mkv"), name: chars("Alien (1979).mkv") },
        ScanEntry { path: chars("/m/Alien (1979).mkv"), name: chars("Alien (1979).mkv") },
    ];
    let replies = vec![
        Some(response("Alien", "1979", "True")),
        Some(response("Alien", "1979", "True")),
    ];
    let mut store = Store::new();
    let progress = run_pipeline(&entries, &replies, &mut store);
    assert_eq!(store.len(), 1);
    assert_eq!(progress.len(), 1);
}

#[test]
fn running_twice_matches_running_once() {
    let entries = vec![
        ScanEntry { path: chars("/m/A (2000).mkv"), name: chars("A (2000).mkv") },
        ScanEntry { path: chars("/m/B (2001).mkv"), name: chars("B (2001).mkv") },
    ];
    let replies = || vec![
        Some(response("A", "2000", "True")),
        Some(response("B", "2001", "True")),
    ];

    let mut once = Store::new();
    run_pipeline(&entries, &replies(), &mut once);

    let mut twice = Store::new();
    run_pipeline(&entries, &replies(), &mut twice);
    let progress = run_pipeline(&entries, &replies(), &mut twice);

    assert_eq!(progress.len(), 0);
    assert_eq!(once.len(), twice.len());
    for (a, b) in once.rows.iter().zip(twice.rows.iter()) {
        assert_eq!(string_of(&a.path), string_of(&b.path));
        assert_eq!(string_of(&a.title), string_of(&b.title));
    }
}
