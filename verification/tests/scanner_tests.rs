use orbit::scan::{extract_title, is_eligible, scan, Candidate, ScanEntry};

fn cs(s: &str) -> Vec<char> {
    s.chars().collect()
}

fn to_string(v: &[char]) -> String {
    v.iter().collect()
}

fn entry(path: &str, name: &str) -> ScanEntry {
    ScanEntry { path: cs(path), name: cs(name) }
}

#[test]
fn eligible_plain_video() {
    assert!(is_eligible(&cs("Alien (1979).mkv")));
    assert!(is_eligible(&cs("Alien.mkv")));
}

#[test]
fn rejects_hidden_files() {
    assert!(!is_eligible(&cs(".hidden.mkv")));
    assert!(!is_eligible(&cs(".Alien (1979).mkv")));
}

#[test]
fn rejects_wrong_extension() {
    assert!(!is_eligible(&cs("notavideo.txt")));
    assert!(!is_eligible(&cs("Alien")));
    assert!(!is_eligible(&cs("")));
}

#[test]
fn rejects_trailer_suffix_convention() {
    assert!(!is_eligible(&cs("Alien-trailer.mkv")));
}

#[test]
fn rejects_trailer_prefix_convention() {
    assert!(!is_eligible(&cs("trailer-Alien.mkv")));
}

#[test]
fn title_drops_extension_and_year() {
    assert_eq!(to_string(&extract_title(&cs("Alien (1979).mkv"))), "Alien");
}

#[test]
fn title_drops_release_tags_after_first_dot() {
    assert_eq!(to_string(&extract_title(&cs("Alien.1080p.x264.mkv"))), "Alien");
}

#[test]
fn title_is_trimmed() {
    assert_eq!(to_string(&extract_title(&cs("Alien .mkv"))), "Alien");
}

#[test]
fn title_keeps_inner_spaces() {
    assert_eq!(to_string(&extract_title(&cs("The Thing (1982).mkv"))), "The Thing");
}

#[test]
fn title_of_unhelpful_name_is_still_forwarded() {
    // a name that yields an empty title is not dropped by extraction
    assert_eq!(to_string(&extract_title(&cs(" (1979).mkv"))), "");
}

#[test]
fn scan_emits_one_candidate_per_eligible_file() {
    let entries = vec![
        entry("/films/Alien (1979).mkv", "Alien (1979).mkv"),
        entry("/films/Alien-trailer.mkv", "Alien-trailer.mkv"),
        entry("/films/.hidden.mkv", ".hidden.mkv"),
        entry("/films/notavideo.txt", "notavideo.txt"),
    ];
    let out: Vec<Candidate> = scan(&entries);
    assert_eq!(out.len(), 1);
    assert_eq!(to_string(&out[0].path), "/films/Alien (1979).mkv");
    assert_eq!(to_string(&out[0].raw_name), "Alien (1979).mkv");
    assert_eq!(to_string(&out[0].title()), "Alien");
}

#[test]
fn scan_keeps_directory_order() {
    let entries = vec![
        entry("/m/B.mkv", "B.mkv"),
        entry("/m/A.mkv", "A.mkv"),
    ];
    let out = scan(&entries);
    assert_eq!(out.len(), 2);
    assert_eq!(to_string(&out[0].raw_name), "B.mkv");
    assert_eq!(to_string(&out[1].raw_name), "A.mkv");
}
