//! Scanner stage: decides which directory entries are candidate video
//! files and extracts the lookup title from a file name.
//!
//! A file name is eligible when it is not hidden (no leading dot), carries
//! the recognized video container extension, and does not match either
//! trailer naming convention (the `-trailer` suffix before the extension,
//! or the `trailer-` prefix). The title is the base name cut at the first
//! `.` (dropping the extension and any release-tag suffix), cut again at
//! the first ` (` (dropping a trailing parenthesized qualifier such as a
//! year), and trimmed.

use vstd::prelude::*;

use crate::text::{
    starts_with_spec, ends_with_spec, first_index, first_pair_index, trim_spec, find_char,
    find_pair, prefix_of, trim, starts_with, ends_with, clone_chars,
};

verus! {

/// The recognized video container extension.
pub open spec fn video_ext() -> Seq<char> {
    seq!['.', 'm', 'k', 'v']
}

/// Trailer naming convention: suffix marker before the extension.
pub open spec fn trailer_suffix() -> Seq<char> {
    seq!['-', 't', 'r', 'a', 'i', 'l', 'e', 'r', '.', 'm', 'k', 'v']
}

/// Trailer naming convention: prefix marker.
pub open spec fn trailer_prefix() -> Seq<char> {
    seq!['t', 'r', 'a', 'i', 'l', 'e', 'r', '-']
}

/// A hidden file: the name begins with a dot.
pub open spec fn is_hidden(name: Seq<char>) -> bool {
    name.len() > 0 && name[0] == '.'
}

pub open spec fn has_video_extension(name: Seq<char>) -> bool {
    ends_with_spec(name, video_ext())
}

/// The name matches either trailer naming convention.
pub open spec fn is_trailer(name: Seq<char>) -> bool {
    ends_with_spec(name, trailer_suffix()) || starts_with_spec(name, trailer_prefix())
}

/// A file name the scanner forwards as a candidate.
pub open spec fn eligible(name: Seq<char>) -> bool {
    !is_hidden(name) && has_video_extension(name) && !is_trailer(name)
}

/// The lookup title derived from a file name: the name cut at the first
/// `.`, cut at the first ` (`, and trimmed.
pub open spec fn title_of(name: Seq<char>) -> Seq<char> {
    let stem = name.take(first_index(name, '.'));
    trim_spec(stem.take(first_pair_index(stem, ' ', '(')))
}

fn video_ext_vec() -> (r: Vec<char>)
    ensures
        r@ == video_ext(),
{
    let mut r: Vec<char> = Vec::new();
    r.push('.');
    r.push('m');
    r.push('k');
    r.push('v');
    assert(r@ =~= video_ext());
    r
}

fn trailer_suffix_vec() -> (r: Vec<char>)
    ensures
        r@ == trailer_suffix(),
{
    let mut r: Vec<char> = Vec::new();
    r.push('-');
    r.push('t');
    r.push('r');
    r.push('a');
    r.push('i');
    r.push('l');
    r.push('e');
    r.push('r');
    r.push('.');
    r.push('m');
    r.push('k');
    r.push('v');
    assert(r@ =~= trailer_suffix());
    r
}

fn trailer_prefix_vec() -> (r: Vec<char>)
    ensures
        r@ == trailer_prefix(),
{
    let mut r: Vec<char> = Vec::new();
    r.push('t');
    r.push('r');
    r.push('a');
    r.push('i');
    r.push('l');
    r.push('e');
    r.push('r');
    r.push('-');
    assert(r@ =~= trailer_prefix());
    r
}

/// Whether the scanner forwards a file with this name.
pub fn is_eligible(name: &Vec<char>) -> (r: bool)
    ensures
        r == eligible(name@),
{
    if name.len() > 0 && name[0] == '.' {
        return false;
    }
    let ext = video_ext_vec();
    if !ends_with(name, &ext) {
        return false;
    }
    let suf = trailer_suffix_vec();
    if ends_with(name, &suf) {
        return false;
    }
    let pre = trailer_prefix_vec();
    if starts_with(name, &pre) {
        return false;
    }
    true
}

/// The lookup title for a file name.
pub fn extract_title(name: &Vec<char>) -> (t: Vec<char>)
    ensures
        t@ == title_of(name@),
{
    let cut_ext: usize = find_char(name, '.');
    let stem = prefix_of(name, cut_ext);
    let cut_qual: usize = find_pair(&stem, ' ', '(');
    let bare = prefix_of(&stem, cut_qual);
    trim(&bare)
}

/// A directory entry handed to the scanner: the full path and the bare
/// file name.
pub struct ScanEntry {
    pub path: Vec<char>,
    pub name: Vec<char>,
}

/// Mathematical image of a `ScanEntry`.
pub struct ScanEntryV {
    pub path: Seq<char>,
    pub name: Seq<char>,
}

impl View for ScanEntry {
    type V = ScanEntryV;

    open spec fn view(&self) -> ScanEntryV {
        ScanEntryV { path: self.path@, name: self.name@ }
    }
}

impl DeepView for ScanEntry {
    type V = ScanEntryV;

    open spec fn deep_view(&self) -> ScanEntryV {
        self.view()
    }
}

/// A discovered file the scanner forwards: the full path paired with the
/// raw file name, prior to title extraction.
pub struct Candidate {
    pub path: Vec<char>,
    pub raw_name: Vec<char>,
}

/// Mathematical image of a `Candidate`.
pub struct CandidateV {
    pub path: Seq<char>,
    pub raw_name: Seq<char>,
}

impl View for Candidate {
    type V = CandidateV;

    open spec fn view(&self) -> CandidateV {
        CandidateV { path: self.path@, raw_name: self.raw_name@ }
    }
}

impl DeepView for Candidate {
    type V = CandidateV;

    open spec fn deep_view(&self) -> CandidateV {
        self.view()
    }
}

impl Candidate {
    /// The lookup title derived from this candidate's raw file name.
    pub fn title(&self) -> (t: Vec<char>)
        ensures
            t@ == title_of(self.raw_name@),
    {
        extract_title(&self.raw_name)
    }
}

/// The candidate emitted for a directory entry.
pub open spec fn candidate_of(e: ScanEntryV) -> CandidateV {
    CandidateV { path: e.path, raw_name: e.name }
}

/// The candidates the scanner emits for a list of directory entries, in
/// order: one per eligible file name, none for the rest.
pub open spec fn scan_spec(entries: Seq<ScanEntryV>) -> Seq<CandidateV>
    decreases entries.len(),
{
    if entries.len() == 0 {
        Seq::empty()
    } else if eligible(entries.last().name) {
        scan_spec(entries.drop_last()) + seq![candidate_of(entries.last())]
    } else {
        scan_spec(entries.drop_last())
    }
}

/// Filter a list of directory entries to the candidates the pipeline
/// will enrich.
pub fn scan(entries: &Vec<ScanEntry>) -> (out: Vec<Candidate>)
    ensures
        out.deep_view() == scan_spec(entries.deep_view()),
{
    let mut out: Vec<Candidate> = Vec::new();
    let mut i: usize = 0;
    while i < entries.len()
        invariant
            i <= entries.len(),
            out.deep_view() =~= scan_spec(entries.deep_view().take(i as int)),
        decreases entries.len() - i,
    {
        proof {
            assert(entries.deep_view().take(i + 1).drop_last() =~= entries.deep_view().take(
                i as int));
            assert(entries.deep_view().take(i + 1).last() == entries.deep_view()[i as int]);
        }
        if is_eligible(&entries[i].name) {
            let c = Candidate {
                path: clone_chars(&entries[i].path),
                raw_name: clone_chars(&entries[i].name),
            };
            assert(c.deep_view() == candidate_of(entries.deep_view()[i as int]));
            out.push(c);
        }
        assert(out.deep_view() =~= scan_spec(entries.deep_view().take(i + 1)));
        i += 1;
    }
    assert(entries.deep_view().take(entries.len() as int) =~= entries.deep_view());
    out
}

/// A file name with the video extension and matching neither trailer
/// convention nor hidden-file rule yields exactly one candidate, carrying
/// its path and raw name; its title is the name with the extension and
/// any parenthesized qualifier removed.
pub proof fn lemma_scan_emits_eligible(e: ScanEntryV)
    requires
        eligible(e.name),
    ensures
        scan_spec(seq![e]) =~= seq![candidate_of(e)],
        title_of(candidate_of(e).raw_name) == title_of(e.name),
{
    assert(seq![e].drop_last() =~= Seq::<ScanEntryV>::empty());
    assert(scan_spec(Seq::<ScanEntryV>::empty()) == Seq::<CandidateV>::empty());
    assert(seq![e].last() == e);
}

/// A hidden file name, one matching a trailer convention, or one without
/// the video extension yields no candidate.
pub proof fn lemma_scan_emits_nothing(e: ScanEntryV)
    requires
        is_hidden(e.name) || is_trailer(e.name) || !has_video_extension(e.name),
    ensures
        scan_spec(seq![e]) =~= Seq::<CandidateV>::empty(),
{
    assert(seq![e].drop_last() =~= Seq::<ScanEntryV>::empty());
    assert(scan_spec(Seq::<ScanEntryV>::empty()) == Seq::<CandidateV>::empty());
    assert(seq![e].last() == e);
    assert(!eligible(e.name));
}

/// Scanning a concatenation of entry lists emits the candidates of each
/// part in order: each entry contributes independently of the rest.
pub proof fn lemma_scan_additive(a: Seq<ScanEntryV>, b: Seq<ScanEntryV>)
    ensures
        scan_spec(a + b) =~= scan_spec(a) + scan_spec(b),
    decreases b.len(),
{
    if b.len() == 0 {
        assert(a + b =~= a);
        assert(scan_spec(a) + scan_spec(b) =~= scan_spec(a));
    } else {
        lemma_scan_additive(a, b.drop_last());
        assert((a + b).drop_last() =~= a + b.drop_last());
        assert((a + b).last() == b.last());
    }
}

} // verus!
