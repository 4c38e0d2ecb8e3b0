//! The library scanner: which files of a folder walk become tracks.

use vstd::prelude::*;
use crate::filename::{extension, extension_of, file_stem, file_stem_of, lowercase_of, to_lowercase};
use crate::track::{copy_text, rows_of, Track, TrackView};

verus! {

/// The audio formats the library accepts, each by its lowercase extension.
pub open spec fn supported_extensions() -> Seq<Seq<char>> {
    seq![
        seq!['m', 'p', '3'],
        seq!['f', 'l', 'a', 'c'],
        seq!['w', 'a', 'v'],
        seq!['m', '4', 'a'],
        seq!['o', 'g', 'g'],
    ]
}

/// Whether an extension that is already lowercase names a supported format.
pub open spec fn supported_lowercase(lower: Seq<char>) -> bool {
    supported_extensions().contains(lower)
}

/// Whether an extension names a supported format, whatever its case.
pub open spec fn supported_extension(ext: Seq<char>) -> bool {
    supported_lowercase(lowercase_of(ext))
}

/// Whether a path ends in the extension of a supported format.
pub open spec fn supported_path(path: Seq<char>) -> bool {
    match extension_of(path) {
        Some(ext) => supported_extension(ext),
        None => false,
    }
}

/// Decides whether `lower`, an extension already in lowercase, is one of
/// `mp3`, `flac`, `wav`, `m4a` and `ogg`.
pub fn is_supported_lowercase(lower: &str) -> (supported: bool)
    ensures
        supported == supported_lowercase(lower@),
{
    proof {
        reveal_strlit("mp3");
        reveal_strlit("flac");
        reveal_strlit("wav");
        reveal_strlit("m4a");
        reveal_strlit("ogg");
        let known = supported_extensions();
        assert(known[0] =~= "mp3"@);
        assert(known[1] =~= "flac"@);
        assert(known[2] =~= "wav"@);
        assert(known[3] =~= "m4a"@);
        assert(known[4] =~= "ogg"@);
    }
    let lower = lower.to_owned();
    lower == "mp3".to_owned() || lower == "flac".to_owned() || lower == "wav".to_owned() || lower
        == "m4a".to_owned() || lower == "ogg".to_owned()
}

/// Decides whether `ext` names a supported format, ignoring case.
pub fn is_supported_extension(ext: &str) -> (supported: bool)
    ensures
        supported == supported_extension(ext@),
{
    let lower = to_lowercase(ext);
    is_supported_lowercase(lower.as_str())
}

/// Decides whether an extension, if there is one, names a supported format.
pub fn is_supported_optional_extension(ext: &Option<String>) -> (supported: bool)
    ensures
        supported == match ext.deep_view() {
            Some(e) => supported_extension(e),
            None => false,
        },
{
    match ext {
        Some(e) => is_supported_extension(e.as_str()),
        None => false,
    }
}

/// Decides whether `path` ends in the extension of a supported format.
pub fn has_supported_extension(path: &str) -> (supported: bool)
    ensures
        supported == supported_path(path@),
{
    let ext = extension(path);
    is_supported_optional_extension(&ext)
}

/// The text fields of a file's primary tag. A field the tag does not carry
/// is absent.
#[derive(Debug, Clone)]
pub struct TagFields {
    pub title: Option<String>,
    pub artist: Option<String>,
    pub album: Option<String>,
}

/// What parsing one audio file yields: its primary tag, if it has one, and
/// the length of its audio stream in whole seconds, rounded down.
#[derive(Debug, Clone)]
pub struct AudioMetadata {
    pub primary_tag: Option<TagFields>,
    pub duration_secs: u64,
}

/// The title the primary tag gives, if there is a tag and it has one.
pub open spec fn tagged_title(metadata: AudioMetadata) -> Option<Seq<char>> {
    match metadata.primary_tag {
        Some(tag) => tag.title.deep_view(),
        None => None,
    }
}

/// The artist the primary tag gives, if there is a tag and it has one.
pub open spec fn tagged_artist(metadata: AudioMetadata) -> Option<Seq<char>> {
    match metadata.primary_tag {
        Some(tag) => tag.artist.deep_view(),
        None => None,
    }
}

/// The album the primary tag gives, if there is a tag and it has one.
pub open spec fn tagged_album(metadata: AudioMetadata) -> Option<Seq<char>> {
    match metadata.primary_tag {
        Some(tag) => tag.album.deep_view(),
        None => None,
    }
}

/// The title of a track: the tagged one where present, else the fallback.
pub open spec fn title_or(title: Option<Seq<char>>, fallback: Option<Seq<char>>) -> Option<
    Seq<char>,
> {
    if title is Some {
        title
    } else {
        fallback
    }
}

/// The track that a file at `path` with the given metadata becomes when
/// `stem` is the base name of the file without its extension.
pub open spec fn track_with_stem(
    path: Seq<char>,
    metadata: AudioMetadata,
    stem: Option<Seq<char>>,
) -> TrackView {
    TrackView {
        path,
        title: title_or(tagged_title(metadata), stem),
        artist: tagged_artist(metadata),
        album: tagged_album(metadata),
        duration_secs: Some(metadata.duration_secs),
    }
}

/// The track that a file at `path` with the given metadata becomes.
pub open spec fn track_of(path: Seq<char>, metadata: AudioMetadata) -> TrackView {
    track_with_stem(path, metadata, file_stem_of(path))
}

/// Picks the tagged title where there is one and the fallback otherwise.
pub fn title_or_fallback(title: Option<String>, fallback: Option<String>) -> (chosen: Option<
    String,
>)
    ensures
        chosen.deep_view() == title_or(title.deep_view(), fallback.deep_view()),
{
    match title {
        Some(t) => Some(t),
        None => fallback,
    }
}

/// Builds the track for a parsed file, given the file's stem.
///
/// The title is the tagged title when the file has one and the stem
/// otherwise. Artist and album are taken from the tag or left absent; they
/// are never defaulted. The duration is always present.
pub fn assemble_track(path: &str, metadata: &AudioMetadata, stem: Option<String>) -> (track:
    Track)
    ensures
        track@ == track_with_stem(path@, *metadata, stem.deep_view()),
{
    let (title, artist, album) = match &metadata.primary_tag {
        Some(tag) => (copy_text(&tag.title), copy_text(&tag.artist), copy_text(&tag.album)),
        None => (None, None, None),
    };
    Track {
        path: path.to_owned(),
        title: title_or_fallback(title, stem),
        artist,
        album,
        duration_secs: Some(metadata.duration_secs),
    }
}

/// Builds the track for a parsed file.
///
/// The title is the tagged title when the file has one, and otherwise the
/// file's base name without its extension.
pub fn read_track(path: &str, metadata: &AudioMetadata) -> (track: Track)
    ensures
        track@ == track_of(path@, *metadata),
        tagged_title(*metadata) is Some ==> track@.title == tagged_title(*metadata),
        tagged_title(*metadata) is None ==> track@.title == file_stem_of(path@),
{
    let stem = file_stem(path);
    assemble_track(path, metadata, stem)
}

/// One entry met while walking a folder tree.
///
/// `metadata` holds what parsing the file yielded. It is `None` for an entry
/// that was not parsed and for one whose parse failed; either way the entry
/// contributes no track.
#[derive(Debug, Clone)]
pub struct ScannedEntry {
    pub path: String,
    pub is_file: bool,
    pub metadata: Option<AudioMetadata>,
}

/// Whether an entry of the walk is worth parsing: a regular file with the
/// extension of a supported format.
pub open spec fn is_candidate(path: Seq<char>, is_file: bool) -> bool {
    is_file && supported_path(path)
}

/// The track an entry contributes to a scan, if it contributes one.
pub open spec fn scanned_track(entry: ScannedEntry) -> Option<TrackView> {
    if is_candidate(entry.path@, entry.is_file) {
        match entry.metadata {
            Some(metadata) => Some(track_of(entry.path@, metadata)),
            None => None,
        }
    } else {
        None
    }
}

/// [`scanned_track`] as a function value.
pub open spec fn scan_step() -> spec_fn(ScannedEntry) -> Option<TrackView> {
    |entry: ScannedEntry| scanned_track(entry)
}

/// The tracks a scan produces from the entries of a walk: one for every
/// candidate that parsed, in the order of the walk.
pub open spec fn scan_result(entries: Seq<ScannedEntry>) -> Seq<TrackView> {
    entries.filter_map(scan_step())
}

/// Whether some entry of the walk contributes exactly the track `row`.
pub open spec fn yields(entries: Seq<ScannedEntry>, row: TrackView) -> bool {
    exists|j: int|
        0 <= j < entries.len() && scanned_track(#[trigger] entries[j]) == Some(row)
}

/// Decides whether an entry of the walk is worth parsing.
pub fn is_scan_candidate(path: &str, is_file: bool) -> (candidate: bool)
    ensures
        candidate == is_candidate(path@, is_file),
{
    is_file && has_supported_extension(path)
}

/// Builds the track an entry contributes to a scan, if it contributes one.
pub fn scan_entry(entry: &ScannedEntry) -> (track: Option<Track>)
    ensures
        track.is_some() == scanned_track(*entry).is_some(),
        track matches Some(t) ==> scanned_track(*entry) == Some(t@),
{
    if !is_scan_candidate(entry.path.as_str(), entry.is_file) {
        return None;
    }
    match &entry.metadata {
        Some(metadata) => Some(read_track(entry.path.as_str(), metadata)),
        None => None,
    }
}

/// Turns the entries of a folder walk into the tracks of the library.
///
/// An entry yields a track exactly when it is a regular file, its extension
/// names a supported format, and its metadata was parsed. Every other entry
/// is left out, and none of them stops the scan. The tracks come out in the
/// order of the walk.
pub fn scan(entries: &Vec<ScannedEntry>) -> (tracks: Vec<Track>)
    ensures
        rows_of(tracks@) == scan_result(entries@),
        forall|i: int|
            0 <= i < tracks.len() ==> supported_path(#[trigger] tracks[i]@.path),
        forall|i: int| 0 <= i < tracks.len() ==> yields(entries@, #[trigger] tracks[i]@),
{
    let mut tracks: Vec<Track> = Vec::new();
    let mut n: usize = 0;
    while n < entries.len()
        invariant
            n <= entries.len(),
            rows_of(tracks@) == entries@.take(n as int).filter_map(scan_step()),
            forall|i: int|
                0 <= i < tracks.len() ==> supported_path(#[trigger] tracks[i]@.path),
            forall|i: int| 0 <= i < tracks.len() ==> yields(entries@, #[trigger] tracks[i]@),
        decreases entries.len() - n,
    {
        let found = scan_entry(&entries[n]);
        proof {
            entries@.lemma_filter_map_take_succ(scan_step(), n as int);
        }
        let ghost before = tracks@;
        match found {
            Some(track) => {
                tracks.push(track);
                proof {
                    assert forall|i: int| 0 <= i < tracks.len() implies yields(
                        entries@,
                        #[trigger] tracks[i]@,
                    ) by {
                        if i == before.len() {
                            assert(scanned_track(entries[n as int]) == Some(tracks[i]@));
                        } else {
                            assert(tracks[i] == before[i]);
                        }
                    }
                }
            },
            None => {},
        }
        n += 1;
    }
    assert(entries@.take(n as int) =~= entries@);
    tracks
}

/// The outcome of parsing one file that was picked by hand. `metadata` is
/// `None` when the file could not be parsed.
#[derive(Debug, Clone)]
pub struct FileReading {
    pub path: String,
    pub metadata: Option<AudioMetadata>,
}

/// The track a hand-picked file contributes, if it parsed.
pub open spec fn reading_track(reading: FileReading) -> Option<TrackView> {
    match reading.metadata {
        Some(metadata) => Some(track_of(reading.path@, metadata)),
        None => None,
    }
}

/// [`reading_track`] as a function value.
pub open spec fn reading_step() -> spec_fn(FileReading) -> Option<TrackView> {
    |reading: FileReading| reading_track(reading)
}

/// The tracks that a list of hand-picked files contributes: one for every
/// file that parsed, in the order given.
pub open spec fn collected(readings: Seq<FileReading>) -> Seq<TrackView> {
    readings.filter_map(reading_step())
}

/// Turns hand-picked files into tracks, whatever their extension.
///
/// A file yields a track exactly when it parsed. A file that did not is
/// left out and does not stop the others.
pub fn collect_tracks(readings: &Vec<FileReading>) -> (tracks: Vec<Track>)
    ensures
        rows_of(tracks@) == collected(readings@),
{
    let mut tracks: Vec<Track> = Vec::new();
    let mut n: usize = 0;
    while n < readings.len()
        invariant
            n <= readings.len(),
            rows_of(tracks@) == readings@.take(n as int).filter_map(reading_step()),
        decreases readings.len() - n,
    {
        proof {
            readings@.lemma_filter_map_take_succ(reading_step(), n as int);
        }
        let ghost before = tracks@;
        let reading = &readings[n];
        match &reading.metadata {
            Some(metadata) => {
                let track = read_track(reading.path.as_str(), metadata);
                tracks.push(track);
            },
            None => {},
        }
        n += 1;
    }
    assert(readings@.take(n as int) =~= readings@);
    tracks
}

/// The scan of two walks, one after the other, is the scan of the first
/// followed by the scan of the second.
pub proof fn lemma_scan_of_joined_walks(first: Seq<ScannedEntry>, second: Seq<ScannedEntry>)
    ensures
        scan_result(first + second) == scan_result(first) + scan_result(second),
    decreases second.len(),
{
    if second.len() == 0 {
        assert(first + second =~= first);
    } else {
        let joined = first + second;
        assert(joined.drop_last() =~= first + second.drop_last());
        lemma_scan_of_joined_walks(first, second.drop_last());
        match scan_step()(second.last()) {
            Some(row) => {
                assert(scan_result(joined) =~= scan_result(first) + scan_result(second));
            },
            None => {},
        }
    }
}

/// An entry that contributes no track can be taken out of the walk
/// without changing the scan. It is so for every entry that is not a
/// regular file, for every file with an unsupported extension, and for
/// every file that failed to parse: none of them appears in the result,
/// and none of them disturbs the tracks of the others.
pub proof fn lemma_scan_skips(entries: Seq<ScannedEntry>, j: int)
    requires
        0 <= j < entries.len(),
        !entries[j].is_file || !supported_path(entries[j].path@) || entries[j].metadata is None,
    ensures
        scan_result(entries.remove(j)) == scan_result(entries),
{
    let before = entries.subrange(0, j);
    let one = seq![entries[j]];
    let rest = entries.subrange(j + 1, entries.len() as int);
    assert(entries =~= (before + one) + rest);
    lemma_scan_of_joined_walks(before + one, rest);
    lemma_scan_of_joined_walks(before, one);
    lemma_scan_of_joined_walks(before, rest);
    assert(scan_result(one.drop_last()) =~= Seq::<TrackView>::empty());
}

/// Every track of a scan is the track of an entry that is a regular file,
/// has a supported extension and was parsed; so no file with an
/// unsupported extension and no file that failed to parse is among them.
pub proof fn lemma_scan_rows_are_parsed_candidates(entries: Seq<ScannedEntry>, i: int)
    requires
        0 <= i < scan_result(entries).len(),
    ensures
        yields(entries, scan_result(entries)[i]),
        supported_path(scan_result(entries)[i].path),
    decreases entries.len(),
{
    if entries.len() > 0 {
        let earlier = entries.drop_last();
        let row = scan_result(entries)[i];
        if i < scan_result(earlier).len() {
            lemma_scan_rows_are_parsed_candidates(earlier, i);
            let j = choose|j: int|
                0 <= j < earlier.len() && scanned_track(#[trigger] earlier[j]) == Some(row);
            assert(entries[j] == earlier[j]);
        } else {
            assert(scanned_track(entries[entries.len() - 1]) == Some(row));
        }
    }
}

/// A scan yields exactly one track for every candidate that parsed: with
/// one more entry in the walk the result grows by one track if the entry
/// contributes, and stays as long as it was if it does not.
pub proof fn lemma_scan_counts_parsed_candidates(entries: Seq<ScannedEntry>, entry: ScannedEntry)
    ensures
        scan_result(entries.push(entry)).len() == scan_result(entries).len() + if scanned_track(
            entry,
        ) is Some {
            1int
        } else {
            0int
        },
        scan_result(Seq::<ScannedEntry>::empty()).len() == 0,
        scan_result(entries).len() <= entries.len(),
    decreases entries.len(),
{
    assert(entries.push(entry).drop_last() =~= entries);
    if entries.len() > 0 {
        lemma_scan_counts_parsed_candidates(entries.drop_last(), entries.last());
    }
}

} // verus!
