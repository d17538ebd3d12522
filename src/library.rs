//! Tracks of the music library: recognising audio files, naming their
//! format, filling in what their tags leave out, and trusting a cached scan.
use vstd::prelude::*;
use crate::text::{lower_of, lowercase};

verus! {

/// One playable file with what is known about it. Durations are in
/// milliseconds.
#[derive(Debug, Clone)]
pub struct Track {
    pub path: String,
    pub title: String,
    pub artist: String,
    pub album: String,
    pub duration_ms: u64,
    pub track_number: Option<u32>,
    pub bitrate: Option<u32>,
    pub sample_rate: Option<u32>,
    pub channels: Option<u8>,
    pub format: String,
    pub file_size: u64,
}

/// What a file's tags and stream properties tell, each part when known.
#[derive(Debug, Clone)]
pub struct TrackMetadata {
    pub title: Option<String>,
    pub artist: Option<String>,
    pub album: Option<String>,
    pub track_number: Option<u32>,
    pub duration_ms: Option<u64>,
    pub bitrate: Option<u32>,
    pub sample_rate: Option<u32>,
    pub channels: Option<u8>,
    pub album_art: Option<Vec<u8>>,
}

/// What `Path::extension` gives for a path, as text.
pub uninterp spec fn extension_of(path: Seq<char>) -> Option<Seq<char>>;

/// What `str::to_uppercase` makes of a string.
pub uninterp spec fn upper_of(s: Seq<char>) -> Seq<char>;

/// Relies on `Path::extension`: the part of the file name after its last
/// dot, if there is one that does not start the name.
#[verifier::external_body]
fn path_extension(path: &str) -> (r: Option<String>)
    ensures
        r is None <==> extension_of(path@) is None,
        r is Some ==> r->Some_0@ == extension_of(path@)->Some_0,
{
    match std::path::Path::new(path).extension() {
        Some(ext) => ext.to_str().map(str::to_string),
        None => None,
    }
}

/// Relies on `str::to_uppercase`, whose result depends on the characters alone.
#[verifier::external_body]
fn uppercase(s: &str) -> (r: String)
    ensures
        r@ == upper_of(s@),
{
    s.to_uppercase()
}

/// The extensions of the audio formats the player reads, in lower case.
pub open spec fn is_audio_extension_spec(ext: Seq<char>) -> bool {
    ext == "mp3"@ || ext == "flac"@ || ext == "wav"@ || ext == "ogg"@ || ext == "m4a"@ || ext
        == "aac"@
}

/// Whether a lower-case extension is one of an audio format.
pub fn is_audio_extension(ext: &str) -> (r: bool)
    ensures
        r == is_audio_extension_spec(ext@),
{
    let e = crate::text::chars_of(ext);
    equals_lit(&e, "mp3") || equals_lit(&e, "flac") || equals_lit(&e, "wav") || equals_lit(
        &e,
        "ogg",
    ) || equals_lit(&e, "m4a") || equals_lit(&e, "aac")
}

fn equals_lit(e: &Vec<char>, lit: &str) -> (r: bool)
    ensures
        r == (e@ == lit@),
{
    let l = crate::text::chars_of(lit);
    if e.len() != l.len() {
        return false;
    }
    let mut i: usize = 0;
    while i < e.len()
        invariant
            e@.len() == l@.len(),
            l@ == lit@,
            i <= e@.len(),
            forall|j: int| 0 <= j < i ==> e@[j] == l@[j],
        decreases e@.len() - i,
    {
        if e[i] != l[i] {
            return false;
        }
        i = i + 1;
    }
    assert(e@ =~= l@);
    true
}

/// Whether the path names an audio file, by its extension in any case.
pub fn is_audio_file(path: &str) -> (r: bool)
    ensures
        r == match extension_of(path@) {
            Some(e) => is_audio_extension_spec(lower_of(e)),
            None => false,
        },
{
    match path_extension(path) {
        Some(e) => {
            let lower = lowercase(e.as_str());
            is_audio_extension(lower.as_str())
        },
        None => false,
    }
}

/// The format shown for a file: its extension in upper case, or `UNKNOWN`.
pub fn format_from_extension(path: &str) -> (r: String)
    ensures
        r@ == match extension_of(path@) {
            Some(e) => upper_of(e),
            None => "UNKNOWN"@,
        },
{
    match path_extension(path) {
        Some(e) => uppercase(e.as_str()),
        None => "UNKNOWN".to_owned(),
    }
}

pub open spec fn or_default(v: Option<String>, d: Seq<char>) -> Seq<char> {
    match v {
        Some(s) => s@,
        None => d,
    }
}

/// A library entry for a file: the tags where they are known, the file's
/// name (without extension) as the title otherwise, and `Unknown Artist`,
/// `Unknown Album` and a zero duration for what is missing. Without tags at
/// all, every tag counts as missing.
pub fn track_from_metadata(
    path: String,
    file_stem: Option<String>,
    meta: Option<TrackMetadata>,
    format: String,
    file_size: u64,
) -> (r: Track)
    ensures
        r.path == path,
        r.format == format,
        r.file_size == file_size,
        ({
            let stem = or_default(file_stem, "Unknown"@);
            match meta {
                Some(m) => {
                    &&& r.title@ == or_default(m.title, stem)
                    &&& r.artist@ == or_default(m.artist, "Unknown Artist"@)
                    &&& r.album@ == or_default(m.album, "Unknown Album"@)
                    &&& r.duration_ms == match m.duration_ms {
                        Some(d) => d,
                        None => 0,
                    }
                    &&& r.track_number == m.track_number
                    &&& r.bitrate == m.bitrate
                    &&& r.sample_rate == m.sample_rate
                    &&& r.channels == m.channels
                },
                None => {
                    &&& r.title@ == stem
                    &&& r.artist@ == "Unknown Artist"@
                    &&& r.album@ == "Unknown Album"@
                    &&& r.duration_ms == 0
                    &&& (r.track_number is None)
                    &&& (r.bitrate is None)
                    &&& (r.sample_rate is None)
                    &&& (r.channels is None)
                },
            }
        }),
{
    let stem = match file_stem {
        Some(s) => s,
        None => "Unknown".to_owned(),
    };
    match meta {
        Some(m) => Track {
            path,
            title: match m.title {
                Some(t) => t,
                None => stem,
            },
            artist: match m.artist {
                Some(a) => a,
                None => "Unknown Artist".to_owned(),
            },
            album: match m.album {
                Some(a) => a,
                None => "Unknown Album".to_owned(),
            },
            duration_ms: match m.duration_ms {
                Some(d) => d,
                None => 0,
            },
            track_number: m.track_number,
            bitrate: m.bitrate,
            sample_rate: m.sample_rate,
            channels: m.channels,
            format,
            file_size,
        },
        None => Track {
            path,
            title: stem,
            artist: "Unknown Artist".to_owned(),
            album: "Unknown Album".to_owned(),
            duration_ms: 0,
            track_number: None,
            bitrate: None,
            sample_rate: None,
            channels: None,
            format,
            file_size,
        },
    }
}

/// A cached scan stands for the directory when it was made of the same
/// directory and the directory has not changed since (its modification time,
/// in seconds, is not later than the cached one).
pub fn cache_is_fresh(cached_dir: &str, dir: &str, cached_mtime: u64, dir_mtime: u64) -> (r: bool)
    ensures
        r == (cached_dir@ == dir@ && dir_mtime <= cached_mtime),
{
    let a = crate::text::chars_of(cached_dir);
    if !equals_lit(&a, dir) {
        return false;
    }
    dir_mtime <= cached_mtime
}

/// Lexicographic order of character sequences, by code point: the order of
/// `String` comparison.
pub open spec fn chars_lt(a: Seq<char>, b: Seq<char>) -> bool
    decreases a.len(),
{
    if a.len() == 0 {
        b.len() > 0
    } else if b.len() == 0 {
        false
    } else if a[0] != b[0] {
        (a[0] as int) < (b[0] as int)
    } else {
        chars_lt(a.drop_first(), b.drop_first())
    }
}

/// `None` before any number, numbers in their order.
pub open spec fn opt_lt(a: Option<u32>, b: Option<u32>) -> bool {
    match (a, b) {
        (None, Some(_)) => true,
        (Some(x), Some(y)) => x < y,
        _ => false,
    }
}

/// What a track is sorted by: artist, album, track number and title, the
/// texts compared case-insensitively.
pub open spec fn key_of(t: Track) -> (Seq<char>, Seq<char>, Option<u32>, Seq<char>) {
    (lower_of(t.artist@), lower_of(t.album@), t.track_number, lower_of(t.title@))
}

pub open spec fn key_lt(
    a: (Seq<char>, Seq<char>, Option<u32>, Seq<char>),
    b: (Seq<char>, Seq<char>, Option<u32>, Seq<char>),
) -> bool {
    if a.0 != b.0 {
        chars_lt(a.0, b.0)
    } else if a.1 != b.1 {
        chars_lt(a.1, b.1)
    } else if a.2 != b.2 {
        opt_lt(a.2, b.2)
    } else {
        chars_lt(a.3, b.3)
    }
}

proof fn lemma_chars_lt_order(a: Seq<char>, b: Seq<char>, c: Seq<char>)
    ensures
        !chars_lt(a, a),
        chars_lt(a, b) && chars_lt(b, c) ==> chars_lt(a, c),
        a != b ==> chars_lt(a, b) || chars_lt(b, a),
    decreases a.len(),
{
    if a.len() > 0 {
        lemma_chars_lt_order(a.drop_first(), b.drop_first(), c.drop_first());
        if b.len() > 0 && a[0] == b[0] && a.drop_first() == b.drop_first() {
            assert forall|i: int| 0 <= i < a.len() implies a[i] == b[i] by {
                if i > 0 {
                    assert(a[i] == a.drop_first()[i - 1]);
                    assert(b[i] == b.drop_first()[i - 1]);
                }
            }
            assert(a =~= b);
        }
    } else if b.len() == 0 {
        assert(a =~= b);
    }
}

proof fn lemma_key_lt_order(
    a: (Seq<char>, Seq<char>, Option<u32>, Seq<char>),
    b: (Seq<char>, Seq<char>, Option<u32>, Seq<char>),
    c: (Seq<char>, Seq<char>, Option<u32>, Seq<char>),
)
    ensures
        !key_lt(a, a),
        key_lt(a, b) && key_lt(b, c) ==> key_lt(a, c),
        a != b ==> key_lt(a, b) || key_lt(b, a),
{
    lemma_chars_lt_order(a.0, b.0, c.0);
    lemma_chars_lt_order(a.0, c.0, b.0);
    lemma_chars_lt_order(b.0, a.0, c.0);
    lemma_chars_lt_order(c.0, a.0, b.0);
    lemma_chars_lt_order(a.1, b.1, c.1);
    lemma_chars_lt_order(a.1, c.1, b.1);
    lemma_chars_lt_order(b.1, a.1, c.1);
    lemma_chars_lt_order(c.1, a.1, b.1);
    lemma_chars_lt_order(a.3, b.3, c.3);
    lemma_chars_lt_order(b.3, a.3, c.3);
}

fn chars_less(a: &[char], b: &[char]) -> (r: bool)
    ensures
        r == chars_lt(a@, b@),
{
    let mut i: usize = 0;
    assert(a@.skip(0) =~= a@);
    assert(b@.skip(0) =~= b@);
    while i < a.len() && i < b.len() && a[i] == b[i]
        invariant
            i <= a@.len(),
            i <= b@.len(),
            chars_lt(a@, b@) == chars_lt(a@.skip(i as int), b@.skip(i as int)),
        decreases a@.len() - i,
    {
        assert(a@.skip(i as int).drop_first() =~= a@.skip(i + 1));
        assert(b@.skip(i as int).drop_first() =~= b@.skip(i + 1));
        i = i + 1;
    }
    if i == a.len() {
        i < b.len()
    } else if i == b.len() {
        false
    } else {
        a[i] < b[i]
    }
}

fn chars_same(a: &[char], b: &[char]) -> (r: bool)
    ensures
        r == (a@ == b@),
{
    if a.len() != b.len() {
        return false;
    }
    let mut i: usize = 0;
    while i < a.len()
        invariant
            a@.len() == b@.len(),
            i <= a@.len(),
            forall|j: int| 0 <= j < i ==> a@[j] == b@[j],
        decreases a@.len() - i,
    {
        if a[i] != b[i] {
            return false;
        }
        i = i + 1;
    }
    assert(a@ =~= b@);
    true
}

/// A track's sort key, computed once.
struct SortKey {
    artist: Vec<char>,
    album: Vec<char>,
    number: Option<u32>,
    title: Vec<char>,
}

impl SortKey {
    spec fn view_key(&self) -> (Seq<char>, Seq<char>, Option<u32>, Seq<char>) {
        (self.artist@, self.album@, self.number, self.title@)
    }

    fn of(t: &Track) -> (r: SortKey)
        ensures
            r.view_key() == key_of(*t),
    {
        let artist = lowercase(t.artist.as_str());
        let album = lowercase(t.album.as_str());
        let title = lowercase(t.title.as_str());
        SortKey {
            artist: crate::text::chars_of(artist.as_str()),
            album: crate::text::chars_of(album.as_str()),
            number: t.track_number,
            title: crate::text::chars_of(title.as_str()),
        }
    }

    fn less(&self, o: &SortKey) -> (r: bool)
        ensures
            r == key_lt(self.view_key(), o.view_key()),
    {
        if !chars_same(self.artist.as_slice(), o.artist.as_slice()) {
            return chars_less(self.artist.as_slice(), o.artist.as_slice());
        }
        if !chars_same(self.album.as_slice(), o.album.as_slice()) {
            return chars_less(self.album.as_slice(), o.album.as_slice());
        }
        match (self.number, o.number) {
            (None, Some(_)) => {
                return true;
            },
            (Some(x), Some(y)) => {
                if x != y {
                    return x < y;
                }
            },
            (Some(_), None) => {
                return false;
            },
            (None, None) => {},
        }
        chars_less(self.title.as_slice(), o.title.as_slice())
    }
}

/// Tracks in order of artist, album, track number and title, the texts
/// compared case-insensitively.
pub open spec fn sorted_by_key(s: Seq<Track>) -> bool {
    forall|i: int, j: int| 0 <= i < j < s.len() ==> !key_lt(key_of(#[trigger] s[j]), key_of(#[trigger] s[i]))
}

/// The library in display order (see [`sorted_by_key`]): the same tracks,
/// none lost or repeated.
pub fn sort_tracks(tracks: Vec<Track>) -> (r: Vec<Track>)
    ensures
        r@.to_multiset() == tracks@.to_multiset(),
        sorted_by_key(r@),
{
    let mut rest = tracks;
    let mut out: Vec<Track> = Vec::new();
    let mut keys: Vec<SortKey> = Vec::new();
    broadcast use vstd::seq_lib::group_to_multiset_ensures;
    broadcast use vstd::multiset::group_multiset_axioms;
    while rest.len() > 0
        invariant
            keys@.len() == out@.len(),
            forall|k: int| 0 <= k < out@.len() ==> #[trigger] keys@[k].view_key() == key_of(out@[k]),
            sorted_by_key(out@),
            out@.to_multiset().add(rest@.to_multiset()) == tracks@.to_multiset(),
        decreases rest@.len(),
    {
        let ghost before_rest = rest@;
        let t = rest.pop().unwrap();
        proof {
            assert(before_rest =~= rest@.push(t));
        }
        let key = SortKey::of(&t);
        let mut p: usize = 0;
        while p < out.len() && keys[p].less(&key)
            invariant
                keys@.len() == out@.len(),
                p <= out@.len(),
                forall|k: int| 0 <= k < out@.len() ==> #[trigger] keys@[k].view_key() == key_of(out@[k]),
                forall|k: int| 0 <= k < p ==> key_lt(key_of(#[trigger] out@[k]), key_of(t)),
                key.view_key() == key_of(t),
            decreases out@.len() - p,
        {
            p = p + 1;
        }
        let ghost old_out = out@;
        proof {
            let x = key_of(t);
            assert forall|i: int, j: int| 0 <= i < j < old_out.len() + 1 implies !key_lt(
                key_of(#[trigger] old_out.insert(p as int, t)[j]),
                key_of(#[trigger] old_out.insert(p as int, t)[i]),
            ) by {
                let s = old_out.insert(p as int, t);
                if i < p && j == p {
                    lemma_key_lt_order(key_of(s[i]), x, x);
                    lemma_key_lt_order(x, key_of(s[i]), x);
                } else if i == p && j > p {
                    let y = key_of(old_out[j - 1]);
                    let q = key_of(old_out[p as int]);
                    assert(p < old_out.len());
                    assert(!key_lt(q, x));
                    lemma_key_lt_order(y, x, q);
                    lemma_key_lt_order(x, q, y);
                    lemma_key_lt_order(q, x, y);
                    if p as int != j - 1 {
                        assert(!key_lt(y, q));
                    }
                } else if i < p && j > p {
                    assert(!key_lt(key_of(old_out[j - 1]), key_of(old_out[i])));
                } else if j < p {
                } else {
                    assert(!key_lt(key_of(old_out[j - 1]), key_of(old_out[i - 1])));
                }
            }
            assert(old_out.insert(p as int, t) =~= old_out.subrange(0, p as int) + seq![t]
                + old_out.subrange(p as int, old_out.len() as int));
            assert(old_out =~= old_out.subrange(0, p as int) + old_out.subrange(
                p as int,
                old_out.len() as int,
            ));
            vstd::seq_lib::lemma_multiset_commutative(
                old_out.subrange(0, p as int) + seq![t],
                old_out.subrange(p as int, old_out.len() as int),
            );
            vstd::seq_lib::lemma_multiset_commutative(old_out.subrange(0, p as int), seq![t]);
            vstd::seq_lib::lemma_multiset_commutative(
                old_out.subrange(0, p as int),
                old_out.subrange(p as int, old_out.len() as int),
            );
            rest@.to_multiset_ensures();
            Seq::<Track>::empty().to_multiset_ensures();
            assert(Seq::<Track>::empty().push(t) =~= seq![t]);
            assert(Seq::<Track>::empty().to_multiset() =~= vstd::multiset::Multiset::empty());
            assert(seq![t].to_multiset() =~= vstd::multiset::Multiset::empty().insert(t));
            assert(rest@.push(t).to_multiset() =~= rest@.to_multiset().insert(t));
        }
        out.insert(p, t);
        keys.insert(p, key);
        proof {
            assert(out@.to_multiset() =~= old_out.to_multiset().insert(t));
            assert(before_rest.to_multiset() =~= rest@.to_multiset().insert(t));
            assert(out@.to_multiset().add(rest@.to_multiset()) =~= old_out.to_multiset().add(
                before_rest.to_multiset(),
            ));
        }
    }
    proof {
        assert(rest@.to_multiset() =~= vstd::multiset::Multiset::empty());
        assert(out@.to_multiset().add(vstd::multiset::Multiset::empty()) =~= out@.to_multiset());
    }
    out
}

} // verus!
