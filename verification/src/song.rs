//! Songs as the queue model sees them: metadata from the media extractor,
//! the download location, and the headers the remote expects — and the rules
//! that turn a play request and the extractor's output into songs.
use crate::error::Error;
use vstd::prelude::*;
use vstd::string::*;

verus! {

/// Immutable description of one loaded song.
pub struct SongMetadata {
    /// Identifier drawn when the song was loaded.
    pub id: u128,
    /// Display title.
    pub title: String,
    /// The page the song was resolved from.
    pub url: String,
    /// Thumbnail image, when the extractor gave one.
    pub thumbnail_url: Option<String>,
    /// Whole seconds, absent for live or unknown material.
    pub duration_seconds: Option<u64>,
    /// The user who requested the song.
    pub user_id: u64,
}

/// A song ready to play: metadata plus how to fetch the audio.
pub struct Song {
    pub metadata: SongMetadata,
    pub download_url: String,
    pub http_headers: Vec<(String, String)>,
}

/// A queued song together with the status message that announced it, so the
/// message can be updated when the song starts playing.
pub struct QueuedSong {
    pub song: Song,
    pub queue_message_id: Option<(u64, u64)>,
}

/// Settings that govern loading and playing.
pub struct PlayConfig {
    /// Prepended (with a colon) when the request is not a URL.
    pub search_prefix: String,
    /// A URL whose host contains any of these is refused.
    pub host_blocklist: Vec<String>,
    /// The media extractor command.
    pub ytdl_name: String,
    /// Extra arguments handed to the extractor.
    pub ytdl_args: Vec<String>,
    /// Ring capacity for the media pipeline.
    pub buffer_capacity_kb: usize,
}

/// What parsing a play request as a URL yields: nothing when it is no URL at
/// all, a URL without a host, or the URL's host.
/// Relies on `url::Url::parse` and `url::Url::host_str`: both depend on the
/// string alone.
pub uninterp spec fn host_of(s: Seq<char>) -> Option<Option<Seq<char>>>;

/// The view of a parsed-host answer.
pub open spec fn host_view(r: Option<Option<String>>) -> Option<Option<Seq<char>>> {
    match r {
        None => None,
        Some(None) => Some(None),
        Some(Some(h)) => Some(Some(h@)),
    }
}

/// Relies on `url::Url::parse` (whether the request is an absolute URL) and
/// `url::Url::host_str` (its host, if the URL has one); together they are a
/// function of the string alone, named `host_of`.
#[verifier::external_body]
fn url_host(term: &str) -> (r: Option<Option<String>>)
    ensures
        host_view(r) == host_of(term@),
{
    match url::Url::parse(term) {
        Ok(u) => Some(u.host_str().map(|h| h.to_string())),
        Err(_) => None,
    }
}

/// Relies on `uuid::Uuid::new_v4`, a freshly drawn random identifier:
/// nothing is promised of the value.
#[verifier::external_body]
fn fresh_song_id() -> u128 {
    uuid::Uuid::new_v4().as_u128()
}

/// Whether `p` occurs in `h` as a contiguous run of characters.
pub open spec fn contains_chars(h: Seq<char>, p: Seq<char>) -> bool {
    exists|i: int|
        #![trigger h.subrange(i, i + p.len())]
        0 <= i && i + p.len() <= h.len() && h.subrange(i, i + p.len()) == p
}

/// Whether the characters of `p` stand in `h` at position `i`.
fn matches_at(h: &str, p: &str, i: usize, hn: usize, pn: usize) -> (r: bool)
    requires
        hn == h@.len(),
        pn == p@.len(),
        i + pn <= hn,
    ensures
        r == (h@.subrange(i as int, i + p@.len()) == p@),
{
    let mut k: usize = 0;
    while k < pn
        invariant
            hn == h@.len(),
            pn == p@.len(),
            i + pn <= hn,
            k <= pn,
            forall|j: int| 0 <= j < k ==> h@[i + j] == p@[j],
        decreases pn - k,
    {
        if h.get_char(i + k) != p.get_char(k) {
            proof {
                assert(h@.subrange(i as int, i + p@.len())[k as int] == h@[i + k]);
            }
            return false;
        }
        k += 1;
    }
    proof {
        assert(h@.subrange(i as int, i + p@.len()) =~= p@);
    }
    true
}

/// Whether `s` begins with the characters of `p`.
pub fn starts_with_chars(s: &str, p: &str) -> (r: bool)
    ensures
        r == (s@.len() >= p@.len() && s@.subrange(0, p@.len() as int) == p@),
{
    let sn = s.unicode_len();
    let pn = p.unicode_len();
    if sn < pn {
        return false;
    }
    matches_at(s, p, 0, sn, pn)
}

/// Substring search: whether `p` occurs anywhere in `h`.
pub fn contains_substring(h: &str, p: &str) -> (r: bool)
    ensures
        r == contains_chars(h@, p@),
{
    let hn = h.unicode_len();
    let pn = p.unicode_len();
    if pn > hn {
        return false;
    }
    if pn == 0 {
        proof {
            assert(h@.subrange(0, 0 + p@.len() as int) =~= p@);
        }
        return true;
    }
    let mut i: usize = 0;
    while i <= hn - pn
        invariant
            hn == h@.len(),
            pn == p@.len(),
            1 <= pn <= hn,
            i <= hn - pn + 1,
            forall|j: int| #![trigger h@.subrange(j, j + p@.len())] 0 <= j < i ==> h@.subrange(j, j + p@.len()) != p@,
        decreases hn - pn + 1 - i,
    {
        if matches_at(h, p, i, hn, pn) {
            return true;
        }
        i += 1;
    }
    proof {
        assert forall|j: int|
            #![trigger h@.subrange(j, j + p@.len())]
            0 <= j && j + p@.len() <= h@.len() implies h@.subrange(j, j + p@.len()) != p@ by {
            assert(j < i);
        }
    }
    false
}

/// Character-wise string equality.
pub fn str_eq_chars(a: &str, b: &str) -> (r: bool)
    ensures
        r == (a@ == b@),
{
    let an = a.unicode_len();
    let bn = b.unicode_len();
    if an != bn {
        return false;
    }
    let mut i: usize = 0;
    while i < an
        invariant
            an == a@.len(),
            an == b@.len(),
            i <= an,
            forall|j: int| 0 <= j < i ==> a@[j] == b@[j],
        decreases an - i,
    {
        if a.get_char(i) != b.get_char(i) {
            return false;
        }
        i += 1;
    }
    proof {
        assert(a@ =~= b@);
    }
    true
}

/// Whether any blocklist entry occurs in the host.
fn host_blocked(host: &str, host_blocklist: &Vec<String>) -> (r: bool)
    ensures
        r == (exists|k: int|
            0 <= k < host_blocklist@.len() && contains_chars(host@, host_blocklist@[k]@)),
{
    let mut k: usize = 0;
    while k < host_blocklist.len()
        invariant
            k <= host_blocklist@.len(),
            forall|j: int| 0 <= j < k ==> !contains_chars(host@, host_blocklist@[j]@),
        decreases host_blocklist@.len() - k,
    {
        if contains_substring(host, host_blocklist[k].as_str()) {
            return true;
        }
        k += 1;
    }
    false
}

/// What the extractor is asked for, given a play request: a parseable URL is
/// used as it stands — unless its host contains a blocklist entry, which is
/// refused — and anything else becomes a search query of the form
/// `prefix:term`.
pub fn resolve_play_target(term: &str, config: &PlayConfig) -> (r: Result<String, Error>)
    ensures
        match r {
            Ok(q) => match host_of(term@) {
                None => q@ == config.search_prefix@ + ":"@ + term@,
                Some(None) => q@ == term@,
                Some(Some(host)) => q@ == term@ && (forall|k: int|
                    0 <= k < config.host_blocklist@.len() ==> !contains_chars(
                        host,
                        config.host_blocklist@[k]@,
                    )),
            },
            Err(e) => {
                &&& e is UnsupportedUrl
                &&& match host_of(term@) {
                    Some(Some(host)) => exists|k: int|
                        0 <= k < config.host_blocklist@.len() && contains_chars(
                            host,
                            config.host_blocklist@[k]@,
                        ),
                    _ => false,
                }
            },
        },
{
    let parsed = url_host(term);
    match parsed {
        None => {
            let mut q = String::new();
            q.append(config.search_prefix.as_str());
            q.append(":");
            q.append(term);
            proof {
                assert(q@ =~= config.search_prefix@ + ":"@ + term@);
            }
            Ok(q)
        },
        Some(None) => Ok(term.to_owned()),
        Some(Some(host)) => {
            if host_blocked(host.as_str(), &config.host_blocklist) {
                Err(Error::UnsupportedUrl)
            } else {
                Ok(term.to_owned())
            }
        },
    }
}

/// One line of extractor output, classified.
pub enum ExtractorLine {
    /// The line announced an error; the text after the marker is kept.
    ExtractorError(String),
    /// The line is a payload to be decoded as JSON.
    Payload(String),
}

/// Classifies one line of extractor output: a line beginning `ERROR: ` is an
/// extractor error carrying the rest of the line; anything else is payload.
pub fn classify_extractor_line(line: &str) -> (r: ExtractorLine)
    ensures
        match r {
            ExtractorLine::ExtractorError(rest) => {
                &&& line@.len() >= "ERROR: "@.len()
                &&& line@.subrange(0, "ERROR: "@.len() as int) == "ERROR: "@
                &&& rest@ == line@.subrange("ERROR: "@.len() as int, line@.len() as int)
            },
            ExtractorLine::Payload(p) => {
                &&& p@ == line@
                &&& !(line@.len() >= "ERROR: "@.len() && line@.subrange(
                    0,
                    "ERROR: "@.len() as int,
                ) == "ERROR: "@)
            },
        },
{
    let marker = "ERROR: ";
    let n = line.unicode_len();
    let mn = marker.unicode_len();
    if n >= mn && matches_at(line, marker, 0, n, mn) {
        let rest = line.substring_char(mn, n);
        ExtractorLine::ExtractorError(rest.to_owned())
    } else {
        ExtractorLine::Payload(line.to_owned())
    }
}

/// The plain fields of one JSON object the extractor printed.
pub struct ExtractorFields {
    pub title: String,
    pub fulltitle: Option<String>,
    pub description: Option<String>,
    pub extractor: String,
    pub webpage_url: String,
    pub url: String,
    pub thumbnail: Option<String>,
    pub http_headers: Vec<(String, String)>,
    /// Whole seconds; the extractor may omit it.
    pub duration_seconds: Option<u64>,
}

/// The title shown for a song: the `twitch:stream` extractor carries the
/// stream title in the description, every other extractor prefers the full
/// title; the plain title is the fallback.
pub open spec fn chosen_title(fields: ExtractorFields) -> Seq<char> {
    let preferred: Option<String> = if fields.extractor@ == "twitch:stream"@ {
        fields.description
    } else {
        fields.fulltitle
    };
    match preferred {
        Some(t) => t@,
        None => fields.title@,
    }
}

/// Builds a song from the extractor's fields: the title rule above, a
/// duration of exactly zero normalized to unknown, and a freshly drawn id.
pub fn song_from_extractor_fields(fields: ExtractorFields, user_id: u64) -> (s: Song)
    ensures
        s.metadata.title@ == chosen_title(fields),
        s.metadata.url == fields.webpage_url,
        s.metadata.thumbnail_url == fields.thumbnail,
        s.metadata.duration_seconds == (if fields.duration_seconds == Some(0u64) {
            Option::<u64>::None
        } else {
            fields.duration_seconds
        }),
        s.metadata.user_id == user_id,
        s.download_url == fields.url,
        s.http_headers == fields.http_headers,
{
    let is_twitch = str_eq_chars(fields.extractor.as_str(), "twitch:stream");
    let preferred = if is_twitch {
        fields.description
    } else {
        fields.fulltitle
    };
    let title = match preferred {
        Some(t) => t,
        None => fields.title,
    };
    let duration_seconds = match fields.duration_seconds {
        Some(0) => None,
        other => other,
    };
    Song {
        metadata: SongMetadata {
            id: fresh_song_id(),
            title,
            url: fields.webpage_url,
            thumbnail_url: fields.thumbnail,
            duration_seconds,
            user_id,
        },
        download_url: fields.url,
        http_headers: fields.http_headers,
    }
}

/// Ring capacity in bytes for the configured kilobytes.
pub fn buffer_capacity_bytes(config: &PlayConfig) -> (r: usize)
    requires
        config.buffer_capacity_kb * 1024 <= usize::MAX,
    ensures
        r == config.buffer_capacity_kb * 1024,
{
    config.buffer_capacity_kb * 1024
}

} // verus!
