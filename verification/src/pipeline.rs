//! Building a playable source: which container prober a remote object is
//! handed to, from its path's extension and the response's media type.
use crate::song::str_eq_chars;
use vstd::prelude::*;
use vstd::string::*;

verus! {

/// The index of the last `.` of a path's final segment: scanning from the
/// end, the first `.` before any `/`.
pub open spec fn last_extension_dot(s: Seq<char>) -> Option<int>
    decreases s.len(),
{
    if s.len() == 0 {
        None
    } else if s.last() == '.' {
        Some(s.len() - 1)
    } else if s.last() == '/' {
        None
    } else {
        last_extension_dot(s.drop_last())
    }
}

/// The extension of the path's final segment: what follows its last dot.
pub fn extension_of_path(path: &str) -> (r: Option<String>)
    ensures
        match r {
            Some(ext) => last_extension_dot(path@) is Some && ext@ == path@.subrange(
                last_extension_dot(path@).unwrap() + 1,
                path@.len() as int,
            ),
            None => last_extension_dot(path@) is None,
        },
{
    let n = path.unicode_len();
    let mut j: usize = n;
    proof {
        assert(path@.take(n as int) =~= path@);
    }
    while j > 0
        invariant
            n == path@.len(),
            j <= n,
            last_extension_dot(path@) == last_extension_dot(path@.take(j as int)),
        decreases j,
    {
        let ghost t = path@;
        proof {
            assert(t.take(j as int).last() == t[j - 1]);
            assert(t.take(j as int).drop_last() =~= t.take(j as int - 1));
        }
        let c = path.get_char(j - 1);
        if c == '.' {
            return Some(path.substring_char(j, n).to_owned());
        }
        if c == '/' {
            return None;
        }
        j -= 1;
    }
    proof {
        assert(path@.take(0) =~= Seq::<char>::empty());
    }
    None
}

/// Whether the object is treated as a live segmented playlist, whose
/// segments are transport-stream files: decided by the path extension or the
/// announced media type.
pub fn is_mpeg_stream(extension: Option<&String>, mime_type: Option<&String>) -> (r: bool)
    ensures
        r == ({
            ||| (match extension {
                Some(e) => e@ == "m3u8"@ || e@ == "m3u"@,
                None => false,
            })
            ||| (match mime_type {
                Some(m) => m@ == "application/vnd.apple.mpegurl"@ || m@ == "audio/mpegurl"@,
                None => false,
            })
        }),
{
    let ext_says = match extension {
        Some(e) => str_eq_chars(e.as_str(), "m3u8") || str_eq_chars(e.as_str(), "m3u"),
        None => false,
    };
    let mime_says = match mime_type {
        Some(m) => str_eq_chars(m.as_str(), "application/vnd.apple.mpegurl") || str_eq_chars(
            m.as_str(),
            "audio/mpegurl",
        ),
        None => false,
    };
    ext_says || mime_says
}

/// What the container prober is told about the object.
pub struct ProbeHint {
    pub extension: Option<String>,
    pub mime_type: Option<String>,
}

/// The hint for probing: a segmented playlist is probed as a transport
/// stream; anything else is probed under its own extension and media type.
pub fn probe_hint(
    mpeg_stream: bool,
    extension: Option<String>,
    mime_type: Option<String>,
) -> (r: ProbeHint)
    ensures
        mpeg_stream ==> (r.extension matches Some(e) && e@ == "ts"@) && (r.mime_type
            matches Some(m) && m@ == "video/mp2t"@),
        !mpeg_stream ==> r.extension == extension && r.mime_type == mime_type,
{
    if mpeg_stream {
        ProbeHint {
            extension: Some("ts".to_owned()),
            mime_type: Some("video/mp2t".to_owned()),
        }
    } else {
        ProbeHint { extension, mime_type }
    }
}

/// The format registry the playback driver is configured with: the standard
/// formats plus the transport-stream reader this library models.
pub struct FormatRegistry {
    /// Whether the transport-stream reader is registered beside the standard
    /// formats.
    pub mpegts_enabled: bool,
}

/// The playback driver's format registry: the standard formats with the
/// transport-stream reader registered on top.
pub fn songbird() -> (r: FormatRegistry)
    ensures
        r.mpegts_enabled,
{
    FormatRegistry { mpegts_enabled: true }
}

} // verus!
