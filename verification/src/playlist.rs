//! Parsing a media playlist: the tags a segmented stream uses —
//! target duration, media sequence, per-segment durations, the end marker
//! and the key tag — folded line by line into a `MediaPlaylist`. Durations
//! are read as whole milliseconds from decimal seconds.
use crate::error::Error;
use crate::hls::{HlsSegment, MediaPlaylist};
use crate::song::{contains_substring, starts_with_chars};
use crate::time_bar::repeat_char;
use vstd::prelude::*;
use vstd::string::*;

verus! {

/// The value of one decimal digit, none for any other character.
pub open spec fn dec_digit_value(c: char) -> Option<int> {
    let u = c as u32;
    if 48 <= u && u <= 57 {
        Some(u - 48)
    } else {
        None
    }
}

/// The value of a decimal numeral, reading the first `i` characters; none
/// when empty or holding a non-digit.
pub open spec fn dec_value_prefix(s: Seq<char>, i: int) -> Option<int>
    decreases i,
{
    if i <= 0 {
        None
    } else {
        let rest = if i == 1 {
            Some(0int)
        } else {
            dec_value_prefix(s, i - 1)
        };
        match (rest, dec_digit_value(s[i - 1])) {
            (Some(high), Some(d)) => Some(high * 10 + d),
            _ => None,
        }
    }
}

/// The value of a whole decimal numeral, when it fits an unsigned word.
pub open spec fn dec_u64(s: Seq<char>) -> Option<int> {
    match dec_value_prefix(s, s.len() as int) {
        Some(v) => if v <= u64::MAX {
            Some(v)
        } else {
            None
        },
        None => None,
    }
}

/// A numeral's value is never negative.
proof fn lemma_dec_value_nonneg(s: Seq<char>, i: int)
    ensures
        match dec_value_prefix(s, i) {
            Some(v) => v >= 0,
            None => true,
        },
    decreases i,
{
    if i > 1 {
        lemma_dec_value_nonneg(s, i - 1);
    }
}

/// A numeral with a non-digit has no value.
proof fn lemma_dec_value_none(s: Seq<char>, n: int, i: int)
    requires
        0 <= i < n <= s.len(),
        dec_digit_value(s[i]) is None,
    ensures
        dec_value_prefix(s, n) is None,
    decreases n,
{
    if n - 1 > i {
        lemma_dec_value_none(s, n - 1, i);
    }
}

/// Reading more digits never shrinks the value.
proof fn lemma_dec_value_grows(s: Seq<char>, n: int, i: int, v: int)
    requires
        0 < i <= n <= s.len(),
        dec_value_prefix(s, i) == Some(v),
        v > u64::MAX,
    ensures
        match dec_value_prefix(s, n) {
            Some(w) => w > u64::MAX,
            None => true,
        },
    decreases n - i,
{
    if i < n {
        match dec_digit_value(s[i]) {
            Some(d) => {
                assert(dec_value_prefix(s, i + 1) == Some(v * 10 + d));
                assert(v * 10 + d > u64::MAX) by (nonlinear_arith)
                    requires
                        v > u64::MAX,
                        d >= 0,
                ;
                lemma_dec_value_grows(s, n, i + 1, v * 10 + d);
            },
            None => {
                lemma_dec_value_none(s, n, i);
            },
        }
    }
}

/// Parses a decimal numeral; refused when empty, holding a non-digit, or
/// too large for an unsigned word.
pub fn parse_dec_u64(s: &str) -> (r: Option<u64>)
    ensures
        r == (match dec_u64(s@) {
            Some(v) => Some(v as u64),
            None => Option::<u64>::None,
        }),
{
    let n = s.unicode_len();
    if n == 0 {
        return None;
    }
    let mut acc: u64 = 0;
    let mut i: usize = 0;
    while i < n
        invariant
            n == s@.len(),
            0 < n,
            i <= n,
            i == 0 ==> acc == 0,
            i > 0 ==> dec_value_prefix(s@, i as int) == Some(acc as int),
            acc <= u64::MAX,
        decreases n - i,
    {
        let c = s.get_char(i);
        let u = c as u32;
        let d: u32 = if 48 <= u && u <= 57 {
            u - 48
        } else {
            proof {
                lemma_dec_value_none(s@, n as int, i as int);
            }
            return None;
        };
        let next = acc as u128 * 10 + d as u128;
        if next > u64::MAX as u128 {
            proof {
                lemma_dec_value_grows(s@, n as int, i as int + 1, acc as int * 10 + d as int);
            }
            return None;
        }
        acc = next as u64;
        i += 1;
    }
    Some(acc)
}

/// The first position at or after `i` holding character `c`; the length when
/// none does.
pub open spec fn char_pos(t: Seq<char>, c: char, i: int) -> int
    decreases t.len() - i,
{
    if i < 0 || i >= t.len() {
        i
    } else if t[i] == c {
        i
    } else {
        char_pos(t, c, i + 1)
    }
}

/// Finds the first occurrence of a character.
fn find_char(s: &str, c: char) -> (r: usize)
    ensures
        r == char_pos(s@, c, 0),
        r <= s@.len(),
{
    let n = s.unicode_len();
    let mut i: usize = 0;
    while i < n && s.get_char(i) != c
        invariant
            n == s@.len(),
            i <= n,
            char_pos(s@, c, 0) == char_pos(s@, c, i as int),
        decreases n - i,
    {
        i += 1;
    }
    i
}

/// The fractional digits after the first dot; empty without a dot.
pub open spec fn raw_frac(d: Seq<char>) -> Seq<char> {
    let dot = char_pos(d, '.', 0);
    if dot < d.len() {
        d.skip(dot + 1)
    } else {
        Seq::empty()
    }
}

/// The fraction padded or cut to exactly three digits.
pub open spec fn frac3_of(d: Seq<char>) -> Seq<char> {
    let frac = raw_frac(d);
    if frac.len() >= 3 {
        frac.take(3)
    } else {
        frac + repeat_char('0', 3 - frac.len())
    }
}

/// A segment duration read from decimal seconds: the whole seconds, then up
/// to three fractional digits padded to milliseconds. Refused on a
/// non-digit or a value out of range.
pub open spec fn extinf_ms(d: Seq<char>) -> Option<int> {
    let dot = char_pos(d, '.', 0);
    let ip = dec_value_prefix(d.take(dot), dot);
    match (ip, dec_value_prefix(frac3_of(d), 3)) {
        (Some(i), Some(f)) => if i * 1000 + f <= u64::MAX {
            Some(i * 1000 + f)
        } else {
            None
        },
        _ => None,
    }
}

/// Parses a segment duration into milliseconds.
fn parse_extinf_ms(d: &str) -> (r: Option<u64>)
    ensures
        r == (match extinf_ms(d@) {
            Some(v) => Some(v as u64),
            None => Option::<u64>::None,
        }),
{
    let n = d.unicode_len();
    let dot = find_char(d, '.');
    proof {
        lemma_char_pos_bounds(d@, '.', 0);
    }
    let int_part = d.substring_char(0, dot);
    proof {
        assert(int_part@ =~= d@.take(dot as int));
    }
    let ip = match parse_dec_u64(int_part) {
        Some(v) => v,
        None => {
            proof {
                // Either the whole part is no numeral, or it alone already
                // exceeds the word: the total does too.
                match dec_value_prefix(d@.take(dot as int), dot as int) {
                    Some(v) => {
                        match dec_value_prefix(frac3_of(d@), 3) {
                            Some(f) => {
                                lemma_dec_value_nonneg(frac3_of(d@), 3);
                                assert(v * 1000 + f > u64::MAX) by (nonlinear_arith)
                                    requires
                                        v > u64::MAX,
                                        f >= 0,
                                ;
                            },
                            None => {},
                        }
                    },
                    None => {},
                }
            }
            return None;
        },
    };
    let mut frac = if dot < n {
        d.substring_char(dot + 1, n).to_owned()
    } else {
        String::new()
    };
    proof {
        lemma_dec_value_nonneg(d@.take(dot as int), dot as int);
        assert(dec_value_prefix(d@.take(char_pos(d@, '.', 0)), char_pos(d@, '.', 0)) == Some(
            ip as int,
        ));
        reveal_strlit("0");
        if (dot as int) < d@.len() {
            assert(frac@ =~= raw_frac(d@));
        } else {
            assert(frac@ =~= raw_frac(d@));
        }
        assert(frac@ =~= raw_frac(d@) + repeat_char('0', 0));
    }
    while frac.as_str().unicode_len() < 3
        invariant
            frac@ == raw_frac(d@) + repeat_char('0', frac@.len() - raw_frac(d@).len()),
            frac@.len() >= raw_frac(d@).len(),
        decreases 3 - frac@.len(),
    {
        frac.append("0");
        proof {
            reveal_strlit("0");
            assert("0"@ =~= seq!['0']);
            lemma_repeat_char_index('0', frac@.len() - raw_frac(d@).len());
            assert(frac@ =~= raw_frac(d@) + repeat_char('0', frac@.len() - raw_frac(d@).len()));
        }
    }
    let frac3 = frac.as_str().substring_char(0, 3);
    let fv = match parse_dec_u64(frac3) {
        Some(v) => v,
        None => {
            proof {
                lemma_frac3_view(d@, frac@, frac3@);
                lemma_three_digit_bound(frac3@);
            }
            return None;
        },
    };
    proof {
        lemma_frac3_view(d@, frac@, frac3@);
        lemma_three_digit_bound(frac3@);
        assert(fv < 1000);
    }
    proof {
        let sdot = char_pos(d@, '.', 0);
        assert(dec_value_prefix(d@.take(sdot), sdot) == Some(ip as int));
        assert(dec_value_prefix(frac3_of(d@), 3) == Some(fv as int));
    }
    let total = ip as u128 * 1000 + fv as u128;
    proof {
        assert(total as int == ip as int * 1000 + fv as int);
    }
    if total > u64::MAX as u128 {
        return None;
    }
    Some(total as u64)
}

/// `char_pos` stays within the text.
proof fn lemma_char_pos_bounds(t: Seq<char>, c: char, i: int)
    requires
        0 <= i <= t.len(),
    ensures
        i <= char_pos(t, c, i) <= t.len(),
        char_pos(t, c, i) < t.len() ==> t[char_pos(t, c, i)] == c,
    decreases t.len() - i,
{
    if i < t.len() && t[i] != c {
        lemma_char_pos_bounds(t, c, i + 1);
    }
}

/// The padded fraction the loop built is the padded fraction the spec names.
proof fn lemma_frac3_view(d: Seq<char>, frac: Seq<char>, frac3: Seq<char>)
    requires
        frac == raw_frac(d) + repeat_char('0', frac.len() - raw_frac(d).len()),
        frac.len() >= raw_frac(d).len(),
        frac.len() >= 3,
        frac3 == frac.subrange(0, 3),
    ensures
        frac3 == frac3_of(d),
{
    let raw = raw_frac(d);
    lemma_repeat_char_index('0', frac.len() - raw.len());
    if raw.len() >= 3 {
        assert(frac3 =~= raw.take(3));
    } else {
        lemma_repeat_char_index('0', 3 - raw.len());
        assert(frac3 =~= raw + repeat_char('0', 3 - raw.len()));
    }
}

/// Every position of a repeated character holds that character.
proof fn lemma_repeat_char_index(c: char, k: int)
    ensures
        repeat_char(c, k).len() == (if k >= 0 {
            k
        } else {
            0
        }),
        forall|j: int| 0 <= j < k ==> repeat_char(c, k)[j] == c,
    decreases k,
{
    if k > 0 {
        lemma_repeat_char_index(c, k - 1);
    }
}

/// A three-digit numeral is below a thousand.
proof fn lemma_three_digit_bound(s: Seq<char>)
    requires
        s.len() >= 3,
    ensures
        match dec_value_prefix(s, 3) {
            Some(v) => 0 <= v < 1000,
            None => true,
        },
{
    reveal_with_fuel(dec_value_prefix, 4);
}

/// Whether `t` begins with `p`.
pub open spec fn has_prefix(t: Seq<char>, p: Seq<char>) -> bool {
    t.len() >= p.len() && t.subrange(0, p.len() as int) == p
}

/// One classified playlist line.
pub enum PlaylistLine {
    /// The target duration, in milliseconds.
    TargetDuration(u64),
    /// The sequence number of the first listed segment.
    MediaSequence(u64),
    /// The duration of the next listed segment, in milliseconds.
    SegmentInfo(u64),
    /// The playlist is complete; no refresh will extend it.
    EndList,
    /// A key tag; only the method none plays.
    Key { method_none: bool },
    /// A blank line or an unhandled tag.
    Comment,
    /// A segment location.
    Uri,
    /// A handled tag whose number cannot be read.
    Invalid,
}

/// How one line is read: the handled tags with their values, any other tag
/// or blank line as a comment, anything else as a segment location.
pub open spec fn line_class(t: Seq<char>) -> PlaylistLine {
    if has_prefix(t, "#EXT-X-TARGETDURATION:"@) {
        match dec_u64(t.skip("#EXT-X-TARGETDURATION:"@.len() as int)) {
            Some(v) => if v * 1000 <= u64::MAX {
                PlaylistLine::TargetDuration((v * 1000) as u64)
            } else {
                PlaylistLine::Invalid
            },
            None => PlaylistLine::Invalid,
        }
    } else if has_prefix(t, "#EXT-X-MEDIA-SEQUENCE:"@) {
        match dec_u64(t.skip("#EXT-X-MEDIA-SEQUENCE:"@.len() as int)) {
            Some(v) => PlaylistLine::MediaSequence(v as u64),
            None => PlaylistLine::Invalid,
        }
    } else if has_prefix(t, "#EXTINF:"@) {
        let rest = t.skip("#EXTINF:"@.len() as int);
        match extinf_ms(rest.take(char_pos(rest, ',', 0))) {
            Some(v) => PlaylistLine::SegmentInfo(v as u64),
            None => PlaylistLine::Invalid,
        }
    } else if has_prefix(t, "#EXT-X-ENDLIST"@) {
        PlaylistLine::EndList
    } else if has_prefix(t, "#EXT-X-KEY:"@) {
        PlaylistLine::Key { method_none: crate::song::contains_chars(t, "METHOD=NONE"@) }
    } else if t.len() == 0 || t[0] == '#' {
        PlaylistLine::Comment
    } else {
        PlaylistLine::Uri
    }
}

/// Classifies one playlist line.
pub fn classify_playlist_line(line: &str) -> (r: PlaylistLine)
    ensures
        r == line_class(line@),
{
    let n = line.unicode_len();
    if starts_with_chars(line, "#EXT-X-TARGETDURATION:") {
        let prefix_len = "#EXT-X-TARGETDURATION:".unicode_len();
        let rest = line.substring_char(prefix_len, n);
        proof {
            assert(rest@ =~= line@.skip("#EXT-X-TARGETDURATION:"@.len() as int));
        }
        match parse_dec_u64(rest) {
            Some(v) => {
                proof {
                    lemma_dec_value_nonneg(rest@, rest@.len() as int);
                }
                let ms = v as u128 * 1000;
                if ms <= u64::MAX as u128 {
                    PlaylistLine::TargetDuration(ms as u64)
                } else {
                    PlaylistLine::Invalid
                }
            },
            None => PlaylistLine::Invalid,
        }
    } else if starts_with_chars(line, "#EXT-X-MEDIA-SEQUENCE:") {
        let prefix_len = "#EXT-X-MEDIA-SEQUENCE:".unicode_len();
        let rest = line.substring_char(prefix_len, n);
        proof {
            assert(rest@ =~= line@.skip("#EXT-X-MEDIA-SEQUENCE:"@.len() as int));
        }
        match parse_dec_u64(rest) {
            Some(v) => {
                proof {
                    lemma_dec_value_nonneg(rest@, rest@.len() as int);
                }
                PlaylistLine::MediaSequence(v)
            },
            None => PlaylistLine::Invalid,
        }
    } else if starts_with_chars(line, "#EXTINF:") {
        let prefix_len = "#EXTINF:".unicode_len();
        let rest = line.substring_char(prefix_len, n);
        proof {
            assert(rest@ =~= line@.skip("#EXTINF:"@.len() as int));
        }
        let comma = find_char(rest, ',');
        proof {
            lemma_char_pos_bounds(rest@, ',', 0);
        }
        let value = rest.substring_char(0, comma);
        proof {
            assert(value@ =~= rest@.take(char_pos(rest@, ',', 0)));
        }
        match parse_extinf_ms(value) {
            Some(v) => PlaylistLine::SegmentInfo(v),
            None => PlaylistLine::Invalid,
        }
    } else if starts_with_chars(line, "#EXT-X-ENDLIST") {
        PlaylistLine::EndList
    } else if starts_with_chars(line, "#EXT-X-KEY:") {
        PlaylistLine::Key { method_none: contains_substring(line, "METHOD=NONE") }
    } else if n == 0 || line.get_char(0) == '#' {
        PlaylistLine::Comment
    } else {
        PlaylistLine::Uri
    }
}

/// A line without its one trailing carriage return.
pub open spec fn strip_cr(t: Seq<char>) -> Seq<char> {
    if t.len() > 0 && t.last() == '\r' {
        t.drop_last()
    } else {
        t
    }
}

/// The lines of a text, split at newlines; a final line needs no newline.
pub open spec fn lines_of(t: Seq<char>) -> Seq<Seq<char>>
    decreases t.len(),
{
    if t.len() == 0 {
        Seq::empty()
    } else {
        let nl = char_pos(t, '\n', 0);
        if 0 <= nl < t.len() {
            seq![strip_cr(t.take(nl))] + lines_of(t.skip(nl + 1))
        } else {
            seq![strip_cr(t)]
        }
    }
}

/// A character position in a suffix, moved back to the whole text.
proof fn lemma_char_pos_skip(t: Seq<char>, c: char, pos: int)
    requires
        0 <= pos <= t.len(),
    ensures
        char_pos(t.skip(pos), c, 0) + pos == char_pos(t, c, pos),
    decreases t.len() - pos,
{
    lemma_char_pos_shift(t, c, pos, 0);
}

/// Scanning the suffix from `i` matches scanning the text from `pos + i`.
proof fn lemma_char_pos_shift(t: Seq<char>, c: char, pos: int, i: int)
    requires
        0 <= pos <= t.len(),
        0 <= i <= t.len() - pos,
    ensures
        char_pos(t.skip(pos), c, i) + pos == char_pos(t, c, pos + i),
    decreases t.len() - pos - i,
{
    if i < t.len() - pos {
        assert(t.skip(pos)[i] == t[pos + i]);
        if t[pos + i] != c {
            lemma_char_pos_shift(t, c, pos, i + 1);
        }
    }
}

/// Splits a text into its lines, dropping one carriage return at each
/// line's end.
pub fn split_lines(text: &str) -> (r: Vec<String>)
    ensures
        r@.map_values(|s: String| s@) == lines_of(text@),
{
    let n = text.unicode_len();
    let mut out: Vec<String> = Vec::new();
    let mut pos: usize = 0;
    proof {
        assert(text@.skip(0) =~= text@);
        assert(out@.map_values(|s: String| s@) + lines_of(text@.skip(0)) =~= lines_of(text@));
    }
    while pos < n
        invariant
            n == text@.len(),
            pos <= n,
            out@.map_values(|s: String| s@) + lines_of(text@.skip(pos as int)) == lines_of(
                text@,
            ),
        decreases n - pos,
    {
        let ghost t = text@;
        let mut e: usize = pos;
        while e < n && text.get_char(e) != '\n'
            invariant
                n == text@.len(),
                pos <= e <= n,
                char_pos(text@, '\n', pos as int) == char_pos(text@, '\n', e as int),
            decreases n - e,
        {
            e += 1;
        }
        proof {
            assert(char_pos(t, '\n', e as int) == e as int);
            lemma_char_pos_skip(t, '\n', pos as int);
        }
        let line = if e > pos && text.get_char(e - 1) == '\r' {
            text.substring_char(pos, e - 1)
        } else {
            text.substring_char(pos, e)
        };
        out.push(line.to_owned());
        proof {
            let suffix = t.skip(pos as int);
            let nl = char_pos(suffix, '\n', 0);
            assert(nl + pos == e as int);
            if (e as int) < n as int {
                assert(suffix.take(nl) =~= t.subrange(pos as int, e as int));
                assert(suffix.skip(nl + 1) =~= t.skip(e as int + 1));
            } else {
                assert(suffix =~= t.subrange(pos as int, e as int));
            }
            if e > pos && t[e as int - 1] == '\r' {
                assert(line@ =~= strip_cr(t.subrange(pos as int, e as int)));
            } else {
                assert(line@ =~= strip_cr(t.subrange(pos as int, e as int)));
            }
            if (e as int) < n as int {
                assert(out@.map_values(|s: String| s@) + lines_of(t.skip(e as int + 1)) =~= lines_of(
                    t,
                ));
            } else {
                assert(t.skip(n as int) =~= Seq::<char>::empty());
                assert(out@.map_values(|s: String| s@) + lines_of(t.skip(n as int)) =~= lines_of(
                    t,
                ));
            }
        }
        if e < n {
            pos = e + 1;
        } else {
            pos = n;
        }
    }
    proof {
        assert(text@.skip(n as int) =~= Seq::<char>::empty());
        assert(out@.map_values(|s: String| s@) + Seq::<Seq<char>>::empty() =~= out@.map_values(
            |s: String| s@,
        ));
    }
    out
}

/// What the fold knows of one parsed segment.
pub struct SegmentView {
    pub uri: Seq<char>,
    pub duration_ms: u64,
    pub key_method_none: bool,
}

/// The fold state: the tags seen so far, the pending segment duration, the
/// key mode in force, and the segments assembled.
pub struct PlaylistFold {
    pub ok: bool,
    pub target_ms: Option<u64>,
    pub media_sequence: u64,
    pub end_list: bool,
    pub pending_ms: Option<u64>,
    pub key_none: bool,
    pub segments: Seq<SegmentView>,
}

/// Before any line: nothing seen, no key tag means no encryption.
pub open spec fn fold_init() -> PlaylistFold {
    PlaylistFold {
        ok: true,
        target_ms: None,
        media_sequence: 0,
        end_list: false,
        pending_ms: None,
        key_none: true,
        segments: Seq::empty(),
    }
}

/// One line moves the fold: tags record their values, a location line
/// closes the pending duration into a segment, an unreadable tag poisons
/// the parse.
pub open spec fn fold_step(st: PlaylistFold, line: Seq<char>) -> PlaylistFold {
    match line_class(line) {
        PlaylistLine::TargetDuration(v) => PlaylistFold { target_ms: Some(v), ..st },
        PlaylistLine::MediaSequence(v) => PlaylistFold { media_sequence: v, ..st },
        PlaylistLine::SegmentInfo(ms) => PlaylistFold { pending_ms: Some(ms), ..st },
        PlaylistLine::EndList => PlaylistFold { end_list: true, ..st },
        PlaylistLine::Key { method_none } => PlaylistFold { key_none: method_none, ..st },
        PlaylistLine::Comment => st,
        PlaylistLine::Invalid => PlaylistFold { ok: false, ..st },
        PlaylistLine::Uri => match st.pending_ms {
            Some(ms) => PlaylistFold {
                pending_ms: None,
                segments: st.segments.push(
                    SegmentView { uri: line, duration_ms: ms, key_method_none: st.key_none },
                ),
                ..st
            },
            None => st,
        },
    }
}

/// The fold over all lines.
pub open spec fn fold_lines(lines: Seq<Seq<char>>) -> PlaylistFold
    decreases lines.len(),
{
    if lines.len() == 0 {
        fold_init()
    } else {
        fold_step(fold_lines(lines.drop_last()), lines.last())
    }
}

/// The fold view of assembled segments.
pub open spec fn seg_views(segs: Seq<HlsSegment>) -> Seq<SegmentView> {
    segs.map_values(
        |s: HlsSegment| SegmentView {
            uri: s.uri@,
            duration_ms: s.duration_ms,
            key_method_none: s.key_method_none,
        },
    )
}

/// Extending the folded prefix by one line applies one step.
proof fn lemma_fold_one_more(lines: Seq<Seq<char>>, i: int)
    requires
        0 <= i < lines.len(),
    ensures
        fold_lines(lines.take(i + 1)) == fold_step(fold_lines(lines.take(i)), lines[i]),
{
    assert(lines.take(i + 1).drop_last() =~= lines.take(i));
    assert(lines.take(i + 1).last() == lines[i]);
}

/// Parses a media playlist from its text: the handled tags are folded line
/// by line; the parse fails when a handled tag cannot be read or no target
/// duration was announced.
pub fn parse_media_playlist(text: &str) -> (r: Result<MediaPlaylist, Error>)
    ensures
        ({
            let f = fold_lines(lines_of(text@));
            match r {
                Ok(p) => {
                    &&& f.ok
                    &&& f.target_ms is Some
                    &&& p.target_duration_ms == f.target_ms.unwrap()
                    &&& p.media_sequence == f.media_sequence
                    &&& p.end_list == f.end_list
                    &&& seg_views(p.segments@) == f.segments
                },
                Err(e) => e is Io && (!f.ok || f.target_ms is None),
            }
        }),
{
    let lines = split_lines(text);
    let ghost lviews = lines@.map_values(|s: String| s@);
    let mut ok = true;
    let mut target_ms: Option<u64> = None;
    let mut media_sequence: u64 = 0;
    let mut end_list = false;
    let mut pending_ms: Option<u64> = None;
    let mut key_none = true;
    let mut segments: Vec<HlsSegment> = Vec::new();
    let mut i: usize = 0;
    proof {
        assert(lviews.take(0) =~= Seq::<Seq<char>>::empty());
        assert(seg_views(segments@) =~= Seq::<SegmentView>::empty());
    }
    while i < lines.len()
        invariant
            lviews == lines@.map_values(|s: String| s@),
            i <= lines@.len(),
            ({
                let f = fold_lines(lviews.take(i as int));
                &&& ok == f.ok
                &&& target_ms == f.target_ms
                &&& media_sequence == f.media_sequence
                &&& end_list == f.end_list
                &&& pending_ms == f.pending_ms
                &&& key_none == f.key_none
                &&& seg_views(segments@) == f.segments
            }),
        decreases lines@.len() - i,
    {
        let ghost pre_segments = segments@;
        let line = &lines[i];
        proof {
            assert(lviews[i as int] == line@);
            lemma_fold_one_more(lviews, i as int);
        }
        match classify_playlist_line(line.as_str()) {
            PlaylistLine::TargetDuration(v) => {
                target_ms = Some(v);
            },
            PlaylistLine::MediaSequence(v) => {
                media_sequence = v;
            },
            PlaylistLine::SegmentInfo(ms) => {
                pending_ms = Some(ms);
            },
            PlaylistLine::EndList => {
                end_list = true;
            },
            PlaylistLine::Key { method_none } => {
                key_none = method_none;
            },
            PlaylistLine::Comment => {},
            PlaylistLine::Invalid => {
                ok = false;
            },
            PlaylistLine::Uri => {
                match pending_ms {
                    Some(ms) => {
                        segments.push(
                            HlsSegment {
                                uri: line.clone(),
                                duration_ms: ms,
                                key_method_none: key_none,
                            },
                        );
                        pending_ms = None;
                        proof {
                            assert(seg_views(segments@) =~= seg_views(pre_segments).push(
                                SegmentView {
                                    uri: line@,
                                    duration_ms: ms,
                                    key_method_none: key_none,
                                },
                            ));
                        }
                    },
                    None => {},
                }
            },
        }
        i += 1;
    }
    proof {
        assert(lviews.take(lines@.len() as int) =~= lviews);
    }
    if !ok {
        return Err(Error::Io("failed to parse media playlist".to_owned()));
    }
    let target_duration_ms = match target_ms {
        Some(v) => v,
        None => {
            return Err(Error::Io("failed to parse media playlist".to_owned()));
        },
    };
    Ok(
        MediaPlaylist {
            target_duration_ms,
            media_sequence,
            end_list,
            segments,
        },
    )
}

} // verus!
