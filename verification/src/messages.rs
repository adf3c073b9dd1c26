//! User-visible messages: templates with `{name}` placeholders looked up in
//! the configured catalog, and the catalog keys and substitutions for every
//! message the bot sends.
//!
//! Action messages may be sent outside any command response and only the
//! newest one is kept per room; response messages always answer a command.
use vstd::prelude::*;
use vstd::string::*;

verus! {

/// Whether a character may stand in a placeholder name.
pub open spec fn is_word_char(c: char) -> bool {
    (97 <= c as u32 && c as u32 <= 122) || (65 <= c as u32 && c as u32 <= 90) || (48 <= c as u32
        && c as u32 <= 57) || c as u32 == 95
}

/// The first position at or after `i` that does not hold a word character.
pub open spec fn word_end(t: Seq<char>, i: int) -> int
    decreases t.len() - i,
{
    if i < 0 || i >= t.len() {
        i
    } else if is_word_char(t[i]) {
        word_end(t, i + 1)
    } else {
        i
    }
}

/// The value of the first substitution pair with this name; empty when none
/// has it.
pub open spec fn subst_lookup(subs: Seq<(Seq<char>, Seq<char>)>, name: Seq<char>) -> Seq<char>
    decreases subs.len(),
{
    if subs.len() == 0 {
        Seq::empty()
    } else if subs[0].0 == name {
        subs[0].1
    } else {
        subst_lookup(subs.skip(1), name)
    }
}

/// The rendering of `t` from position `i` on: each placeholder — `{`, one or
/// more word characters, `}` — is replaced by the named substitution, all
/// other characters stand as they are.
pub open spec fn subst_from(t: Seq<char>, i: int, subs: Seq<(Seq<char>, Seq<char>)>) -> Seq<char>
    decreases t.len() - i,
{
    if i < 0 || i >= t.len() {
        Seq::empty()
    } else if t[i] == '{' {
        let e = word_end(t, i + 1);
        if e > i + 1 && e < t.len() && t[e] == '}' {
            subst_lookup(subs, t.subrange(i + 1, e)) + subst_from(t, e + 1, subs)
        } else {
            seq![t[i]] + subst_from(t, i + 1, subs)
        }
    } else {
        seq![t[i]] + subst_from(t, i + 1, subs)
    }
}

/// The rendering of a whole template.
pub open spec fn subst_spec(t: Seq<char>, subs: Seq<(Seq<char>, Seq<char>)>) -> Seq<char> {
    subst_from(t, 0, subs)
}

/// The view of substitution pairs.
pub open spec fn subs_view(subs: Seq<(String, String)>) -> Seq<(Seq<char>, Seq<char>)> {
    subs.map_values(|p: (String, String)| (p.0@, p.1@))
}

/// Word-character test.
fn is_word_char_exec(c: char) -> (r: bool)
    ensures
        r == is_word_char(c),
{
    let u = c as u32;
    (97 <= u && u <= 122) || (65 <= u && u <= 90) || (48 <= u && u <= 57) || u == 95
}

/// Looks a placeholder name up among the substitution pairs.
fn lookup_exec(subs: &Vec<(String, String)>, name: &str) -> (r: String)
    ensures
        r@ == subst_lookup(subs_view(subs@), name@),
{
    let mut k: usize = 0;
    proof {
        assert(subs_view(subs@).skip(0) =~= subs_view(subs@));
    }
    while k < subs.len()
        invariant
            k <= subs@.len(),
            subst_lookup(subs_view(subs@).skip(k as int), name@) == subst_lookup(
                subs_view(subs@),
                name@,
            ),
        decreases subs@.len() - k,
    {
        proof {
            assert(subs_view(subs@).skip(k as int)[0] == (subs@[k as int].0@, subs@[
                k as int
            ].1@));
            assert(subs_view(subs@).skip(k as int).skip(1) =~= subs_view(subs@).skip(
                k as int + 1,
            ));
        }
        if crate::song::str_eq_chars(subs[k].0.as_str(), name) {
            return subs[k].1.clone();
        }
        k += 1;
    }
    proof {
        assert(subs_view(subs@).skip(subs@.len() as int) =~= Seq::<(Seq<char>, Seq<char>)>::empty());
    }
    String::new()
}

/// Renders a template: every `{name}` placeholder is replaced by the named
/// substitution (or nothing, when no pair has the name); everything else is
/// kept as it stands.
pub fn get_message_text(template: &str, subs: &Vec<(String, String)>) -> (r: String)
    ensures
        r@ == subst_spec(template@, subs_view(subs@)),
{
    let n = template.unicode_len();
    let mut out = String::new();
    let mut i: usize = 0;
    while i < n
        invariant
            n == template@.len(),
            i <= n,
            out@ + subst_from(template@, i as int, subs_view(subs@)) == subst_spec(
                template@,
                subs_view(subs@),
            ),
        decreases n - i,
    {
        let ghost t = template@;
        let ghost sv = subs_view(subs@);
        let c = template.get_char(i);
        if c == '{' {
            // Find the end of the run of word characters after the brace.
            let mut e = i + 1;
            while e < n && is_word_char_exec(template.get_char(e))
                invariant
                    n == template@.len(),
                    i + 1 <= e <= n,
                    word_end(template@, i as int + 1) == word_end(template@, e as int),
                decreases n - e,
            {
                e += 1;
            }
            proof {
                assert(word_end(t, e as int) == e as int);
                assert(word_end(t, i as int + 1) == e as int);
            }
            if e > i + 1 && e < n && template.get_char(e) == '}' {
                let name = template.substring_char(i + 1, e);
                let value = lookup_exec(subs, name);
                out.append(value.as_str());
                proof {
                    assert(name@ == t.subrange(i as int + 1, e as int));
                }
                i = e + 1;
            } else {
                let piece = template.substring_char(i, i + 1);
                out.append(piece);
                proof {
                    assert(piece@ =~= seq![t[i as int]]);
                }
                i = i + 1;
            }
        } else {
            let piece = template.substring_char(i, i + 1);
            out.append(piece);
            proof {
                assert(piece@ =~= seq![t[i as int]]);
            }
            i = i + 1;
        }
    }
    proof {
        assert(out@ + Seq::<char>::empty() =~= out@);
    }
    out
}

/// The digit character for one decimal digit.
pub open spec fn dec_digit(d: int) -> char {
    if d == 0 {
        '0'
    } else if d == 1 {
        '1'
    } else if d == 2 {
        '2'
    } else if d == 3 {
        '3'
    } else if d == 4 {
        '4'
    } else if d == 5 {
        '5'
    } else if d == 6 {
        '6'
    } else if d == 7 {
        '7'
    } else if d == 8 {
        '8'
    } else {
        '9'
    }
}

/// The decimal rendering of a number, most significant digit first.
pub open spec fn dec_str(n: int) -> Seq<char>
    decreases n,
{
    if n < 10 {
        seq![dec_digit(n)]
    } else {
        dec_str(n / 10) + seq![dec_digit(n % 10)]
    }
}

/// One digit as text.
fn digit_str(d: u64) -> (r: &'static str)
    requires
        d < 10,
    ensures
        r@ == seq![dec_digit(d as int)],
{
    proof {
        reveal_strlit("0");
        reveal_strlit("1");
        reveal_strlit("2");
        reveal_strlit("3");
        reveal_strlit("4");
        reveal_strlit("5");
        reveal_strlit("6");
        reveal_strlit("7");
        reveal_strlit("8");
        reveal_strlit("9");
    }
    let r = if d == 0 {
        "0"
    } else if d == 1 {
        "1"
    } else if d == 2 {
        "2"
    } else if d == 3 {
        "3"
    } else if d == 4 {
        "4"
    } else if d == 5 {
        "5"
    } else if d == 6 {
        "6"
    } else if d == 7 {
        "7"
    } else if d == 8 {
        "8"
    } else {
        "9"
    };
    proof {
        assert(r@ =~= seq![dec_digit(d as int)]);
    }
    r
}

/// Decimal rendering of an id or count.
pub fn u64_to_string(n: u64) -> (r: String)
    ensures
        r@ == dec_str(n as int),
    decreases n,
{
    if n < 10 {
        digit_str(n).to_owned()
    } else {
        let mut s = u64_to_string(n / 10);
        s.append(digit_str(n % 10));
        s
    }
}

/// The configured message catalog: template text by key. A key that is not
/// configured renders as the key itself, so a missing entry is visible.
pub struct MessageConfig {
    pub messages: Vec<(String, String)>,
}

/// The template for a key: the first configured entry, or the key itself.
pub open spec fn raw_message(messages: Seq<(String, String)>, key: Seq<char>) -> Seq<char>
    decreases messages.len(),
{
    if messages.len() == 0 {
        key
    } else if messages[0].0@ == key {
        messages[0].1@
    } else {
        raw_message(messages.skip(1), key)
    }
}

impl MessageConfig {
    /// The raw template for a key, the key itself when unconfigured.
    pub fn get_raw_message(&self, key: &str) -> (r: String)
        ensures
            r@ == raw_message(self.messages@, key@),
    {
        let mut k: usize = 0;
        proof {
            assert(self.messages@.skip(0) =~= self.messages@);
        }
        while k < self.messages.len()
            invariant
                k <= self.messages@.len(),
                raw_message(self.messages@.skip(k as int), key@) == raw_message(
                    self.messages@,
                    key@,
                ),
            decreases self.messages@.len() - k,
        {
            proof {
                assert(self.messages@.skip(k as int).skip(1) =~= self.messages@.skip(k as int + 1));
            }
            if crate::song::str_eq_chars(self.messages[k].0.as_str(), key) {
                return self.messages[k].1.clone();
            }
            k += 1;
        }
        proof {
            assert(self.messages@.skip(self.messages@.len() as int) =~= Seq::<(
                String,
                String,
            )>::empty());
        }
        key.to_owned()
    }

    /// Renders the template for a key with the given substitutions.
    pub fn get_message(&self, key: &str, subs: &Vec<(String, String)>) -> (r: String)
        ensures
            r@ == subst_spec(raw_message(self.messages@, key@), subs_view(subs@)),
    {
        let template = self.get_raw_message(key);
        get_message_text(template.as_str(), subs)
    }
}

/// One substitution pair.
fn pair(k: &str, v: String) -> (r: (String, String))
    ensures
        r.0@ == k@,
        r.1@ == v@,
{
    (k.to_owned(), v)
}

/// The rendering of a catalog key with the given substitutions.
pub open spec fn rendered(
    config: MessageConfig,
    key: Seq<char>,
    subs: Seq<(Seq<char>, Seq<char>)>,
) -> Seq<char> {
    subst_spec(raw_message(config.messages@, key), subs)
}

/// Messages sent whether or not a command asked: at most one is kept per
/// room, the newest replacing the older.
pub enum ActionMessage {
    Playing {
        song_title: String,
        song_url: String,
        voice_channel_id: u64,
        user_id: u64,
        thumbnail_url: Option<String>,
        /// The rendered time-and-progress text, computed by the caller.
        time_text: String,
    },
    PlayingResponse {
        song_title: String,
        song_url: String,
        voice_channel_id: u64,
        thumbnail_url: Option<String>,
        time_text: String,
    },
    Played { song_title: String, song_url: String },
    Finished,
    Paused { song_title: String, song_url: String, user_id: u64 },
    Stopped { song_title: String, song_url: String, user_id: u64 },
    NoSpeakersError,
    UnknownError,
}

impl ActionMessage {
    /// The rendered text of this message, under the given room.
    pub fn to_string(&self, config: &MessageConfig, voice_channel_id: u64) -> (r: String)
        ensures
            r@ == match self {
                ActionMessage::Playing {
                    song_title,
                    song_url,
                    voice_channel_id: own_channel,
                    user_id,
                    time_text,
                    ..
                } => rendered(
                    *config,
                    "action.playing"@,
                    seq![
                        ("song_title"@, song_title@),
                        ("song_url"@, song_url@),
                        ("voice_channel_id"@, dec_str(*own_channel as int)),
                        ("user_id"@, dec_str(*user_id as int)),
                        ("time"@, time_text@),
                    ],
                ),
                ActionMessage::PlayingResponse {
                    song_title,
                    song_url,
                    voice_channel_id: own_channel,
                    time_text,
                    ..
                } => rendered(
                    *config,
                    "action.playing_response"@,
                    seq![
                        ("song_title"@, song_title@),
                        ("song_url"@, song_url@),
                        ("voice_channel_id"@, dec_str(*own_channel as int)),
                        ("time"@, time_text@),
                    ],
                ),
                ActionMessage::Played { song_title, song_url } => rendered(
                    *config,
                    "action.played"@,
                    seq![
                        ("song_title"@, song_title@),
                        ("song_url"@, song_url@),
                        ("voice_channel_id"@, dec_str(voice_channel_id as int)),
                    ],
                ),
                ActionMessage::Finished => rendered(
                    *config,
                    "action.finished"@,
                    seq![("voice_channel_id"@, dec_str(voice_channel_id as int))],
                ),
                ActionMessage::Paused { song_title, song_url, user_id } => rendered(
                    *config,
                    "response.paused"@,
                    seq![
                        ("song_title"@, song_title@),
                        ("song_url"@, song_url@),
                        ("voice_channel_id"@, dec_str(voice_channel_id as int)),
                        ("user_id"@, dec_str(*user_id as int)),
                    ],
                ),
                ActionMessage::Stopped { song_title, song_url, user_id } => rendered(
                    *config,
                    "response.stopped"@,
                    seq![
                        ("song_title"@, song_title@),
                        ("song_url"@, song_url@),
                        ("voice_channel_id"@, dec_str(voice_channel_id as int)),
                        ("user_id"@, dec_str(*user_id as int)),
                    ],
                ),
                ActionMessage::NoSpeakersError => rendered(
                    *config,
                    "action.no_speakers_error"@,
                    seq![("voice_channel_id"@, dec_str(voice_channel_id as int))],
                ),
                ActionMessage::UnknownError => raw_message(
                    config.messages@,
                    "action.unknown_error"@,
                ),
            },
    {
        match self {
            ActionMessage::Playing {
                song_title,
                song_url,
                voice_channel_id: own_channel,
                user_id,
                time_text,
                ..
            } => {
                let mut subs: Vec<(String, String)> = Vec::new();
                subs.push(pair("song_title", song_title.clone()));
                subs.push(pair("song_url", song_url.clone()));
                subs.push(pair("voice_channel_id", u64_to_string(*own_channel)));
                subs.push(pair("user_id", u64_to_string(*user_id)));
                subs.push(pair("time", time_text.clone()));
                let r = config.get_message("action.playing", &subs);
                proof {
                    assert(subs_view(subs@) =~= seq![
                        ("song_title"@, song_title@),
                        ("song_url"@, song_url@),
                        ("voice_channel_id"@, dec_str(*own_channel as int)),
                        ("user_id"@, dec_str(*user_id as int)),
                        ("time"@, time_text@),
                    ]);
                }
                r
            },
            ActionMessage::PlayingResponse {
                song_title,
                song_url,
                voice_channel_id: own_channel,
                time_text,
                ..
            } => {
                let mut subs: Vec<(String, String)> = Vec::new();
                subs.push(pair("song_title", song_title.clone()));
                subs.push(pair("song_url", song_url.clone()));
                subs.push(pair("voice_channel_id", u64_to_string(*own_channel)));
                subs.push(pair("time", time_text.clone()));
                let r = config.get_message("action.playing_response", &subs);
                proof {
                    assert(subs_view(subs@) =~= seq![
                        ("song_title"@, song_title@),
                        ("song_url"@, song_url@),
                        ("voice_channel_id"@, dec_str(*own_channel as int)),
                        ("time"@, time_text@),
                    ]);
                }
                r
            },
            ActionMessage::Played { song_title, song_url } => {
                let mut subs: Vec<(String, String)> = Vec::new();
                subs.push(pair("song_title", song_title.clone()));
                subs.push(pair("song_url", song_url.clone()));
                subs.push(pair("voice_channel_id", u64_to_string(voice_channel_id)));
                let r = config.get_message("action.played", &subs);
                proof {
                    assert(subs_view(subs@) =~= seq![
                        ("song_title"@, song_title@),
                        ("song_url"@, song_url@),
                        ("voice_channel_id"@, dec_str(voice_channel_id as int)),
                    ]);
                }
                r
            },
            ActionMessage::Finished => {
                let mut subs: Vec<(String, String)> = Vec::new();
                subs.push(pair("voice_channel_id", u64_to_string(voice_channel_id)));
                let r = config.get_message("action.finished", &subs);
                proof {
                    assert(subs_view(subs@) =~= seq![
                        ("voice_channel_id"@, dec_str(voice_channel_id as int)),
                    ]);
                }
                r
            },
            ActionMessage::Paused { song_title, song_url, user_id } => {
                let mut subs: Vec<(String, String)> = Vec::new();
                subs.push(pair("song_title", song_title.clone()));
                subs.push(pair("song_url", song_url.clone()));
                subs.push(pair("voice_channel_id", u64_to_string(voice_channel_id)));
                subs.push(pair("user_id", u64_to_string(*user_id)));
                let r = config.get_message("response.paused", &subs);
                proof {
                    assert(subs_view(subs@) =~= seq![
                        ("song_title"@, song_title@),
                        ("song_url"@, song_url@),
                        ("voice_channel_id"@, dec_str(voice_channel_id as int)),
                        ("user_id"@, dec_str(*user_id as int)),
                    ]);
                }
                r
            },
            ActionMessage::Stopped { song_title, song_url, user_id } => {
                let mut subs: Vec<(String, String)> = Vec::new();
                subs.push(pair("song_title", song_title.clone()));
                subs.push(pair("song_url", song_url.clone()));
                subs.push(pair("voice_channel_id", u64_to_string(voice_channel_id)));
                subs.push(pair("user_id", u64_to_string(*user_id)));
                let r = config.get_message("response.stopped", &subs);
                proof {
                    assert(subs_view(subs@) =~= seq![
                        ("song_title"@, song_title@),
                        ("song_url"@, song_url@),
                        ("voice_channel_id"@, dec_str(voice_channel_id as int)),
                        ("user_id"@, dec_str(*user_id as int)),
                    ]);
                }
                r
            },
            ActionMessage::NoSpeakersError => {
                let mut subs: Vec<(String, String)> = Vec::new();
                subs.push(pair("voice_channel_id", u64_to_string(voice_channel_id)));
                let r = config.get_message("action.no_speakers_error", &subs);
                proof {
                    assert(subs_view(subs@) =~= seq![
                        ("voice_channel_id"@, dec_str(voice_channel_id as int)),
                    ]);
                }
                r
            },
            ActionMessage::UnknownError => config.get_raw_message("action.unknown_error"),
        }
    }

    /// The thumbnail shown beside the message, when the message has one.
    pub fn get_thumbnail(&self) -> (r: Option<&String>)
        ensures
            r == match self {
                ActionMessage::Playing { thumbnail_url: Some(t), .. } => Some(t),
                ActionMessage::PlayingResponse { thumbnail_url: Some(t), .. } => Some(t),
                _ => Option::<&String>::None,
            },
    {
        match self {
            ActionMessage::Playing { thumbnail_url: Some(t), .. } => Some(t),
            ActionMessage::PlayingResponse { thumbnail_url: Some(t), .. } => Some(t),
            _ => None,
        }
    }

    /// Whether the message reports a failure.
    pub fn is_error(&self) -> (r: bool)
        ensures
            r == (self is NoSpeakersError || self is UnknownError),
    {
        match self {
            ActionMessage::NoSpeakersError | ActionMessage::UnknownError => true,
            _ => false,
        }
    }
}

/// Messages sent only as the direct answer to a command.
pub enum ResponseMessage {
    Queued { song_title: String, song_url: String },
    QueuedMultiple { count: u64 },
    QueuedNoSpeakers { song_title: String, song_url: String },
    QueuedMultipleNoSpeakers { count: u64 },
    Replaced {
        old_song_title: String,
        old_song_url: String,
        new_song_title: String,
        new_song_url: String,
    },
    ReplaceSkipped {
        new_song_title: String,
        new_song_url: String,
        old_song_title: String,
        old_song_url: String,
        voice_channel_id: u64,
    },
    Skipped { song_title: String, song_url: String, voice_channel_id: u64, user_id: u64 },
    SkipMoreVotesNeeded {
        song_title: String,
        song_url: String,
        voice_channel_id: u64,
        count: u64,
    },
    StopMoreVotesNeeded { voice_channel_id: u64, count: u64 },
    NoMatchingSongsError,
    NotInVoiceChannelError,
    UnsupportedSiteError,
    SkipAlreadyVotedError { song_title: String, song_url: String, voice_channel_id: u64 },
    StopAlreadyVotedError { voice_channel_id: u64 },
    NothingIsQueuedError { voice_channel_id: u64 },
    NothingIsPlayingError { voice_channel_id: u64 },
    AlreadyPlayingError { voice_channel_id: u64 },
}

impl ResponseMessage {
    /// The rendered text of this response. Counts of one pick the singular
    /// template, other counts the plural one.
    pub fn to_string(&self, config: &MessageConfig) -> (r: String)
        ensures
            r@ == match self {
                ResponseMessage::Queued { song_title, song_url } => rendered(
                    *config,
                    "response.queued"@,
                    seq![("song_title"@, song_title@), ("song_url"@, song_url@)],
                ),
                ResponseMessage::QueuedMultiple { count } => rendered(
                    *config,
                    "response.queued_multiple"@,
                    seq![("count"@, dec_str(*count as int))],
                ),
                ResponseMessage::QueuedNoSpeakers { song_title, song_url } => rendered(
                    *config,
                    "response.queued_no_speakers"@,
                    seq![("song_title"@, song_title@), ("song_url"@, song_url@)],
                ),
                ResponseMessage::QueuedMultipleNoSpeakers { count } => rendered(
                    *config,
                    "response.queued_multiple_no_speakers"@,
                    seq![("count"@, dec_str(*count as int))],
                ),
                ResponseMessage::Replaced {
                    old_song_title,
                    old_song_url,
                    new_song_title,
                    new_song_url,
                } => rendered(
                    *config,
                    "response.replaced"@,
                    seq![
                        ("old_song_title"@, old_song_title@),
                        ("old_song_url"@, old_song_url@),
                        ("new_song_title"@, new_song_title@),
                        ("new_song_url"@, new_song_url@),
                    ],
                ),
                ResponseMessage::ReplaceSkipped {
                    new_song_title,
                    new_song_url,
                    old_song_title,
                    old_song_url,
                    voice_channel_id,
                } => rendered(
                    *config,
                    "response.replace_skipped"@,
                    seq![
                        ("new_song_title"@, new_song_title@),
                        ("new_song_url"@, new_song_url@),
                        ("old_song_title"@, old_song_title@),
                        ("old_song_url"@, old_song_url@),
                        ("voice_channel_id"@, dec_str(*voice_channel_id as int)),
                    ],
                ),
                ResponseMessage::Skipped { song_title, song_url, voice_channel_id, user_id } => {
                    rendered(
                        *config,
                        "response.skipped"@,
                        seq![
                            ("song_title"@, song_title@),
                            ("song_url"@, song_url@),
                            ("voice_channel_id"@, dec_str(*voice_channel_id as int)),
                            ("user_id"@, dec_str(*user_id as int)),
                        ],
                    )
                },
                ResponseMessage::SkipMoreVotesNeeded {
                    song_title,
                    song_url,
                    voice_channel_id,
                    count,
                } => if *count == 1 {
                    rendered(
                        *config,
                        "response.skip_more_votes_needed.singular"@,
                        seq![
                            ("song_title"@, song_title@),
                            ("song_url"@, song_url@),
                            ("voice_channel_id"@, dec_str(*voice_channel_id as int)),
                        ],
                    )
                } else {
                    rendered(
                        *config,
                        "response.skip_more_votes_needed.plural"@,
                        seq![
                            ("song_title"@, song_title@),
                            ("song_url"@, song_url@),
                            ("voice_channel_id"@, dec_str(*voice_channel_id as int)),
                            ("count"@, dec_str(*count as int)),
                        ],
                    )
                },
                ResponseMessage::StopMoreVotesNeeded { voice_channel_id, count } => if *count
                    == 1 {
                    rendered(
                        *config,
                        "response.stop_more_votes_needed.singular"@,
                        seq![("voice_channel_id"@, dec_str(*voice_channel_id as int))],
                    )
                } else {
                    rendered(
                        *config,
                        "response.stop_more_votes_needed.plural"@,
                        seq![
                            ("voice_channel_id"@, dec_str(*voice_channel_id as int)),
                            ("count"@, dec_str(*count as int)),
                        ],
                    )
                },
                ResponseMessage::NoMatchingSongsError => raw_message(
                    config.messages@,
                    "response.no_matching_songs_error"@,
                ),
                ResponseMessage::NotInVoiceChannelError => raw_message(
                    config.messages@,
                    "response.not_in_voice_channel_error"@,
                ),
                ResponseMessage::UnsupportedSiteError => raw_message(
                    config.messages@,
                    "response.unsupported_site_error"@,
                ),
                ResponseMessage::SkipAlreadyVotedError {
                    song_title,
                    song_url,
                    voice_channel_id,
                } => rendered(
                    *config,
                    "response.skip_already_voted_error"@,
                    seq![
                        ("song_title"@, song_title@),
                        ("song_url"@, song_url@),
                        ("voice_channel_id"@, dec_str(*voice_channel_id as int)),
                    ],
                ),
                ResponseMessage::StopAlreadyVotedError { voice_channel_id } => rendered(
                    *config,
                    "response.stop_already_voted_error"@,
                    seq![("voice_channel_id"@, dec_str(*voice_channel_id as int))],
                ),
                ResponseMessage::NothingIsQueuedError { voice_channel_id } => rendered(
                    *config,
                    "response.nothing_is_queued_error"@,
                    seq![("voice_channel_id"@, dec_str(*voice_channel_id as int))],
                ),
                ResponseMessage::NothingIsPlayingError { voice_channel_id } => rendered(
                    *config,
                    "response.nothing_is_playing_error"@,
                    seq![("voice_channel_id"@, dec_str(*voice_channel_id as int))],
                ),
                ResponseMessage::AlreadyPlayingError { voice_channel_id } => rendered(
                    *config,
                    "response.already_playing_error"@,
                    seq![("voice_channel_id"@, dec_str(*voice_channel_id as int))],
                ),
            },
    {
        match self {
            ResponseMessage::Queued { song_title, song_url } => {
                let mut subs: Vec<(String, String)> = Vec::new();
                subs.push(pair("song_title", song_title.clone()));
                subs.push(pair("song_url", song_url.clone()));
                let r = config.get_message("response.queued", &subs);
                proof {
                    assert(subs_view(subs@) =~= seq![
                        ("song_title"@, song_title@),
                        ("song_url"@, song_url@),
                    ]);
                }
                r
            },
            ResponseMessage::QueuedMultiple { count } => {
                let mut subs: Vec<(String, String)> = Vec::new();
                subs.push(pair("count", u64_to_string(*count)));
                let r = config.get_message("response.queued_multiple", &subs);
                proof {
                    assert(subs_view(subs@) =~= seq![("count"@, dec_str(*count as int))]);
                }
                r
            },
            ResponseMessage::QueuedNoSpeakers { song_title, song_url } => {
                let mut subs: Vec<(String, String)> = Vec::new();
                subs.push(pair("song_title", song_title.clone()));
                subs.push(pair("song_url", song_url.clone()));
                let r = config.get_message("response.queued_no_speakers", &subs);
                proof {
                    assert(subs_view(subs@) =~= seq![
                        ("song_title"@, song_title@),
                        ("song_url"@, song_url@),
                    ]);
                }
                r
            },
            ResponseMessage::QueuedMultipleNoSpeakers { count } => {
                let mut subs: Vec<(String, String)> = Vec::new();
                subs.push(pair("count", u64_to_string(*count)));
                let r = config.get_message("response.queued_multiple_no_speakers", &subs);
                proof {
                    assert(subs_view(subs@) =~= seq![("count"@, dec_str(*count as int))]);
                }
                r
            },
            ResponseMessage::Replaced {
                old_song_title,
                old_song_url,
                new_song_title,
                new_song_url,
            } => {
                let mut subs: Vec<(String, String)> = Vec::new();
                subs.push(pair("old_song_title", old_song_title.clone()));
                subs.push(pair("old_song_url", old_song_url.clone()));
                subs.push(pair("new_song_title", new_song_title.clone()));
                subs.push(pair("new_song_url", new_song_url.clone()));
                let r = config.get_message("response.replaced", &subs);
                proof {
                    assert(subs_view(subs@) =~= seq![
                        ("old_song_title"@, old_song_title@),
                        ("old_song_url"@, old_song_url@),
                        ("new_song_title"@, new_song_title@),
                        ("new_song_url"@, new_song_url@),
                    ]);
                }
                r
            },
            ResponseMessage::ReplaceSkipped {
                new_song_title,
                new_song_url,
                old_song_title,
                old_song_url,
                voice_channel_id,
            } => {
                let mut subs: Vec<(String, String)> = Vec::new();
                subs.push(pair("new_song_title", new_song_title.clone()));
                subs.push(pair("new_song_url", new_song_url.clone()));
                subs.push(pair("old_song_title", old_song_title.clone()));
                subs.push(pair("old_song_url", old_song_url.clone()));
                subs.push(pair("voice_channel_id", u64_to_string(*voice_channel_id)));
                let r = config.get_message("response.replace_skipped", &subs);
                proof {
                    assert(subs_view(subs@) =~= seq![
                        ("new_song_title"@, new_song_title@),
                        ("new_song_url"@, new_song_url@),
                        ("old_song_title"@, old_song_title@),
                        ("old_song_url"@, old_song_url@),
                        ("voice_channel_id"@, dec_str(*voice_channel_id as int)),
                    ]);
                }
                r
            },
            ResponseMessage::Skipped { song_title, song_url, voice_channel_id, user_id } => {
                let mut subs: Vec<(String, String)> = Vec::new();
                subs.push(pair("song_title", song_title.clone()));
                subs.push(pair("song_url", song_url.clone()));
                subs.push(pair("voice_channel_id", u64_to_string(*voice_channel_id)));
                subs.push(pair("user_id", u64_to_string(*user_id)));
                let r = config.get_message("response.skipped", &subs);
                proof {
                    assert(subs_view(subs@) =~= seq![
                        ("song_title"@, song_title@),
                        ("song_url"@, song_url@),
                        ("voice_channel_id"@, dec_str(*voice_channel_id as int)),
                        ("user_id"@, dec_str(*user_id as int)),
                    ]);
                }
                r
            },
            ResponseMessage::SkipMoreVotesNeeded {
                song_title,
                song_url,
                voice_channel_id,
                count,
            } => {
                let mut subs: Vec<(String, String)> = Vec::new();
                subs.push(pair("song_title", song_title.clone()));
                subs.push(pair("song_url", song_url.clone()));
                subs.push(pair("voice_channel_id", u64_to_string(*voice_channel_id)));
                if *count == 1 {
                    let r = config.get_message("response.skip_more_votes_needed.singular", &subs);
                    proof {
                        assert(subs_view(subs@) =~= seq![
                            ("song_title"@, song_title@),
                            ("song_url"@, song_url@),
                            ("voice_channel_id"@, dec_str(*voice_channel_id as int)),
                        ]);
                    }
                    r
                } else {
                    subs.push(pair("count", u64_to_string(*count)));
                    let r = config.get_message("response.skip_more_votes_needed.plural", &subs);
                    proof {
                        assert(subs_view(subs@) =~= seq![
                            ("song_title"@, song_title@),
                            ("song_url"@, song_url@),
                            ("voice_channel_id"@, dec_str(*voice_channel_id as int)),
                            ("count"@, dec_str(*count as int)),
                        ]);
                    }
                    r
                }
            },
            ResponseMessage::StopMoreVotesNeeded { voice_channel_id, count } => {
                let mut subs: Vec<(String, String)> = Vec::new();
                subs.push(pair("voice_channel_id", u64_to_string(*voice_channel_id)));
                if *count == 1 {
                    let r = config.get_message("response.stop_more_votes_needed.singular", &subs);
                    proof {
                        assert(subs_view(subs@) =~= seq![
                            ("voice_channel_id"@, dec_str(*voice_channel_id as int)),
                        ]);
                    }
                    r
                } else {
                    subs.push(pair("count", u64_to_string(*count)));
                    let r = config.get_message("response.stop_more_votes_needed.plural", &subs);
                    proof {
                        assert(subs_view(subs@) =~= seq![
                            ("voice_channel_id"@, dec_str(*voice_channel_id as int)),
                            ("count"@, dec_str(*count as int)),
                        ]);
                    }
                    r
                }
            },
            ResponseMessage::NoMatchingSongsError => config.get_raw_message(
                "response.no_matching_songs_error",
            ),
            ResponseMessage::NotInVoiceChannelError => config.get_raw_message(
                "response.not_in_voice_channel_error",
            ),
            ResponseMessage::UnsupportedSiteError => config.get_raw_message(
                "response.unsupported_site_error",
            ),
            ResponseMessage::SkipAlreadyVotedError { song_title, song_url, voice_channel_id } => {
                let mut subs: Vec<(String, String)> = Vec::new();
                subs.push(pair("song_title", song_title.clone()));
                subs.push(pair("song_url", song_url.clone()));
                subs.push(pair("voice_channel_id", u64_to_string(*voice_channel_id)));
                let r = config.get_message("response.skip_already_voted_error", &subs);
                proof {
                    assert(subs_view(subs@) =~= seq![
                        ("song_title"@, song_title@),
                        ("song_url"@, song_url@),
                        ("voice_channel_id"@, dec_str(*voice_channel_id as int)),
                    ]);
                }
                r
            },
            ResponseMessage::StopAlreadyVotedError { voice_channel_id } => {
                let mut subs: Vec<(String, String)> = Vec::new();
                subs.push(pair("voice_channel_id", u64_to_string(*voice_channel_id)));
                let r = config.get_message("response.stop_already_voted_error", &subs);
                proof {
                    assert(subs_view(subs@) =~= seq![
                        ("voice_channel_id"@, dec_str(*voice_channel_id as int)),
                    ]);
                }
                r
            },
            ResponseMessage::NothingIsQueuedError { voice_channel_id } => {
                let mut subs: Vec<(String, String)> = Vec::new();
                subs.push(pair("voice_channel_id", u64_to_string(*voice_channel_id)));
                let r = config.get_message("response.nothing_is_queued_error", &subs);
                proof {
                    assert(subs_view(subs@) =~= seq![
                        ("voice_channel_id"@, dec_str(*voice_channel_id as int)),
                    ]);
                }
                r
            },
            ResponseMessage::NothingIsPlayingError { voice_channel_id } => {
                let mut subs: Vec<(String, String)> = Vec::new();
                subs.push(pair("voice_channel_id", u64_to_string(*voice_channel_id)));
                let r = config.get_message("response.nothing_is_playing_error", &subs);
                proof {
                    assert(subs_view(subs@) =~= seq![
                        ("voice_channel_id"@, dec_str(*voice_channel_id as int)),
                    ]);
                }
                r
            },
            ResponseMessage::AlreadyPlayingError { voice_channel_id } => {
                let mut subs: Vec<(String, String)> = Vec::new();
                subs.push(pair("voice_channel_id", u64_to_string(*voice_channel_id)));
                let r = config.get_message("response.already_playing_error", &subs);
                proof {
                    assert(subs_view(subs@) =~= seq![
                        ("voice_channel_id"@, dec_str(*voice_channel_id as int)),
                    ]);
                }
                r
            },
        }
    }

    /// Whether the response reports a failure.
    pub fn is_error(&self) -> (r: bool)
        ensures
            r == (self is NoMatchingSongsError || self is NotInVoiceChannelError
                || self is UnsupportedSiteError || self is SkipAlreadyVotedError
                || self is StopAlreadyVotedError || self is NothingIsQueuedError
                || self is NothingIsPlayingError || self is AlreadyPlayingError),
    {
        match self {
            ResponseMessage::NoMatchingSongsError
            | ResponseMessage::NotInVoiceChannelError
            | ResponseMessage::UnsupportedSiteError
            | ResponseMessage::SkipAlreadyVotedError { .. }
            | ResponseMessage::StopAlreadyVotedError { .. }
            | ResponseMessage::NothingIsQueuedError { .. }
            | ResponseMessage::NothingIsPlayingError { .. }
            | ResponseMessage::AlreadyPlayingError { .. } => true,
            _ => false,
        }
    }
}

/// One message to send: an action in a room, or a response to the caller.
#[allow(inconsistent_fields)]
pub enum Message {
    Action { message: ActionMessage, voice_channel: u64 },
    Response { message: ResponseMessage },
}

impl Message {
    /// Whether the message is an action message.
    pub fn is_action(&self) -> (r: bool)
        ensures
            r == (self is Action),
    {
        match self {
            Message::Action { .. } => true,
            Message::Response { .. } => false,
        }
    }
}

/// Whether any message in the list is an action message.
pub open spec fn has_action(ms: Seq<Message>) -> bool {
    exists|i: int| 0 <= i < ms.len() && ms[i] is Action
}

/// The messages that are actually sent: only the newest action message is
/// kept — older ones would be replaced at once — and every response stays.
pub open spec fn sent_messages(ms: Seq<Message>) -> Seq<Message>
    decreases ms.len(),
{
    if ms.len() == 0 {
        Seq::empty()
    } else if ms[0] is Action && has_action(ms.skip(1)) {
        sent_messages(ms.skip(1))
    } else {
        seq![ms[0]] + sent_messages(ms.skip(1))
    }
}

/// Drops every action message but the last, and reports the room of the one
/// kept: its predecessor in that room is deleted before the send.
pub fn select_messages(messages: Vec<Message>) -> (r: (Vec<Message>, Option<u64>))
    ensures
        r.0@ == sent_messages(messages@),
        r.1 == (if has_action(messages@) {
            Some(last_action_channel(messages@))
        } else {
            Option::<u64>::None
        }),
{
    let ghost all = messages@;
    let mut rest = messages;
    let mut out: Vec<Message> = Vec::new();
    let mut action_channel: Option<u64> = None;
    let ghost mut i: int = 0;
    proof {
        assert(all.skip(0) =~= all);
    }
    while rest.len() > 0
        invariant
            0 <= i <= all.len(),
            rest@ == all.skip(i),
            out@ + sent_messages(all.skip(i)) == sent_messages(all),
            action_channel == (if has_action(all.take(i)) && !has_action(all.skip(i)) {
                Some(last_action_channel(all.take(i)))
            } else {
                Option::<u64>::None
            }),
        decreases rest@.len(),
    {
        proof {
            assert(all.skip(i)[0] == all[i]);
            assert(all.skip(i).skip(1) =~= all.skip(i + 1));
            lemma_skip_action(all, i);
        }
        let m = rest.remove(0);
        let is_action = m.is_action();
        let has_later = has_action_exec(&rest);
        match (&m, is_action) {
            (Message::Action { voice_channel, .. }, true) => {
                if !has_later {
                    action_channel = Some(*voice_channel);
                }
            },
            _ => {},
        }
        if is_action && has_later {
            // A newer action message follows; this one would be replaced at
            // once, so it is not sent.
        } else {
            out.push(m);
        }
        proof {
            lemma_take_one_more(all, i);
            i = i + 1;
        }
    }
    proof {
        assert(all.take(all.len() as int) =~= all);
        assert(all.skip(all.len() as int) =~= Seq::<Message>::empty());
        assert(!has_action(Seq::<Message>::empty()));
        assert(out@ + Seq::<Message>::empty() =~= out@);
    }
    (out, action_channel)
}

/// The room of the last action message in the list.
pub open spec fn last_action_channel(ms: Seq<Message>) -> u64
    decreases ms.len(),
{
    if ms.len() == 0 {
        0
    } else if ms.last() is Action {
        ms.last()->Action_voice_channel
    } else {
        last_action_channel(ms.drop_last())
    }
}

/// Whether any of the remaining messages is an action message.
fn has_action_exec(ms: &Vec<Message>) -> (r: bool)
    ensures
        r == has_action(ms@),
{
    let mut k: usize = 0;
    while k < ms.len()
        invariant
            k <= ms@.len(),
            forall|j: int| 0 <= j < k ==> !(ms@[j] is Action),
        decreases ms@.len() - k,
    {
        let found = match &ms[k] {
            Message::Action { .. } => true,
            _ => false,
        };
        if found {
            return true;
        }
        k += 1;
    }
    false
}

/// Splitting a suffix at its head: where the actions are.
proof fn lemma_skip_action(ms: Seq<Message>, i: int)
    requires
        0 <= i < ms.len(),
    ensures
        has_action(ms.skip(i)) == (ms[i] is Action || has_action(ms.skip(i + 1))),
{
    assert(ms.skip(i)[0] == ms[i]);
    if has_action(ms.skip(i + 1)) {
        let j = choose|j: int| 0 <= j < ms.skip(i + 1).len() && #[trigger] ms.skip(i + 1)[j] is Action;
        assert(ms.skip(i)[j + 1] is Action);
    }
    if has_action(ms.skip(i)) && !(ms[i] is Action) {
        let j = choose|j: int| 0 <= j < ms.skip(i).len() && #[trigger] ms.skip(i)[j] is Action;
        assert(j > 0);
        assert(ms.skip(i + 1)[j - 1] is Action);
    }
}

/// Extending a prefix by one element: how `take`, `has_action` and
/// `last_action_channel` move.
proof fn lemma_take_one_more(ms: Seq<Message>, i: int)
    requires
        0 <= i < ms.len(),
    ensures
        ms.take(i + 1) == ms.take(i).push(ms[i]),
        has_action(ms.take(i + 1)) == (has_action(ms.take(i)) || ms[i] is Action),
        last_action_channel(ms.take(i + 1)) == (if ms[i] is Action {
            ms[i]->Action_voice_channel
        } else {
            last_action_channel(ms.take(i))
        }),
{
    assert(ms.take(i + 1) =~= ms.take(i).push(ms[i]));
    assert(ms.take(i + 1).last() == ms[i]);
    assert(ms.take(i + 1).drop_last() =~= ms.take(i));
    if has_action(ms.take(i)) {
        let j = choose|j: int| 0 <= j < ms.take(i).len() && ms.take(i)[j] is Action;
        assert(ms.take(i + 1)[j] is Action);
    }
    if has_action(ms.take(i + 1)) && !(ms[i] is Action) {
        let j = choose|j: int| 0 <= j < ms.take(i + 1).len() && #[trigger] ms.take(i + 1)[j] is Action;
        assert(j < i);
        assert(ms.take(i)[j] is Action);
    }
}

} // verus!
