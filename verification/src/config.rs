//! The bot's configuration, as plain values: vote thresholds, inactivity
//! policy, progress-ticker bounds, pipeline sizes, media settings, the bot
//! credentials and the message catalog.
use crate::messages::MessageConfig;
use crate::model::AppModelConfig;
use crate::song::PlayConfig;
use vstd::prelude::*;
use vstd::string::*;

verus! {

/// Credentials of the command bot.
pub struct CommandBot {
    pub token: String,
    pub application_id: u64,
    pub guild_id: Option<u64>,
}

/// Credentials of one voice bot.
pub struct VoiceBot {
    pub token: String,
    pub application_id: u64,
}

/// How the media extractor is invoked.
pub struct YtdlConfig {
    pub name: String,
    pub args: Vec<String>,
}

/// An easter-egg image and the time zone its gate is judged in.
pub struct SecretHighfive {
    pub image_url: String,
    pub timezone: String,
}

/// Everything the bot is configured with. Durations are whole seconds,
/// ticker bounds whole milliseconds, colors packed channel bytes.
pub struct Config {
    pub action_embed_color: u32,
    pub response_embed_color: u32,
    pub error_embed_color: u32,
    pub skip_votes_required: usize,
    pub stop_votes_required: usize,
    pub disconnect_min_inactive_secs: u64,
    pub disconnect_check_interval_secs: u64,
    pub only_disconnect_when_alone: bool,
    pub progress_min_update_millis: u64,
    pub progress_max_update_millis: u64,
    pub buffer_capacity_kb: usize,
    pub search_prefix: String,
    pub host_blocklist: Vec<String>,
    pub ytdl: YtdlConfig,
    pub command_bot: CommandBot,
    pub voice_bots: Vec<VoiceBot>,
    pub messages: MessageConfig,
    pub secret_highfive: Option<SecretHighfive>,
}

impl Config {
    /// The slice of the configuration that loading and playing need.
    pub fn get_play_config(&self) -> (r: PlayConfig)
        ensures
            r.search_prefix@ == self.search_prefix@,
            r.host_blocklist@ == self.host_blocklist@,
            r.ytdl_name@ == self.ytdl.name@,
            r.ytdl_args@ == self.ytdl.args@,
            r.buffer_capacity_kb == self.buffer_capacity_kb,
    {
        PlayConfig {
            search_prefix: self.search_prefix.clone(),
            host_blocklist: self.host_blocklist.clone(),
            ytdl_name: self.ytdl.name.clone(),
            ytdl_args: self.ytdl.args.clone(),
            buffer_capacity_kb: self.buffer_capacity_kb,
        }
    }

    /// The slice of the configuration the queue model needs.
    pub fn model_config(&self) -> (r: AppModelConfig)
        ensures
            r.skip_votes_required == self.skip_votes_required,
            r.stop_votes_required == self.stop_votes_required,
    {
        AppModelConfig {
            skip_votes_required: self.skip_votes_required,
            stop_votes_required: self.stop_votes_required,
        }
    }
}

/// The value of one hexadecimal digit.
pub open spec fn hex_digit_value(c: char) -> Option<int> {
    let u = c as u32;
    if 48 <= u && u <= 57 {
        Some(u - 48)
    } else if 97 <= u && u <= 102 {
        Some(u - 97 + 10)
    } else if 65 <= u && u <= 70 {
        Some(u - 65 + 10)
    } else {
        None
    }
}

/// The value of a hexadecimal numeral, reading the first `i` characters;
/// none when empty or holding a non-digit.
pub open spec fn hex_value(s: Seq<char>, i: int) -> Option<int>
    decreases i,
{
    if i <= 0 {
        None
    } else {
        let rest = if i == 1 {
            Some(0int)
        } else {
            hex_value(s, i - 1)
        };
        match (rest, hex_digit_value(s[i - 1])) {
            (Some(high), Some(d)) => Some(high * 16 + d),
            _ => None,
        }
    }
}

/// Parses a color given as a hexadecimal numeral, as the configuration file
/// writes colors. Refused when empty, holding a non-digit, or too large.
pub fn parse_hex_u32(s: &str) -> (r: Option<u32>)
    ensures
        r == (match hex_value(s@, s@.len() as int) {
            Some(v) => if v <= u32::MAX {
                Some(v as u32)
            } else {
                Option::<u32>::None
            },
            None => Option::<u32>::None,
        }),
{
    let n = s.unicode_len();
    if n == 0 {
        return None;
    }
    let mut acc: u64 = 0;
    let mut i: usize = 0;
    while i < n
        invariant
            n == s@.len(),
            0 < n,
            i <= n,
            i == 0 ==> acc == 0,
            i > 0 ==> hex_value(s@, i as int) == Some(acc as int),
            acc <= u32::MAX,
        decreases n - i,
    {
        let c = s.get_char(i);
        let u = c as u32;
        let d: u32 = if 48 <= u && u <= 57 {
            u - 48
        } else if 97 <= u && u <= 102 {
            u - 97 + 10
        } else if 65 <= u && u <= 70 {
            u - 65 + 10
        } else {
            proof {
                lemma_hex_value_none(s@, n as int, i as int);
            }
            return None;
        };
        let next = acc * 16 + d as u64;
        if next > 0xffff_ffff {
            proof {
                lemma_hex_value_grows(s@, n as int, i as int + 1, next as int);
            }
            return None;
        }
        acc = next;
        i += 1;
    }
    Some(acc as u32)
}

/// A numeral with a non-digit has no value, however far it is read past the
/// offending character.
proof fn lemma_hex_value_none(s: Seq<char>, n: int, i: int)
    requires
        0 <= i < n <= s.len(),
        hex_digit_value(s[i]) is None,
    ensures
        hex_value(s, n) is None,
    decreases n,
{
    if n - 1 > i {
        lemma_hex_value_none(s, n - 1, i);
    }
}

/// Reading more digits never shrinks the value: once a prefix exceeds the
/// limit, the whole numeral does.
proof fn lemma_hex_value_grows(s: Seq<char>, n: int, i: int, v: int)
    requires
        0 < i <= n <= s.len(),
        hex_value(s, i) == Some(v),
        v > u32::MAX,
    ensures
        match hex_value(s, n) {
            Some(w) => w > u32::MAX,
            None => true,
        },
    decreases n - i,
{
    if i < n {
        match hex_digit_value(s[i]) {
            Some(d) => {
                assert(hex_value(s, i + 1) == Some(v * 16 + d));
                assert(v * 16 + d > u32::MAX) by (nonlinear_arith)
                    requires
                        v > u32::MAX,
                        d >= 0,
                ;
                lemma_hex_value_grows(s, n, i + 1, v * 16 + d);
            },
            None => {
                lemma_hex_none_from(s, n, i);
            },
        }
    }
}

/// A non-digit anywhere below `n` kills the numeral.
proof fn lemma_hex_none_from(s: Seq<char>, n: int, i: int)
    requires
        0 <= i < n <= s.len(),
        hex_digit_value(s[i]) is None,
    ensures
        hex_value(s, n) is None,
    decreases n,
{
    if n - 1 > i {
        lemma_hex_none_from(s, n - 1, i);
    }
}

} // verus!
