//! The progress line under a playing message: elapsed time, total duration,
//! and a fixed-width textual progress bar, in whole seconds.
use crate::messages::{dec_str, raw_message, rendered, u64_to_string, MessageConfig};
use vstd::prelude::*;
use vstd::string::*;

verus! {

/// Total width the time text and bar may take.
pub const MAX_COLUMNS: usize = 54;

/// What stands before the bar.
pub const BEFORE_PROGRESS_BAR: &'static str = " [";

/// What stands after the bar.
pub const AFTER_PROGRESS_BAR: &'static str = "]";

/// `k` copies of one character.
pub open spec fn repeat_char(c: char, k: int) -> Seq<char>
    decreases k,
{
    if k <= 0 {
        Seq::empty()
    } else {
        repeat_char(c, k - 1) + seq![c]
    }
}

/// A numeral padded with zeros on the left to at least `w` characters.
pub open spec fn padded_dec(n: int, w: int) -> Seq<char> {
    if dec_str(n).len() >= w {
        dec_str(n)
    } else {
        repeat_char('0', w - dec_str(n).len()) + dec_str(n)
    }
}

/// `k` copies of a one-character piece.
fn repeat_str(piece: &str, k: usize) -> (r: String)
    requires
        piece@.len() == 1,
    ensures
        r@ == repeat_char(piece@[0], k as int),
{
    let mut out = String::new();
    let mut i: usize = 0;
    while i < k
        invariant
            piece@.len() == 1,
            i <= k,
            out@ == repeat_char(piece@[0], i as int),
        decreases k - i,
    {
        out.append(piece);
        proof {
            assert(piece@ =~= seq![piece@[0]]);
        }
        i += 1;
    }
    out
}

/// A number rendered with at least `w` digits.
fn padded_number(n: u64, w: usize) -> (r: String)
    ensures
        r@ == padded_dec(n as int, w as int),
{
    let digits = u64_to_string(n);
    let len = digits.as_str().unicode_len();
    if len >= w {
        digits
    } else {
        proof {
            reveal_strlit("0");
        }
        let mut out = repeat_str("0", w - len);
        out.append(digits.as_str());
        out
    }
}

/// Renders a time as minutes and seconds through the `time` template, the
/// minutes padded to at least `minutes_width` digits and the seconds to two;
/// also gives the width the minutes took, so a paired elapsed time can be
/// padded alike.
pub fn format_time(config: &MessageConfig, seconds: u64, minutes_width: usize) -> (r: (
    String,
    usize,
))
    ensures
        r.0@ == rendered(
            *config,
            "time"@,
            seq![
                ("minutes"@, padded_dec(seconds as int / 60, minutes_width as int)),
                ("seconds"@, padded_dec(seconds as int % 60, 2)),
            ],
        ),
        r.1 == padded_dec(seconds as int / 60, minutes_width as int).len(),
{
    let minutes_string = padded_number(seconds / 60, minutes_width);
    let seconds_string = padded_number(seconds % 60, 2);
    let width = minutes_string.as_str().unicode_len();
    let mut subs: Vec<(String, String)> = Vec::new();
    subs.push(("minutes".to_owned(), minutes_string));
    subs.push(("seconds".to_owned(), seconds_string));
    let text = config.get_message("time", &subs);
    proof {
        assert(crate::messages::subs_view(subs@) =~= seq![
            ("minutes"@, padded_dec(seconds as int / 60, minutes_width as int)),
            ("seconds"@, padded_dec(seconds as int % 60, 2)),
        ]);
    }
    (text, width)
}

/// The rendered `time` template for a time and a padding width.
pub open spec fn time_text(config: MessageConfig, seconds: int, minutes_width: int) -> Seq<char> {
    rendered(
        config,
        "time"@,
        seq![
            ("minutes"@, padded_dec(seconds / 60, minutes_width)),
            ("seconds"@, padded_dec(seconds % 60, 2)),
        ],
    )
}

/// The rendered elapsed-and-total line: the elapsed time's minutes are
/// padded to the width the duration's minutes took; an unknown duration
/// renders through the `duration.unknown` template.
pub open spec fn time_and_duration_text(
    config: MessageConfig,
    time_seconds: int,
    duration_seconds: Option<u64>,
) -> Seq<char> {
    match duration_seconds {
        Some(d) => rendered(
            config,
            "time_and_duration"@,
            seq![
                ("time"@, time_text(config, time_seconds, time_text_minutes_width(config, d as int))),
                ("duration"@, time_text(config, d as int, 0)),
            ],
        ),
        None => rendered(
            config,
            "time_and_duration"@,
            seq![
                ("time"@, time_text(config, time_seconds, 0)),
                ("duration"@, raw_message(config.messages@, "duration.unknown"@)),
            ],
        ),
    }
}

/// The width a duration's minutes take unpadded.
pub open spec fn time_text_minutes_width(config: MessageConfig, d: int) -> int {
    padded_dec(d / 60, 0).len() as int
}

/// Renders the elapsed-and-total line.
pub fn format_time_and_duration(
    config: &MessageConfig,
    time_seconds: u64,
    duration_seconds: Option<u64>,
) -> (r: String)
    ensures
        r@ == time_and_duration_text(*config, time_seconds as int, duration_seconds),
{
    match duration_seconds {
        Some(d) => {
            let (formatted_duration, minutes_width) = format_time(config, d, 0);
            let (formatted_time, _) = format_time(config, time_seconds, minutes_width);
            let mut subs: Vec<(String, String)> = Vec::new();
            subs.push(("time".to_owned(), formatted_time));
            subs.push(("duration".to_owned(), formatted_duration));
            let r = config.get_message("time_and_duration", &subs);
            proof {
                assert(crate::messages::subs_view(subs@) =~= seq![
                    (
                        "time"@,
                        time_text(
                            *config,
                            time_seconds as int,
                            time_text_minutes_width(*config, d as int),
                        ),
                    ),
                    ("duration"@, time_text(*config, d as int, 0)),
                ]);
            }
            r
        },
        None => {
            let (formatted_time, _) = format_time(config, time_seconds, 0);
            let unknown = config.get_raw_message("duration.unknown");
            let mut subs: Vec<(String, String)> = Vec::new();
            subs.push(("time".to_owned(), formatted_time));
            subs.push(("duration".to_owned(), unknown));
            let r = config.get_message("time_and_duration", &subs);
            proof {
                assert(crate::messages::subs_view(subs@) =~= seq![
                    ("time"@, time_text(*config, time_seconds as int, 0)),
                    ("duration"@, raw_message(config.messages@, "duration.unknown"@)),
                ]);
            }
            r
        },
    }
}

/// The bar's inner width for a time text of the given length: the columns
/// left beside the brackets, at least one.
pub open spec fn bar_width(time_len: int) -> int {
    if 54 - time_len - 3 >= 1 {
        54 - time_len - 3
    } else {
        1
    }
}

/// How many bar columns are filled: the elapsed share of the duration,
/// full once elapsed time reaches it; a zero duration counts as over.
pub open spec fn filled_width(width: int, time_seconds: int, duration_seconds: int) -> int {
    if duration_seconds <= 0 || time_seconds >= duration_seconds {
        width
    } else {
        width * time_seconds / duration_seconds
    }
}

/// Renders the elapsed-and-total line with a progress bar when the duration
/// is known: filled columns, dashes for the rest, in brackets. Without a
/// duration the line stands alone.
pub fn format_time_bar(
    config: &MessageConfig,
    time_seconds: u64,
    duration_seconds: Option<u64>,
) -> (r: String)
    ensures
        ({
            let time = time_and_duration_text(*config, time_seconds as int, duration_seconds);
            match duration_seconds {
                Some(d) => {
                    let width = bar_width(time.len() as int);
                    let filled = filled_width(width, time_seconds as int, d as int);
                    r@ == time + " ["@ + repeat_char('=', filled) + repeat_char(
                        '-',
                        width - filled,
                    ) + "]"@
                },
                None => r@ == time,
            }
        }),
{
    let mut time = format_time_and_duration(config, time_seconds, duration_seconds);
    let d = match duration_seconds {
        Some(d) => d,
        None => {
            return time;
        },
    };
    let time_len = time.as_str().unicode_len();
    let width: usize = if time_len < 51 {
        51 - time_len
    } else {
        1
    };
    let filled: usize = if d == 0 || time_seconds >= d {
        width
    } else {
        proof {
            vstd::arithmetic::mul::lemma_mul_upper_bound(
                width as int,
                54,
                time_seconds as int,
                0xffff_ffff_ffff_ffff,
            );
            vstd::arithmetic::mul::lemma_mul_inequality(
                time_seconds as int,
                d as int,
                width as int,
            );
            vstd::arithmetic::mul::lemma_mul_is_commutative(width as int, time_seconds as int);
            vstd::arithmetic::mul::lemma_mul_is_commutative(width as int, d as int);
            vstd::arithmetic::div_mod::lemma_multiply_divide_le(
                width as int * time_seconds as int,
                d as int,
                width as int,
            );
            vstd::arithmetic::div_mod::lemma_div_pos_is_pos(
                width as int * time_seconds as int,
                d as int,
            );
            vstd::arithmetic::mul::lemma_mul_nonnegative(width as int, time_seconds as int);
        }
        ((width as u128 * time_seconds as u128) / d as u128) as usize
    };
    proof {
        reveal_strlit("=");
        reveal_strlit("-");
    }
    let filled_part = repeat_str("=", filled);
    let rest_part = repeat_str("-", width - filled);
    time.append(" [");
    time.append(filled_part.as_str());
    time.append(rest_part.as_str());
    time.append("]");
    proof {
        assert(filled_width(width as int, time_seconds as int, d as int) == filled as int);
    }
    time
}

/// The update period of the playing message's ticker: roughly one bar column
/// per tick, clamped to the configured bounds; without a duration, the slow
/// bound.
pub fn progress_update_period_ms(
    duration_seconds: Option<u64>,
    time_len: usize,
    min_update_ms: u64,
    max_update_ms: u64,
) -> (r: u64)
    requires
        duration_seconds matches Some(d) ==> d * 1000 <= u64::MAX,
    ensures
        r == (match duration_seconds {
            Some(d) => {
                let per_column = d as int * 1000 / bar_width(time_len as int);
                if per_column < min_update_ms {
                    min_update_ms as int
                } else if per_column > max_update_ms {
                    max_update_ms as int
                } else {
                    per_column
                }
            },
            None => max_update_ms as int,
        }),
{
    let d = match duration_seconds {
        Some(d) => d,
        None => {
            return max_update_ms;
        },
    };
    let width: u64 = if time_len < 51 {
        (51 - time_len) as u64
    } else {
        1
    };
    let per_column = (d * 1000) / width;
    if per_column < min_update_ms {
        min_update_ms
    } else if per_column > max_update_ms {
        max_update_ms
    } else {
        per_column
    }
}

} // verus!
