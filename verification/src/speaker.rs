//! Speaker allocation: which of a server's speakers answers a play request
//! in a room, and when an idle speaker leaves its room.
use vstd::prelude::*;

verus! {

/// What the allocator can see of one speaker.
pub struct SpeakerInfo {
    /// The room the speaker is attached to, if any.
    pub current_channel: Option<u64>,
    /// Whether a track is loaded (playing or paused).
    pub is_active: bool,
    /// Whether the loaded track is paused.
    pub is_paused: bool,
    /// When the speaker last finished playing, as seconds on the caller's
    /// clock.
    pub last_ended_at: Option<u64>,
}

/// Preference rank of a speaker for playing in `channel_id`: one already in
/// the room, then one in no room, then one idle in another room; rank 3 is
/// unusable.
pub open spec fn play_rank(s: SpeakerInfo, channel_id: u64) -> int {
    if s.current_channel == Some(channel_id) {
        0
    } else if s.current_channel is None {
        1
    } else if !s.is_active {
        2
    } else {
        3
    }
}

/// Picks the speaker to play in a room: the first speaker of the best
/// available rank — already in the room, else unattached, else attached
/// elsewhere but idle; none when every speaker is busy elsewhere.
pub fn find_to_play_in_channel(speakers: &Vec<SpeakerInfo>, channel_id: u64) -> (r: Option<usize>)
    ensures
        match r {
            Some(i) => {
                &&& i < speakers@.len()
                &&& play_rank(speakers@[i as int], channel_id) < 3
                &&& forall|j: int|
                    0 <= j < speakers@.len() ==> play_rank(speakers@[j], channel_id) >= play_rank(
                        speakers@[i as int],
                        channel_id,
                    )
                &&& forall|j: int|
                    0 <= j < i ==> play_rank(speakers@[j], channel_id) > play_rank(
                        speakers@[i as int],
                        channel_id,
                    )
            },
            None => forall|j: int|
                0 <= j < speakers@.len() ==> play_rank(speakers@[j], channel_id) == 3,
        },
{
    // One pass per rank, as the preference order asks.
    let n = speakers.len();
    let mut i: usize = 0;
    while i < n
        invariant
            n == speakers@.len(),
            i <= n,
            forall|j: int| 0 <= j < i ==> play_rank(speakers@[j], channel_id) != 0,
        decreases n - i,
    {
        let in_room = match speakers[i].current_channel {
            Some(c) => c == channel_id,
            None => false,
        };
        if in_room {
            return Some(i);
        }
        i += 1;
    }
    let mut i: usize = 0;
    while i < n
        invariant
            n == speakers@.len(),
            i <= n,
            forall|j: int| 0 <= j < n ==> play_rank(speakers@[j], channel_id) != 0,
            forall|j: int| 0 <= j < i ==> play_rank(speakers@[j], channel_id) != 1,
        decreases n - i,
    {
        let unattached = match speakers[i].current_channel {
            Some(_) => false,
            None => true,
        };
        if unattached {
            return Some(i);
        }
        i += 1;
    }
    let mut i: usize = 0;
    while i < n
        invariant
            n == speakers@.len(),
            i <= n,
            forall|j: int| 0 <= j < n ==> play_rank(speakers@[j], channel_id) != 0,
            forall|j: int| 0 <= j < n ==> play_rank(speakers@[j], channel_id) != 1,
            forall|j: int| 0 <= j < i ==> play_rank(speakers@[j], channel_id) != 2,
        decreases n - i,
    {
        if !speakers[i].is_active {
            return Some(i);
        }
        i += 1;
    }
    None
}

/// Finds the first speaker that is attached to the room and has a track
/// loaded.
pub fn find_active_in_channel(speakers: &Vec<SpeakerInfo>, channel_id: u64) -> (r: Option<usize>)
    ensures
        match r {
            Some(i) => {
                &&& i < speakers@.len()
                &&& speakers@[i as int].current_channel == Some(channel_id)
                &&& speakers@[i as int].is_active
                &&& forall|j: int|
                    0 <= j < i ==> !(speakers@[j].current_channel == Some(channel_id)
                        && speakers@[j].is_active)
            },
            None => forall|j: int|
                0 <= j < speakers@.len() ==> !(speakers@[j].current_channel == Some(channel_id)
                    && speakers@[j].is_active),
        },
{
    let n = speakers.len();
    let mut i: usize = 0;
    while i < n
        invariant
            n == speakers@.len(),
            i <= n,
            forall|j: int|
                0 <= j < i ==> !(speakers@[j].current_channel == Some(channel_id)
                    && speakers@[j].is_active),
        decreases n - i,
    {
        let in_room = match speakers[i].current_channel {
            Some(c) => c == channel_id,
            None => false,
        };
        if in_room && speakers[i].is_active {
            return Some(i);
        }
        i += 1;
    }
    None
}

/// Whether the inactivity sweeper disconnects a speaker: it must be
/// attached, not playing, have finished a track at least
/// `min_inactive_secs` ago — and, under the only-when-alone policy with a
/// known member count, be alone in the room (the speaker counts as one
/// member).
pub open spec fn disconnect_decision(
    s: SpeakerInfo,
    now_secs: u64,
    min_inactive_secs: u64,
    only_when_alone: bool,
    members_in_channel: Option<u64>,
) -> bool {
    &&& !s.is_active
    &&& s.current_channel is Some
    &&& match s.last_ended_at {
        Some(ended) => now_secs >= ended && now_secs - ended >= min_inactive_secs,
        None => false,
    }
    &&& (only_when_alone ==> match members_in_channel {
        Some(count) => count <= 1,
        None => true,
    })
}

/// Decides whether the inactivity sweeper disconnects this speaker now.
pub fn should_disconnect(
    speaker: &SpeakerInfo,
    now_secs: u64,
    min_inactive_secs: u64,
    only_when_alone: bool,
    members_in_channel: Option<u64>,
) -> (r: bool)
    ensures
        r == disconnect_decision(
            *speaker,
            now_secs,
            min_inactive_secs,
            only_when_alone,
            members_in_channel,
        ),
{
    if speaker.is_active {
        return false;
    }
    let attached = match speaker.current_channel {
        Some(_) => true,
        None => false,
    };
    if !attached {
        return false;
    }
    let ended = match speaker.last_ended_at {
        Some(t) => t,
        None => {
            return false;
        },
    };
    if now_secs < ended || now_secs - ended < min_inactive_secs {
        return false;
    }
    if only_when_alone {
        match members_in_channel {
            Some(count) => {
                if count > 1 {
                    return false;
                }
            },
            None => {},
        }
    }
    true
}

} // verus!
