//! The coordinator's decisions: how a play request, a resume, a replacement,
//! a stop vote or a track-ended event moves the queue model and which
//! speaker is told to act. Loading songs, joining rooms and sending messages
//! happen around these functions; every rule lives here.
use crate::model::{
    advance_transition, rr_first_pick, rr_no_pick, vote_outcome, GuildModel, NextEntry,
    ReplaceStatus, VoteStatus, VoteType,
};
use crate::model::has_user_order;
use crate::song::{QueuedSong, Song};
use crate::speaker::{find_active_in_channel, find_to_play_in_channel, play_rank, SpeakerInfo};
use vstd::prelude::*;

verus! {

/// Queueing the loaded songs for a user: every song appended, in order, with
/// no status message recorded yet; rooms untouched.
pub open spec fn pushed_songs(
    pre: GuildModel,
    post: GuildModel,
    user: u64,
    songs: Seq<Song>,
) -> bool {
    &&& post.user_entries(user) == pre.user_entries(user) + songs.map_values(
        |s: Song| (QueuedSong { song: s, queue_message_id: None }),
    )
    &&& (forall|u: u64| u != user ==> post.user_entries(u) == pre.user_entries(u))
    &&& post.users() == (if has_user_order(pre.users(), user) || songs.len() == 0 {
        pre.users()
    } else {
        pre.users().push(user)
    })
    &&& (forall|c: u64| post.channel_playing(c) == pre.channel_playing(c))
    &&& (forall|c: u64| post.last_action(c) == pre.last_action(c))
    &&& post.spec_message_channel() == pre.spec_message_channel()
    &&& post.spec_config() == pre.spec_config()
}

/// The advance that found nothing: the room is left not playing, everything
/// else stays.
pub open spec fn advance_found_nothing(pre: GuildModel, post: GuildModel, ch: u64) -> bool {
    &&& pre.queues_unchanged(post)
    &&& !post.is_playing(ch) && !post.is_stopped(ch)
    &&& post.last_action(ch) == pre.last_action(ch)
    &&& pre.channels_unchanged_except(post, ch)
    &&& post.spec_message_channel() == pre.spec_message_channel()
    &&& post.spec_config() == pre.spec_config()
}

/// What a play request comes to once the extractor produced its songs.
pub enum PlayRequestOutcome {
    /// The extractor matched nothing; nothing was queued.
    NoMatchingSongs,
    /// The songs were queued; the caller is in no room, so nothing plays.
    QueuedOnly { count: usize },
    /// The songs were queued; no speaker can serve the caller's room.
    QueuedNoSpeakers { count: usize },
    /// The songs were queued; the room is already playing, or nobody queued
    /// is present, so nothing new starts.
    AlreadyQueued { count: usize },
    /// Playback starts: this speaker plays this entry in the caller's room.
    Play { speaker_index: usize, entry: QueuedSong, count: usize },
}

/// Appends each song as a fresh queue entry for the user.
fn entries_of_songs(songs: Vec<Song>) -> (r: Vec<QueuedSong>)
    ensures
        r@ == songs@.map_values(|s: Song| (QueuedSong { song: s, queue_message_id: None })),
{
    let ghost all = songs@;
    let mut rest = songs;
    let mut out: Vec<QueuedSong> = Vec::new();
    let ghost mut i: int = 0;
    while rest.len() > 0
        invariant
            0 <= i <= all.len(),
            rest@ == all.skip(i),
            out@ == all.take(i).map_values(
                |s: Song| (QueuedSong { song: s, queue_message_id: None }),
            ),
        decreases rest@.len(),
    {
        let s = rest.remove(0);
        out.push(QueuedSong { song: s, queue_message_id: None });
        proof {
            assert(all.skip(i)[0] == all[i]);
            assert(all.skip(i).skip(1) =~= all.skip(i + 1));
            assert(out@ =~= all.take(i + 1).map_values(
                |s: Song| (QueuedSong { song: s, queue_message_id: None }),
            ));
            i = i + 1;
        }
    }
    proof {
        assert(all.take(all.len() as int) =~= all);
    }
    out
}

/// Handles a play request once the songs are loaded: queues them all for
/// the caller, then starts playback exactly when the caller stands in a
/// room, a speaker can serve that room, and the room was not already
/// playing and the scan found a present user. The ghost result is the model
/// between queueing and advancing.
pub fn queue_play_request(
    model: &mut GuildModel,
    speakers: &Vec<SpeakerInfo>,
    user_id: u64,
    channel_id: Option<u64>,
    present: &Vec<u64>,
    songs: Vec<Song>,
) -> (r: (PlayRequestOutcome, Ghost<GuildModel>))
    requires
        old(model).wf(),
    ensures
        final(model).wf(),
        ({
            let mid = r.1@;
            match r.0 {
                PlayRequestOutcome::NoMatchingSongs => songs@.len() == 0 && *final(model) == *old(
                    model,
                ),
                PlayRequestOutcome::QueuedOnly { count } => {
                    &&& songs@.len() == count > 0
                    &&& channel_id is None
                    &&& pushed_songs(*old(model), *final(model), user_id, songs@)
                },
                PlayRequestOutcome::QueuedNoSpeakers { count } => {
                    &&& songs@.len() == count > 0
                    &&& channel_id is Some
                    &&& (forall|j: int|
                        0 <= j < speakers@.len() ==> play_rank(
                            speakers@[j],
                            channel_id.unwrap(),
                        ) == 3)
                    &&& pushed_songs(*old(model), *final(model), user_id, songs@)
                },
                PlayRequestOutcome::AlreadyQueued { count } => {
                    &&& songs@.len() == count > 0
                    &&& channel_id is Some
                    &&& pushed_songs(*old(model), mid, user_id, songs@)
                    &&& (mid.is_playing(channel_id.unwrap()) && *final(model) == mid || (
                    !mid.is_playing(channel_id.unwrap()) && rr_no_pick(mid, present@)
                        && advance_found_nothing(mid, *final(model), channel_id.unwrap())))
                },
                PlayRequestOutcome::Play { speaker_index, entry, count } => {
                    &&& songs@.len() == count > 0
                    &&& channel_id is Some
                    &&& speaker_index < speakers@.len()
                    &&& play_rank(speakers@[speaker_index as int], channel_id.unwrap()) < 3
                    &&& pushed_songs(*old(model), mid, user_id, songs@)
                    &&& !mid.is_playing(channel_id.unwrap())
                    &&& exists|i: int|
                        #![trigger rr_first_pick(mid, channel_id.unwrap(), present@, i)]
                        rr_first_pick(mid, channel_id.unwrap(), present@, i)
                            && advance_transition(
                            mid,
                            *final(model),
                            channel_id.unwrap(),
                            i,
                            entry,
                        )
                },
            }
        }),
{
    let count = songs.len();
    if count == 0 {
        return (PlayRequestOutcome::NoMatchingSongs, Ghost(*model));
    }
    let entries = entries_of_songs(songs);
    model.push_entries(user_id, entries);
    let ghost mid = *model;
    let ch = match channel_id {
        Some(ch) => ch,
        None => {
            return (PlayRequestOutcome::QueuedOnly { count }, Ghost(mid));
        },
    };
    let speaker_index = match find_to_play_in_channel(speakers, ch) {
        Some(i) => i,
        None => {
            return (PlayRequestOutcome::QueuedNoSpeakers { count }, Ghost(mid));
        },
    };
    match model.next_channel_entry(present, ch) {
        NextEntry::Entry(entry) => (
            PlayRequestOutcome::Play { speaker_index, entry, count },
            Ghost(mid),
        ),
        NextEntry::AlreadyPlaying => (PlayRequestOutcome::AlreadyQueued { count }, Ghost(mid)),
        NextEntry::NoneAvailable => (PlayRequestOutcome::AlreadyQueued { count }, Ghost(mid)),
    }
}

/// What a resume request comes to.
pub enum ResumeOutcome {
    /// This speaker is paused in the room: unpause it.
    Unpause { speaker_index: usize },
    /// This speaker is already playing in the room; nothing to do.
    AlreadyPlayingHere { speaker_index: usize },
    /// No speaker can serve the room.
    NoSpeakers,
    /// Nothing is queued for the room, or it is already marked playing.
    NothingToPlay,
    /// Playback starts: this speaker plays this entry.
    Play { speaker_index: usize, entry: QueuedSong },
}

/// Handles a resume request in the caller's room: an active speaker there is
/// unpaused (or left alone), otherwise playback of the next queued entry is
/// started as a play request would.
pub fn resume_command(
    model: &mut GuildModel,
    speakers: &Vec<SpeakerInfo>,
    channel_id: u64,
    present: &Vec<u64>,
) -> (r: ResumeOutcome)
    requires
        old(model).wf(),
    ensures
        final(model).wf(),
        match r {
            ResumeOutcome::Unpause { speaker_index } => {
                &&& *final(model) == *old(model)
                &&& speaker_index < speakers@.len()
                &&& speakers@[speaker_index as int].current_channel == Some(channel_id)
                &&& speakers@[speaker_index as int].is_active
                &&& speakers@[speaker_index as int].is_paused
            },
            ResumeOutcome::AlreadyPlayingHere { speaker_index } => {
                &&& *final(model) == *old(model)
                &&& speaker_index < speakers@.len()
                &&& speakers@[speaker_index as int].current_channel == Some(channel_id)
                &&& speakers@[speaker_index as int].is_active
                &&& !speakers@[speaker_index as int].is_paused
            },
            ResumeOutcome::NoSpeakers => {
                &&& *final(model) == *old(model)
                &&& forall|j: int|
                    0 <= j < speakers@.len() ==> play_rank(speakers@[j], channel_id) == 3
            },
            ResumeOutcome::NothingToPlay => old(model).is_playing(channel_id) && *final(model)
                == *old(model) || (!old(model).is_playing(channel_id) && rr_no_pick(
                *old(model),
                present@,
            ) && advance_found_nothing(*old(model), *final(model), channel_id)),
            ResumeOutcome::Play { speaker_index, entry } => {
                &&& speaker_index < speakers@.len()
                &&& play_rank(speakers@[speaker_index as int], channel_id) < 3
                &&& !old(model).is_playing(channel_id)
                &&& exists|i: int|
                    #![trigger rr_first_pick(*old(model), channel_id, present@, i)]
                    rr_first_pick(*old(model), channel_id, present@, i) && advance_transition(
                        *old(model),
                        *final(model),
                        channel_id,
                        i,
                        entry,
                    )
            },
        },
{
    match find_active_in_channel(speakers, channel_id) {
        Some(i) => {
            if speakers[i].is_paused {
                return ResumeOutcome::Unpause { speaker_index: i };
            } else {
                return ResumeOutcome::AlreadyPlayingHere { speaker_index: i };
            }
        },
        None => {},
    }
    let speaker_index = match find_to_play_in_channel(speakers, channel_id) {
        Some(i) => i,
        None => {
            return ResumeOutcome::NoSpeakers;
        },
    };
    match model.next_channel_entry(present, channel_id) {
        NextEntry::Entry(entry) => ResumeOutcome::Play { speaker_index, entry },
        NextEntry::AlreadyPlaying => ResumeOutcome::NothingToPlay,
        NextEntry::NoneAvailable => ResumeOutcome::NothingToPlay,
    }
}

/// What a stop vote comes to.
pub enum StopOutcome {
    /// The vote passed: the room is marked stopped; playback is to be torn
    /// down.
    Stopped,
    /// The vote was counted; this many more are needed.
    NeedsMoreVotes(usize),
    /// The caller had already voted.
    AlreadyVoted,
    /// Nothing is playing in the room.
    NothingPlaying,
}

/// Handles a stop vote: a successful vote marks the room stopped, which
/// suppresses auto-advance until the next explicit play. The ghost result is
/// the model after the vote and before the stop mark.
pub fn stop_command(
    model: &mut GuildModel,
    present: &Vec<u64>,
    channel_id: u64,
    user_id: u64,
) -> (r: (StopOutcome, Ghost<GuildModel>))
    requires
        old(model).wf(),
        present@.contains(user_id),
    ensures
        final(model).wf(),
        ({
            let mid = r.1@;
            match r.0 {
                StopOutcome::Stopped => {
                    &&& vote_outcome(
                        *old(model),
                        mid,
                        present@,
                        VoteType::Stop,
                        channel_id,
                        user_id,
                        VoteStatus::Success,
                    )
                    &&& final(model).channel_playing(channel_id)
                        == crate::model::ChannelPlayingState::Stopped
                    &&& mid.queues_unchanged(*final(model))
                    &&& mid.channels_unchanged_except(*final(model), channel_id)
                    &&& final(model).last_action(channel_id) == mid.last_action(channel_id)
                    &&& final(model).spec_message_channel() == mid.spec_message_channel()
                    &&& final(model).spec_config() == mid.spec_config()
                },
                StopOutcome::NeedsMoreVotes(n) => vote_outcome(
                    *old(model),
                    *final(model),
                    present@,
                    VoteType::Stop,
                    channel_id,
                    user_id,
                    VoteStatus::NeedsMoreVotes(n),
                ),
                StopOutcome::AlreadyVoted => vote_outcome(
                    *old(model),
                    *final(model),
                    present@,
                    VoteType::Stop,
                    channel_id,
                    user_id,
                    VoteStatus::AlreadyVoted,
                ),
                StopOutcome::NothingPlaying => vote_outcome(
                    *old(model),
                    *final(model),
                    present@,
                    VoteType::Stop,
                    channel_id,
                    user_id,
                    VoteStatus::NothingPlaying,
                ),
            }
        }),
{
    let status = model.vote_for_skip(present, VoteType::Stop, channel_id, user_id);
    let ghost mid = *model;
    match status {
        VoteStatus::Success => {
            model.set_channel_stopped(channel_id);
            (StopOutcome::Stopped, Ghost(mid))
        },
        VoteStatus::NeedsMoreVotes(n) => (StopOutcome::NeedsMoreVotes(n), Ghost(mid)),
        VoteStatus::AlreadyVoted => (StopOutcome::AlreadyVoted, Ghost(mid)),
        VoteStatus::NothingPlaying => (StopOutcome::NothingPlaying, Ghost(mid)),
    }
}

/// What the track-ended callback decides.
pub enum EndedAction {
    /// The speaker left or moved rooms: the started room is marked stopped
    /// and the speaker detaches.
    StopAndDetach,
    /// The room carries the stopped flag: detach without advancing.
    DetachStopped,
    /// The next entry to play in the room.
    PlayNext(QueuedSong),
    /// Nobody queued is present: announce the queue is finished and detach.
    Finished,
}

/// Handles a track-ended event: a speaker that moved or left stops the
/// started room; a stopped room is left alone; otherwise the room advances
/// round-robin to the next entry of a present user.
pub fn playback_ended(
    model: &mut GuildModel,
    started_channel_id: u64,
    current_channel_id: Option<u64>,
    present: &Vec<u64>,
) -> (r: EndedAction)
    requires
        old(model).wf(),
    ensures
        final(model).wf(),
        match r {
            EndedAction::StopAndDetach => {
                &&& (current_channel_id is None || current_channel_id != Some(started_channel_id))
                &&& final(model).channel_playing(started_channel_id)
                    == crate::model::ChannelPlayingState::Stopped
                &&& old(model).queues_unchanged(*final(model))
                &&& old(model).channels_unchanged_except(*final(model), started_channel_id)
            },
            EndedAction::DetachStopped => {
                &&& current_channel_id == Some(started_channel_id)
                &&& old(model).is_stopped(started_channel_id)
                &&& *final(model) == *old(model)
            },
            EndedAction::PlayNext(entry) => {
                &&& current_channel_id == Some(started_channel_id)
                &&& !old(model).is_stopped(started_channel_id)
                &&& exists|i: int|
                    #![trigger rr_first_pick(*old(model), started_channel_id, present@, i)]
                    rr_first_pick(*old(model), started_channel_id, present@, i)
                        && advance_transition(
                        *old(model),
                        *final(model),
                        started_channel_id,
                        i,
                        entry,
                    )
            },
            EndedAction::Finished => {
                &&& current_channel_id == Some(started_channel_id)
                &&& !old(model).is_stopped(started_channel_id)
                &&& rr_no_pick(*old(model), present@)
                &&& advance_found_nothing(*old(model), *final(model), started_channel_id)
            },
        },
{
    let moved = match current_channel_id {
        Some(cur) => cur != started_channel_id,
        None => true,
    };
    if moved {
        model.set_channel_stopped(started_channel_id);
        return EndedAction::StopAndDetach;
    }
    if model.is_channel_stopped(started_channel_id) {
        return EndedAction::DetachStopped;
    }
    match model.next_channel_entry_finished(present, started_channel_id) {
        Some(entry) => EndedAction::PlayNext(entry),
        None => EndedAction::Finished,
    }
}

/// What a replace request comes to.
pub enum ReplaceOutcome {
    /// The extractor matched nothing; nothing changed.
    NoMatchingSongs,
    /// The user had nothing pending; the song was queued instead.
    Queued,
    /// The newest pending entry was swapped out; here it is.
    ReplacedInQueue(QueuedSong),
    /// The user's own entry was playing: it is skipped, and this is what
    /// plays next, if anything.
    ReplaceSkipped { next: Option<QueuedSong> },
}

/// Handles a replace request once the songs are loaded: the first song
/// replaces the user's newest pending entry (or is queued when none is
/// pending), any further songs are queued after it; when the user's only
/// pending work was the entry now playing in their room, that entry is
/// skipped and the room advances. The ghost results are the models after
/// the replacement and after queueing the remaining songs.
pub fn replace_command(
    model: &mut GuildModel,
    user_id: u64,
    maybe_channel_id: Option<u64>,
    present: &Vec<u64>,
    songs: Vec<Song>,
) -> (r: (ReplaceOutcome, Ghost<(GuildModel, GuildModel)>))
    requires
        old(model).wf(),
    ensures
        final(model).wf(),
        ({
            let (mid1, mid2) = r.1@;
            match r.0 {
                ReplaceOutcome::NoMatchingSongs => songs@.len() == 0 && *final(model) == *old(
                    model,
                ),
                ReplaceOutcome::Queued => {
                    &&& songs@.len() > 0
                    &&& replaced_entry(
                        *old(model),
                        mid1,
                        user_id,
                        maybe_channel_id,
                        songs@[0],
                        ReplaceStatus::Queued,
                    )
                    &&& pushed_songs(mid1, *final(model), user_id, songs@.skip(1))
                },
                ReplaceOutcome::ReplacedInQueue(old_entry) => {
                    &&& songs@.len() > 0
                    &&& replaced_entry(
                        *old(model),
                        mid1,
                        user_id,
                        maybe_channel_id,
                        songs@[0],
                        ReplaceStatus::ReplacedInQueue(old_entry),
                    )
                    &&& pushed_songs(mid1, *final(model), user_id, songs@.skip(1))
                },
                ReplaceOutcome::ReplaceSkipped { next } => {
                    &&& songs@.len() > 0
                    &&& maybe_channel_id is Some
                    &&& replaced_entry(
                        *old(model),
                        mid1,
                        user_id,
                        maybe_channel_id,
                        songs@[0],
                        ReplaceStatus::ReplacedCurrent(maybe_channel_id.unwrap()),
                    )
                    &&& pushed_songs(mid1, mid2, user_id, songs@.skip(1))
                    &&& match next {
                        Some(entry) => exists|i: int|
                            #![trigger rr_first_pick(mid2, maybe_channel_id.unwrap(), present@, i)]
                            rr_first_pick(mid2, maybe_channel_id.unwrap(), present@, i)
                                && advance_transition(
                                mid2,
                                *final(model),
                                maybe_channel_id.unwrap(),
                                i,
                                entry,
                            ),
                        None => rr_no_pick(mid2, present@) && advance_found_nothing(
                            mid2,
                            *final(model),
                            maybe_channel_id.unwrap(),
                        ),
                    }
                },
            }
        }),
{
    if songs.len() == 0 {
        return (ReplaceOutcome::NoMatchingSongs, Ghost((*model, *model)));
    }
    let ghost all = songs@;
    let mut entries = entries_of_songs(songs);
    let first = entries.remove(0);
    proof {
        assert(entries@ =~= all.skip(1).map_values(
            |s: Song| (QueuedSong { song: s, queue_message_id: None }),
        ));
        assert(first == (QueuedSong { song: all[0], queue_message_id: None }));
    }
    let status = model.replace_entry(user_id, maybe_channel_id, first);
    let ghost mid1 = *model;
    model.push_entries(user_id, entries);
    let ghost mid2 = *model;
    match status {
        ReplaceStatus::Queued => (ReplaceOutcome::Queued, Ghost((mid1, mid2))),
        ReplaceStatus::ReplacedInQueue(old_entry) => (
            ReplaceOutcome::ReplacedInQueue(old_entry),
            Ghost((mid1, mid2)),
        ),
        ReplaceStatus::ReplacedCurrent(ch) => {
            let next = model.next_channel_entry_finished(present, ch);
            (ReplaceOutcome::ReplaceSkipped { next }, Ghost((mid1, mid2)))
        },
    }
}

/// What one replacement did to the model, phrased over the model's view.
pub open spec fn replaced_entry(
    pre: GuildModel,
    post: GuildModel,
    user: u64,
    maybe_channel_id: Option<u64>,
    song: Song,
    status: ReplaceStatus,
) -> bool {
    let entry = (QueuedSong { song, queue_message_id: None });
    let es = pre.user_entries(user);
    &&& (forall|u: u64| u != user ==> post.user_entries(u) == pre.user_entries(u))
    &&& (forall|c: u64| post.channel_playing(c) == pre.channel_playing(c))
    &&& (forall|c: u64| post.last_action(c) == pre.last_action(c))
    &&& post.spec_message_channel() == pre.spec_message_channel()
    &&& post.spec_config() == pre.spec_config()
    &&& if es.len() > 0 {
        &&& post.user_entries(user) == es.update(es.len() - 1, entry)
        &&& status == ReplaceStatus::ReplacedInQueue(es.last())
        &&& post.users() == pre.users()
    } else {
        &&& post.user_entries(user) == seq![entry]
        &&& post.users() == pre.users().push(user)
        &&& status == (match maybe_channel_id {
            Some(ch) => if pre.playing_user(ch) == Some(user) {
                ReplaceStatus::ReplacedCurrent(ch)
            } else {
                ReplaceStatus::Queued
            },
            None => ReplaceStatus::Queued,
        })
    }
}

} // verus!
