use mrvn::coordinator::{
    playback_ended, queue_play_request, replace_command, resume_command, stop_command,
    EndedAction, PlayRequestOutcome, ReplaceOutcome, ResumeOutcome, StopOutcome,
};
use mrvn::model::{
    AppModelConfig, ChannelActionMessage, GuildModel, NextEntry, ReplaceStatus, VoteStatus,
    VoteType,
};
use mrvn::song::{QueuedSong, Song, SongMetadata};
use mrvn::speaker::SpeakerInfo;

fn song(id: u128, title: &str, url: &str, user_id: u64) -> Song {
    Song {
        metadata: SongMetadata {
            id,
            title: title.to_string(),
            url: url.to_string(),
            thumbnail_url: None,
            duration_seconds: Some(180),
            user_id,
        },
        download_url: url.to_string(),
        http_headers: Vec::new(),
    }
}

fn entry(id: u128, title: &str, url: &str, user_id: u64) -> QueuedSong {
    QueuedSong {
        song: song(id, title, url, user_id),
        queue_message_id: None,
    }
}

fn model(skip: usize, stop: usize) -> GuildModel {
    GuildModel::new(AppModelConfig {
        skip_votes_required: skip,
        stop_votes_required: stop,
    })
}

fn idle_speaker() -> SpeakerInfo {
    SpeakerInfo {
        current_channel: None,
        is_active: false,
        is_paused: false,
        last_ended_at: None,
    }
}

#[test]
fn single_user_play_starts_playback() {
    // One user plays one song while standing in a room: the entry comes
    // straight back out and the room is playing for that user.
    let mut m = model(2, 2);
    let speakers = vec![idle_speaker()];
    let present = vec![1u64];
    let (outcome, _) = queue_play_request(
        &mut m,
        &speakers,
        1,
        Some(10),
        &present,
        vec![song(100, "a", "https://example/a", 1)],
    );
    match outcome {
        PlayRequestOutcome::Play {
            speaker_index,
            entry,
            count,
        } => {
            assert_eq!(speaker_index, 0);
            assert_eq!(count, 1);
            assert_eq!(entry.song.metadata.url, "https://example/a");
        }
        _ => panic!("expected playback to start"),
    }
    assert_eq!(m.get_channel_playing_user(10), Some(1));
    assert!(!m.is_channel_stopped(10));
}

#[test]
fn round_robin_serves_users_in_order() {
    // u1 queues a and b, u2 queues c; end events yield a, c, b.
    let mut m = model(2, 2);
    let present = vec![1u64, 2u64];
    m.push_entries(
        1,
        vec![
            entry(1, "a", "https://example/a", 1),
            entry(2, "b", "https://example/b", 1),
        ],
    );
    m.push_entries(2, vec![entry(3, "c", "https://example/c", 2)]);

    let first = m.next_channel_entry_finished(&present, 10).unwrap();
    assert_eq!(first.song.metadata.title, "a");
    assert_eq!(m.get_channel_playing_user(10), Some(1));

    let second = m.next_channel_entry_finished(&present, 10).unwrap();
    assert_eq!(second.song.metadata.title, "c");
    assert_eq!(m.get_channel_playing_user(10), Some(2));

    let third = m.next_channel_entry_finished(&present, 10).unwrap();
    assert_eq!(third.song.metadata.title, "b");
    assert_eq!(m.get_channel_playing_user(10), Some(1));

    assert!(m.next_channel_entry_finished(&present, 10).is_none());
}

#[test]
fn advance_skips_absent_users() {
    // Only users present in the room are served.
    let mut m = model(2, 2);
    m.push_entries(1, vec![entry(1, "a", "https://example/a", 1)]);
    m.push_entries(2, vec![entry(2, "c", "https://example/c", 2)]);
    let present = vec![2u64];
    let e = m.next_channel_entry_finished(&present, 10).unwrap();
    assert_eq!(e.song.metadata.title, "c");
    assert_eq!(m.get_channel_playing_user(10), Some(2));
}

#[test]
fn next_channel_entry_gates_on_playing() {
    let mut m = model(2, 2);
    let present = vec![1u64];
    m.push_entries(
        1,
        vec![
            entry(1, "a", "https://example/a", 1),
            entry(2, "b", "https://example/b", 1),
        ],
    );
    match m.next_channel_entry(&present, 10) {
        NextEntry::Entry(e) => assert_eq!(e.song.metadata.title, "a"),
        _ => panic!("expected an entry"),
    }
    match m.next_channel_entry(&present, 10) {
        NextEntry::AlreadyPlaying => {}
        _ => panic!("the room is already playing"),
    }
}

#[test]
fn stop_vote_threshold_two() {
    // u1 votes: one more needed; u2 votes: success; the room stops and the
    // ended callback does not auto-advance.
    let mut m = model(2, 2);
    let present = vec![1u64, 2u64, 3u64];
    m.push_entries(3, vec![entry(1, "a", "https://example/a", 3)]);
    m.push_entries(1, vec![entry(2, "b", "https://example/b", 1)]);
    assert!(m.next_channel_entry_finished(&present, 10).is_some());
    assert_eq!(m.get_channel_playing_user(10), Some(3));

    let (first, _) = stop_command(&mut m, &present, 10, 1);
    match first {
        StopOutcome::NeedsMoreVotes(n) => assert_eq!(n, 1),
        _ => panic!("one vote must not pass a threshold of two"),
    }
    let (second, _) = stop_command(&mut m, &present, 10, 2);
    match second {
        StopOutcome::Stopped => {}
        _ => panic!("the second vote reaches the threshold"),
    }
    assert!(m.is_channel_stopped(10));

    // The track-ended callback sees the stopped room and leaves it alone.
    match playback_ended(&mut m, 10, Some(10), &present) {
        EndedAction::DetachStopped => {}
        _ => panic!("a stopped room must not auto-advance"),
    }
    assert!(m.is_channel_stopped(10));
}

#[test]
fn duplicate_vote_rejected_once_counted() {
    let mut m = model(3, 3);
    let present = vec![1u64, 2u64, 3u64];
    m.push_entries(3, vec![entry(1, "a", "https://example/a", 3)]);
    assert!(m.next_channel_entry_finished(&present, 10).is_some());

    match m.vote_for_skip(&present, VoteType::Skip, 10, 1) {
        VoteStatus::NeedsMoreVotes(n) => assert_eq!(n, 2),
        _ => panic!("the first vote is counted"),
    }
    match m.vote_for_skip(&present, VoteType::Skip, 10, 1) {
        VoteStatus::AlreadyVoted => {}
        _ => panic!("a duplicate vote is refused"),
    }
    match m.vote_for_skip(&present, VoteType::Skip, 10, 1) {
        VoteStatus::AlreadyVoted => {}
        _ => panic!("a duplicate vote stays refused"),
    }
}

#[test]
fn self_vote_and_absent_requester_pass_immediately() {
    let mut m = model(5, 5);
    let present = vec![1u64, 3u64];
    m.push_entries(3, vec![entry(1, "a", "https://example/a", 3)]);
    assert!(m.next_channel_entry_finished(&present, 10).is_some());
    // The playing user skips their own entry at once.
    match m.vote_for_skip(&present, VoteType::Skip, 10, 3) {
        VoteStatus::Success => {}
        _ => panic!("a self-skip always passes"),
    }
    // With the requester gone from the room, anybody may end the entry.
    let without_requester = vec![1u64];
    match m.vote_for_skip(&without_requester, VoteType::Skip, 10, 1) {
        VoteStatus::Success => {}
        _ => panic!("an abandoned entry is skipped at once"),
    }
}

#[test]
fn vote_on_idle_room_reports_nothing_playing() {
    let mut m = model(2, 2);
    let present = vec![1u64];
    match m.vote_for_skip(&present, VoteType::Skip, 10, 1) {
        VoteStatus::NothingPlaying => {}
        _ => panic!("no entry is playing"),
    }
}

#[test]
fn vote_sets_reset_on_new_entry() {
    let mut m = model(3, 3);
    let present = vec![1u64, 2u64, 3u64];
    m.push_entries(3, vec![entry(1, "a", "https://example/a", 3)]);
    m.push_entries(2, vec![entry(2, "b", "https://example/b", 2)]);
    assert!(m.next_channel_entry_finished(&present, 10).is_some());
    match m.vote_for_skip(&present, VoteType::Skip, 10, 1) {
        VoteStatus::NeedsMoreVotes(_) => {}
        _ => panic!("the first vote is counted"),
    }
    // The entry ends; the next entry starts with fresh vote sets, so the
    // same user's vote is counted again rather than refused.
    assert!(m.next_channel_entry_finished(&present, 10).is_some());
    match m.vote_for_skip(&present, VoteType::Skip, 10, 1) {
        VoteStatus::NeedsMoreVotes(_) => {}
        _ => panic!("vote sets reset on a new entry"),
    }
}

#[test]
fn replace_swaps_newest_pending_entry() {
    let mut m = model(2, 2);
    m.push_entries(
        1,
        vec![
            entry(1, "a", "https://example/a", 1),
            entry(2, "b", "https://example/b", 1),
        ],
    );
    let status = m.replace_entry(1, None, entry(3, "d", "https://example/d", 1));
    match status {
        ReplaceStatus::ReplacedInQueue(old) => assert_eq!(old.song.metadata.title, "b"),
        _ => panic!("the newest entry is replaced"),
    }
    // Draining shows a then d.
    let present = vec![1u64];
    assert_eq!(
        m.next_channel_entry_finished(&present, 10)
            .unwrap()
            .song
            .metadata
            .title,
        "a"
    );
    assert_eq!(
        m.next_channel_entry_finished(&present, 10)
            .unwrap()
            .song
            .metadata
            .title,
        "d"
    );
}

#[test]
fn replace_with_empty_queue_skips_own_playing_entry() {
    let mut m = model(2, 2);
    let present = vec![1u64];
    m.push_entries(1, vec![entry(1, "a", "https://example/a", 1)]);
    assert!(m.next_channel_entry_finished(&present, 10).is_some());
    // The user's queue drained into playback; replacing now targets the
    // entry that is playing in their room.
    let (outcome, _) = replace_command(
        &mut m,
        1,
        Some(10),
        &present,
        vec![song(9, "d", "https://example/d", 1)],
    );
    match outcome {
        ReplaceOutcome::ReplaceSkipped { next } => {
            assert_eq!(next.unwrap().song.metadata.title, "d");
        }
        _ => panic!("the playing entry is skipped for the replacement"),
    }
}

#[test]
fn queue_play_without_room_only_queues() {
    let mut m = model(2, 2);
    let speakers = vec![idle_speaker()];
    let present: Vec<u64> = Vec::new();
    let (outcome, _) = queue_play_request(
        &mut m,
        &speakers,
        1,
        None,
        &present,
        vec![song(1, "a", "https://example/a", 1)],
    );
    match outcome {
        PlayRequestOutcome::QueuedOnly { count } => assert_eq!(count, 1),
        _ => panic!("without a room the song only queues"),
    }
    assert_eq!(m.get_channel_playing_user(10), None);
}

#[test]
fn queue_play_without_speakers_only_queues() {
    let mut m = model(2, 2);
    let busy = SpeakerInfo {
        current_channel: Some(99),
        is_active: true,
        is_paused: false,
        last_ended_at: None,
    };
    let speakers = vec![busy];
    let present = vec![1u64];
    let (outcome, _) = queue_play_request(
        &mut m,
        &speakers,
        1,
        Some(10),
        &present,
        vec![song(1, "a", "https://example/a", 1)],
    );
    match outcome {
        PlayRequestOutcome::QueuedNoSpeakers { count } => assert_eq!(count, 1),
        _ => panic!("every speaker is busy elsewhere"),
    }
}

#[test]
fn resume_starts_queued_content() {
    let mut m = model(2, 2);
    m.push_entries(1, vec![entry(1, "a", "https://example/a", 1)]);
    let speakers = vec![idle_speaker()];
    let present = vec![1u64];
    match resume_command(&mut m, &speakers, 10, &present) {
        ResumeOutcome::Play {
            speaker_index,
            entry,
        } => {
            assert_eq!(speaker_index, 0);
            assert_eq!(entry.song.metadata.title, "a");
        }
        _ => panic!("resume starts the queued entry"),
    }
}

#[test]
fn resume_unpauses_a_paused_speaker() {
    let mut m = model(2, 2);
    let paused = SpeakerInfo {
        current_channel: Some(10),
        is_active: true,
        is_paused: true,
        last_ended_at: None,
    };
    let speakers = vec![paused];
    let present = vec![1u64];
    match resume_command(&mut m, &speakers, 10, &present) {
        ResumeOutcome::Unpause { speaker_index } => assert_eq!(speaker_index, 0),
        _ => panic!("a paused speaker in the room is unpaused"),
    }
}

#[test]
fn moved_speaker_stops_the_started_room() {
    let mut m = model(2, 2);
    let present = vec![1u64];
    m.push_entries(1, vec![entry(1, "a", "https://example/a", 1)]);
    assert!(m.next_channel_entry_finished(&present, 10).is_some());
    match playback_ended(&mut m, 10, Some(20), &present) {
        EndedAction::StopAndDetach => {}
        _ => panic!("a moved speaker stops the started room"),
    }
    assert!(m.is_channel_stopped(10));
}

#[test]
fn ended_with_empty_queues_finishes() {
    let mut m = model(2, 2);
    let present = vec![1u64];
    m.push_entries(1, vec![entry(1, "a", "https://example/a", 1)]);
    assert!(m.next_channel_entry_finished(&present, 10).is_some());
    match playback_ended(&mut m, 10, Some(10), &present) {
        EndedAction::Finished => {}
        _ => panic!("nothing is left to play"),
    }
    assert!(!m.is_channel_stopped(10));
    assert_eq!(m.get_channel_playing_user(10), None);
}

#[test]
fn queue_message_recorded_on_first_matching_entry() {
    let mut m = model(2, 2);
    m.push_entries(
        1,
        vec![
            entry(7, "a", "https://example/a", 1),
            entry(8, "b", "https://example/b", 1),
        ],
    );
    assert!(m.set_entry_queue_message(1, 8, 55, 66));
    assert!(!m.set_entry_queue_message(1, 999, 55, 66));
    let present = vec![1u64];
    let first = m.next_channel_entry_finished(&present, 10).unwrap();
    assert_eq!(first.queue_message_id, None);
    let second = m.next_channel_entry_finished(&present, 10).unwrap();
    assert_eq!(second.queue_message_id, Some((55, 66)));
}

#[test]
fn action_message_slot_replaces_and_clears() {
    let mut m = model(2, 2);
    assert_eq!(m.clear_last_action_message(10), None);
    m.set_last_action_message(
        10,
        Some(ChannelActionMessage {
            message_channel_id: 5,
            message_id: 500,
        }),
    );
    let taken = m.clear_last_action_message(10).unwrap();
    assert_eq!(taken.message_id, 500);
    assert_eq!(m.clear_last_action_message(10), None);
}

#[test]
fn message_channel_round_trips() {
    let mut m = model(2, 2);
    assert_eq!(m.message_channel(), None);
    m.set_message_channel(Some(42));
    assert_eq!(m.message_channel(), Some(42));
}

#[test]
fn three_users_rotate_fairly() {
    // Three users with two entries each: six end events serve the users in
    // cyclic order twice, never draining one queue first.
    let mut m = model(2, 2);
    let present = vec![1u64, 2u64, 3u64];
    for user in 1..=3u64 {
        m.push_entries(
            user,
            vec![
                entry(user as u128 * 10, "x", "https://example/x", user),
                entry(user as u128 * 10 + 1, "y", "https://example/y", user),
            ],
        );
    }
    let mut served = Vec::new();
    for _ in 0..6 {
        let e = m.next_channel_entry_finished(&present, 10).unwrap();
        served.push(e.song.metadata.user_id);
    }
    assert_eq!(served, vec![1, 2, 3, 1, 2, 3]);
    assert!(m.next_channel_entry_finished(&present, 10).is_none());
}
