//! Per-server queue model: one queue per requesting user, round-robin over
//! users, per-room playing state with vote-gated skip and stop, a sticky
//! stopped flag, and one action-message slot per room.
//!
//! Every operation holds the model for its whole duration; the contracts
//! below describe each operation as a transition on the model's view.
use crate::song::QueuedSong;
use vstd::prelude::*;

verus! {

/// Vote thresholds for the model.
#[derive(Clone, Copy)]
pub struct AppModelConfig {
    pub skip_votes_required: usize,
    pub stop_votes_required: usize,
}

/// Which vote a user cast.
#[derive(Clone, Copy)]
pub enum VoteType {
    Skip,
    Stop,
}

/// Outcome of a vote.
pub enum VoteStatus {
    Success,
    AlreadyVoted,
    NeedsMoreVotes(usize),
    NothingPlaying,
}

/// Outcome of replacing a user's most recent entry.
pub enum ReplaceStatus {
    Queued,
    ReplacedInQueue(QueuedSong),
    ReplacedCurrent(u64),
}

/// Outcome of asking a room for its next entry.
pub enum NextEntry {
    NoneAvailable,
    AlreadyPlaying,
    Entry(QueuedSong),
}

/// One user's pending entries, oldest first.
pub struct Queue {
    pub user_id: u64,
    pub entries: Vec<QueuedSong>,
}

/// Playing state of one room. `Stopped` suppresses auto-advance until the
/// next explicit play.
pub enum ChannelPlayingState {
    NotPlaying,
    Stopped,
    Playing { playing_user_id: u64, skip_votes: Vec<u64>, stop_votes: Vec<u64> },
}

/// Reference to the one action message a room keeps around.
#[derive(Clone, Copy, Debug, PartialEq, Eq, Structural)]
pub struct ChannelActionMessage {
    pub message_channel_id: u64,
    pub message_id: u64,
}

/// Per-room state: playing state and the action-message slot.
pub struct ChannelModel {
    pub playing: ChannelPlayingState,
    pub last_action_message: Option<ChannelActionMessage>,
}

/// The per-server model.
pub struct GuildModel {
    config: AppModelConfig,
    message_channel: Option<u64>,
    queues: Vec<Queue>,
    channels: Vec<(u64, ChannelModel)>,
}

impl ChannelPlayingState {
    /// True in the `Playing` state.
    pub open spec fn spec_is_playing(self) -> bool {
        self is Playing
    }

    /// A playing room's vote sets hold no duplicates and never the playing
    /// user, who always skips immediately.
    pub open spec fn wf(self) -> bool {
        match self {
            ChannelPlayingState::Playing { playing_user_id, skip_votes, stop_votes } => {
                &&& skip_votes@.no_duplicates()
                &&& stop_votes@.no_duplicates()
                &&& !skip_votes@.contains(playing_user_id)
                &&& !stop_votes@.contains(playing_user_id)
            },
            _ => true,
        }
    }

    fn is_playing(&self) -> (r: bool)
        ensures
            r == self.spec_is_playing(),
    {
        match self {
            ChannelPlayingState::Playing { .. } => true,
            _ => false,
        }
    }
}

/// Index of the queue that belongs to `user`, unique in a well-formed model.
pub open spec fn user_index_of(qs: Seq<Queue>, user: u64) -> int {
    choose|i: int| 0 <= i < qs.len() && qs[i].user_id == user
}

/// Whether some queue belongs to `user`.
pub open spec fn has_user(qs: Seq<Queue>, user: u64) -> bool {
    exists|i: int| 0 <= i < qs.len() && qs[i].user_id == user
}

/// Index of the entry for room `ch`, unique in a well-formed model.
pub open spec fn chan_index_of(cs: Seq<(u64, ChannelModel)>, ch: u64) -> int {
    choose|i: int| 0 <= i < cs.len() && cs[i].0 == ch
}

/// Whether the room has an entry.
pub open spec fn has_chan(cs: Seq<(u64, ChannelModel)>, ch: u64) -> bool {
    exists|i: int| 0 <= i < cs.len() && cs[i].0 == ch
}

impl GuildModel {
    /// The round-robin order: the users with pending entries, in the order
    /// they are served.
    pub closed spec fn users(self) -> Seq<u64> {
        self.queues@.map_values(|q: Queue| q.user_id)
    }

    /// Pending entries of one user, oldest first; empty when the user has no
    /// queue.
    pub closed spec fn user_entries(self, user: u64) -> Seq<QueuedSong> {
        if has_user(self.queues@, user) {
            self.queues@[user_index_of(self.queues@, user)].entries@
        } else {
            Seq::empty()
        }
    }

    /// Playing state of a room; a room without an entry is not playing.
    pub closed spec fn channel_playing(self, ch: u64) -> ChannelPlayingState {
        if has_chan(self.channels@, ch) {
            self.channels@[chan_index_of(self.channels@, ch)].1.playing
        } else {
            ChannelPlayingState::NotPlaying
        }
    }

    /// The user whose entry is playing in the room, if any.
    pub open spec fn playing_user(self, ch: u64) -> Option<u64> {
        match self.channel_playing(ch) {
            ChannelPlayingState::Playing { playing_user_id, .. } => Some(playing_user_id),
            _ => None,
        }
    }

    /// Whether the room is in the `Playing` state.
    pub open spec fn is_playing(self, ch: u64) -> bool {
        self.channel_playing(ch) is Playing
    }

    /// Whether the room carries the sticky stopped flag.
    pub open spec fn is_stopped(self, ch: u64) -> bool {
        self.channel_playing(ch) is Stopped
    }

    /// The votes of the given kind cast in the room, in insertion order.
    pub open spec fn voters(self, ch: u64, kind: VoteType) -> Seq<u64> {
        match self.channel_playing(ch) {
            ChannelPlayingState::Playing { skip_votes, stop_votes, .. } => match kind {
                VoteType::Skip => skip_votes@,
                VoteType::Stop => stop_votes@,
            },
            _ => Seq::empty(),
        }
    }

    /// The action-message slot of a room.
    pub closed spec fn last_action(self, ch: u64) -> Option<ChannelActionMessage> {
        if has_chan(self.channels@, ch) {
            self.channels@[chan_index_of(self.channels@, ch)].1.last_action_message
        } else {
            None
        }
    }

    /// The room where status messages are sent.
    pub closed spec fn spec_message_channel(self) -> Option<u64> {
        self.message_channel
    }

    /// The configured vote threshold for a vote kind.
    pub closed spec fn votes_required(self, kind: VoteType) -> usize {
        match kind {
            VoteType::Skip => self.config.skip_votes_required,
            VoteType::Stop => self.config.stop_votes_required,
        }
    }

    /// Model invariant: every queue is non-empty (a user appears in the
    /// round-robin order exactly while they have pending entries), users and
    /// rooms appear at most once, and each room's state is well formed.
    pub closed spec fn wf(self) -> bool {
        &&& forall|i: int| 0 <= i < self.queues@.len() ==> self.queues@[i].entries@.len() > 0
        &&& forall|i: int, j: int|
            0 <= i < j < self.queues@.len() ==> self.queues@[i].user_id
                != self.queues@[j].user_id
        &&& forall|i: int, j: int|
            0 <= i < j < self.channels@.len() ==> self.channels@[i].0 != self.channels@[j].0
        &&& forall|i: int| 0 <= i < self.channels@.len() ==> self.channels@[i].1.playing.wf()
    }

    /// The configuration, unchanged by every operation.
    pub closed spec fn spec_config(self) -> AppModelConfig {
        self.config
    }

    /// Queues unchanged between two models: same round-robin order and the
    /// same pending entries for every user.
    pub open spec fn queues_unchanged(self, other: GuildModel) -> bool {
        &&& self.users() == other.users()
        &&& forall|u: u64| self.user_entries(u) == other.user_entries(u)
    }

    /// Rooms unchanged except possibly `ch`.
    pub open spec fn channels_unchanged_except(self, other: GuildModel, ch: u64) -> bool {
        forall|c: u64|
            c != ch ==> self.channel_playing(c) == other.channel_playing(c) && self.last_action(c)
                == other.last_action(c)
    }

    /// A fresh model with no queues and no rooms.
    pub fn new(config: AppModelConfig) -> (m: GuildModel)
        ensures
            m.wf(),
            m.users() == Seq::<u64>::empty(),
            m.spec_message_channel() is None,
            forall|u: u64| m.user_entries(u) == Seq::<QueuedSong>::empty(),
            forall|c: u64| m.channel_playing(c) == ChannelPlayingState::NotPlaying,
            forall|c: u64| m.last_action(c) is None,
            m.votes_required(VoteType::Skip) == config.skip_votes_required,
            m.votes_required(VoteType::Stop) == config.stop_votes_required,
    {
        let m = GuildModel {
            config,
            message_channel: None,
            queues: Vec::new(),
            channels: Vec::new(),
        };
        proof {
            assert(m.users() =~= Seq::<u64>::empty());
        }
        m
    }

    /// The room where status messages are sent.
    pub fn message_channel(&self) -> (r: Option<u64>)
        ensures
            r == self.spec_message_channel(),
    {
        self.message_channel
    }

    /// Points status messages at a room.
    pub fn set_message_channel(&mut self, message_channel: Option<u64>)
        requires
            old(self).wf(),
        ensures
            final(self).wf(),
            final(self).spec_message_channel() == message_channel,
            old(self).queues_unchanged(*final(self)),
            forall|c: u64| final(self).channel_playing(c) == old(self).channel_playing(c),
            forall|c: u64| final(self).last_action(c) == old(self).last_action(c),
            final(self).spec_config() == old(self).spec_config(),
    {
        self.message_channel = message_channel;
    }

    /// Index of the room's entry in the channel table, if present.
    fn find_channel(&self, channel_id: u64) -> (r: Option<usize>)
        ensures
            match r {
                Some(i) => i < self.channels@.len() && self.channels@[i as int].0 == channel_id,
                None => !has_chan(self.channels@, channel_id),
            },
    {
        let mut i: usize = 0;
        while i < self.channels.len()
            invariant
                i <= self.channels@.len(),
                forall|j: int| 0 <= j < i ==> self.channels@[j].0 != channel_id,
            decreases self.channels@.len() - i,
        {
            if self.channels[i].0 == channel_id {
                return Some(i);
            }
            i += 1;
        }
        None
    }

    /// Index of the user's queue, if present.
    fn find_user_queue(&self, user_id: u64) -> (r: Option<usize>)
        ensures
            match r {
                Some(i) => i < self.queues@.len() && self.queues@[i as int].user_id == user_id,
                None => !has_user(self.queues@, user_id),
            },
    {
        let mut i: usize = 0;
        while i < self.queues.len()
            invariant
                i <= self.queues@.len(),
                forall|j: int| 0 <= j < i ==> self.queues@[j].user_id != user_id,
            decreases self.queues@.len() - i,
        {
            if self.queues[i].user_id == user_id {
                return Some(i);
            }
            i += 1;
        }
        None
    }

    /// In a well-formed model a found channel index is the channel index.
    proof fn lemma_chan_index(self, i: int, ch: u64)
        requires
            forall|p: int, q: int|
                0 <= p < q < self.channels@.len() ==> self.channels@[p].0 != self.channels@[q].0,
            0 <= i < self.channels@.len(),
            self.channels@[i].0 == ch,
        ensures
            chan_index_of(self.channels@, ch) == i,
            has_chan(self.channels@, ch),
    {
        let j = chan_index_of(self.channels@, ch);
        assert(0 <= j < self.channels@.len() && self.channels@[j].0 == ch);
    }

    /// In a well-formed model a found queue index is the user's index.
    proof fn lemma_user_index(self, i: int, user: u64)
        requires
            forall|p: int, q: int|
                0 <= p < q < self.queues@.len() ==> self.queues@[p].user_id
                    != self.queues@[q].user_id,
            0 <= i < self.queues@.len(),
            self.queues@[i].user_id == user,
        ensures
            user_index_of(self.queues@, user) == i,
            has_user(self.queues@, user),
    {
        let j = user_index_of(self.queues@, user);
        assert(0 <= j < self.queues@.len() && self.queues@[j].user_id == user);
    }

    /// Ensures the room has an entry, creating a not-playing one when absent;
    /// returns its index.
    fn create_channel(&mut self, channel_id: u64) -> (i: usize)
        requires
            old(self).wf(),
        ensures
            final(self).wf(),
            i < final(self).channels@.len(),
            final(self).channels@[i as int].0 == channel_id,
            final(self).queues@ == old(self).queues@,
            final(self).spec_config() == old(self).spec_config(),
            final(self).spec_message_channel() == old(self).spec_message_channel(),
            final(self).channel_playing(channel_id) == old(self).channel_playing(channel_id),
            final(self).last_action(channel_id) == old(self).last_action(channel_id),
            old(self).channels_unchanged_except(*final(self), channel_id),
            has_chan(final(self).channels@, channel_id),
            chan_index_of(final(self).channels@, channel_id) == i as int,
    {
        let found = self.find_channel(channel_id);
        match found {
            Some(i) => {
                proof {
                    self.lemma_chan_index(i as int, channel_id);
                }
                i
            },
            None => {
                let i = self.channels.len();
                self.channels.push(
                    (
                        channel_id,
                        ChannelModel {
                            playing: ChannelPlayingState::NotPlaying,
                            last_action_message: None,
                        },
                    ),
                );
                proof {
                    self.lemma_chan_index(i as int, channel_id);
                    assert forall|c: u64| c != channel_id implies old(self).channel_playing(c)
                        == self.channel_playing(c) && old(self).last_action(c) == self.last_action(
                        c,
                    ) by {
                        if has_chan(old(self).channels@, c) {
                            old(self).lemma_chan_index(chan_index_of(old(self).channels@, c), c);
                            self.lemma_chan_index(chan_index_of(old(self).channels@, c), c);
                        } else {
                            assert(!has_chan(self.channels@, c)) by {
                                if has_chan(self.channels@, c) {
                                    let j = chan_index_of(self.channels@, c);
                                    assert(0 <= j < self.channels@.len() && self.channels@[j].0
                                        == c);
                                    assert(j < old(self).channels@.len());
                                }
                            }
                        }
                    }
                }
                i
            },
        }
    }

    /// Takes the room's action message out of its slot, leaving the slot
    /// empty. A room without state keeps none.
    pub fn clear_last_action_message(&mut self, channel_id: u64) -> (r: Option<
        ChannelActionMessage,
    >)
        requires
            old(self).wf(),
        ensures
            final(self).wf(),
            r == old(self).last_action(channel_id),
            final(self).last_action(channel_id) is None,
            old(self).queues_unchanged(*final(self)),
            final(self).spec_config() == old(self).spec_config(),
            final(self).spec_message_channel() == old(self).spec_message_channel(),
            forall|c: u64| final(self).channel_playing(c) == old(self).channel_playing(c),
            forall|c: u64| c != channel_id ==> final(self).last_action(c) == old(self).last_action(c),
    {
        let found = self.find_channel(channel_id);
        match found {
            Some(i) => {
                proof {
                    self.lemma_chan_index(i as int, channel_id);
                }
                let r = self.channels[i].1.last_action_message;
                self.channels[i].1.last_action_message = None;
                proof {
                    assert forall|c: u64| final(self).channel_playing(c) == old(
                        self,
                    ).channel_playing(c) && (c != channel_id ==> final(self).last_action(c) == old(
                        self,
                    ).last_action(c)) by {
                        if has_chan(old(self).channels@, c) {
                            let j = chan_index_of(old(self).channels@, c);
                            old(self).lemma_chan_index(j, c);
                            self.lemma_chan_index(j, c);
                        } else {
                            assert(!has_chan(self.channels@, c)) by {
                                if has_chan(self.channels@, c) {
                                    let j = chan_index_of(self.channels@, c);
                                    assert(0 <= j < old(self).channels@.len() && old(
                                        self,
                                    ).channels@[j].0 == c);
                                }
                            }
                        }
                    }
                }
                r
            },
            None => None,
        }
    }

    /// Fills (or clears) the room's action-message slot, creating the room's
    /// state when absent.
    pub fn set_last_action_message(
        &mut self,
        channel_id: u64,
        status_message: Option<ChannelActionMessage>,
    )
        requires
            old(self).wf(),
        ensures
            final(self).wf(),
            final(self).last_action(channel_id) == status_message,
            old(self).queues_unchanged(*final(self)),
            final(self).spec_config() == old(self).spec_config(),
            final(self).spec_message_channel() == old(self).spec_message_channel(),
            forall|c: u64| final(self).channel_playing(c) == old(self).channel_playing(c),
            forall|c: u64| c != channel_id ==> final(self).last_action(c) == old(self).last_action(c),
    {
        let ghost pre = *self;
        let i = self.create_channel(channel_id);
        let ghost mid = *self;
        self.channels[i].1.last_action_message = status_message;
        proof {
            assert forall|c: u64| final(self).channel_playing(c) == pre.channel_playing(c) && (c
                != channel_id ==> final(self).last_action(c) == pre.last_action(c)) by {
                if c != channel_id {
                    if has_chan(mid.channels@, c) {
                        let j = chan_index_of(mid.channels@, c);
                        mid.lemma_chan_index(j, c);
                        self.lemma_chan_index(j, c);
                    } else {
                        assert(!has_chan(self.channels@, c)) by {
                            if has_chan(self.channels@, c) {
                                let j = chan_index_of(self.channels@, c);
                                assert(0 <= j < mid.channels@.len() && mid.channels@[j].0 == c);
                            }
                        }
                    }
                } else {
                    mid.lemma_chan_index(i as int, c);
                    self.lemma_chan_index(i as int, c);
                }
            }
        }
    }

    /// Whether the room carries the sticky stopped flag.
    pub fn is_channel_stopped(&self, channel_id: u64) -> (r: bool)
        requires
            self.wf(),
        ensures
            r == self.is_stopped(channel_id),
    {
        let found = self.find_channel(channel_id);
        match found {
            Some(i) => {
                proof {
                    self.lemma_chan_index(i as int, channel_id);
                }
                match &self.channels[i].1.playing {
                    ChannelPlayingState::Stopped => true,
                    _ => false,
                }
            },
            None => false,
        }
    }

    /// Marks the room stopped: auto-advance stays off until the next explicit
    /// play.
    pub fn set_channel_stopped(&mut self, channel_id: u64)
        requires
            old(self).wf(),
        ensures
            final(self).wf(),
            final(self).channel_playing(channel_id) == ChannelPlayingState::Stopped,
            old(self).queues_unchanged(*final(self)),
            final(self).spec_config() == old(self).spec_config(),
            final(self).spec_message_channel() == old(self).spec_message_channel(),
            final(self).last_action(channel_id) == old(self).last_action(channel_id),
            old(self).channels_unchanged_except(*final(self), channel_id),
    {
        let ghost pre = *self;
        let i = self.create_channel(channel_id);
        let ghost mid = *self;
        self.channels[i].1.playing = ChannelPlayingState::Stopped;
        proof {
            mid.lemma_chan_index(i as int, channel_id);
            self.lemma_chan_index(i as int, channel_id);
            assert forall|c: u64| c != channel_id implies final(self).channel_playing(c)
                == pre.channel_playing(c) && final(self).last_action(c) == pre.last_action(c) by {
                if has_chan(mid.channels@, c) {
                    let j = chan_index_of(mid.channels@, c);
                    mid.lemma_chan_index(j, c);
                    self.lemma_chan_index(j, c);
                } else {
                    assert(!has_chan(self.channels@, c)) by {
                        if has_chan(self.channels@, c) {
                            let j = chan_index_of(self.channels@, c);
                            assert(0 <= j < mid.channels@.len() && mid.channels@[j].0 == c);
                        }
                    }
                }
            }
        }
    }
}

impl GuildModel {
    /// The playing user of a room, as a value.
    pub fn get_channel_playing_user(&self, channel_id: u64) -> (r: Option<u64>)
        requires
            self.wf(),
        ensures
            r == self.playing_user(channel_id),
    {
        let found = self.find_channel(channel_id);
        match found {
            Some(i) => {
                proof {
                    self.lemma_chan_index(i as int, channel_id);
                }
                match &self.channels[i].1.playing {
                    ChannelPlayingState::Playing { playing_user_id, .. } => Some(*playing_user_id),
                    _ => None,
                }
            },
            None => None,
        }
    }

    /// Appends entries to the user's queue; a user queueing for the first
    /// time joins the round-robin order at the end. Queueing nothing changes
    /// nothing.
    pub fn push_entries(&mut self, user_id: u64, entries: Vec<QueuedSong>)
        requires
            old(self).wf(),
        ensures
            final(self).wf(),
            final(self).user_entries(user_id) == old(self).user_entries(user_id) + entries@,
            forall|u: u64|
                u != user_id ==> final(self).user_entries(u) == old(self).user_entries(u),
            final(self).users() == if has_user_order(old(self).users(), user_id) || entries@.len()
                == 0 {
                old(self).users()
            } else {
                old(self).users().push(user_id)
            },
            forall|c: u64| final(self).channel_playing(c) == old(self).channel_playing(c),
            forall|c: u64| final(self).last_action(c) == old(self).last_action(c),
            final(self).spec_message_channel() == old(self).spec_message_channel(),
            final(self).spec_config() == old(self).spec_config(),
    {
        if entries.len() == 0 {
            proof {
                assert(final(self).user_entries(user_id) =~= old(self).user_entries(user_id)
                    + entries@);
            }
            return ;
        }
        let found = self.find_user_queue(user_id);
        match found {
            Some(i) => {
                proof {
                    self.lemma_user_index(i as int, user_id);
                }
                let mut rest = entries;
                self.queues[i].entries.append(&mut rest);
                proof {
                    self.lemma_user_index(i as int, user_id);
                    assert(final(self).users() =~= old(self).users());
                    assert(has_user_order(old(self).users(), user_id)) by {
                        assert(old(self).users()[i as int] == user_id);
                    }
                    assert forall|u: u64| u != user_id implies final(self).user_entries(u) == old(
                        self,
                    ).user_entries(u) by {
                        self.lemma_other_entries(*old(self), u);
                    }
                }
            },
            None => {
                let ghost pre = *self;
                self.queues.push(Queue { user_id, entries });
                proof {
                    let n = pre.queues@.len() as int;
                    self.lemma_user_index(n, user_id);
                    assert(final(self).users() =~= old(self).users().push(user_id));
                    assert(old(self).user_entries(user_id) =~= Seq::empty());
                    assert(final(self).user_entries(user_id) =~= old(self).user_entries(user_id)
                        + entries@);
                    assert(!has_user_order(old(self).users(), user_id)) by {
                        if has_user_order(pre.users(), user_id) {
                            let j = choose|j: int|
                                0 <= j < pre.users().len() && pre.users()[j] == user_id;
                            assert(pre.queues@[j].user_id == user_id);
                        }
                    }
                    assert forall|u: u64| u != user_id implies final(self).user_entries(u) == old(
                        self,
                    ).user_entries(u) by {
                        self.lemma_other_entries(*old(self), u);
                    }
                }
            },
        }
    }

    /// When two models list the same users at the same positions and the
    /// entries of `u`'s queue are equal wherever `u` appears, `u`'s entries
    /// agree.
    proof fn lemma_other_entries(self, other: GuildModel, u: u64)
        requires
            forall|i: int, j: int|
                0 <= i < j < self.queues@.len() ==> self.queues@[i].user_id
                    != self.queues@[j].user_id,
            forall|i: int|
                0 <= i < self.queues@.len() && self.queues@[i].user_id == u
                    ==> 0 <= i < other.queues@.len() && other.queues@[i].user_id == u
                    && other.queues@[i].entries@ == self.queues@[i].entries@,
            forall|i: int|
                0 <= i < other.queues@.len() && other.queues@[i].user_id == u
                    ==> 0 <= i < self.queues@.len() && self.queues@[i].user_id == u,
        ensures
            self.user_entries(u) == other.user_entries(u),
    {
        if has_user(self.queues@, u) {
            let i = user_index_of(self.queues@, u);
            assert(0 <= i < self.queues@.len() && self.queues@[i].user_id == u);
            assert(has_user(other.queues@, u));
            let j = user_index_of(other.queues@, u);
            assert(0 <= j < other.queues@.len() && other.queues@[j].user_id == u);
            assert(self.queues@[j].user_id == u);
            assert(i == j);
            assert(self.user_entries(u) == self.queues@[i].entries@);
        } else {
            assert(!has_user(other.queues@, u)) by {
                if has_user(other.queues@, u) {
                    let j = user_index_of(other.queues@, u);
                    assert(self.queues@[j].user_id == u);
                }
            }
        }
    }

    /// Swaps out the user's most recently queued entry. A user with pending
    /// entries has the newest one replaced; a user with none gets the entry
    /// queued, and when that user's own entry is playing in the caller's
    /// room, the caller is told to skip it instead.
    pub fn replace_entry(
        &mut self,
        user_id: u64,
        maybe_channel_id: Option<u64>,
        entry: QueuedSong,
    ) -> (r: ReplaceStatus)
        requires
            old(self).wf(),
        ensures
            final(self).wf(),
            forall|u: u64|
                u != user_id ==> final(self).user_entries(u) == old(self).user_entries(u),
            forall|c: u64| final(self).channel_playing(c) == old(self).channel_playing(c),
            forall|c: u64| final(self).last_action(c) == old(self).last_action(c),
            final(self).spec_message_channel() == old(self).spec_message_channel(),
            final(self).spec_config() == old(self).spec_config(),
            ({
                let pre = old(self).user_entries(user_id);
                if pre.len() > 0 {
                    &&& final(self).user_entries(user_id) == pre.update(pre.len() - 1, entry)
                    &&& r == ReplaceStatus::ReplacedInQueue(pre.last())
                    &&& final(self).users() == old(self).users()
                } else {
                    &&& final(self).user_entries(user_id) == seq![entry]
                    &&& final(self).users() == old(self).users().push(user_id)
                    &&& r == (match maybe_channel_id {
                        Some(ch) => if old(self).playing_user(ch) == Some(user_id) {
                            ReplaceStatus::ReplacedCurrent(ch)
                        } else {
                            ReplaceStatus::Queued
                        },
                        None => ReplaceStatus::Queued,
                    })
                }
            }),
    {
        let found = self.find_user_queue(user_id);
        match found {
            Some(i) => {
                proof {
                    self.lemma_user_index(i as int, user_id);
                }
                let popped = self.queues[i].entries.pop();
                self.queues[i].entries.push(entry);
                proof {
                    self.lemma_user_index(i as int, user_id);
                    assert(final(self).users() =~= old(self).users());
                    let pre = old(self).user_entries(user_id);
                    assert(final(self).user_entries(user_id) =~= pre.update(
                        pre.len() - 1,
                        entry,
                    ));
                    assert forall|u: u64| u != user_id implies final(self).user_entries(u) == old(
                        self,
                    ).user_entries(u) by {
                        self.lemma_other_entries(*old(self), u);
                    }
                }
                match popped {
                    Some(old_entry) => ReplaceStatus::ReplacedInQueue(old_entry),
                    None => ReplaceStatus::Queued,  // unreachable: queues are never empty
                }
            },
            None => {
                let ghost pre = *self;
                self.queues.push(Queue { user_id, entries: vec![entry] });
                proof {
                    let n = pre.queues@.len() as int;
                    self.lemma_user_index(n, user_id);
                    assert(final(self).users() =~= old(self).users().push(user_id));
                    assert(final(self).user_entries(user_id) =~= seq![entry]);
                    assert forall|u: u64| u != user_id implies final(self).user_entries(u) == old(
                        self,
                    ).user_entries(u) by {
                        self.lemma_other_entries(*old(self), u);
                    }
                }
                match maybe_channel_id {
                    Some(channel_id) => {
                        let playing = self.get_channel_playing_user(channel_id);
                        match playing {
                            Some(playing_user) => if playing_user == user_id {
                                ReplaceStatus::ReplacedCurrent(channel_id)
                            } else {
                                ReplaceStatus::Queued
                            },
                            None => ReplaceStatus::Queued,
                        }
                    },
                    None => ReplaceStatus::Queued,
                }
            },
        }
    }
}

/// Whether a user already stands in a round-robin order.
pub open spec fn has_user_order(users: Seq<u64>, user: u64) -> bool {
    exists|i: int| 0 <= i < users.len() && users[i] == user
}

/// Position of a user in a round-robin order.
pub open spec fn user_pos(users: Seq<u64>, user: u64) -> int {
    choose|i: int| 0 <= i < users.len() && users[i] == user
}

/// Where the round-robin scan starts: just after the user whose entry last
/// played, or at the front when no played user is queued.
pub open spec fn rr_start_of(users: Seq<u64>, last_playing: Option<u64>) -> int {
    match last_playing {
        Some(u) => if has_user_order(users, u) {
            user_pos(users, u) + 1
        } else {
            0
        },
        None => 0,
    }
}

/// Position of absolute index `i` in the cyclic scan order that starts at
/// `start`: indices at or after `start` come first, the wrap-around after.
pub open spec fn rr_pos(start: int, len: int, i: int) -> int {
    if i >= start {
        i - start
    } else {
        i - start + len
    }
}

/// How one successful advance changes the model: the scan picked the queue at
/// index `i`, its head `e` became the playing entry of room `ch`, the emptied
/// queue left the round-robin order, both vote sets were reset, and rooms
/// without work were pruned.
pub open spec fn advance_transition(
    pre: GuildModel,
    post: GuildModel,
    ch: u64,
    i: int,
    e: QueuedSong,
) -> bool {
    let u = pre.users()[i];
    &&& e == pre.user_entries(u)[0]
    &&& post.user_entries(u) == pre.user_entries(u).skip(1)
    &&& forall|v: u64| v != u ==> post.user_entries(v) == pre.user_entries(v)
    &&& post.users() == if pre.user_entries(u).len() == 1 {
        pre.users().remove(i)
    } else {
        pre.users()
    }
    &&& post.is_playing(ch) && post.playing_user(ch) == Some(u)
    &&& post.voters(ch, VoteType::Skip) == Seq::<u64>::empty()
    &&& post.voters(ch, VoteType::Stop) == Seq::<u64>::empty()
    &&& post.last_action(ch) == pre.last_action(ch)
    &&& forall|c: u64|
        c != ch ==> post.channel_playing(c) == (if pre.is_playing(c) {
            pre.channel_playing(c)
        } else {
            ChannelPlayingState::NotPlaying
        })
    &&& forall|c: u64|
        c != ch ==> post.last_action(c) == (if pre.is_playing(c) {
            pre.last_action(c)
        } else {
            None
        })
    &&& post.spec_message_channel() == pre.spec_message_channel()
    &&& post.spec_config() == pre.spec_config()
}

/// The scan that picked index `i` saw no present user earlier in its order.
pub open spec fn rr_first_pick(pre: GuildModel, ch: u64, present: Seq<u64>, i: int) -> bool {
    let start = rr_start_of(pre.users(), pre.playing_user(ch));
    let len = pre.users().len() as int;
    &&& 0 <= i < len
    &&& present.contains(pre.users()[i])
    &&& forall|j: int|
        0 <= j < len && rr_pos(start, len, j) < rr_pos(start, len, i) ==> !present.contains(
            pre.users()[j],
        )
}

/// True when no queued user is in `present`.
pub open spec fn rr_no_pick(pre: GuildModel, present: Seq<u64>) -> bool {
    forall|j: int| 0 <= j < pre.users().len() ==> !present.contains(pre.users()[j])
}

/// Membership test on a list of user ids.
fn contains_user(v: &Vec<u64>, x: u64) -> (r: bool)
    ensures
        r == v@.contains(x),
{
    let mut i: usize = 0;
    while i < v.len()
        invariant
            i <= v@.len(),
            forall|j: int| 0 <= j < i ==> v@[j] != x,
        decreases v@.len() - i,
    {
        if v[i] == x {
            return true;
        }
        i += 1;
    }
    false
}

impl GuildModel {
    /// First queue, in the cyclic order from `start`, whose user is present;
    /// as an absolute index.
    fn find_next_user(&self, present: &Vec<u64>, start: usize) -> (r: Option<usize>)
        requires
            self.wf(),
            start <= self.queues@.len(),
        ensures
            match r {
                Some(abs) => {
                    &&& abs < self.users().len()
                    &&& present@.contains(self.users()[abs as int])
                    &&& forall|j: int|
                        0 <= j < self.users().len() && rr_pos(
                            start as int,
                            self.users().len() as int,
                            j,
                        ) < rr_pos(start as int, self.users().len() as int, abs as int)
                            ==> !present@.contains(self.users()[j])
                },
                None => rr_no_pick(*self, present@),
            },
    {
        let len = self.queues.len();
        let mut k: usize = 0;
        while k < len
            invariant
                self.wf(),
                start <= len,
                len == self.queues@.len(),
                k <= len,
                forall|j: int|
                    0 <= j < len && rr_pos(start as int, len as int, j) < k ==> !present@.contains(
                        self.users()[j],
                    ),
            decreases len - k,
        {
            let abs = if k < len - start {
                start + k
            } else {
                k - (len - start)
            };
            proof {
                assert(rr_pos(start as int, len as int, abs as int) == k);
            }
            if contains_user(present, self.queues[abs].user_id) {
                proof {
                    assert(self.users()[abs as int] == self.queues@[abs as int].user_id);
                }
                return Some(abs);
            }
            k += 1;
        }
        proof {
            assert forall|j: int| 0 <= j < self.users().len() implies !present@.contains(
                self.users()[j],
            ) by {
                assert(rr_pos(start as int, len as int, j) < len);
            }
        }
        None
    }

    /// Advances the room after its entry finished: the scan starts after the
    /// user whose entry was playing, picks the first queued user present in
    /// the room, hands out that user's oldest entry and marks the room
    /// playing with fresh vote sets. With nobody to pick, the room is left
    /// not playing and nothing else changes.
    pub fn next_channel_entry_finished(&mut self, present: &Vec<u64>, channel_id: u64) -> (r:
        Option<QueuedSong>)
        requires
            old(self).wf(),
        ensures
            final(self).wf(),
            match r {
                Some(e) => exists|i: int|
                    #![trigger rr_first_pick(*old(self), channel_id, present@, i)]
                    rr_first_pick(*old(self), channel_id, present@, i) && advance_transition(
                        *old(self),
                        *final(self),
                        channel_id,
                        i,
                        e,
                    ),
                None => {
                    &&& rr_no_pick(*old(self), present@)
                    &&& old(self).queues_unchanged(*final(self))
                    &&& final(self).channel_playing(channel_id)
                        == ChannelPlayingState::NotPlaying
                    &&& final(self).last_action(channel_id) == old(self).last_action(channel_id)
                    &&& old(self).channels_unchanged_except(*final(self), channel_id)
                    &&& final(self).spec_message_channel() == old(self).spec_message_channel()
                    &&& final(self).spec_config() == old(self).spec_config()
                },
            },
    {
        let ghost pre = *self;
        let ci = self.create_channel(channel_id);
        let ghost mid0 = *self;

        // Remember who was playing, then mark the room not playing.
        let last_playing = match &self.channels[ci].1.playing {
            ChannelPlayingState::Playing { playing_user_id, .. } => Some(*playing_user_id),
            _ => None,
        };
        self.channels[ci].1.playing = ChannelPlayingState::NotPlaying;
        let ghost mid1 = *self;
        proof {
            mid0.lemma_chan_index(ci as int, channel_id);
            self.lemma_chan_index(ci as int, channel_id);
            assert(last_playing == pre.playing_user(channel_id));
            assert forall|c: u64| c != channel_id implies mid1.channel_playing(c)
                == mid0.channel_playing(c) && mid1.last_action(c) == mid0.last_action(c) by {
                if has_chan(mid0.channels@, c) {
                    let j = chan_index_of(mid0.channels@, c);
                    mid0.lemma_chan_index(j, c);
                    mid1.lemma_chan_index(j, c);
                } else {
                    assert(!has_chan(mid1.channels@, c)) by {
                        if has_chan(mid1.channels@, c) {
                            let j = chan_index_of(mid1.channels@, c);
                            assert(0 <= j < mid0.channels@.len() && mid0.channels@[j].0 == c);
                        }
                    }
                }
            }
        }

        // Where the scan starts: after the last-playing user's queue.
        let start = match last_playing {
            Some(u) => {
                let found = self.find_user_queue(u);
                match found {
                    Some(i) => {
                        let qlen = self.queues.len();
                        proof {
                            self.lemma_user_index(i as int, u);
                            assert(pre.users()[i as int] == u);
                            assert(has_user_order(pre.users(), u));
                            assert(user_pos(pre.users(), u) == i as int) by {
                                let j = user_pos(pre.users(), u);
                                assert(pre.queues@[j].user_id == u);
                            }
                        }
                        i + 1
                    },
                    None => {
                        proof {
                            assert(!has_user_order(pre.users(), u)) by {
                                if has_user_order(pre.users(), u) {
                                    let j = user_pos(pre.users(), u);
                                    assert(pre.queues@[j].user_id == u);
                                }
                            }
                        }
                        0
                    },
                }
            },
            None => 0,
        };
        proof {
            assert(start as int == rr_start_of(pre.users(), pre.playing_user(channel_id)));
        }

        let picked = self.find_next_user(present, start);
        let abs = match picked {
            Some(abs) => abs,
            None => {
                proof {
                    assert(pre.queues_unchanged(*self)) by {
                        assert(self.users() =~= pre.users());
                        assert(forall|u: u64| self.user_entries(u) == pre.user_entries(u));
                    }
                }
                return None;
            },
        };

        // Hand out the head of the picked queue.
        proof {
            assert(self.users().len() == self.queues@.len());
            assert(self.queues@ == pre.queues@);
        }
        let e = self.queues[abs].entries.remove(0);
        let u = self.queues[abs].user_id;
        let ghost mid2 = *self;
        proof {
            self.lemma_user_index(abs as int, u);
        }

        // The room is now playing this user's entry, with fresh vote sets.
        self.channels[ci].1.playing = ChannelPlayingState::Playing {
            playing_user_id: u,
            skip_votes: Vec::new(),
            stop_votes: Vec::new(),
        };
        let ghost mid3 = *self;
        proof {
            assert forall|c: u64| c != channel_id implies mid3.channel_playing(c)
                == mid1.channel_playing(c) && mid3.last_action(c) == mid1.last_action(c) by {
                if has_chan(mid1.channels@, c) {
                    let j = chan_index_of(mid1.channels@, c);
                    mid1.lemma_chan_index(j, c);
                    mid3.lemma_chan_index(j, c);
                } else {
                    assert(!has_chan(mid3.channels@, c)) by {
                        if has_chan(mid3.channels@, c) {
                            let j = chan_index_of(mid3.channels@, c);
                            assert(0 <= j < mid1.channels@.len() && mid1.channels@[j].0 == c);
                        }
                    }
                }
            }
            mid1.lemma_chan_index(ci as int, channel_id);
            mid3.lemma_chan_index(ci as int, channel_id);
        }

        // Prune: drop the picked queue when it emptied, and every room
        // without work.
        if self.queues[abs].entries.len() == 0 {
            let _ = self.queues.remove(abs);
        }
        let ghost mid4 = *self;
        self.prune_channels();

        proof {
            let i = abs as int;
            mid3.lemma_chan_index(ci as int, channel_id);
            mid4.lemma_chan_index(ci as int, channel_id);
            assert(rr_first_pick(pre, channel_id, present@, i));
            assert(mid1.queues@ == pre.queues@);
            assert(e == pre.queues@[i].entries@[0]);
            assert(mid4.wf());
            assert(pre.queues@[i].entries@.len() == 1 ==> mid4.queues@ == pre.queues@.remove(i));
            assert(pre.queues@[i].entries@.len() > 1 ==> {
                &&& mid4.queues@.len() == pre.queues@.len()
                &&& forall|j: int|
                    0 <= j < pre.queues@.len() && j != i ==> mid4.queues@[j] == pre.queues@[j]
                &&& mid4.queues@[i].user_id == pre.queues@[i].user_id
                &&& mid4.queues@[i].entries@ == pre.queues@[i].entries@.skip(1)
            });
            assert(mid4.is_playing(channel_id));
            assert(mid4.playing_user(channel_id) == Some(pre.queues@[i].user_id));
            assert(mid4.voters(channel_id, VoteType::Skip) =~= Seq::<u64>::empty());
            assert(mid4.voters(channel_id, VoteType::Stop) =~= Seq::<u64>::empty());
            assert(mid4.last_action(channel_id) == pre.last_action(channel_id));
            assert(forall|c: u64|
                c != channel_id ==> mid4.channel_playing(c) == pre.channel_playing(c)
                    && mid4.last_action(c) == pre.last_action(c));
            lemma_advance_bundle(pre, mid4, *self, channel_id, i, e);
            assert(exists|i: int|
                #![trigger rr_first_pick(pre, channel_id, present@, i)]
                rr_first_pick(pre, channel_id, present@, i) && advance_transition(
                    pre,
                    *self,
                    channel_id,
                    i,
                    e,
                ));
        }
        Some(e)
    }

    /// Removes every room that is not playing.
    fn prune_channels(&mut self)
        requires
            old(self).wf(),
        ensures
            final(self).wf(),
            final(self).queues@ == old(self).queues@,
            final(self).spec_message_channel() == old(self).spec_message_channel(),
            final(self).spec_config() == old(self).spec_config(),
            forall|c: u64|
                final(self).channel_playing(c) == (if old(self).is_playing(c) {
                    old(self).channel_playing(c)
                } else {
                    ChannelPlayingState::NotPlaying
                }),
            forall|c: u64|
                final(self).last_action(c) == (if old(self).is_playing(c) {
                    old(self).last_action(c)
                } else {
                    None
                }),
    {
        let ghost pre = *self;
        let mut i: usize = 0;
        while i < self.channels.len()
            invariant
                self.wf(),
                i <= self.channels@.len(),
                self.queues@ == pre.queues@,
                self.message_channel == pre.message_channel,
                self.config == pre.config,
                forall|j: int| 0 <= j < i ==> self.channels@[j].1.playing is Playing,
                forall|c: u64|
                    pre.is_playing(c) ==> has_chan(self.channels@, c) && self.channel_playing(c)
                        == pre.channel_playing(c) && self.last_action(c) == pre.last_action(c),
                forall|j: int|
                    0 <= j < self.channels@.len() ==> has_chan(pre.channels@, self.channels@[j].0)
                        && self.channels@[j] == pre.channels@[chan_index_of(
                        pre.channels@,
                        self.channels@[j].0,
                    )],
            decreases self.channels@.len() - i,
        {
            let ghost before = *self;
            let keep = self.channels[i].1.playing.is_playing();
            if keep {
                i += 1;
            } else {
                let ghost dropped = self.channels@[i as int].0;
                let _ = self.channels.remove(i);
                proof {
                    assert forall|c: u64| pre.is_playing(c) implies has_chan(self.channels@, c)
                        && self.channel_playing(c) == pre.channel_playing(c) && self.last_action(c)
                        == pre.last_action(c) by {
                        let j = chan_index_of(before.channels@, c);
                        before.lemma_chan_index_weak(c);
                        assert(before.channels@[j].0 == c);
                        assert(j != i as int);
                        let j2 = if j < i as int {
                            j
                        } else {
                            j - 1
                        };
                        assert(self.channels@[j2].0 == c);
                        self.lemma_chan_index(j2, c);
                    }
                    assert forall|j: int| 0 <= j < self.channels@.len() implies has_chan(
                        pre.channels@,
                        self.channels@[j].0,
                    ) && self.channels@[j] == pre.channels@[chan_index_of(
                        pre.channels@,
                        self.channels@[j].0,
                    )] by {
                        let jb = if j < i as int {
                            j
                        } else {
                            j + 1
                        };
                        assert(self.channels@[j] == before.channels@[jb]);
                    }
                }
            }
        }
        proof {
            assert forall|c: u64|
                final(self).channel_playing(c) == (if pre.is_playing(c) {
                    pre.channel_playing(c)
                } else {
                    ChannelPlayingState::NotPlaying
                }) && final(self).last_action(c) == (if pre.is_playing(c) {
                    pre.last_action(c)
                } else {
                    None
                }) by {
                if pre.is_playing(c) {
                } else {
                    assert(!has_chan(self.channels@, c)) by {
                        if has_chan(self.channels@, c) {
                            let j = chan_index_of(self.channels@, c);
                            assert(self.channels@[j].0 == c);
                            assert(self.channels@[j].1.playing is Playing);
                            let k = chan_index_of(pre.channels@, self.channels@[j].0);
                            assert(pre.channels@[k] == self.channels@[j]);
                            pre.lemma_chan_index(k, c);
                            assert(pre.is_playing(c));
                        }
                    }
                }
            }
        }
    }

    /// The channel index of a room that is present.
    proof fn lemma_chan_index_weak(self, ch: u64)
        requires
            has_chan(self.channels@, ch),
        ensures
            0 <= chan_index_of(self.channels@, ch) < self.channels@.len(),
            self.channels@[chan_index_of(self.channels@, ch)].0 == ch,
    {
    }
}

/// Gathers the pieces of an advance into the transition predicate.
proof fn lemma_advance_bundle(
    pre: GuildModel,
    mid: GuildModel,
    post: GuildModel,
    ch: u64,
    i: int,
    e: QueuedSong,
)
    requires
        pre.wf(),
        mid.wf(),
        0 <= i < pre.queues@.len(),
        pre.queues@[i].entries@.len() > 0,
        e == pre.queues@[i].entries@[0],
        // mid is pre with: the picked queue's head removed (and the queue
        // dropped when it emptied), and room ch playing user u.
        pre.queues@[i].entries@.len() == 1 ==> mid.queues@ == pre.queues@.remove(i),
        pre.queues@[i].entries@.len() > 1 ==> {
            &&& mid.queues@.len() == pre.queues@.len()
            &&& forall|j: int| 0 <= j < pre.queues@.len() && j != i ==> mid.queues@[j]
                == pre.queues@[j]
            &&& mid.queues@[i].user_id == pre.queues@[i].user_id
            &&& mid.queues@[i].entries@ == pre.queues@[i].entries@.skip(1)
        },
        mid.is_playing(ch),
        mid.playing_user(ch) == Some(pre.queues@[i].user_id),
        mid.voters(ch, VoteType::Skip) == Seq::<u64>::empty(),
        mid.voters(ch, VoteType::Stop) == Seq::<u64>::empty(),
        mid.last_action(ch) == pre.last_action(ch),
        forall|c: u64|
            c != ch ==> mid.channel_playing(c) == pre.channel_playing(c) && mid.last_action(c)
                == pre.last_action(c),
        mid.spec_message_channel() == pre.spec_message_channel(),
        mid.spec_config() == pre.spec_config(),
        // post is mid with rooms pruned.
        post.queues@ == mid.queues@,
        post.spec_message_channel() == mid.spec_message_channel(),
        post.spec_config() == mid.spec_config(),
        forall|c: u64|
            post.channel_playing(c) == (if mid.is_playing(c) {
                mid.channel_playing(c)
            } else {
                ChannelPlayingState::NotPlaying
            }),
        forall|c: u64|
            post.last_action(c) == (if mid.is_playing(c) {
                mid.last_action(c)
            } else {
                None
            }),
    ensures
        advance_transition(pre, post, ch, i, e),
{
    let u = pre.queues@[i].user_id;
    assert(pre.users()[i] == u);
    pre.lemma_user_index(i, u);
    assert(pre.user_entries(u) == pre.queues@[i].entries@);
    assert(e == pre.user_entries(u)[0]);
    assert(post.channel_playing(ch) == mid.channel_playing(ch));
    assert(post.playing_user(ch) == Some(u));
    assert(post.voters(ch, VoteType::Skip) =~= Seq::<u64>::empty());
    assert(post.voters(ch, VoteType::Stop) =~= Seq::<u64>::empty());
    if pre.queues@[i].entries@.len() == 1 {
        assert(post.users() =~= pre.users().remove(i)) by {
            assert(mid.queues@ == pre.queues@.remove(i));
            assert forall|j: int| 0 <= j < mid.queues@.len() implies mid.users()[j]
                == pre.users().remove(i)[j] by {
                if j < i {
                    assert(mid.queues@[j] == pre.queues@[j]);
                } else {
                    assert(mid.queues@[j] == pre.queues@[j + 1]);
                }
            }
        }
        assert(!has_user(mid.queues@, u)) by {
            if has_user(mid.queues@, u) {
                let j = user_index_of(mid.queues@, u);
                assert(mid.queues@[j].user_id == u);
                let jb = if j < i {
                    j
                } else {
                    j + 1
                };
                assert(pre.queues@[jb].user_id == u);
                assert(jb != i);
            }
        }
        assert(post.user_entries(u) =~= pre.user_entries(u).skip(1));
        assert forall|v: u64| v != u implies post.user_entries(v) == pre.user_entries(v) by {
            mid.lemma_other_entries_removed(pre, i, v);
        }
    } else {
        assert(post.users() =~= pre.users());
        mid.lemma_user_index(i, u);
        assert(post.user_entries(u) =~= pre.user_entries(u).skip(1));
        assert forall|v: u64| v != u implies post.user_entries(v) == pre.user_entries(v) by {
            mid.lemma_other_entries(pre, v);
        }
    }
}

impl GuildModel {
    /// Removing one user's queue leaves every other user's entries alone.
    proof fn lemma_other_entries_removed(self, pre: GuildModel, i: int, v: u64)
        requires
            pre.wf(),
            0 <= i < pre.queues@.len(),
            self.queues@ == pre.queues@.remove(i),
            v != pre.queues@[i].user_id,
        ensures
            self.user_entries(v) == pre.user_entries(v),
    {
        if has_user(self.queues@, v) {
            let j = user_index_of(self.queues@, v);
            assert(self.queues@[j].user_id == v);
            let jb: int = if j < i {
                j
            } else {
                j + 1
            };
            assert(pre.queues@[jb].user_id == v);
            pre.lemma_user_index(jb, v);
            assert(self.user_entries(v) == self.queues@[j].entries@);
            assert(self.queues@[j] == pre.queues@[jb]);
        } else {
            assert(!has_user(pre.queues@, v)) by {
                if has_user(pre.queues@, v) {
                    let jb = user_index_of(pre.queues@, v);
                    assert(pre.queues@[jb].user_id == v);
                    assert(jb != i);
                    let j: int = if jb < i {
                        jb
                    } else {
                        jb - 1
                    };
                    assert(self.queues@[j].user_id == v);
                }
            }
        }
    }
}

/// The other vote kind.
pub open spec fn other_kind(kind: VoteType) -> VoteType {
    match kind {
        VoteType::Skip => VoteType::Stop,
        VoteType::Stop => VoteType::Skip,
    }
}

/// How one vote relates the model before and after, and its outcome. A room
/// that is not playing rejects the vote; the playing user, or anybody once
/// the playing user has left the room, succeeds at once; a duplicate vote is
/// refused; a vote that reaches the threshold succeeds; any other vote is
/// recorded and answered with the number of votes still missing.
pub open spec fn vote_outcome(
    pre: GuildModel,
    post: GuildModel,
    present: Seq<u64>,
    kind: VoteType,
    ch: u64,
    user: u64,
    r: VoteStatus,
) -> bool {
    let required = pre.votes_required(kind) as int;
    let votes = pre.voters(ch, kind);
    if !pre.is_playing(ch) {
        r is NothingPlaying && post == pre
    } else if pre.playing_user(ch) == Some(user) {
        r is Success && post == pre
    } else if !present.contains(pre.playing_user(ch).unwrap()) {
        r is Success && post == pre
    } else if votes.contains(user) {
        r is AlreadyVoted && post == pre
    } else if votes.len() + 1 >= required {
        r is Success && post == pre
    } else {
        &&& r == VoteStatus::NeedsMoreVotes((required - votes.len() - 1) as usize)
        &&& post.voters(ch, kind) == votes.push(user)
        &&& post.voters(ch, other_kind(kind)) == pre.voters(ch, other_kind(kind))
        &&& post.playing_user(ch) == pre.playing_user(ch)
        &&& post.is_playing(ch)
        &&& post.last_action(ch) == pre.last_action(ch)
        &&& pre.queues_unchanged(post)
        &&& pre.channels_unchanged_except(post, ch)
        &&& post.spec_message_channel() == pre.spec_message_channel()
        &&& post.spec_config() == pre.spec_config()
    }
}

impl GuildModel {
    /// Asks the room for its next entry, unless one is already playing.
    pub fn next_channel_entry(&mut self, present: &Vec<u64>, channel_id: u64) -> (r: NextEntry)
        requires
            old(self).wf(),
        ensures
            final(self).wf(),
            old(self).is_playing(channel_id) ==> r is AlreadyPlaying && *final(self) == *old(
                self,
            ),
            !old(self).is_playing(channel_id) ==> match r {
                NextEntry::Entry(e) => exists|i: int|
                    #![trigger rr_first_pick(*old(self), channel_id, present@, i)]
                    rr_first_pick(*old(self), channel_id, present@, i) && advance_transition(
                        *old(self),
                        *final(self),
                        channel_id,
                        i,
                        e,
                    ),
                NextEntry::NoneAvailable => {
                    &&& rr_no_pick(*old(self), present@)
                    &&& old(self).queues_unchanged(*final(self))
                    &&& final(self).channel_playing(channel_id)
                        == ChannelPlayingState::NotPlaying
                    &&& final(self).last_action(channel_id) == old(self).last_action(channel_id)
                    &&& old(self).channels_unchanged_except(*final(self), channel_id)
                    &&& final(self).spec_message_channel() == old(self).spec_message_channel()
                    &&& final(self).spec_config() == old(self).spec_config()
                },
                NextEntry::AlreadyPlaying => false,
            },
    {
        let playing = self.get_channel_playing_user(channel_id);
        let gate = match playing {
            Some(_) => true,
            None => false,
        };
        if gate {
            return NextEntry::AlreadyPlaying;
        }
        let advanced = self.next_channel_entry_finished(present, channel_id);
        match advanced {
            Some(e) => NextEntry::Entry(e),
            None => NextEntry::NoneAvailable,
        }
    }

    /// Casts a vote of the given kind in the room, on behalf of a user who is
    /// in that room.
    pub fn vote_for_skip(
        &mut self,
        present: &Vec<u64>,
        vote_type: VoteType,
        channel_id: u64,
        user_id: u64,
    ) -> (r: VoteStatus)
        requires
            old(self).wf(),
            present@.contains(user_id),
        ensures
            final(self).wf(),
            vote_outcome(*old(self), *final(self), present@, vote_type, channel_id, user_id, r),
    {
        let found = self.find_channel(channel_id);
        let ci = match found {
            Some(i) => i,
            None => {
                return VoteStatus::NothingPlaying;
            },
        };
        proof {
            self.lemma_chan_index(ci as int, channel_id);
        }
        let required = match vote_type {
            VoteType::Skip => self.config.skip_votes_required,
            VoteType::Stop => self.config.stop_votes_required,
        };
        let playing = match &self.channels[ci].1.playing {
            ChannelPlayingState::Playing { playing_user_id, .. } => Some(*playing_user_id),
            _ => None,
        };
        let pu = match playing {
            Some(pu) => pu,
            None => {
                return VoteStatus::NothingPlaying;
            },
        };
        // The playing user skips their own entry at once.
        if user_id == pu {
            return VoteStatus::Success;
        }
        // An entry whose requester has left the room is abandoned: anybody
        // may end it.
        if !contains_user(present, pu) {
            return VoteStatus::Success;
        }
        let (already, count) = match &self.channels[ci].1.playing {
            ChannelPlayingState::Playing { skip_votes, stop_votes, .. } => {
                let votes: &Vec<u64> = match vote_type {
                    VoteType::Skip => skip_votes,
                    VoteType::Stop => stop_votes,
                };
                (contains_user(votes, user_id), votes.len())
            },
            _ => (false, 0),
        };
        if already {
            return VoteStatus::AlreadyVoted;
        }
        // The vote that reaches the threshold succeeds without being stored:
        // the entry ends here.
        if required <= 1 || count >= required - 1 {
            return VoteStatus::Success;
        }
        let ghost pre = *self;
        match &mut self.channels[ci].1.playing {
            ChannelPlayingState::Playing { skip_votes, stop_votes, .. } => {
                match vote_type {
                    VoteType::Skip => skip_votes.push(user_id),
                    VoteType::Stop => stop_votes.push(user_id),
                }
            },
            _ => {},
        }
        proof {
            pre.lemma_chan_index(ci as int, channel_id);
            self.lemma_chan_index(ci as int, channel_id);
            assert forall|c: u64| c != channel_id implies self.channel_playing(c)
                == pre.channel_playing(c) && self.last_action(c) == pre.last_action(c) by {
                if has_chan(pre.channels@, c) {
                    let j = chan_index_of(pre.channels@, c);
                    pre.lemma_chan_index(j, c);
                    self.lemma_chan_index(j, c);
                } else {
                    assert(!has_chan(self.channels@, c)) by {
                        if has_chan(self.channels@, c) {
                            let j = chan_index_of(self.channels@, c);
                            assert(0 <= j < pre.channels@.len() && pre.channels@[j].0 == c);
                        }
                    }
                }
            }
            assert(pre.queues_unchanged(*self)) by {
                assert(self.users() =~= pre.users());
            }
        }
        VoteStatus::NeedsMoreVotes(required - count - 1)
    }

    /// Records the status message that announced the user's first pending
    /// entry carrying the given song id; reports whether one was found.
    pub fn set_entry_queue_message(
        &mut self,
        user_id: u64,
        song_id: u128,
        message_channel_id: u64,
        message_id: u64,
    ) -> (r: bool)
        requires
            old(self).wf(),
        ensures
            final(self).wf(),
            final(self).users() == old(self).users(),
            forall|u: u64|
                u != user_id ==> final(self).user_entries(u) == old(self).user_entries(u),
            forall|c: u64| final(self).channel_playing(c) == old(self).channel_playing(c),
            forall|c: u64| final(self).last_action(c) == old(self).last_action(c),
            final(self).spec_message_channel() == old(self).spec_message_channel(),
            final(self).spec_config() == old(self).spec_config(),
            ({
                let es = old(self).user_entries(user_id);
                if r {
                    exists|k: int|
                        #![trigger es[k]]
                        {
                            &&& 0 <= k < es.len()
                            &&& es[k].song.metadata.id == song_id
                            &&& (forall|j: int|
                                0 <= j < k ==> es[j].song.metadata.id != song_id)
                            &&& final(self).user_entries(user_id) == es.update(
                                k,
                                (QueuedSong {
                                    song: es[k].song,
                                    queue_message_id: Some((message_channel_id, message_id)),
                                }),
                            )
                        }
                } else {
                    final(self).user_entries(user_id) == es && (forall|j: int|
                        0 <= j < es.len() ==> es[j].song.metadata.id != song_id)
                }
            }),
    {
        let found = self.find_user_queue(user_id);
        let qi = match found {
            Some(i) => i,
            None => {
                return false;
            },
        };
        proof {
            self.lemma_user_index(qi as int, user_id);
        }
        let mut k: usize = 0;
        let n = self.queues[qi].entries.len();
        while k < n
            invariant
                *self == *old(self),
                self.wf(),
                qi < self.queues@.len(),
                self.queues@[qi as int].user_id == user_id,
                n == self.queues@[qi as int].entries@.len(),
                k <= n,
                forall|j: int|
                    0 <= j < k ==> self.queues@[qi as int].entries@[j].song.metadata.id != song_id,
            decreases n - k,
        {
            if self.queues[qi].entries[k].song.metadata.id == song_id {
                let ghost pre = *self;
                self.queues[qi].entries[k].queue_message_id = Some(
                    (message_channel_id, message_id),
                );
                proof {
                    pre.lemma_user_index(qi as int, user_id);
                    self.lemma_user_index(qi as int, user_id);
                    assert(self.users() =~= pre.users());
                    let es = pre.user_entries(user_id);
                    assert(self.user_entries(user_id) =~= es.update(
                        k as int,
                        (QueuedSong {
                            song: es[k as int].song,
                            queue_message_id: Some((message_channel_id, message_id)),
                        }),
                    ));
                    assert forall|u: u64| u != user_id implies self.user_entries(u)
                        == pre.user_entries(u) by {
                        self.lemma_other_entries(pre, u);
                    }
                }
                return true;
            }
            k += 1;
        }
        false
    }
}

/// A counted vote is counted once: when a vote was answered with
/// `NeedsMoreVotes`, an immediate second vote by the same user comes back
/// `AlreadyVoted` and leaves the model unchanged.
pub proof fn lemma_vote_idempotent(
    pre: GuildModel,
    mid: GuildModel,
    post: GuildModel,
    present: Seq<u64>,
    kind: VoteType,
    ch: u64,
    user: u64,
    r1: VoteStatus,
    r2: VoteStatus,
)
    requires
        pre.wf(),
        present.contains(user),
        vote_outcome(pre, mid, present, kind, ch, user, r1),
        r1 is NeedsMoreVotes,
        vote_outcome(mid, post, present, kind, ch, user, r2),
    ensures
        r2 is AlreadyVoted,
        post == mid,
{
    assert(mid.voters(ch, kind).contains(user)) by {
        assert(mid.voters(ch, kind) == pre.voters(ch, kind).push(user));
        assert(mid.voters(ch, kind).last() == user);
    }
}

/// Vote sets only ever grow by the voter, who must be in the room when the
/// vote is inserted; together with the reset on every transition into
/// `Playing`, every recorded voter was present at the time of their vote.
pub proof fn lemma_voters_present(
    pre: GuildModel,
    post: GuildModel,
    present: Seq<u64>,
    kind: VoteType,
    ch: u64,
    user: u64,
    r: VoteStatus,
)
    requires
        pre.wf(),
        present.contains(user),
        vote_outcome(pre, post, present, kind, ch, user, r),
    ensures
        post.voters(ch, kind) == pre.voters(ch, kind) || post.voters(ch, kind) == pre.voters(
            ch,
            kind,
        ).push(user),
        post.voters(ch, other_kind(kind)) == pre.voters(ch, other_kind(kind)),
        forall|v: u64|
            post.voters(ch, kind).contains(v) ==> pre.voters(ch, kind).contains(v) || (v == user
                && present.contains(v)),
{
    let votes = pre.voters(ch, kind);
    if post.voters(ch, kind) == votes.push(user) {
        assert forall|v: u64| post.voters(ch, kind).contains(v) implies votes.contains(v) || (v
            == user && present.contains(v)) by {
            let j = choose|j: int|
                0 <= j < votes.push(user).len() && votes.push(user)[j] == v;
            if j < votes.len() {
                assert(votes[j] == v);
            }
        }
    }
}

/// Round-robin order: when every queued user is in the room, the advance
/// after an ended entry picks exactly the first user at or after the
/// last-playing user's successor, cyclically. Repeated under the same
/// condition, successive advances therefore serve distinct users in queue
/// order before coming back around.
pub proof fn lemma_round_robin_step(pre: GuildModel, ch: u64, present: Seq<u64>, i: int)
    requires
        pre.wf(),
        pre.users().len() > 0,
        forall|j: int| 0 <= j < pre.users().len() ==> present.contains(pre.users()[j]),
        rr_first_pick(pre, ch, present, i),
    ensures
        ({
            let start = rr_start_of(pre.users(), pre.playing_user(ch));
            i == if start == pre.users().len() {
                0int
            } else {
                start
            }
        }),
{
    let start = rr_start_of(pre.users(), pre.playing_user(ch));
    let len = pre.users().len() as int;
    let first = if start == len {
        0int
    } else {
        start
    };
    assert(0 <= start <= len) by {
        match pre.playing_user(ch) {
            Some(u) => {
                if has_user_order(pre.users(), u) {
                    let p = user_pos(pre.users(), u);
                    assert(0 <= p < len);
                }
            },
            None => {},
        }
    }
    assert(rr_pos(start, len, first) == 0);
    if i != first {
        assert(present.contains(pre.users()[first]));
        assert(rr_pos(start, len, i) > 0);
        assert(false);
    }
}

/// Round-robin fairness across successive advances: with every queued user
/// present in the room and no queue about to drain, consecutive advances
/// after ended entries serve cyclically adjacent users — so `n` successive
/// advances serve all `n` queued users in order, starting just after the
/// last-playing user.
pub proof fn lemma_round_robin_rotation(
    m0: GuildModel,
    m1: GuildModel,
    ch: u64,
    present: Seq<u64>,
    i1: int,
    e1: QueuedSong,
    i2: int,
)
    requires
        m0.wf(),
        m1.wf(),
        m0.users().len() > 0,
        forall|j: int| 0 <= j < m0.users().len() ==> present.contains(m0.users()[j]),
        forall|j: int|
            0 <= j < m0.users().len() ==> m0.user_entries(m0.users()[j]).len() >= 2,
        rr_first_pick(m0, ch, present, i1),
        advance_transition(m0, m1, ch, i1, e1),
        rr_first_pick(m1, ch, present, i2),
    ensures
        m1.users() == m0.users(),
        m1.playing_user(ch) == Some(m0.users()[i1]),
        i1 == ({
            let s = rr_start_of(m0.users(), m0.playing_user(ch));
            if s == m0.users().len() {
                0int
            } else {
                s
            }
        }),
        i2 == (i1 + 1) % (m0.users().len() as int),
{
    let users = m0.users();
    let n = users.len() as int;
    let u = users[i1];
    assert(m0.user_entries(users[i1]).len() >= 2);
    assert(m1.users() == users);
    lemma_round_robin_step(m0, ch, present, i1);
    assert(m1.playing_user(ch) == Some(u));
    // The scan for the second advance starts right after the user served
    // first: with distinct users, that user's position is the pick itself.
    assert(has_user_order(users, u)) by {
        assert(users[i1] == u);
    }
    let p = user_pos(users, u);
    assert(0 <= p < n && users[p] == u);
    assert(p == i1) by {
        if p != i1 {
            assert(m0.queues@[p].user_id == u);
            assert(m0.queues@[i1].user_id == u);
        }
    }
    assert(rr_start_of(m1.users(), m1.playing_user(ch)) == i1 + 1);
    assert(forall|j: int| 0 <= j < n ==> present.contains(m1.users()[j]));
    lemma_round_robin_step(m1, ch, present, i2);
    if i1 + 1 == n {
        assert((i1 + 1) % n == 0) by {
            vstd::arithmetic::div_mod::lemma_mod_self_0(n);
        }
    } else {
        assert((i1 + 1) % n == i1 + 1) by {
            vstd::arithmetic::div_mod::lemma_small_mod((i1 + 1) as nat, n as nat);
        }
    }
}

/// A user appears in the round-robin order exactly while they have at least
/// one pending entry.
pub proof fn lemma_user_queue_iff_pending(m: GuildModel, user: u64)
    requires
        m.wf(),
    ensures
        m.users().contains(user) <==> m.user_entries(user).len() > 0,
{
    if m.users().contains(user) {
        let i = choose|i: int| 0 <= i < m.users().len() && m.users()[i] == user;
        m.lemma_user_index(i, user);
    }
    if m.user_entries(user).len() > 0 {
        let i = user_index_of(m.queues@, user);
        assert(m.users()[i] == user);
    }
}

} // verus!
