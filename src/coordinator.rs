use vstd::prelude::*;

verus! {

/// Where the bot believes itself connected: a guild and a voice channel in it.
pub type Anchor = Option<(u64, u64)>;

#[derive(Debug, Clone, Copy, PartialEq, Eq, Structural)]
pub enum PlaybackState {
    Stopped,
    Playing,
    Paused,
}

/// What the two event sources deliver, one event at a time.
#[derive(Debug)]
pub enum BotEvent {
    /// Playback started; `user_location` is where the followed user was found
    /// at that moment, if anywhere.
    Started { user_location: Option<(u64, u64)> },
    Stopped,
    Paused,
    /// A new track; `metadata` is its artist and title, if the lookup worked.
    TrackChanged { metadata: Option<(String, String)> },
    /// A user's voice state changed in a guild.
    VoiceStateChanged {
        user: u64,
        guild: u64,
        old_channel: Option<u64>,
        new_channel: Option<u64>,
    },
}

/// What the voice client is asked to do.
#[derive(Debug)]
pub enum Command {
    Join { guild: u64, channel: u64 },
    Leave { guild: u64 },
    /// Shows the text as what the bot listens to, or clears it.
    SetPresence { text: Option<String> },
}

pub enum CommandView {
    Join { guild: u64, channel: u64 },
    Leave { guild: u64 },
    SetPresence { text: Option<Seq<char>> },
}

impl View for Command {
    type V = CommandView;

    open spec fn view(&self) -> CommandView {
        match self {
            Command::Join { guild, channel } => CommandView::Join { guild: *guild, channel: *channel },
            Command::Leave { guild } => CommandView::Leave { guild: *guild },
            Command::SetPresence { text } => CommandView::SetPresence {
                text: match text {
                    Some(t) => Some(t@),
                    None => None,
                },
            },
        }
    }
}

/// The presence line for a track: "artist: title".
pub open spec fn listening_text(artist: Seq<char>, title: Seq<char>) -> Seq<char> {
    artist + seq![':', ' '] + title
}

/// The commands that an event calls for, given the anchor and the followed user.
pub open spec fn event_commands(anchor: Anchor, followed: u64, e: BotEvent) -> Seq<CommandView> {
    match e {
        BotEvent::Started { user_location } => match (anchor, user_location) {
            (None, Some((g, c))) => seq![CommandView::Join { guild: g, channel: c }],
            _ => Seq::empty(),
        },
        BotEvent::Stopped => match anchor {
            Some((g, _)) => seq![
                CommandView::Leave { guild: g },
                CommandView::SetPresence { text: None },
            ],
            None => Seq::empty(),
        },
        BotEvent::Paused => seq![CommandView::SetPresence { text: None }],
        BotEvent::TrackChanged { metadata } => match metadata {
            Some((artist, title)) => seq![
                CommandView::SetPresence { text: Some(listening_text(artist@, title@)) },
            ],
            None => Seq::empty(),
        },
        BotEvent::VoiceStateChanged { user, guild, old_channel, new_channel } => {
            if anchor is None || user != followed {
                Seq::empty()
            } else {
                match (old_channel, new_channel) {
                    (None, Some(n)) => seq![CommandView::Join { guild, channel: n }],
                    (Some(_), None) => seq![CommandView::Leave { guild }],
                    (Some(o), Some(n)) => if o != n {
                        seq![CommandView::Leave { guild }, CommandView::Join { guild, channel: n }]
                    } else {
                        Seq::empty()
                    },
                    (None, None) => Seq::empty(),
                }
            }
        },
    }
}

/// The playback state after an event.
pub open spec fn next_playback(p: PlaybackState, e: BotEvent) -> PlaybackState {
    match e {
        BotEvent::Started { .. } => PlaybackState::Playing,
        BotEvent::Stopped => PlaybackState::Stopped,
        BotEvent::Paused => PlaybackState::Paused,
        _ => p,
    }
}

/// The anchor after a command was carried out (`ok`) or failed.
pub open spec fn after_command(anchor: Anchor, cmd: CommandView, ok: bool) -> Anchor {
    if !ok {
        anchor
    } else {
        match cmd {
            CommandView::Join { guild, channel } => Some((guild, channel)),
            CommandView::Leave { .. } => None,
            CommandView::SetPresence { .. } => anchor,
        }
    }
}

/// The anchor after every command of `cmds` succeeded, in order.
pub open spec fn after_all(anchor: Anchor, cmds: Seq<CommandView>) -> Anchor
    decreases cmds.len(),
{
    if cmds.len() == 0 {
        anchor
    } else {
        after_command(after_all(anchor, cmds.drop_last()), cmds.last(), true)
    }
}

/// The first guild, in the given order, where the user sits in a voice
/// channel, with that channel.
pub open spec fn first_channel(seen: Seq<(u64, Option<u64>)>) -> Anchor
    decreases seen.len(),
{
    if seen.len() == 0 {
        None
    } else {
        match seen[0].1 {
            Some(c) => Some((seen[0].0, c)),
            None => first_channel(seen.skip(1)),
        }
    }
}

/// Finds where a user is: `seen` holds, for each guild in turn, the voice
/// channel the user is in there, if any.
pub fn user_channel(seen: &Vec<(u64, Option<u64>)>) -> (r: Anchor)
    ensures
        r == first_channel(seen@),
{
    let mut i: usize = 0;
    assert(seen@.skip(0) =~= seen@);
    while i < seen.len()
        invariant
            i <= seen@.len(),
            first_channel(seen@) == first_channel(seen@.skip(i as int)),
        decreases seen@.len() - i,
    {
        let (g, ch) = seen[i];
        assert(seen@.skip(i as int).skip(1) =~= seen@.skip(i + 1));
        if let Some(c) = ch {
            return Some((g, c));
        }
        i = i + 1;
    }
    None
}

/// The coordinator: decides from playback and voice events when to join,
/// follow or leave the followed user's voice channel.
pub struct BotState {
    current_vc: Anchor,
    playback: PlaybackState,
    followed_user: u64,
}

impl BotState {
    pub closed spec fn anchor(&self) -> Anchor {
        self.current_vc
    }

    pub closed spec fn playback_state(&self) -> PlaybackState {
        self.playback
    }

    pub closed spec fn followed(&self) -> u64 {
        self.followed_user
    }

    pub fn new(followed_user: u64) -> (r: BotState)
        ensures
            r.anchor() is None,
            r.playback_state() == PlaybackState::Stopped,
            r.followed() == followed_user,
    {
        BotState { current_vc: None, playback: PlaybackState::Stopped, followed_user }
    }

    /// A read-only snapshot of the anchor.
    pub fn current_vc(&self) -> (r: Anchor)
        ensures
            r == self.anchor(),
    {
        self.current_vc
    }

    pub fn playback(&self) -> (r: PlaybackState)
        ensures
            r == self.playback_state(),
    {
        self.playback
    }

    pub fn followed_user(&self) -> (r: u64)
        ensures
            r == self.followed(),
    {
        self.followed_user
    }

    /// Handles one event: updates the playback state and gives the commands
    /// to carry out, in order. The anchor moves only through `record`.
    pub fn handle(&mut self, event: BotEvent) -> (cmds: Vec<Command>)
        ensures
            cmds@.map_values(|c: Command| c@) == event_commands(
                old(self).anchor(),
                old(self).followed(),
                event,
            ),
            final(self).anchor() == old(self).anchor(),
            final(self).followed() == old(self).followed(),
            final(self).playback_state() == next_playback(old(self).playback_state(), event),
    {
        let ghost e = event;
        let mut cmds: Vec<Command> = Vec::new();
        match event {
            BotEvent::Started { user_location } => {
                self.playback = PlaybackState::Playing;
                if self.current_vc.is_none() {
                    if let Some((g, c)) = user_location {
                        cmds.push(Command::Join { guild: g, channel: c });
                    }
                }
            },
            BotEvent::Stopped => {
                self.playback = PlaybackState::Stopped;
                if let Some((g, _)) = self.current_vc {
                    cmds.push(Command::Leave { guild: g });
                    cmds.push(Command::SetPresence { text: None });
                }
            },
            BotEvent::Paused => {
                self.playback = PlaybackState::Paused;
                cmds.push(Command::SetPresence { text: None });
            },
            BotEvent::TrackChanged { metadata } => {
                if let Some((artist, title)) = metadata {
                    let mut text = artist;
                    text.append(": ");
                    text.append(title.as_str());
                    proof {
                        reveal_strlit(": ");
                        assert(text@ =~= listening_text(artist@, title@));
                    }
                    cmds.push(Command::SetPresence { text: Some(text) });
                }
            },
            BotEvent::VoiceStateChanged { user, guild, old_channel, new_channel } => {
                if self.current_vc.is_some() && user == self.followed_user {
                    match (old_channel, new_channel) {
                        (None, Some(n)) => {
                            cmds.push(Command::Join { guild, channel: n });
                        },
                        (Some(_), None) => {
                            cmds.push(Command::Leave { guild });
                        },
                        (Some(o), Some(n)) => {
                            if o != n {
                                cmds.push(Command::Leave { guild });
                                cmds.push(Command::Join { guild, channel: n });
                            }
                        },
                        (None, None) => {},
                    }
                }
            },
        }
        proof {
            assert(cmds@.map_values(|c: Command| c@) =~= event_commands(
                old(self).anchor(),
                old(self).followed(),
                e,
            ));
        }
        cmds
    }

    /// The commands to carry out before shutting down: leave the channel the
    /// bot is anchored in, if any.
    pub fn shutdown(&self) -> (cmds: Vec<Command>)
        ensures
            cmds@.map_values(|c: Command| c@) == match self.anchor() {
                Some((g, _)) => seq![CommandView::Leave { guild: g }],
                None => Seq::<CommandView>::empty(),
            },
    {
        let mut cmds: Vec<Command> = Vec::new();
        if let Some((g, _)) = self.current_vc {
            cmds.push(Command::Leave { guild: g });
        }
        proof {
            assert(cmds@.map_values(|c: Command| c@) =~= match self.anchor() {
                Some((g, _)) => seq![CommandView::Leave { guild: g }],
                None => Seq::<CommandView>::empty(),
            });
        }
        cmds
    }

    /// Records how a command went: a join that worked anchors the bot in
    /// that channel, a leave that worked clears the anchor, and a command
    /// that failed leaves the anchor as it was.
    pub fn record(&mut self, cmd: &Command, ok: bool)
        ensures
            final(self).anchor() == after_command(old(self).anchor(), cmd@, ok),
            final(self).followed() == old(self).followed(),
            final(self).playback_state() == old(self).playback_state(),
    {
        if ok {
            match cmd {
                Command::Join { guild, channel } => {
                    self.current_vc = Some((*guild, *channel));
                },
                Command::Leave { .. } => {
                    self.current_vc = None;
                },
                Command::SetPresence { .. } => {},
            }
        }
    }
}

/// Idle, and playback starts while the followed user is in channel `c` of
/// guild `g`: exactly one join of that channel is issued, and once it has
/// worked the bot is anchored there.
pub proof fn lemma_start_joins_user_channel(followed: u64, g: u64, c: u64)
    ensures
        ({
            let cmds = event_commands(None, followed, BotEvent::Started { user_location: Some((g, c)) });
            &&& cmds == seq![CommandView::Join { guild: g, channel: c }]
            &&& after_all(None, cmds) == Some((g, c))
        }),
{
    let cmds = event_commands(None, followed, BotEvent::Started { user_location: Some((g, c)) });
    assert(cmds.drop_last() =~= Seq::<CommandView>::empty());
}

/// Idle, and playback starts while the followed user is in no channel: no
/// command is issued and the bot stays idle.
pub proof fn lemma_start_without_user_stays_idle(followed: u64)
    ensures
        ({
            let cmds = event_commands(None, followed, BotEvent::Started { user_location: None });
            &&& cmds.len() == 0
            &&& after_all(None, cmds) is None
        }),
{
}

/// Anchored in channel `c` of guild `g`, and playback stops: exactly one
/// leave of `g` is issued, then the presence is cleared, and once they have
/// worked the bot is idle.
pub proof fn lemma_stop_leaves(followed: u64, g: u64, c: u64)
    ensures
        ({
            let cmds = event_commands(Some((g, c)), followed, BotEvent::Stopped);
            &&& cmds == seq![CommandView::Leave { guild: g }, CommandView::SetPresence { text: None }]
            &&& after_all(Some((g, c)), cmds) is None
        }),
{
    reveal_with_fuel(after_all, 3);
    let cmds = event_commands(Some((g, c)), followed, BotEvent::Stopped);
    assert(cmds.drop_last() =~= seq![CommandView::Leave { guild: g }]);
    assert(cmds.drop_last().drop_last() =~= Seq::<CommandView>::empty());
}

/// Anchored in channel `c` of guild `g`, and the followed user moves from `c`
/// to another channel `c2` there: one leave then one join of `c2` is issued,
/// and once they have worked the bot is anchored in `c2`.
pub proof fn lemma_follow_user_move(followed: u64, g: u64, c: u64, c2: u64)
    requires
        c2 != c,
    ensures
        ({
            let e = BotEvent::VoiceStateChanged {
                user: followed,
                guild: g,
                old_channel: Some(c),
                new_channel: Some(c2),
            };
            let cmds = event_commands(Some((g, c)), followed, e);
            &&& cmds == seq![CommandView::Leave { guild: g }, CommandView::Join { guild: g, channel: c2 }]
            &&& after_all(Some((g, c)), cmds) == Some((g, c2))
        }),
{
    let e = BotEvent::VoiceStateChanged {
        user: followed,
        guild: g,
        old_channel: Some(c),
        new_channel: Some(c2),
    };
    let cmds = event_commands(Some((g, c)), followed, e);
    assert(cmds.drop_last() =~= seq![CommandView::Leave { guild: g }]);
    assert(cmds.drop_last().drop_last() =~= Seq::<CommandView>::empty());
}

/// A voice change of any user other than the followed one issues no command
/// and leaves the anchor as it is.
pub proof fn lemma_other_user_ignored(
    anchor: Anchor,
    followed: u64,
    user: u64,
    g: u64,
    old_channel: Option<u64>,
    new_channel: Option<u64>,
)
    requires
        user != followed,
    ensures
        ({
            let e = BotEvent::VoiceStateChanged { user, guild: g, old_channel, new_channel };
            let cmds = event_commands(anchor, followed, e);
            &&& cmds.len() == 0
            &&& after_all(anchor, cmds) == anchor
        }),
{
}

/// A pause never moves the anchor, whatever the anchor is and whether its
/// command works or fails; so any run of pauses leaves it where it was.
pub proof fn lemma_pause_keeps_anchor(anchor: Anchor, followed: u64, ok: bool)
    ensures
        ({
            let cmds = event_commands(anchor, followed, BotEvent::Paused);
            &&& cmds.len() == 1
            &&& after_command(anchor, cmds[0], ok) == anchor
            &&& after_all(anchor, cmds) == anchor
        }),
{
    reveal_with_fuel(after_all, 2);
    let cmds = event_commands(anchor, followed, BotEvent::Paused);
    assert(cmds.drop_last() =~= Seq::<CommandView>::empty());
    assert(cmds.last() == cmds[0]);
}

} // verus!
