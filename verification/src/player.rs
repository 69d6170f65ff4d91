//! The playback controller: what the player does on each request of the user
//! and on each answer of the audio engine.
//!
//! The player drives no engine itself. Each request yields a `Command` that
//! the caller performs on the engine. Pausing, resuming, stopping and setting
//! the volume are taken as done once commanded. Starting a track can fail, so
//! the caller reports how `Command::Start` went to `Player::started`, and only
//! then does the player count the track as playing. Requests are meant to be
//! carried out one after the other, each with its answer, before the next.

use vstd::prelude::*;
use vstd::string::StringExecFns;

verus! {

/// What the player is doing.
#[derive(Debug, Clone, Copy, PartialEq, Eq, Structural)]
pub enum AudioStatus {
    Playing,
    Paused,
    Stopped,
    /// No track has been started yet.
    Uninitialized,
}

impl Default for AudioStatus {
    fn default() -> (status: AudioStatus)
        ensures
            status == AudioStatus::Uninitialized,
    {
        AudioStatus::Uninitialized
    }
}

impl AudioStatus {
    /// The name of the status.
    pub open spec fn label(self) -> Seq<char> {
        match self {
            AudioStatus::Playing => "Playing"@,
            AudioStatus::Paused => "Paused"@,
            AudioStatus::Stopped => "Stopped"@,
            AudioStatus::Uninitialized => "None"@,
        }
    }

    /// The name of the status, as it is shown to the user.
    pub fn to_string(&self) -> (text: String)
        ensures
            text@ == self.label(),
    {
        match self {
            AudioStatus::Playing => "Playing".to_owned(),
            AudioStatus::Paused => "Paused".to_owned(),
            AudioStatus::Stopped => "Stopped".to_owned(),
            AudioStatus::Uninitialized => "None".to_owned(),
        }
    }
}

/// A request of the user to the player.
#[derive(Debug, Clone, Copy, PartialEq, Eq, Structural)]
pub enum Message {
    Play,
    Pause,
    Stop,
    /// Set the volume to so many hundredths of the full gain. The value is
    /// taken as it comes: keeping it within 0 to 100 is the sender's part.
    VolumeChanged(u32),
}

/// What the caller is to do on the audio engine.
#[derive(Debug, Clone, Copy, PartialEq, Eq, Structural)]
pub enum Command {
    /// Nothing.
    Nothing,
    /// Open a stream from the selected track and start it, on a new engine
    /// session where `create_session` is set and on the existing one where it
    /// is not. Report the outcome to `Player::started`.
    Start { create_session: bool },
    /// Resume the sound.
    Resume,
    /// Pause the sound.
    Pause,
    /// Stop the sound. The engine session stays.
    Stop,
    /// Set the gain of the sound to `percent` hundredths.
    SetVolume { percent: u32 },
}

/// The ways in which playback can fail.
#[derive(Debug, Clone, Copy, PartialEq, Eq, Structural)]
pub enum FailureClass {
    /// No engine session could be created.
    EngineInitFailure,
    /// The track could not be opened: a bad path, or data that cannot be
    /// decoded.
    StreamOpenFailure,
    /// The engine rejected a command on a sound.
    EngineOperationFailure,
}

/// A failure of playback.
#[derive(Debug, Clone, PartialEq, Eq)]
pub struct PlaybackError {
    pub class: FailureClass,
    /// What went wrong, in words.
    pub cause: String,
}

impl PlaybackError {
    /// The failure of the class `class` that `cause` describes.
    pub fn new(class: FailureClass, cause: &str) -> (error: PlaybackError)
        ensures
            error.class == class,
            error.cause@ == cause@,
    {
        PlaybackError { class, cause: cause.to_owned() }
    }

    /// The failure in words: what failed, a colon, and the cause.
    pub open spec fn message(self) -> Seq<char> {
        self.class.label() + ": "@ + self.cause@
    }

    /// The failure in words, as it is shown to the user.
    pub fn to_string(&self) -> (text: String)
        ensures
            text@ == self.message(),
    {
        let mut text: String = self.class.to_string();
        text.append(": ");
        text.append(self.cause.as_str());
        text
    }
}

impl FailureClass {
    /// What failed, in words.
    pub open spec fn label(self) -> Seq<char> {
        match self {
            FailureClass::EngineInitFailure => "audio engine failed to start"@,
            FailureClass::StreamOpenFailure => "failed to play"@,
            FailureClass::EngineOperationFailure => "audio engine rejected the command"@,
        }
    }

    /// What failed, in words.
    pub fn to_string(&self) -> (text: String)
        ensures
            text@ == self.label(),
    {
        match self {
            FailureClass::EngineInitFailure => "audio engine failed to start".to_owned(),
            FailureClass::StreamOpenFailure => "failed to play".to_owned(),
            FailureClass::EngineOperationFailure => "audio engine rejected the command".to_owned(),
        }
    }
}

/// The outcome that the reply `reply` to `Command::Start` reports: `None`
/// for a started track, or the class of the failure.
pub open spec fn outcome_of(reply: Result<(), PlaybackError>) -> Option<FailureClass> {
    match reply {
        Ok(_) => None,
        Err(error) => Some(error.class),
    }
}

/// The player: the selected track, the volume, the playback status, whether
/// an engine session exists, and whether the start of a track is under way.
#[derive(Debug)]
pub struct Player {
    manager: bool,
    starting: bool,
    volume: u32,
    status: AudioStatus,
    music: String,
}

/// A `Player` as the rules see it.
pub struct PlayerView {
    /// Whether an engine session exists.
    pub manager: bool,
    /// Whether the caller was asked to start a track and has not answered.
    pub starting: bool,
    /// The volume, in hundredths of the full gain.
    pub volume: u32,
    pub status: AudioStatus,
    /// The path of the selected track; empty where none is selected.
    pub music: Seq<char>,
}

/// What can happen to a player.
pub enum Event {
    /// The track at the path is selected.
    Select(Seq<char>),
    /// The user asks for something.
    Request(Message),
    /// The engine has answered `Command::Start`: with `None` for a started
    /// track, or with the class of the failure.
    Answer(Option<FailureClass>),
}

impl PlayerView {
    /// Whether a sound exists on the engine. One exists from the first track
    /// that was started: in every status but `Uninitialized`.
    pub open spec fn handle(self) -> bool {
        self.status != AudioStatus::Uninitialized
    }

    /// Whether nothing is playing or paused, so that playing means starting
    /// a track.
    pub open spec fn idle(self) -> bool {
        self.status == AudioStatus::Uninitialized || self.status == AudioStatus::Stopped
    }

    /// A sound lives on an engine session, and a track is started only
    /// while none is playing or paused.
    pub open spec fn wf(self) -> bool {
        &&& self.handle() ==> self.manager
        &&& self.starting ==> self.idle()
    }

    /// Whether `message` is refused: it asks to start a track, and none is
    /// selected.
    pub open spec fn refuses(self, message: Message) -> bool {
        message == Message::Play && self.idle() && self.music.len() == 0
    }

    /// What `message` has the caller do on the engine.
    pub open spec fn command_for(self, message: Message) -> Command {
        match message {
            Message::Play => match self.status {
                AudioStatus::Playing => Command::Nothing,
                AudioStatus::Paused => Command::Resume,
                _ => if self.music.len() > 0 {
                    Command::Start { create_session: !self.manager }
                } else {
                    Command::Nothing
                },
            },
            Message::Pause => if self.status == AudioStatus::Playing {
                Command::Pause
            } else {
                Command::Nothing
            },
            Message::Stop => if self.status == AudioStatus::Playing || self.status
                == AudioStatus::Paused {
                Command::Stop
            } else {
                Command::Nothing
            },
            Message::VolumeChanged(percent) => if self.handle() {
                Command::SetVolume { percent }
            } else {
                Command::Nothing
            },
        }
    }

    /// The player after `message`.
    pub open spec fn after(self, message: Message) -> PlayerView {
        match message {
            Message::Play => if self.status == AudioStatus::Paused {
                PlayerView { status: AudioStatus::Playing, ..self }
            } else if self.idle() && self.music.len() > 0 {
                PlayerView { starting: true, ..self }
            } else {
                self
            },
            Message::Pause => if self.status == AudioStatus::Playing {
                PlayerView { status: AudioStatus::Paused, ..self }
            } else {
                self
            },
            Message::Stop => if self.status == AudioStatus::Playing || self.status
                == AudioStatus::Paused {
                PlayerView { status: AudioStatus::Stopped, ..self }
            } else {
                self
            },
            Message::VolumeChanged(percent) => PlayerView { volume: percent, ..self },
        }
    }

    /// The player after the engine has answered `Command::Start` with
    /// `outcome`: `None` for a started track, or the class of the failure.
    /// A started track plays, on a session that from then on exists. A
    /// failure leaves the status as it was; the session exists unless it was
    /// its creation that failed. An answer to no question changes nothing.
    pub open spec fn after_start(self, outcome: Option<FailureClass>) -> PlayerView {
        if self.starting {
            match outcome {
                None => PlayerView {
                    manager: true,
                    starting: false,
                    status: AudioStatus::Playing,
                    ..self
                },
                Some(class) => PlayerView {
                    manager: self.manager || class != FailureClass::EngineInitFailure,
                    starting: false,
                    ..self
                },
            }
        } else {
            self
        }
    }

    /// The player after `event`.
    pub open spec fn on(self, event: Event) -> PlayerView {
        match event {
            Event::Select(music) => PlayerView { music, ..self },
            Event::Request(message) => self.after(message),
            Event::Answer(outcome) => self.after_start(outcome),
        }
    }

    /// The player after `events`, in their order.
    pub open spec fn on_all(self, events: Seq<Event>) -> PlayerView
        decreases events.len(),
    {
        if events.len() == 0 {
            self
        } else {
            self.on_all(events.drop_last()).on(events.last())
        }
    }
}

impl View for Player {
    type V = PlayerView;

    closed spec fn view(&self) -> PlayerView {
        PlayerView {
            manager: self.manager,
            starting: self.starting,
            volume: self.volume,
            status: self.status,
            music: self.music@,
        }
    }
}

impl Default for Player {
    /// The player before anything was asked of it.
    fn default() -> (player: Player)
        ensures
            player@ == Player::default_view(),
    {
        Player {
            manager: false,
            starting: false,
            volume: 100,
            status: AudioStatus::Uninitialized,
            music: String::new(),
        }
    }
}

impl Player {
    #[verifier::type_invariant]
    spec fn inv(&self) -> bool {
        self@.wf()
    }

    /// The player before anything was asked of it: no track, full volume,
    /// nothing played, no engine session.
    pub open spec fn default_view() -> PlayerView {
        PlayerView {
            manager: false,
            starting: false,
            volume: 100,
            status: AudioStatus::Uninitialized,
            music: Seq::<char>::empty(),
        }
    }

    /// Selects the track at the path `music`. The engine is not touched, and
    /// what is playing goes on.
    pub fn set_music(&mut self, music: &str)
        ensures
            final(self)@ == old(self)@.on(Event::Select(music@)),
            final(self)@.wf(),
    {
        proof {
            use_type_invariant(&*self);
        }
        self.music = music.to_owned();
    }

    /// Carries out `message` and returns what the caller is to do on the
    /// engine. Fails, changing nothing, where a track is to be started and
    /// none is selected.
    pub fn update(&mut self, message: Message) -> (command: Result<Command, PlaybackError>)
        ensures
            final(self)@ == old(self)@.after(message),
            final(self)@.wf(),
            old(self)@.refuses(message) <==> command is Err,
            command matches Ok(c) ==> c == old(self)@.command_for(message),
            command matches Err(e) ==> e.class == FailureClass::StreamOpenFailure && e.cause@
                == "no track selected"@,
    {
        match message {
            Message::Play => self.play(),
            Message::Pause => Ok(self.pause()),
            Message::Stop => Ok(self.stop()),
            Message::VolumeChanged(percent) => Ok(self.set_volume(percent)),
        }
    }

    /// Plays: resumes a paused sound, and asks for the selected track to be
    /// started where none is playing or paused. The track counts as playing
    /// once the caller has reported its start: see `started`. Fails, changing
    /// nothing, where a track is to be started and none is selected.
    pub fn play(&mut self) -> (command: Result<Command, PlaybackError>)
        ensures
            final(self)@ == old(self)@.after(Message::Play),
            final(self)@.wf(),
            old(self)@.refuses(Message::Play) <==> command is Err,
            command matches Ok(c) ==> c == old(self)@.command_for(Message::Play),
            command matches Err(e) ==> e.class == FailureClass::StreamOpenFailure && e.cause@
                == "no track selected"@,
    {
        proof {
            use_type_invariant(&*self);
        }
        match self.status {
            AudioStatus::Playing => Ok(Command::Nothing),
            AudioStatus::Paused => {
                self.status = AudioStatus::Playing;
                Ok(Command::Resume)
            },
            AudioStatus::Stopped | AudioStatus::Uninitialized => {
                if self.music.as_str().unicode_len() == 0 {
                    Err(
                        PlaybackError {
                            class: FailureClass::StreamOpenFailure,
                            cause: "no track selected".to_owned(),
                        },
                    )
                } else {
                    self.starting = true;
                    Ok(Command::Start { create_session: !self.manager })
                }
            },
        }
    }

    /// Takes the engine's answer to `Command::Start`. A started track plays,
    /// and the volume is to be set on its sound. A failure is handed back
    /// and leaves the status as it was. An answer to no question changes
    /// nothing.
    pub fn started(&mut self, reply: Result<(), PlaybackError>) -> (command: Result<
        Command,
        PlaybackError,
    >)
        ensures
            final(self)@ == old(self)@.after_start(outcome_of(reply)),
            final(self)@.wf(),
            reply matches Err(e) ==> command == Err::<Command, PlaybackError>(e),
            reply is Ok ==> command == Ok::<Command, PlaybackError>(
                if old(self)@.starting {
                    Command::SetVolume { percent: old(self)@.volume }
                } else {
                    Command::Nothing
                },
            ),
    {
        proof {
            use_type_invariant(&*self);
        }
        let asked: bool = self.starting;
        self.starting = false;
        match reply {
            Ok(_) => {
                if asked {
                    self.manager = true;
                    self.status = AudioStatus::Playing;
                    Ok(Command::SetVolume { percent: self.volume })
                } else {
                    Ok(Command::Nothing)
                }
            },
            Err(error) => {
                if asked {
                    match error.class {
                        FailureClass::EngineInitFailure => {},
                        _ => {
                            self.manager = true;
                        },
                    }
                }
                Err(error)
            },
        }
    }

    /// Pauses the sound that is playing. Otherwise does nothing.
    pub fn pause(&mut self) -> (command: Command)
        ensures
            final(self)@ == old(self)@.after(Message::Pause),
            final(self)@.wf(),
            command == old(self)@.command_for(Message::Pause),
    {
        proof {
            use_type_invariant(&*self);
        }
        match self.status {
            AudioStatus::Playing => {
                self.status = AudioStatus::Paused;
                Command::Pause
            },
            _ => Command::Nothing,
        }
    }

    /// Sets the volume, and has it set on the sound where one exists.
    pub fn set_volume(&mut self, volume: u32) -> (command: Command)
        ensures
            final(self)@ == old(self)@.after(Message::VolumeChanged(volume)),
            final(self)@.wf(),
            command == old(self)@.command_for(Message::VolumeChanged(volume)),
    {
        proof {
            use_type_invariant(&*self);
        }
        self.volume = volume;
        match self.status {
            AudioStatus::Uninitialized => Command::Nothing,
            _ => Command::SetVolume { percent: volume },
        }
    }

    /// Stops the sound that is playing or paused. Otherwise does nothing.
    pub fn stop(&mut self) -> (command: Command)
        ensures
            final(self)@ == old(self)@.after(Message::Stop),
            final(self)@.wf(),
            command == old(self)@.command_for(Message::Stop),
    {
        proof {
            use_type_invariant(&*self);
        }
        match self.status {
            AudioStatus::Playing | AudioStatus::Paused => {
                self.status = AudioStatus::Stopped;
                Command::Stop
            },
            _ => Command::Nothing,
        }
    }

    /// What the player is doing.
    pub fn state(&self) -> (status: AudioStatus)
        ensures
            status == self@.status,
            self@.wf(),
    {
        proof {
            use_type_invariant(self);
        }
        self.status
    }

    /// The volume, in hundredths of the full gain.
    pub fn volume(&self) -> (volume: u32)
        ensures
            volume == self@.volume,
    {
        self.volume
    }

    /// The path of the selected track; empty where none is selected.
    pub fn music(&self) -> (music: &str)
        ensures
            music@ == self@.music,
    {
        self.music.as_str()
    }

    /// Whether an engine session exists.
    pub fn has_session(&self) -> (exists: bool)
        ensures
            exists == self@.manager,
    {
        self.manager
    }

    /// Whether a sound exists on the engine.
    pub fn has_handle(&self) -> (exists: bool)
        ensures
            exists == self@.handle(),
    {
        match self.status {
            AudioStatus::Uninitialized => false,
            _ => true,
        }
    }

    /// Whether the caller was asked to start a track and has not answered.
    pub fn is_starting(&self) -> (starting: bool)
        ensures
            starting == self@.starting,
    {
        self.starting
    }
}

/// Nothing that happens leaves a sound without a session, or a start under
/// way while a sound plays or is paused.
pub proof fn lemma_wf_is_kept(state: PlayerView, event: Event)
    requires
        state.wf(),
    ensures
        state.on(event).wf(),
{
}

/// Before the first track plays, no request changes the status, and pausing
/// and stopping do nothing at all. Only a request to play, made with a track
/// selected, has a track started; and only the answer that this track has
/// started makes the player play.
pub proof fn lemma_first_play(state: PlayerView, message: Message, outcome: Option<FailureClass>)
    requires
        state.wf(),
        state.status == AudioStatus::Uninitialized,
    ensures
        state.after(message).status == AudioStatus::Uninitialized,
        message == Message::Pause || message == Message::Stop ==> state.after(message) == state
            && state.command_for(message) == Command::Nothing,
        state.command_for(message) is Start <==> message == Message::Play && state.music.len() > 0,
        state.after(message).starting && !state.starting ==> message == Message::Play
            && state.music.len() > 0,
        state.after_start(outcome).status == AudioStatus::Playing <==> state.starting
            && outcome is None,
        state.after_start(outcome).status != AudioStatus::Playing ==> state.after_start(
            outcome,
        ).status == AudioStatus::Uninitialized,
{
}

/// Whether `event` is a request to play.
pub open spec fn asks_to_play(event: Event) -> bool {
    event == Event::Request(Message::Play)
}

/// Whatever happens to a player that has played nothing yet, it plays
/// nothing, starts nothing and creates no session as long as nobody asks it
/// to play.
pub proof fn lemma_nothing_plays_unasked(state: PlayerView, events: Seq<Event>)
    requires
        state.status == AudioStatus::Uninitialized,
        !state.starting,
        forall|i: int| 0 <= i < events.len() ==> !asks_to_play(#[trigger] events[i]),
    ensures
        state.on_all(events).status == AudioStatus::Uninitialized,
        !state.on_all(events).starting,
        state.on_all(events).manager == state.manager,
    decreases events.len(),
{
    if events.len() > 0 {
        let earlier = events.drop_last();
        assert forall|i: int| 0 <= i < earlier.len() implies !asks_to_play(
            #[trigger] earlier[i],
        ) by {
            assert(earlier[i] == events[i]);
        }
        lemma_nothing_plays_unasked(state, earlier);
        assert(!asks_to_play(events[events.len() - 1]));
    }
}

/// Pausing what plays and playing again resumes it: the player is as it was,
/// on the same session, and no track is started.
pub proof fn lemma_pause_then_play(state: PlayerView)
    requires
        state.wf(),
        state.status == AudioStatus::Playing,
    ensures
        state.command_for(Message::Pause) == Command::Pause,
        state.after(Message::Pause).status == AudioStatus::Paused,
        state.after(Message::Pause).command_for(Message::Play) == Command::Resume,
        state.after(Message::Pause).after(Message::Play) == state,
        !state.after(Message::Pause).refuses(Message::Play),
{
}

/// A new volume is stored whatever the status. Before the first track plays
/// the engine is not touched; from then on the volume is set on the sound at
/// once. Nothing else changes.
pub proof fn lemma_volume(state: PlayerView, percent: u32)
    requires
        state.wf(),
    ensures
        state.after(Message::VolumeChanged(percent)) == (PlayerView { volume: percent, ..state }),
        state.status == AudioStatus::Uninitialized ==> state.command_for(
            Message::VolumeChanged(percent),
        ) == Command::Nothing,
        state.status != AudioStatus::Uninitialized ==> state.command_for(
            Message::VolumeChanged(percent),
        ) == (Command::SetVolume { percent }),
        !state.refuses(Message::VolumeChanged(percent)),
{
}

/// Stopping what plays and playing again starts the selected track anew on
/// the session that exists: no session is created, and once the track has
/// started the player is as it was.
pub proof fn lemma_stop_then_play(state: PlayerView)
    requires
        state.wf(),
        state.status == AudioStatus::Playing,
        state.music.len() > 0,
    ensures
        state.command_for(Message::Stop) == Command::Stop,
        state.after(Message::Stop).status == AudioStatus::Stopped,
        state.after(Message::Stop).manager,
        state.after(Message::Stop).command_for(Message::Play) == (Command::Start {
            create_session: false,
        }),
        state.after(Message::Stop).after(Message::Play).status == AudioStatus::Stopped,
        state.after(Message::Stop).after(Message::Play).after_start(None) == state,
{
}

/// A track that fails to start leaves the player as it was before it was
/// asked to play, but for the session, which exists unless it was its
/// creation that failed.
pub proof fn lemma_failed_start(state: PlayerView, class: FailureClass)
    requires
        state.wf(),
        state.idle(),
        !state.starting,
    ensures
        state.after(Message::Play).after_start(Some(class)) == state || state.after(
            Message::Play,
        ).after_start(Some(class)) == (PlayerView { manager: true, ..state }),
        class == FailureClass::EngineInitFailure ==> state.after(Message::Play).after_start(
            Some(class),
        ) == state,
        state.after(Message::Play).after_start(Some(class)).status == state.after(
            Message::Play,
        ).status,
{
}

} // verus!
