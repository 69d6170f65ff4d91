//! A browser for a local music library and the controller of its playback.
//!
//! The library holds the rules: which entries of a directory are shown and in
//! what order, where a navigation step leads, and how play, pause, stop and
//! volume requests move the playback state. Reading directories and driving
//! the audio engine are left to the caller, which hands the library what it
//! found and performs the commands the library returns.

pub mod explorer;
pub mod player;

use vstd::prelude::*;

use explorer::dir::{child_views, Child, ChildView, Entry};
use explorer::{step, track_of, Explorer, ExplorerView};
use player::{outcome_of, Command, Event, FailureClass, PlaybackError, Player, PlayerView};

verus! {

/// A request of the user, to the explorer or to the player.
#[derive(Debug, Clone, PartialEq, Eq)]
pub enum Message {
    Explorer(explorer::Message),
    Player(player::Message),
}

/// The application: a player, and an explorer in which its tracks are picked.
#[derive(Debug)]
pub struct Seashell {
    player: Player,
    explorer: Explorer,
}

/// A `Seashell` as the rules see it.
pub struct SeashellView {
    pub player: PlayerView,
    pub explorer: ExplorerView,
}

impl SeashellView {
    /// The application after `message`, where `children` are the children of
    /// the directory that the message opens. A request to the explorer moves
    /// the explorer, and a picked audio file becomes the selected track of
    /// the player. A request to the player moves the player.
    pub open spec fn after(self, message: Message, children: Seq<ChildView>) -> SeashellView {
        match message {
            Message::Explorer(request) => SeashellView {
                player: match track_of(request) {
                    Some(track) => self.player.on(Event::Select(track)),
                    None => self.player,
                },
                explorer: step(self.explorer, request, children),
            },
            Message::Player(request) => SeashellView {
                player: self.player.after(request),
                explorer: self.explorer,
            },
        }
    }

    /// What `message` has the caller do on the audio engine. Requests to the
    /// explorer have it do nothing.
    pub open spec fn command_for(self, message: Message) -> Command {
        match message {
            Message::Explorer(_) => Command::Nothing,
            Message::Player(request) => self.player.command_for(request),
        }
    }

    /// Whether `message` is refused: it is a request to the player that the
    /// player refuses.
    pub open spec fn refuses(self, message: Message) -> bool {
        match message {
            Message::Explorer(_) => false,
            Message::Player(request) => self.player.refuses(request),
        }
    }
}

impl View for Seashell {
    type V = SeashellView;

    closed spec fn view(&self) -> SeashellView {
        SeashellView { player: self.player@, explorer: self.explorer@ }
    }
}

impl Seashell {
    /// The application at its start: the player as `Player::default` makes
    /// it, and the explorer at the directory `music_dir`, where the user keeps
    /// music, or at the empty path where none is known. Nothing is listed
    /// until the directory has been read: see `update`.
    pub fn new(music_dir: Option<String>) -> (app: Seashell)
        ensures
            app@.player == Player::default_view(),
            app@.explorer.listing == Seq::<Entry>::empty(),
            app@.explorer.input == match music_dir {
                Some(path) => path@,
                None => Seq::<char>::empty(),
            },
    {
        Seashell { player: Player::default(), explorer: Explorer::starting_at(music_dir) }
    }

    /// The title of the application's window.
    pub fn title(&self) -> (title: String)
        ensures
            title@ == "Seashell"@,
    {
        "Seashell".to_owned()
    }

    /// The player.
    pub fn player(&self) -> (player: &Player)
        ensures
            player@ == self@.player,
    {
        &self.player
    }

    /// The explorer.
    pub fn explorer(&self) -> (explorer: &Explorer)
        ensures
            explorer@ == self@.explorer,
    {
        &self.explorer
    }

    /// The directory that `message` opens, if it opens one: see
    /// `Explorer::target`. Requests to the player open none.
    pub fn target(&self, message: &Message) -> (path: Option<String>)
        ensures
            match *message {
                Message::Explorer(request) => {
                    &&& path is Some <==> explorer::target_of(self@.explorer, request) is Some
                    &&& path matches Some(p) ==> explorer::target_of(self@.explorer, request)
                        == Some(p@)
                    &&& request is BackDir && (self@.explorer.input.len() == 0
                        || self@.explorer.input == seq!['/']) ==> path is None
                },
                Message::Player(_) => path is None,
            },
    {
        match message {
            Message::Explorer(request) => self.explorer.target(request),
            Message::Player(_) => None,
        }
    }

    /// Carries out `message`, where `children` are the entries that the file
    /// system reports of the directory that the message opens, and returns
    /// what the caller is to do on the audio engine. Fails, changing nothing,
    /// where the player refuses the request.
    pub fn update(&mut self, message: Message, children: &[Child]) -> (command: Result<
        Command,
        PlaybackError,
    >)
        ensures
            final(self)@ == old(self)@.after(message, child_views(children@)),
            old(self)@.refuses(message) <==> command is Err,
            command matches Ok(c) ==> c == old(self)@.command_for(message),
            command matches Err(e) ==> e.class == FailureClass::StreamOpenFailure && e.cause@
                == "no track selected"@,
    {
        match message {
            Message::Explorer(request) => {
                match self.explorer.update(request, children) {
                    Some(track) => self.player.set_music(track.as_str()),
                    None => {},
                }
                Ok(Command::Nothing)
            },
            Message::Player(request) => self.player.update(request),
        }
    }

    /// Takes the engine's answer to `Command::Start`: see `Player::started`.
    pub fn started(&mut self, reply: Result<(), PlaybackError>) -> (command: Result<
        Command,
        PlaybackError,
    >)
        ensures
            final(self)@.player == old(self)@.player.after_start(outcome_of(reply)),
            final(self)@.explorer == old(self)@.explorer,
            reply matches Err(e) ==> command == Err::<Command, PlaybackError>(e),
            reply is Ok ==> command == Ok::<Command, PlaybackError>(
                if old(self)@.player.starting {
                    Command::SetVolume { percent: old(self)@.player.volume }
                } else {
                    Command::Nothing
                },
            ),
    {
        self.player.started(reply)
    }
}

} // verus!
