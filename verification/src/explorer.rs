//! Navigation through the directories of the library: the directory that is
//! open, its listing, and where each request of the user leads.
//!
//! The explorer reads no directory itself. For a request that opens a
//! directory, `Explorer::target` says which one; the caller reads it and
//! hands what it found to `Explorer::update` along with the request.

pub mod dir;
pub mod format;
pub mod listing;
pub mod path;

use vstd::prelude::*;

use dir::{child_views, Child, ChildView, DirContent, DirContents, Entry};
use listing::listing;
use path::{parent, parent_of};

verus! {

/// An entry of the listing that the user has picked, by its path.
#[derive(Debug, Clone, PartialEq, Eq)]
pub enum Selected {
    Dir(String),
    File(String),
}

/// A request of the user to the explorer.
#[derive(Debug, Clone, PartialEq, Eq)]
pub enum Message {
    /// Go to the parent of the open directory.
    BackDir,
    /// Open the directory whose path was typed.
    InputChanged(String),
    /// Open the picked directory, or play the picked file.
    Selected(Selected),
}

/// The directory that is open and its listing.
#[derive(Debug)]
pub struct Explorer {
    input: String,
    dirs: DirContents,
}

/// An `Explorer` as the rules see it.
pub struct ExplorerView {
    /// The path of the open directory.
    pub input: Seq<char>,
    /// The listing of the open directory.
    pub listing: Seq<Entry>,
}

impl View for Explorer {
    type V = ExplorerView;

    closed spec fn view(&self) -> ExplorerView {
        ExplorerView { input: self.input@, listing: self.dirs@ }
    }
}

/// The explorer with the directory `path` open, whose children are
/// `children`.
pub open spec fn opened(path: Seq<char>, children: Seq<ChildView>) -> ExplorerView {
    ExplorerView { input: path, listing: listing(path, children) }
}

/// The directory that `message` opens, if it opens one: the typed or picked
/// directory, or the parent of the open one where it has a parent.
pub open spec fn target_of(state: ExplorerView, message: Message) -> Option<Seq<char>> {
    match message {
        Message::BackDir => parent_of(state.input),
        Message::InputChanged(input) => Some(input@),
        Message::Selected(Selected::Dir(dir)) => Some(dir@),
        Message::Selected(Selected::File(_)) => None,
    }
}

/// The explorer after `message`, where `children` are the children of the
/// directory that the message opens. A message that opens none changes
/// nothing.
pub open spec fn step(state: ExplorerView, message: Message, children: Seq<ChildView>) -> ExplorerView {
    match target_of(state, message) {
        Some(path) => opened(path, children),
        None => state,
    }
}

/// The audio file that `message` asks to be played, if it asks for one.
pub open spec fn track_of(message: Message) -> Option<Seq<char>> {
    match message {
        Message::Selected(Selected::File(track)) => Some(track@),
        _ => None,
    }
}

/// The message that picking `entry` sends: its path, as a directory or as a
/// file.
pub open spec fn picks(message: Message, entry: Entry) -> bool {
    match message {
        Message::Selected(Selected::Dir(path)) => entry.kind is Dir && path@ == entry.path,
        Message::Selected(Selected::File(path)) => entry.kind is AudioFile && path@ == entry.path,
        _ => false,
    }
}

impl Default for Explorer {
    /// The explorer at the empty path, with nothing listed.
    fn default() -> (explorer: Explorer)
        ensures
            explorer@ == (ExplorerView { input: Seq::<char>::empty(), listing: Seq::<Entry>::empty() }),
    {
        Explorer::starting_at(None)
    }
}

impl Explorer {
    /// The explorer at the directory `dir`, which is where the user keeps
    /// music, or at the empty path where no such directory is known. The
    /// listing is empty: the directory has yet to be read, see `update`.
    pub fn starting_at(dir: Option<String>) -> (explorer: Explorer)
        ensures
            explorer@.listing == Seq::<Entry>::empty(),
            explorer@.input == match dir {
                Some(path) => path@,
                None => Seq::<char>::empty(),
            },
    {
        let input: String = match dir {
            Some(path) => path,
            None => String::new(),
        };
        Explorer { input, dirs: DirContents::default() }
    }

    /// The explorer with the directory `path` open, of which the file system
    /// reports the entries `children`.
    pub fn new(path: String, children: &[Child]) -> (explorer: Explorer)
        ensures
            explorer@ == opened(path@, child_views(children@)),
    {
        let dirs: DirContents = DirContents::new(path.as_str(), children);
        Explorer { input: path, dirs }
    }

    /// The path of the open directory.
    pub fn input(&self) -> (input: &str)
        ensures
            input@ == self@.input,
    {
        self.input.as_str()
    }

    /// The listing of the open directory.
    pub fn dirs(&self) -> (dirs: &DirContents)
        ensures
            dirs@ == self@.listing,
    {
        &self.dirs
    }

    /// The directory that `message` opens, if it opens one. Its children are
    /// what `update` is to be given along with the message.
    pub fn target(&self, message: &Message) -> (path: Option<String>)
        ensures
            path is Some <==> target_of(self@, *message) is Some,
            path matches Some(p) ==> target_of(self@, *message) == Some(p@),
            *message is BackDir && (self@.input.len() == 0 || self@.input == seq!['/'])
                ==> path is None,
    {
        match message {
            Message::BackDir => parent(self.input.as_str()),
            Message::InputChanged(input) => Some(input.clone()),
            Message::Selected(Selected::Dir(dir)) => Some(dir.clone()),
            Message::Selected(Selected::File(_)) => None,
        }
    }

    /// Opens the directory `path`, of which the file system reports the
    /// entries `children`.
    pub fn set_path(&mut self, path: String, children: &[Child])
        ensures
            final(self)@ == opened(path@, child_views(children@)),
    {
        self.dirs = DirContents::new(path.as_str(), children);
        self.input = path;
    }

    /// Goes to the parent of the open directory, whose children are
    /// `children`. Where the open directory has no parent, as the root and
    /// the empty path have none, nothing changes.
    pub fn navigate_up(&mut self, children: &[Child])
        ensures
            final(self)@ == step(old(self)@, Message::BackDir, child_views(children@)),
            old(self)@.input.len() == 0 || old(self)@.input == seq!['/'] ==> final(self)@ == old(
                self,
            )@,
    {
        match parent(self.input.as_str()) {
            Some(up) => self.set_path(up, children),
            None => {},
        }
    }

    /// Carries out `message`, where `children` are the entries that the file
    /// system reports of the directory that the message opens (see `target`;
    /// they are not looked at where it opens none). Returns the path of the
    /// audio file that the message asks to be played, if it asks for one.
    pub fn update(&mut self, message: Message, children: &[Child]) -> (track: Option<String>)
        ensures
            final(self)@ == step(old(self)@, message, child_views(children@)),
            track is Some <==> track_of(message) is Some,
            track matches Some(t) ==> track_of(message) == Some(t@),
            message is BackDir && (old(self)@.input.len() == 0 || old(self)@.input == seq!['/'])
                ==> final(self)@ == old(self)@,
    {
        match message {
            Message::BackDir => {
                self.navigate_up(children);
                None
            },
            Message::InputChanged(input) => {
                self.set_path(input, children);
                None
            },
            Message::Selected(Selected::Dir(dir)) => {
                self.set_path(dir, children);
                None
            },
            Message::Selected(Selected::File(track)) => Some(track),
        }
    }

    /// The message that picking the entry `entry` sends.
    pub fn select(entry: &DirContent) -> (message: Message)
        ensures
            picks(message, entry@),
    {
        let path: String = entry.path().to_owned();
        if entry.is_dir() {
            Message::Selected(Selected::Dir(path))
        } else {
            Message::Selected(Selected::File(path))
        }
    }
}

/// Going back opens the parent of the open directory, with the same outcome
/// as the request that names the parent; where the open directory has no
/// parent, going back changes nothing.
pub proof fn lemma_back_opens_parent(state: ExplorerView, up: String, children: Seq<ChildView>)
    ensures
        step(state, Message::BackDir, children) == match parent_of(state.input) {
            Some(path) => opened(path, children),
            None => state,
        },
        parent_of(state.input) == Some(up@) ==> step(state, Message::BackDir, children) == step(
            state,
            Message::InputChanged(up),
            children,
        ),
{
}

/// Picking a directory opens it, and picking an audio file leaves the
/// explorer as it is and asks for the file to be played.
pub proof fn lemma_picking(state: ExplorerView, message: Message, entry: Entry, children: Seq<ChildView>)
    requires
        picks(message, entry),
    ensures
        entry.kind is Dir ==> step(state, message, children) == opened(entry.path, children)
            && track_of(message) is None,
        entry.kind is AudioFile ==> step(state, message, children) == state && track_of(message)
            == Some(entry.path),
{
}

} // verus!
