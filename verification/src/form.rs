//! The parts of the terminal interface: its screens, the fields of its form, and its keys.
use crate::path_completion::PathCompletionMode;
use crate::torrent::{completes_locally, TorrentSource};
use vstd::prelude::*;

verus! {

/// Where keys go.
#[derive(Clone, Copy, Debug, PartialEq, Eq, Structural)]
pub enum FocusArea {
    Menu,
    Content,
}

/// Which way completions are stepped through.
#[derive(Clone, Copy, Debug, PartialEq, Eq, Structural)]
pub enum CompletionDirection {
    Forward,
    Backward,
}

/// A key of the keyboard, as far as the interface tells keys apart.
#[derive(Clone, Copy, Debug, PartialEq, Eq, Structural)]
pub enum KeyCode {
    Left,
    Right,
    Up,
    Down,
    Esc,
    Enter,
    Tab,
    BackTab,
    Backspace,
    Delete,
    F(u8),
    Char(char),
    Other,
}

/// A key that was pressed, and whether the keys Control and Alt were held.
#[derive(Clone, Copy, Debug, PartialEq, Eq, Structural)]
pub struct Key {
    pub code: KeyCode,
    pub control: bool,
    pub alt: bool,
}

// ---------------------------------------------------------------------------------------------
// Fields
// ---------------------------------------------------------------------------------------------

/// A field of the form that queues a torrent.
#[derive(Clone, Copy, Debug, PartialEq, Eq, Structural)]
pub enum FormField {
    TorrentSource,
    DownloadDir,
}

/// What the completions of a field are called.
pub open spec fn subject_of(field: FormField) -> Seq<char> {
    match field {
        FormField::TorrentSource => "source path"@,
        FormField::DownloadDir => "directory path"@,
    }
}

/// What is completed in a field.
pub open spec fn mode_of(field: FormField) -> PathCompletionMode {
    match field {
        FormField::TorrentSource => PathCompletionMode::TorrentFile,
        FormField::DownloadDir => PathCompletionMode::Directory,
    }
}

/// The title of a field.
pub open spec fn title_of(field: FormField) -> Seq<char> {
    match field {
        FormField::TorrentSource => "Torrent source"@,
        FormField::DownloadDir => "Output directory"@,
    }
}

/// The short title of a field.
pub open spec fn short_title_of(field: FormField) -> Seq<char> {
    match field {
        FormField::TorrentSource => "Source"@,
        FormField::DownloadDir => "Directory"@,
    }
}

/// What an empty field shows.
pub open spec fn placeholder_of(field: FormField) -> Seq<char> {
    match field {
        FormField::TorrentSource =>
            "Example: ./movie.torrent, https://site/file.torrent, or magnet:?..."@,
        FormField::DownloadDir => "Example: ~/downloads"@,
    }
}

/// The other field.
pub open spec fn other_field(field: FormField) -> FormField {
    match field {
        FormField::TorrentSource => FormField::DownloadDir,
        FormField::DownloadDir => FormField::TorrentSource,
    }
}

/// Whether paths are completed in a field that holds `input`: always in that of a directory, and
/// in that of a source unless it holds a magnet link or a URL.
pub open spec fn field_completes(field: FormField, input: Seq<char>) -> bool {
    field == FormField::DownloadDir || completes_locally(input)
}

impl FormField {
    /// The field behind this one, the first behind the last.
    pub fn next(self) -> (field: FormField)
        ensures
            field == other_field(self),
    {
        match self {
            FormField::TorrentSource => FormField::DownloadDir,
            FormField::DownloadDir => FormField::TorrentSource,
        }
    }

    /// The field in front of this one, the last in front of the first.
    pub fn previous(self) -> (field: FormField)
        ensures
            field == other_field(self),
    {
        self.next()
    }

    /// The title of the field.
    pub fn title(self) -> (title: &'static str)
        ensures
            title@ == title_of(self),
    {
        match self {
            FormField::TorrentSource => "Torrent source",
            FormField::DownloadDir => "Output directory",
        }
    }

    /// The short title of the field.
    pub fn short_title(self) -> (title: &'static str)
        ensures
            title@ == short_title_of(self),
    {
        match self {
            FormField::TorrentSource => "Source",
            FormField::DownloadDir => "Directory",
        }
    }

    /// What the field shows while it is empty.
    pub fn placeholder(self) -> (text: &'static str)
        ensures
            text@ == placeholder_of(self),
    {
        match self {
            FormField::TorrentSource =>
                "Example: ./movie.torrent, https://site/file.torrent, or magnet:?...",
            FormField::DownloadDir => "Example: ~/downloads",
        }
    }

    /// What the completions of the field are called.
    pub fn completion_subject(self) -> (subject: &'static str)
        ensures
            subject@ == subject_of(self),
    {
        match self {
            FormField::TorrentSource => "source path",
            FormField::DownloadDir => "directory path",
        }
    }

    /// What is completed in the field.
    pub fn completion_mode(self) -> (mode: PathCompletionMode)
        ensures
            mode == mode_of(self),
    {
        match self {
            FormField::TorrentSource => PathCompletionMode::TorrentFile,
            FormField::DownloadDir => PathCompletionMode::Directory,
        }
    }

    /// Whether paths are completed in the field while it holds `current_input`.
    pub fn supports_local_completion(self, current_input: &str) -> (res: bool)
        ensures
            res == field_completes(self, current_input@),
    {
        match self {
            FormField::TorrentSource => TorrentSource::supports_local_completion(current_input),
            FormField::DownloadDir => true,
        }
    }
}

// ---------------------------------------------------------------------------------------------
// Screens
// ---------------------------------------------------------------------------------------------

/// A screen of the interface.
#[derive(Clone, Copy, Debug, PartialEq, Eq, Structural)]
pub enum Screen {
    AddTorrent,
    Downloads,
    Server,
}

/// The place of a screen in the menu.
pub open spec fn index_of(screen: Screen) -> usize {
    match screen {
        Screen::AddTorrent => 0,
        Screen::Downloads => 1,
        Screen::Server => 2,
    }
}

/// The screen at a place of the menu, the first one for a place that the menu does not have.
pub open spec fn screen_at(index: usize) -> Screen {
    if index == 1 {
        Screen::Downloads
    } else if index == 2 {
        Screen::Server
    } else {
        Screen::AddTorrent
    }
}

/// What the menu calls a screen.
pub open spec fn screen_title(screen: Screen) -> Seq<char> {
    match screen {
        Screen::AddTorrent => "Choose torrent source"@,
        Screen::Downloads => "Downloads"@,
        Screen::Server => "Server"@,
    }
}

/// The screen above another in the menu; the first one for itself.
pub open spec fn screen_above(screen: Screen) -> Screen {
    match screen {
        Screen::AddTorrent => Screen::AddTorrent,
        Screen::Downloads => Screen::AddTorrent,
        Screen::Server => Screen::Downloads,
    }
}

/// The screen below another in the menu; the last one for itself.
pub open spec fn screen_below(screen: Screen) -> Screen {
    match screen {
        Screen::AddTorrent => Screen::Downloads,
        Screen::Downloads => Screen::Server,
        Screen::Server => Screen::Server,
    }
}

impl Screen {
    /// The screens in the order of the menu.
    pub fn all() -> (screens: [Screen; 3])
        ensures
            screens@ == seq![Screen::AddTorrent, Screen::Downloads, Screen::Server],
            forall|i: usize| i < 3 ==> screens@[i as int] == #[trigger] screen_at(i),
    {
        let screens = [Screen::AddTorrent, Screen::Downloads, Screen::Server];
        assert(screens@ =~= seq![Screen::AddTorrent, Screen::Downloads, Screen::Server]);
        screens
    }

    /// The screen at a place of the menu.
    pub fn from_index(index: usize) -> (screen: Screen)
        ensures
            screen == screen_at(index),
    {
        match index {
            1 => Screen::Downloads,
            2 => Screen::Server,
            _ => Screen::AddTorrent,
        }
    }

    /// The place of the screen in the menu.
    pub fn index(self) -> (index: usize)
        ensures
            index == index_of(self),
    {
        match self {
            Screen::AddTorrent => 0,
            Screen::Downloads => 1,
            Screen::Server => 2,
        }
    }

    /// What the menu calls the screen.
    pub fn title(self) -> (title: &'static str)
        ensures
            title@ == screen_title(self),
    {
        match self {
            Screen::AddTorrent => "Choose torrent source",
            Screen::Downloads => "Downloads",
            Screen::Server => "Server",
        }
    }
}

/// The menu finds every screen at its place.
pub proof fn screens_are_found_at_their_places(screen: Screen)
    ensures
        screen_at(index_of(screen)) == screen,
        index_of(screen) < 3,
{
}

/// Stepping between the fields twice comes back to the first.
pub proof fn fields_alternate(field: FormField)
    ensures
        other_field(field) != field,
        other_field(other_field(field)) == field,
{
}

} // verus!
