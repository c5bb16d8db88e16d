use vstd::prelude::*;

use std::collections::VecDeque;

verus! {

/// What happens to a song when the player moves past it.
#[derive(Debug, PartialEq, Eq, Structural, Clone, Copy)]
pub enum Loop {
    /// The song plays again.
    Single,
    /// The song goes to the end of the playlist.
    Playlist,
    /// The song leaves the playlist.
    Queue,
}

#[derive(Debug, PartialEq, Eq, Structural, Clone, Copy)]
pub enum Status {
    Running,
    Stopped,
    Paused,
}

/// What the audio player is told to do.
#[derive(Debug, PartialEq, Eq, Structural, Clone, Copy)]
pub enum PlayerCommand {
    Pause,
    Resume,
}

/// An entry of the playlist: the file it plays, if it has one.
#[derive(Debug, Clone)]
pub struct Song {
    pub file: Option<String>,
}

impl Song {
    pub fn duplicate(&self) -> (r: Song)
        ensures
            r == *self,
    {
        match &self.file {
            Some(f) => Song { file: Some(f.clone()) },
            None => Song { file: None },
        }
    }
}

/// Events of the user interface that come from outside the widgets.
#[derive(Debug, PartialEq, Eq, Structural, Clone, Copy, PartialOrd)]
pub enum UserEvent {
    QuitApp,
}

/// A source of user events.
pub struct HotkeyHandler {}

impl HotkeyHandler {
    pub fn new() -> (r: Self) {
        HotkeyHandler {  }
    }

    /// The next user event: the handler asks to quit.
    pub fn poll(&mut self) -> (r: Option<UserEvent>)
        ensures
            r == Some(UserEvent::QuitApp),
    {
        Some(UserEvent::QuitApp)
    }
}

/// The playback state: the playlist, how it loops, and what plays.
pub struct Model {
    pub playlist_items: VecDeque<Song>,
    pub loop_mode: Loop,
    pub status: Option<Status>,
    pub time_pos: i64,
    pub current_song: Option<Song>,
}

/// The playlist after its first song was taken to play, under `mode`.
pub open spec fn after_next(items: Seq<Song>, mode: Loop) -> Seq<Song> {
    match mode {
        Loop::Playlist => items.drop_first().push(items[0]),
        Loop::Single => items,
        Loop::Queue => items.drop_first(),
    }
}

/// The playlist with its last song moved to the front.
pub open spec fn rotate_back(items: Seq<Song>) -> Seq<Song> {
    seq![items.last()] + items.drop_last()
}

impl Model {
    /// Moves to the next song of the playlist, if there is one, and
    /// returns the file to play.
    pub fn player_next(&mut self) -> (r: Option<String>)
        ensures
            old(self).playlist_items@.len() == 0 ==> *final(self) == *old(self) && r is None,
            old(self).playlist_items@.len() > 0 ==> {
                let song = old(self).playlist_items@[0];
                &&& final(self).playlist_items@ == after_next(
                    old(self).playlist_items@,
                    old(self).loop_mode,
                )
                &&& final(self).loop_mode == old(self).loop_mode
                &&& final(self).time_pos == 0
                &&& final(self).status == Some(Status::Running)
                &&& final(self).current_song == Some(song)
                &&& r == song.file
            },
    {
        if self.playlist_items.len() == 0 {
            return None;
        }
        self.time_pos = 0;
        self.status = Some(Status::Running);
        let ghost items = self.playlist_items@;
        let song = self.playlist_items.pop_front().unwrap();
        let file = match &song.file {
            Some(f) => Some(f.clone()),
            None => None,
        };
        match self.loop_mode {
            Loop::Playlist => self.playlist_items.push_back(song.duplicate()),
            Loop::Single => self.playlist_items.push_front(song.duplicate()),
            Loop::Queue => {},
        }
        assert(self.playlist_items@ =~= after_next(items, self.loop_mode));
        self.current_song = Some(song);
        file
    }

    /// Moves back to the song before the current one and returns the file
    /// to play; a playlist that does not loop as a whole stays as it is.
    pub fn player_previous(&mut self) -> (r: Option<String>)
        ensures
            (old(self).loop_mode != Loop::Playlist || old(self).playlist_items@.len() == 0) ==> *final(self) == *old(self) && r is None,
            old(self).loop_mode == Loop::Playlist && old(self).playlist_items@.len() > 0 ==> {
                let items = rotate_back(rotate_back(old(self).playlist_items@));
                &&& final(self).playlist_items@ == after_next(items, Loop::Playlist)
                &&& final(self).loop_mode == Loop::Playlist
                &&& final(self).time_pos == 0
                &&& final(self).status == Some(Status::Running)
                &&& final(self).current_song == Some(items[0])
                &&& r == items[0].file
            },
    {
        if self.loop_mode != Loop::Playlist {
            return None;
        }
        if self.playlist_items.len() == 0 {
            return None;
        }
        let ghost first = self.playlist_items@;
        let song = self.playlist_items.pop_back().unwrap();
        self.playlist_items.push_front(song);
        assert(self.playlist_items@ =~= rotate_back(first));
        let ghost second = self.playlist_items@;
        let song = self.playlist_items.pop_back().unwrap();
        self.playlist_items.push_front(song);
        assert(self.playlist_items@ =~= rotate_back(second));
        self.player_next()
    }

    /// Pauses a playing player or resumes a paused one; `paused` is the
    /// player's state.
    pub fn player_toggle_pause(&mut self, paused: bool) -> (r: PlayerCommand)
        ensures
            paused ==> r == PlayerCommand::Resume && final(self).status == Some(Status::Running),
            !paused ==> r == PlayerCommand::Pause && final(self).status == Some(Status::Paused),
            final(self).playlist_items@ == old(self).playlist_items@,
            final(self).current_song == old(self).current_song,
    {
        if paused {
            self.status = Some(Status::Running);
            PlayerCommand::Resume
        } else {
            self.status = Some(Status::Paused);
            PlayerCommand::Pause
        }
    }
}

} // verus!
