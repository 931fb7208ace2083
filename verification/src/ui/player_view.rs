use vstd::prelude::*;

use crate::file_manager::{
    chapter_at, chapter_index_at, lemma_chapter_at, Book, BookView, ChapterView,
};
use crate::util::{time_int_to_string, time_text};

verus! {

/// What the player shows of the chapter that holds the position: its title, how far
/// into it the position is, its length, and that offset as hours, minutes and seconds.
pub struct ChapterDisplay {
    pub title: String,
    pub position: i64,
    pub duration: i64,
    pub label: String,
}

/// What the player shows for the book at `position`, as plain values: none where no
/// chapter holds the position.
pub open spec fn display_at(b: BookView, position: i64) -> Option<(Seq<char>, i64, i64, Seq<char>)> {
    match chapter_at(b.chapters, position) {
        Some(i) => {
            let c = b.chapters[i];
            let offset = (position - c.start) as i64;
            Some((c.title, offset, c.duration, time_text(offset as u64)))
        },
        None => None,
    }
}

/// How far into the chapter that holds `position` the position is fits an `i64`.
pub open spec fn offset_fits(b: BookView, position: i64) -> bool {
    chapter_at(b.chapters, position) matches Some(i) ==> position - b.chapters[i].start <= i64::MAX
}

/// The display holds the plain values `d`.
pub open spec fn shows(display: Option<ChapterDisplay>, d: Option<(Seq<char>, i64, i64, Seq<char>)>) -> bool {
    match (display, d) {
        (Some(x), Some(y)) => x.title@ == y.0 && x.position == y.1 && x.duration == y.2 && x.label@ == y.3,
        (None, None) => true,
        _ => false,
    }
}

/// What a press of the play button asks of the audio player.
pub enum PlayAction {
    /// Pause the audio.
    Pause,
    /// Play the audio from `seek`.
    Play { seek: i64 },
}

/// The result of a seek: the position to seek the audio to, and what to show for it.
pub struct Seek {
    pub position: i64,
    pub display: Option<ChapterDisplay>,
}

/// The position after seeking 30 seconds back: never before 0.
pub open spec fn backward_spec(position: i64) -> i64 {
    if position > 30 {
        (position - 30) as i64
    } else {
        0
    }
}

/// The position after seeking 30 seconds ahead in audio of length `duration`: never past
/// its end.
pub open spec fn forward_spec(position: i64, duration: i64) -> i64 {
    if position < duration - 30 {
        (position + 30) as i64
    } else {
        duration
    }
}

/// The position 30 seconds back from `position`, no earlier than 0.
pub fn backward_position(position: i64) -> (res: i64)
    ensures
        res == backward_spec(position),
{
    if position > 30 {
        position - 30
    } else {
        0
    }
}

/// The position 30 seconds ahead of `position` in audio of length `duration`, no later
/// than its end.
pub fn forward_position(position: i64, duration: i64) -> (res: i64)
    requires
        duration >= i64::MIN + 30,
    ensures
        res == forward_spec(position, duration),
{
    if position < duration - 30 {
        position + 30
    } else {
        duration
    }
}

/// The book the player shows, and where listening is in it.
pub struct PlayerView {
    book_info: Book,
}

impl View for PlayerView {
    type V = BookView;

    closed spec fn view(&self) -> BookView {
        self.book_info@
    }
}

/// The book with its position set to `time`.
pub open spec fn at_time(b: BookView, time: i64) -> BookView {
    BookView { time: time, ..b }
}

fn display(book: &Book, position: i64) -> (d: Option<ChapterDisplay>)
    requires
        offset_fits(book@, position),
    ensures
        shows(d, display_at(book@, position)),
{
    match chapter_index_at(&book.chapters, position) {
        Some(i) => {
            proof {
                lemma_chapter_at(book@.chapters, position);
            }
            let c = &book.chapters[i];
            let offset = position - c.start;
            Some(ChapterDisplay {
                title: c.title.clone(),
                position: offset,
                duration: c.duration,
                label: time_int_to_string(offset as u64),
            })
        },
        None => None,
    }
}

impl PlayerView {
    /// A player showing no book: an empty one at position 0.
    pub fn new() -> (view: PlayerView)
        ensures
            view@ == (BookView { file: Seq::empty(), title: Seq::empty(), chapters: Seq::empty(), time: 0 }),
    {
        PlayerView { book_info: Book::default() }
    }

    /// Shows `book`; returns what to show for the chapter at its position.
    pub fn initialize_book(&mut self, book: Book) -> (d: Option<ChapterDisplay>)
        requires
            offset_fits(book@, book@.time),
        ensures
            final(self)@ == book@,
            shows(d, display_at(book@, book@.time)),
    {
        let d = display(&book, book.time);
        self.book_info = book;
        d
    }

    /// The book shown, or `None` where its file is empty (no book was given).
    pub fn get_book(&self) -> (book: Option<Book>)
        ensures
            match book {
                Some(b) => self@.file.len() != 0 && b@ == self@,
                None => self@.file.len() == 0,
            },
    {
        if self.book_info.file.as_str().unicode_len() == 0 {
            return None;
        }
        Some(self.book_info.clone())
    }

    /// Leaves the book: where the audio was `playing`, keeps the audio position
    /// `position` (read once the audio is paused) and returns `true` to have the audio
    /// paused; else changes nothing.
    pub fn drop_book(&mut self, playing: bool, position: i64) -> (pause: bool)
        ensures
            pause == playing,
            final(self)@ == (if playing { at_time(old(self)@, position) } else { old(self)@ }),
    {
        if playing {
            self.book_info.time = position;
        }
        playing
    }

    /// A press of the play button: where the audio was `playing`, it is paused and the
    /// position `position` (read once paused) is kept; else the audio plays from the kept
    /// position.
    pub fn toggle_play(&mut self, playing: bool, position: i64) -> (action: PlayAction)
        ensures
            playing ==> final(self)@ == at_time(old(self)@, position) && action is Pause,
            !playing ==> final(self)@ == old(self)@ && action == (PlayAction::Play { seek: old(self)@.time }),
    {
        if playing {
            self.book_info.time = position;
            PlayAction::Pause
        } else {
            PlayAction::Play { seek: self.book_info.time }
        }
    }

    /// A tick of the progress timer: where the audio is `playing`, keeps its position
    /// and returns what to show for it; else changes nothing and shows nothing.
    pub fn tick(&mut self, playing: bool, position: i64) -> (d: Option<ChapterDisplay>)
        requires
            playing ==> offset_fits(old(self)@, position),
        ensures
            playing ==> final(self)@ == at_time(old(self)@, position) && shows(d, display_at(old(self)@, position)),
            !playing ==> final(self)@ == old(self)@ && d is None,
    {
        if playing {
            let d = display(&self.book_info, position);
            self.book_info.time = position;
            d
        } else {
            None
        }
    }

    /// Moves to `position`: keeps it and returns what to show for it.
    pub fn set_position(&mut self, position: i64) -> (d: Option<ChapterDisplay>)
        requires
            offset_fits(old(self)@, position),
        ensures
            final(self)@ == at_time(old(self)@, position),
            shows(d, display_at(old(self)@, position)),
    {
        let d = display(&self.book_info, position);
        self.book_info.time = position;
        d
    }

    /// Seeks 30 seconds back from the audio position `position`, to no earlier than 0.
    pub fn seek_backward(&mut self, position: i64) -> (seek: Seek)
        requires
            offset_fits(old(self)@, backward_spec(position)),
        ensures
            seek.position == backward_spec(position),
            0 <= seek.position,
            final(self)@ == at_time(old(self)@, seek.position),
            shows(seek.display, display_at(old(self)@, seek.position)),
    {
        let position = backward_position(position);
        let display = self.set_position(position);
        Seek { position, display }
    }

    /// Seeks 30 seconds ahead from the audio position `position` in audio of length
    /// `duration`, to no later than its end.
    pub fn seek_forward(&mut self, position: i64, duration: i64) -> (seek: Seek)
        requires
            duration >= i64::MIN + 30,
            offset_fits(old(self)@, forward_spec(position, duration)),
        ensures
            seek.position == forward_spec(position, duration),
            seek.position <= duration,
            final(self)@ == at_time(old(self)@, seek.position),
            shows(seek.display, display_at(old(self)@, seek.position)),
    {
        let position = forward_position(position, duration);
        let display = self.set_position(position);
        Seek { position, display }
    }

    /// Whether how far into its chapter `position` is fits an `i64`, as showing the
    /// position needs.
    pub fn offset_in_range(&self, position: i64) -> (res: bool)
        ensures
            res == offset_fits(self@, position),
    {
        match chapter_index_at(&self.book_info.chapters, position) {
            Some(i) => {
                proof {
                    lemma_chapter_at(self.book_info@.chapters, position);
                }
                let start = self.book_info.chapters[i].start;
                start >= 0 || position <= i64::MAX + start
            },
            None => true,
        }
    }

    /// The chapter that holds the audio position `position`: its title, start, end and
    /// length.
    pub fn chapter_at_position(&self, position: i64) -> (c: Option<(String, i64, i64, i64)>)
        ensures
            match c {
                Some((title, start, end, duration)) => chapter_at(self@.chapters, position) matches Some(i)
                    && self@.chapters[i] == (ChapterView { title: title@, start, end, duration }),
                None => chapter_at(self@.chapters, position) is None,
            },
    {
        match chapter_index_at(&self.book_info.chapters, position) {
            Some(i) => {
                proof {
                    lemma_chapter_at(self.book_info@.chapters, position);
                }
                let ch = &self.book_info.chapters[i];
                Some((ch.title.clone(), ch.start, ch.end, ch.duration))
            },
            None => None,
        }
    }

    /// The progress bar was moved to `offset` seconds into the chapter that holds the
    /// audio position `position`: returns the position to seek the audio to, the
    /// chapter's start plus `offset`, and keeps it. Changes nothing where no chapter
    /// holds the position.
    pub fn seek_in_chapter(&mut self, position: i64, offset: i64) -> (target: Option<i64>)
        requires
            chapter_at(old(self)@.chapters, position) matches Some(i)
                ==> old(self)@.chapters[i].start + offset <= i64::MAX,
            chapter_at(old(self)@.chapters, position) matches Some(i)
                ==> old(self)@.chapters[i].start + offset >= i64::MIN,
        ensures
            match chapter_at(old(self)@.chapters, position) {
                Some(i) => target == Some((old(self)@.chapters[i].start + offset) as i64)
                    && final(self)@ == at_time(old(self)@, (old(self)@.chapters[i].start + offset) as i64),
                None => target is None && final(self)@ == old(self)@,
            },
    {
        match chapter_index_at(&self.book_info.chapters, position) {
            Some(i) => {
                proof {
                    lemma_chapter_at(self.book_info@.chapters, position);
                }
                let new_position = self.book_info.chapters[i].start + offset;
                self.book_info.time = new_position;
                Some(new_position)
            },
            None => None,
        }
    }
}

/// Seeking back moves exactly 30 seconds from a position after 30, else goes to 0;
/// seeking ahead moves exactly 30 seconds where that stays before the end, else goes to
/// the end.
pub proof fn lemma_seek_steps(position: i64, duration: i64)
    ensures
        position > 30 ==> backward_spec(position) == position - 30,
        position <= 30 ==> backward_spec(position) == 0,
        position + 30 < duration ==> forward_spec(position, duration) == position + 30,
        position + 30 >= duration ==> forward_spec(position, duration) == duration,
{
}

} // verus!
