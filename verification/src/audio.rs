use vstd::prelude::*;

use crate::file_manager::{
    books_view, chapter_at, chapter_index_at, clone_books, lemma_chapter_at, Book, BookView,
    Books, Chapter, ChapterView,
};

pub mod mod_ff;

verus! {

/// The state of the player as plain values: the books folder, its books and the book
/// that is open, if any.
pub struct LibraryView {
    pub folder: Seq<char>,
    pub books: Seq<BookView>,
    pub current: Option<BookView>,
}

/// The books of a folder and the book that is open for listening. The audio of the open
/// book is played outside the library; the functions that need its position take it as
/// an argument.
pub struct Player {
    folder: String,
    books: Vec<Book>,
    current_book: Option<Book>,
}

impl View for Player {
    type V = LibraryView;

    closed spec fn view(&self) -> LibraryView {
        LibraryView {
            folder: self.folder@,
            books: books_view(self.books@),
            current: match self.current_book {
                Some(b) => Some(b@),
                None => None,
            },
        }
    }
}

/// The state after opening the book at `index`; unchanged where there is no such book.
pub open spec fn select_spec(v: LibraryView, index: int) -> LibraryView {
    if 0 <= index < v.books.len() {
        LibraryView { current: Some(v.books[index]), ..v }
    } else {
        v
    }
}

/// What opening the book at `index` asks of the audio player: the file to play and the
/// position to start at; none where there is no such book.
pub open spec fn load_spec(v: LibraryView, index: int) -> Option<(Seq<char>, i64)> {
    if 0 <= index < v.books.len() {
        Some((v.books[index].file, v.books[index].time))
    } else {
        None
    }
}

/// The index of the first book with the given title, if any.
pub open spec fn first_with_title(books: Seq<BookView>, title: Seq<char>) -> Option<int>
    decreases books.len(),
{
    if books.len() == 0 {
        None
    } else {
        match first_with_title(books.drop_last(), title) {
            Some(i) => Some(i),
            None => if books.last().title == title {
                Some(books.len() - 1)
            } else {
                None
            },
        }
    }
}

/// The state after closing the open book at audio position `position`: the first book
/// with its title keeps that position, and no book is open any more. Unchanged where no
/// book is open.
pub open spec fn close_spec(v: LibraryView, position: i64) -> LibraryView {
    match v.current {
        None => v,
        Some(b) => LibraryView {
            folder: v.folder,
            books: match first_with_title(v.books, b.title) {
                Some(i) => v.books.update(i, BookView { time: position, ..v.books[i] }),
                None => v.books,
            },
            current: None,
        },
    }
}

/// The chapter of the open book that holds the position, if a book is open and one does.
pub open spec fn current_chapter_spec(v: LibraryView, position: i64) -> Option<ChapterView> {
    match v.current {
        None => None,
        Some(b) => match chapter_at(b.chapters, position) {
            Some(i) => Some(b.chapters[i]),
            None => None,
        },
    }
}

proof fn lemma_first_with_title(books: Seq<BookView>, title: Seq<char>)
    ensures
        match first_with_title(books, title) {
            Some(i) => 0 <= i < books.len() && books[i].title == title
                && forall|j: int| 0 <= j < i ==> (#[trigger] books[j]).title != title,
            None => forall|j: int| 0 <= j < books.len() ==> (#[trigger] books[j]).title != title,
        },
    decreases books.len(),
{
    if books.len() > 0 {
        let rest = books.drop_last();
        lemma_first_with_title(rest, title);
        assert(books.last() == books[books.len() - 1]);
        match first_with_title(rest, title) {
            Some(i) => {
                assert(rest[i] == books[i]);
                assert forall|j: int| 0 <= j < i implies (#[trigger] books[j]).title != title by {
                    assert(rest[j] == books[j]);
                }
            },
            None => {
                assert forall|j: int| 0 <= j < books.len() - 1 implies (#[trigger] books[j]).title != title by {
                    assert(rest[j] == books[j]);
                }
            },
        }
    }
}

proof fn lemma_first_with_title_prefix(books: Seq<BookView>, title: Seq<char>, n: int)
    requires
        0 <= n <= books.len(),
        first_with_title(books.take(n), title) is Some,
    ensures
        first_with_title(books, title) == first_with_title(books.take(n), title),
    decreases books.len() - n,
{
    if n < books.len() {
        assert(books.take(n + 1).drop_last() =~= books.take(n));
        lemma_first_with_title_prefix(books, title, n + 1);
    } else {
        assert(books.take(n) =~= books);
    }
}

/// Opening a book, closing it at an audio position and opening it again starts it at
/// that position, where no book before it in the list has its title; closing leaves no
/// book open and every other book as it was.
pub proof fn lemma_reopen_resumes_at_closing_position(v: LibraryView, index: int, position: i64)
    requires
        0 <= index < v.books.len(),
        forall|j: int| 0 <= j < index ==> (#[trigger] v.books[j]).title != v.books[index].title,
    ensures
        load_spec(close_spec(select_spec(v, index), position), index) == Some((v.books[index].file, position)),
        close_spec(select_spec(v, index), position).current is None,
        close_spec(select_spec(v, index), position).books.len() == v.books.len(),
        forall|j: int| 0 <= j < v.books.len() && j != index
            ==> #[trigger] close_spec(select_spec(v, index), position).books[j] == v.books[j],
{
    lemma_first_with_title(v.books, v.books[index].title);
    let opened = select_spec(v, index);
    assert(opened.books == v.books);
    assert(first_with_title(v.books, v.books[index].title) == Some(index));
}

/// The scheme part of a local file's URI.
pub open spec fn file_scheme() -> Seq<char> {
    seq!['f', 'i', 'l', 'e', ':', '/', '/']
}

/// The URI the audio player is given for a local file: `file://` followed by the file's
/// absolute path.
pub fn file_uri(path: &str) -> (uri: String)
    ensures
        uri@ == file_scheme() + path@,
{
    proof {
        reveal_strlit("file://");
    }
    let mut uri = String::from_str("file://");
    assert(uri@ =~= file_scheme());
    uri.append(path);
    uri
}

impl Player {
    /// A player over the books of a folder, with no book open.
    pub fn new(books: Books) -> (player: Player)
        ensures
            player@ == (LibraryView { folder: books.path@, books: books_view(books.list@), current: None }),
    {
        Player { folder: books.path, books: books.list, current_book: None }
    }

    /// The titles of the books, in order.
    pub fn get_titles(&self) -> (titles: Vec<String>)
        ensures
            titles@.len() == self@.books.len(),
            forall|i: int| 0 <= i < titles@.len() ==> #[trigger] titles@[i]@ == self@.books[i].title,
    {
        let mut titles: Vec<String> = Vec::new();
        let mut i: usize = 0;
        while i < self.books.len()
            invariant
                i <= self.books@.len(),
                titles@.len() == i,
                forall|j: int| 0 <= j < i ==> #[trigger] titles@[j]@ == self.books@[j].title@,
            decreases self.books@.len() - i,
        {
            titles.push(self.books[i].title.clone());
            i = i + 1;
        }
        titles
    }

    /// Opens the book at `index`: returns the file to play and the position to start at.
    /// Does nothing and returns `None` where there is no such book.
    pub fn select_book(&mut self, index: usize) -> (load: Option<(String, i64)>)
        ensures
            final(self)@ == select_spec(old(self)@, index as int),
            match load {
                Some((file, time)) => load_spec(old(self)@, index as int) == Some((file@, time)),
                None => load_spec(old(self)@, index as int) is None,
            },
    {
        if index < self.books.len() {
            let book = self.books[index].clone();
            let load = (book.file.clone(), book.time);
            self.current_book = Some(book);
            Some(load)
        } else {
            None
        }
    }

    /// The title and length of each chapter of the open book, or `None` where no book
    /// is open.
    pub fn get_chapters(&self) -> (chapters: Option<Vec<(String, i64)>>)
        ensures
            match (chapters, self@.current) {
                (Some(cs), Some(b)) => cs@.len() == b.chapters.len() && forall|i: int|
                    0 <= i < cs@.len() ==> (#[trigger] cs@[i]).0@ == b.chapters[i].title
                        && cs@[i].1 == b.chapters[i].duration,
                (None, None) => true,
                _ => false,
            },
    {
        match &self.current_book {
            None => None,
            Some(book) => {
                let mut chapters: Vec<(String, i64)> = Vec::new();
                let mut i: usize = 0;
                while i < book.chapters.len()
                    invariant
                        i <= book.chapters@.len(),
                        chapters@.len() == i,
                        forall|j: int| 0 <= j < i ==> (#[trigger] chapters@[j]).0@ == book.chapters@[j].title@
                            && chapters@[j].1 == book.chapters@[j].duration,
                    decreases book.chapters@.len() - i,
                {
                    let c = &book.chapters[i];
                    chapters.push((c.title.clone(), c.duration));
                    i = i + 1;
                }
                Some(chapters)
            },
        }
    }

    /// The position to seek to for the chapter at `index` of the open book: its start.
    /// `None` where no book is open or it has no such chapter.
    pub fn set_chapter(&self, index: usize) -> (seek: Option<i64>)
        ensures
            match self@.current {
                Some(b) if (index as int) < b.chapters.len() => seek == Some(b.chapters[index as int].start),
                _ => seek is None,
            },
    {
        match &self.current_book {
            Some(book) => {
                if index < book.chapters.len() {
                    Some(book.chapters[index].start)
                } else {
                    None
                }
            },
            None => None,
        }
    }

    /// The title of the open book, if any.
    pub fn get_current_book_title(&self) -> (title: Option<String>)
        ensures
            match (title, self@.current) {
                (Some(t), Some(b)) => t@ == b.title,
                (None, None) => true,
                _ => false,
            },
    {
        match &self.current_book {
            Some(book) => Some(book.title.clone()),
            None => None,
        }
    }

    /// The chapter of the open book that holds the audio position `position`: the first
    /// one that starts at or before it and ends after it.
    pub fn get_current_chapter(&self, position: i64) -> (chapter: Option<Chapter>)
        ensures
            match chapter {
                Some(c) => current_chapter_spec(self@, position) == Some(c@),
                None => current_chapter_spec(self@, position) is None,
            },
    {
        match &self.current_book {
            Some(book) => match chapter_index_at(&book.chapters, position) {
                Some(i) => {
                    proof {
                        lemma_chapter_at(book@.chapters, position);
                    }
                    let c = book.chapters[i].clone();
                    assert(c@ == book@.chapters[i as int]);
                    Some(c)
                },
                None => None,
            },
            None => None,
        }
    }

    /// The title of the chapter of the open book that holds the audio position.
    pub fn get_current_chapter_title(&self, position: i64) -> (title: Option<String>)
        ensures
            match title {
                Some(t) => current_chapter_spec(self@, position) matches Some(c) && t@ == c.title,
                None => current_chapter_spec(self@, position) is None,
            },
    {
        match self.get_current_chapter(position) {
            Some(chapter) => Some(chapter.title),
            None => None,
        }
    }

    /// The length of the chapter of the open book that holds the audio position, and how
    /// far into it the position is.
    pub fn get_current_chapter_duration_and_position(&self, position: i64) -> (res: Option<(i64, i64)>)
        requires
            current_chapter_spec(self@, position) matches Some(c) ==> position - c.start <= i64::MAX,
        ensures
            match res {
                Some((duration, offset)) => current_chapter_spec(self@, position) matches Some(c)
                    && duration == c.duration && offset == position - c.start,
                None => current_chapter_spec(self@, position) is None,
            },
    {
        match &self.current_book {
            Some(book) => match chapter_index_at(&book.chapters, position) {
                Some(i) => {
                    proof {
                        lemma_chapter_at(book@.chapters, position);
                    }
                    let c = &book.chapters[i];
                    Some((c.duration, position - c.start))
                },
                None => None,
            },
            None => None,
        }
    }

    /// The start and end of the chapter of the open book that holds the audio position.
    pub fn get_current_chapter_start_and_end(&self, position: i64) -> (res: Option<(i64, i64)>)
        ensures
            match res {
                Some((start, end)) => current_chapter_spec(self@, position) matches Some(c)
                    && start == c.start && end == c.end,
                None => current_chapter_spec(self@, position) is None,
            },
    {
        match self.get_current_chapter(position) {
            Some(chapter) => Some((chapter.start, chapter.end)),
            None => None,
        }
    }

    /// Closes the open book at audio position `position`: the first book with its title
    /// keeps that position. Returns the books to save, or `None`, changing nothing,
    /// where no book is open.
    pub fn close_book(&mut self, position: i64) -> (to_save: Option<Books>)
        ensures
            final(self)@ == close_spec(old(self)@, position),
            match to_save {
                Some(books) => old(self)@.current is Some && books.path@ == final(self)@.folder
                    && books_view(books.list@) == final(self)@.books,
                None => old(self)@.current is None,
            },
    {
        let current = match &self.current_book {
            None => {
                return None;
            },
            Some(book) => book.title.clone(),
        };
        let ghost old_books = books_view(self.books@);
        let mut i: usize = 0;
        let mut found: Option<usize> = None;
        while i < self.books.len() && found.is_none()
            invariant
                i <= self.books@.len(),
                old_books == books_view(self.books@),
                found is None ==> first_with_title(old_books.take(i as int), current@) is None,
                found matches Some(k) ==> k < old_books.len() && first_with_title(old_books, current@) == Some(k as int),
            decreases self.books@.len() - i,
        {
            assert(old_books.take(i as int + 1).drop_last() =~= old_books.take(i as int));
            if self.books[i].title.eq(&current) {
                proof {
                    lemma_first_with_title_prefix(old_books, current@, i as int + 1);
                }
                found = Some(i);
            }
            i = i + 1;
        }
        if found.is_none() {
            assert(old_books.take(i as int) =~= old_books);
        }
        let mut books = clone_books(&self.books);
        match found {
            Some(k) => {
                let mut b = books[k].clone();
                b.time = position;
                let ghost before = books@;
                books.set(k, b);
                proof {
                    assert(books@ == before.update(k as int, b));
                    assert(books_view(books@) =~= old_books.update(k as int, BookView { time: position, ..old_books[k as int] }));
                }
            },
            None => {},
        }
        let saved = Books { path: self.folder.clone(), list: clone_books(&books) };
        *self = Player { folder: self.folder.clone(), books, current_book: None };
        Some(saved)
    }
}

} // verus!
