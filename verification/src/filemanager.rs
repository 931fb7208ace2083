use vstd::prelude::*;

use crate::file_name::{
    extension, extension_of, file_stem, file_stem_of, is_parent_name, lemma_name_splits_at_last_dot,
};

verus! {

/// A chapter of a book: its title and where it starts and ends, in seconds.
pub struct Chapter {
    pub title: String,
    pub start: i64,
    pub end: i64,
}

/// What a chapter holds, as plain values.
pub struct ChapterView {
    pub title: Seq<char>,
    pub start: i64,
    pub end: i64,
}

impl View for Chapter {
    type V = ChapterView;

    open spec fn view(&self) -> ChapterView {
        ChapterView { title: self.title@, start: self.start, end: self.end }
    }
}

impl Clone for Chapter {
    fn clone(&self) -> (res: Self)
        ensures
            res@ == self@,
    {
        Chapter { title: self.title.clone(), start: self.start, end: self.end }
    }
}

/// The views of a list of chapters.
pub open spec fn chapters_view(chapters: Seq<Chapter>) -> Seq<ChapterView> {
    chapters.map_values(|c: Chapter| c@)
}

proof fn lemma_chapters_view_push(s: Seq<Chapter>, c: Chapter)
    ensures
        chapters_view(s.push(c)) == chapters_view(s).push(c@),
{
    assert(chapters_view(s.push(c)) =~= chapters_view(s).push(c@));
}

/// Copies a list of chapters.
pub fn clone_chapters(chapters: &Vec<Chapter>) -> (res: Vec<Chapter>)
    ensures
        chapters_view(res@) == chapters_view(chapters@),
{
    let mut res: Vec<Chapter> = Vec::new();
    let mut i: usize = 0;
    while i < chapters.len()
        invariant
            i <= chapters@.len(),
            chapters_view(res@) == chapters_view(chapters@.take(i as int)),
        decreases chapters@.len() - i,
    {
        let c = chapters[i].clone();
        proof {
            lemma_chapters_view_push(res@, c);
        }
        res.push(c);
        assert(chapters@.take(i as int + 1) =~= chapters@.take(i as int).push(chapters@[i as int]));
        proof {
            lemma_chapters_view_push(chapters@.take(i as int), chapters@[i as int]);
        }
        i = i + 1;
    }
    assert(chapters@.take(i as int) =~= chapters@);
    res
}

/// An audio book: its file, its title, its chapters and the position, in seconds,
/// at which listening stopped.
pub struct Book {
    pub file: String,
    pub title: String,
    pub chapters: Vec<Chapter>,
    pub time: u64,
}

/// What a book holds, as plain values.
pub struct BookView {
    pub file: Seq<char>,
    pub title: Seq<char>,
    pub chapters: Seq<ChapterView>,
    pub time: u64,
}

impl View for Book {
    type V = BookView;

    open spec fn view(&self) -> BookView {
        BookView {
            file: self.file@,
            title: self.title@,
            chapters: chapters_view(self.chapters@),
            time: self.time,
        }
    }
}

impl Clone for Book {
    fn clone(&self) -> (res: Self)
        ensures
            res@ == self@,
    {
        Book {
            file: self.file.clone(),
            title: self.title.clone(),
            chapters: clone_chapters(&self.chapters),
            time: self.time,
        }
    }
}

/// The views of a list of books.
pub open spec fn books_view(books: Seq<Book>) -> Seq<BookView> {
    books.map_values(|b: Book| b@)
}

proof fn lemma_books_view_push(s: Seq<Book>, b: Book)
    ensures
        books_view(s.push(b)) == books_view(s).push(b@),
{
    assert(books_view(s.push(b)) =~= books_view(s).push(b@));
}

/// A chapter as the media container lists it: its title where its metadata has one,
/// and where it starts and ends, in thousandths of a second.
pub struct MediaChapter {
    pub title: Option<String>,
    pub start: i64,
    pub end: i64,
}

/// `value / 1000`, rounded toward zero.
pub open spec fn thousandths_to_secs(value: i64) -> i64 {
    if value >= 0 {
        (value / 1000) as i64
    } else {
        (-((-value) / 1000)) as i64
    }
}

/// The chapter of the book for a chapter of the media container.
pub open spec fn chapter_of_media(c: MediaChapter) -> ChapterView {
    ChapterView {
        title: match c.title {
            Some(t) => t@,
            None => Seq::empty(),
        },
        start: thousandths_to_secs(c.start),
        end: thousandths_to_secs(c.end),
    }
}

/// The book for the audio file at path `file`, with file name `name`, whose media
/// container lists `chapters` (`None` where it could not be opened): its title is the
/// stem of the file name, or empty where there is no file name.
pub open spec fn book_of(file: Seq<char>, name: Option<Seq<char>>, chapters: Option<Seq<MediaChapter>>) -> BookView {
    BookView {
        file: file,
        title: match name {
            Some(n) => file_stem_of(n),
            None => Seq::empty(),
        },
        chapters: match chapters {
            Some(cs) => cs.map_values(|c: MediaChapter| chapter_of_media(c)),
            None => Seq::empty(),
        },
        time: 0,
    }
}

/// Builds the book for the audio file at `file`, whose file name is `file_name`, from
/// the chapters that its media container lists, `None` where it could not be opened.
pub fn get_book(file: &str, file_name: Option<&str>, chapters: Option<&Vec<MediaChapter>>) -> (book: Book)
    ensures
        book@ == book_of(
            file@,
            match file_name { Some(n) => Some(n@), None => None },
            match chapters { Some(cs) => Some(cs@), None => None },
        ),
{
    let mut list: Vec<Chapter> = Vec::new();
    if let Some(cs) = chapters {
        let mut i: usize = 0;
        while i < cs.len()
            invariant
                i <= cs@.len(),
                list@.len() == i,
                forall|j: int| 0 <= j < i ==> #[trigger] list@[j]@ == chapter_of_media(cs@[j]),
            decreases cs@.len() - i,
        {
            let c = &cs[i];
            let title = match &c.title {
                Some(t) => t.clone(),
                None => String::new(),
            };
            list.push(Chapter { title, start: c.start / 1000, end: c.end / 1000 });
            i = i + 1;
        }
        assert(chapters_view(list@) =~= cs@.map_values(|c: MediaChapter| chapter_of_media(c)));
    } else {
        assert(chapters_view(list@) =~= Seq::<ChapterView>::empty());
    }
    let title = match file_name {
        Some(n) => file_stem(n),
        None => String::new(),
    };
    Book { file: String::from_str(file), title, chapters: list, time: 0 }
}

/// The books of `saved` with the given title, in their order.
pub open spec fn with_title(saved: Seq<BookView>, title: Seq<char>) -> Seq<BookView>
    decreases saved.len(),
{
    if saved.len() == 0 {
        Seq::empty()
    } else if saved.last().title == title {
        with_title(saved.drop_last(), title).push(saved.last())
    } else {
        with_title(saved.drop_last(), title)
    }
}

/// The list of books for the books found in the folder, in their order: each found book
/// is replaced by the saved books with its title, or kept where no saved book has it.
pub open spec fn merged_books(found: Seq<BookView>, saved: Seq<BookView>) -> Seq<BookView>
    decreases found.len(),
{
    if found.len() == 0 {
        Seq::empty()
    } else {
        let before = merged_books(found.drop_last(), saved);
        let b = found.last();
        let same = with_title(saved, b.title);
        if same.len() == 0 {
            before.push(b)
        } else {
            before + same
        }
    }
}

/// Puts `book` in `books`, replaced by the saved books with its title where there are any.
fn merge_book(books: &mut Vec<Book>, book: Book, saved: &Vec<Book>)
    ensures
        books_view(final(books)@) == books_view(old(books)@) + (if with_title(books_view(saved@), book@.title).len() == 0 {
            seq![book@]
        } else {
            with_title(books_view(saved@), book@.title)
        }),
{
    let ghost start = books_view(books@);
    let mut found = false;
    let mut i: usize = 0;
    while i < saved.len()
        invariant
            i <= saved@.len(),
            books_view(books@) == start + with_title(books_view(saved@.take(i as int)), book@.title),
            found == (with_title(books_view(saved@.take(i as int)), book@.title).len() != 0),
        decreases saved@.len() - i,
    {
        let p = &saved[i];
        assert(saved@.take(i as int + 1).drop_last() =~= saved@.take(i as int));
        assert(books_view(saved@.take(i as int + 1)).drop_last() =~= books_view(saved@.take(i as int)));
        assert(books_view(saved@.take(i as int + 1)).last() == p@);
        if p.title.eq(&book.title) {
            let c = p.clone();
            proof {
                lemma_books_view_push(books@, c);
            }
            books.push(c);
            found = true;
        }
        i = i + 1;
    }
    assert(saved@.take(i as int) =~= saved@);
    if !found {
        proof {
            lemma_books_view_push(books@, book);
        }
        books.push(book);
    }
}

/// The merged list of books for the books found in the folder and the saved ones: each
/// found book is replaced by the saved books with its title, or kept where none has it.
pub fn merge_books(found: &Vec<Book>, saved: &Vec<Book>) -> (books: Vec<Book>)
    ensures
        books_view(books@) == merged_books(books_view(found@), books_view(saved@)),
{
    let mut books: Vec<Book> = Vec::new();
    let mut i: usize = 0;
    while i < found.len()
        invariant
            i <= found@.len(),
            books_view(books@) == merged_books(books_view(found@.take(i as int)), books_view(saved@)),
        decreases found@.len() - i,
    {
        let b = found[i].clone();
        assert(found@.take(i as int + 1).drop_last() =~= found@.take(i as int));
        assert(books_view(found@.take(i as int + 1)).drop_last() =~= books_view(found@.take(i as int)));
        assert(books_view(found@.take(i as int + 1)).last() == b@);
        merge_book(&mut books, b, saved);
        i = i + 1;
    }
    assert(found@.take(i as int) =~= found@);
    books
}

/// The file name has the extension `m4b`.
pub open spec fn is_book_name(name: Seq<char>) -> bool {
    extension_of(name) == Some(seq!['m', '4', 'b'])
}

/// Whether the file with this name is an audio book, by its extension.
pub fn is_book_file(name: &str) -> (res: bool)
    ensures
        res == is_book_name(name@),
{
    proof {
        reveal_strlit("m4b");
    }
    match extension(name) {
        None => false,
        Some(e) => {
            let m4b = String::from_str("m4b");
            assert(m4b@ =~= seq!['m', '4', 'b']);
            e.eq(&m4b)
        },
    }
}

/// A file of the books folder: its path, its file name and the chapters its media
/// container lists, `None` where it could not be opened.
pub struct BookFile {
    pub path: String,
    pub name: String,
    pub chapters: Option<Vec<MediaChapter>>,
}

/// The books found in a folder whose files are `files`, in this order.
pub open spec fn found_books(files: Seq<BookFile>) -> Seq<BookView>
    decreases files.len(),
{
    if files.len() == 0 {
        Seq::empty()
    } else {
        let before = found_books(files.drop_last());
        let f = files.last();
        if is_book_name(f.name@) {
            before.push(book_of(f.path@, Some(f.name@), match f.chapters { Some(cs) => Some(cs@), None => None }))
        } else {
            before
        }
    }
}

/// Gathers the books of a folder from its files, in the order given, and merges them
/// with the saved books.
pub fn init_dir(files: &Vec<BookFile>, saved: &Vec<Book>) -> (books: Vec<Book>)
    ensures
        books_view(books@) == merged_books(found_books(files@), books_view(saved@)),
{
    let mut found: Vec<Book> = Vec::new();
    let mut i: usize = 0;
    while i < files.len()
        invariant
            i <= files@.len(),
            books_view(found@) == found_books(files@.take(i as int)),
        decreases files@.len() - i,
    {
        let f = &files[i];
        assert(files@.take(i as int + 1).drop_last() =~= files@.take(i as int));
        if is_book_file(f.name.as_str()) {
            let chapters = match &f.chapters {
                Some(cs) => Some(cs),
                None => None,
            };
            let book = get_book(f.path.as_str(), Some(f.name.as_str()), chapters);
            proof {
                lemma_books_view_push(found@, book);
            }
            found.push(book);
        }
        i = i + 1;
    }
    assert(files@.take(i as int) =~= files@);
    merge_books(&found, saved)
}

/// No two books of the list have the same title.
pub open spec fn distinct_titles(books: Seq<BookView>) -> bool {
    forall|i: int, j: int| 0 <= i < books.len() && 0 <= j < books.len() && i != j ==> books[i].title != books[j].title
}

proof fn lemma_with_title_none(saved: Seq<BookView>, title: Seq<char>)
    requires
        forall|j: int| 0 <= j < saved.len() ==> (#[trigger] saved[j]).title != title,
    ensures
        with_title(saved, title) == Seq::<BookView>::empty(),
    decreases saved.len(),
{
    if saved.len() > 0 {
        let rest = saved.drop_last();
        assert forall|j: int| 0 <= j < rest.len() implies (#[trigger] rest[j]).title != title by {
            assert(rest[j] == saved[j]);
        }
        lemma_with_title_none(rest, title);
        assert(saved.last() == saved[saved.len() - 1]);
    }
}

proof fn lemma_with_title_one(saved: Seq<BookView>, k: int)
    requires
        0 <= k < saved.len(),
        forall|j: int| 0 <= j < saved.len() && j != k ==> (#[trigger] saved[j]).title != saved[k].title,
    ensures
        with_title(saved, saved[k].title) == seq![saved[k]],
    decreases saved.len(),
{
    let rest = saved.drop_last();
    assert(saved.last() == saved[saved.len() - 1]);
    if k == saved.len() - 1 {
        assert forall|j: int| 0 <= j < rest.len() implies (#[trigger] rest[j]).title != saved[k].title by {
            assert(rest[j] == saved[j]);
        }
        lemma_with_title_none(rest, saved[k].title);
        assert(Seq::<BookView>::empty().push(saved[k]) =~= seq![saved[k]]);
    } else {
        assert forall|j: int| 0 <= j < rest.len() && j != k implies (#[trigger] rest[j]).title != rest[k].title by {
            assert(rest[j] == saved[j]);
        }
        lemma_with_title_one(rest, k);
    }
}

proof fn lemma_merge_prefix_with_own_list(books: Seq<BookView>, n: int)
    requires
        distinct_titles(books),
        0 <= n <= books.len(),
    ensures
        merged_books(books.take(n), books) == books.take(n),
    decreases n,
{
    if n > 0 {
        lemma_merge_prefix_with_own_list(books, n - 1);
        assert(books.take(n).drop_last() =~= books.take(n - 1));
        assert(books.take(n).last() == books[n - 1]);
        lemma_with_title_one(books, n - 1);
        assert(books.take(n - 1) + seq![books[n - 1]] =~= books.take(n));
    }
}

/// Merging books whose titles all differ with themselves as the saved books gives them
/// back unchanged: a scan that finds the books that were just saved keeps them as saved.
pub proof fn lemma_merge_with_own_list(books: Seq<BookView>)
    requires
        distinct_titles(books),
    ensures
        merged_books(books, books) == books,
{
    lemma_merge_prefix_with_own_list(books, books.len() as int);
    assert(books.take(books.len() as int) =~= books);
}

/// A found book that no saved book shares a title with is kept as it was found.
pub proof fn lemma_merge_keeps_new_book(found: Seq<BookView>, saved: Seq<BookView>)
    requires
        found.len() > 0,
        forall|j: int| 0 <= j < saved.len() ==> (#[trigger] saved[j]).title != found.last().title,
    ensures
        merged_books(found, saved) == merged_books(found.drop_last(), saved).push(found.last()),
{
    lemma_with_title_none(saved, found.last().title);
}

/// A file named by a non-empty stem, a `.` and an ending without dots is an audio book
/// exactly where the ending is `m4b`, whatever dots the stem holds.
pub proof fn lemma_book_file_by_ending(stem: Seq<char>, ending: Seq<char>)
    requires
        stem.len() > 0,
        forall|i: int| 0 <= i < ending.len() ==> ending[i] != '.',
    ensures
        is_book_name(stem + seq!['.'] + ending) <==> ending == seq!['m', '4', 'b'],
{
    let name = stem + seq!['.'] + ending;
    if is_parent_name(name) {
        assert(name.len() == 2);
        assert(ending.len() == 0);
    } else {
        lemma_name_splits_at_last_dot(stem, ending);
    }
}

} // verus!
