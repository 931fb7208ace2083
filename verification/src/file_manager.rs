use vstd::prelude::*;

use crate::file_name::{
    extension, extension_of, file_stem, file_stem_of, is_parent_name, lemma_name_splits_at_last_dot,
};

verus! {

/// A chapter of a book: its title and where it lies in the book, in seconds.
#[derive(Debug)]
pub struct Chapter {
    pub title: String,
    pub start: i64,
    pub end: i64,
    pub duration: i64,
}

/// What a chapter holds, as plain values.
pub struct ChapterView {
    pub title: Seq<char>,
    pub start: i64,
    pub end: i64,
    pub duration: i64,
}

impl View for Chapter {
    type V = ChapterView;

    open spec fn view(&self) -> ChapterView {
        ChapterView { title: self.title@, start: self.start, end: self.end, duration: self.duration }
    }
}

impl Clone for Chapter {
    fn clone(&self) -> (res: Self)
        ensures
            res@ == self@,
    {
        Chapter { title: self.title.clone(), start: self.start, end: self.end, duration: self.duration }
    }
}

impl Default for Chapter {
    fn default() -> (res: Self)
        ensures
            res@ == (ChapterView { title: Seq::empty(), start: 0, end: 0, duration: 0 }),
    {
        Chapter { title: String::new(), start: 0, end: 0, duration: 0 }
    }
}

/// The views of a list of chapters.
pub open spec fn chapters_view(chapters: Seq<Chapter>) -> Seq<ChapterView> {
    chapters.map_values(|c: Chapter| c@)
}

proof fn lemma_chapters_view_push(s: Seq<Chapter>, c: Chapter)
    ensures
        chapters_view(s.push(c)) == chapters_view(s).push(c@),
{
    assert(chapters_view(s.push(c)) =~= chapters_view(s).push(c@));
}

/// Copies a list of chapters.
pub fn clone_chapters(chapters: &Vec<Chapter>) -> (res: Vec<Chapter>)
    ensures
        chapters_view(res@) == chapters_view(chapters@),
{
    let mut res: Vec<Chapter> = Vec::new();
    let mut i: usize = 0;
    while i < chapters.len()
        invariant
            i <= chapters@.len(),
            chapters_view(res@) == chapters_view(chapters@.take(i as int)),
        decreases chapters@.len() - i,
    {
        let c = chapters[i].clone();
        proof {
            lemma_chapters_view_push(res@, c);
            lemma_chapters_view_push(chapters@.take(i as int), chapters@[i as int]);
        }
        res.push(c);
        assert(chapters@.take(i as int + 1) =~= chapters@.take(i as int).push(chapters@[i as int]));
        i = i + 1;
    }
    assert(chapters@.take(i as int) =~= chapters@);
    res
}

/// An audio book: its file, its title, its chapters and the position, in seconds,
/// at which listening stopped.
#[derive(Debug)]
pub struct Book {
    pub file: String,
    pub title: String,
    pub chapters: Vec<Chapter>,
    pub time: i64,
}

/// What a book holds, as plain values.
pub struct BookView {
    pub file: Seq<char>,
    pub title: Seq<char>,
    pub chapters: Seq<ChapterView>,
    pub time: i64,
}

impl View for Book {
    type V = BookView;

    open spec fn view(&self) -> BookView {
        BookView {
            file: self.file@,
            title: self.title@,
            chapters: chapters_view(self.chapters@),
            time: self.time,
        }
    }
}

impl Clone for Book {
    fn clone(&self) -> (res: Self)
        ensures
            res@ == self@,
    {
        Book {
            file: self.file.clone(),
            title: self.title.clone(),
            chapters: clone_chapters(&self.chapters),
            time: self.time,
        }
    }
}

impl Default for Book {
    fn default() -> (res: Self)
        ensures
            res@ == (BookView { file: Seq::empty(), title: Seq::empty(), chapters: Seq::empty(), time: 0 }),
    {
        let res = Book { file: String::new(), title: String::new(), chapters: Vec::new(), time: 0 };
        assert(res@.chapters =~= Seq::<ChapterView>::empty());
        res
    }
}

/// A chapter lies after the book's start: it starts at or after 0, ends at or after its
/// start, and lasts from its start to its end.
pub open spec fn chapter_wf(c: ChapterView) -> bool {
    0 <= c.start <= c.end && c.duration == c.end - c.start
}

/// Every chapter of the book lies after the book's start.
pub open spec fn book_wf(b: BookView) -> bool {
    forall|i: int| 0 <= i < b.chapters.len() ==> chapter_wf(#[trigger] b.chapters[i])
}

/// The views of a list of books.
pub open spec fn books_view(books: Seq<Book>) -> Seq<BookView> {
    books.map_values(|b: Book| b@)
}

proof fn lemma_books_view_push(s: Seq<Book>, b: Book)
    ensures
        books_view(s.push(b)) == books_view(s).push(b@),
{
    assert(books_view(s.push(b)) =~= books_view(s).push(b@));
}

/// Copies a list of books.
pub fn clone_books(books: &Vec<Book>) -> (res: Vec<Book>)
    ensures
        books_view(res@) == books_view(books@),
{
    let mut res: Vec<Book> = Vec::new();
    let mut i: usize = 0;
    while i < books.len()
        invariant
            i <= books@.len(),
            books_view(res@) == books_view(books@.take(i as int)),
        decreases books@.len() - i,
    {
        let b = books[i].clone();
        proof {
            lemma_books_view_push(res@, b);
            lemma_books_view_push(books@.take(i as int), books@[i as int]);
        }
        res.push(b);
        assert(books@.take(i as int + 1) =~= books@.take(i as int).push(books@[i as int]));
        i = i + 1;
    }
    assert(books@.take(i as int) =~= books@);
    res
}

/// The books found in a folder.
pub struct Books {
    pub path: String,
    pub list: Vec<Book>,
}

impl Books {
    /// The titles of the books, in order.
    pub fn titles(&self) -> (titles: Vec<String>)
        ensures
            titles@.len() == self.list@.len(),
            forall|i: int| 0 <= i < titles@.len() ==> #[trigger] titles@[i]@ == self.list@[i].title@,
    {
        let mut titles: Vec<String> = Vec::new();
        let mut i: usize = 0;
        while i < self.list.len()
            invariant
                i <= self.list@.len(),
                titles@.len() == i,
                forall|j: int| 0 <= j < i ==> #[trigger] titles@[j]@ == self.list@[j].title@,
            decreases self.list@.len() - i,
        {
            titles.push(self.list[i].title.clone());
            i = i + 1;
        }
        titles
    }

    /// A copy of the book at `index`, or `None` where there is no such book.
    pub fn book_at(&self, index: usize) -> (book: Option<Book>)
        ensures
            match book {
                Some(b) => (index as int) < self.list@.len() && b@ == self.list@[index as int]@,
                None => index as int >= self.list@.len(),
            },
    {
        if index < self.list.len() {
            Some(self.list[index].clone())
        } else {
            None
        }
    }
}

/// A chapter as an audio file's tag describes it: its title, where it starts and how
/// long it lasts, in whole seconds.
pub struct TagChapter {
    pub title: String,
    pub start_secs: u64,
    pub duration_secs: u64,
}

/// What the logic reads of an audio file's tag: its chapters, the length of the audio
/// in whole seconds where the tag gives it, and its title where it has one.
pub struct TagInfo {
    pub chapters: Vec<TagChapter>,
    pub duration_secs: Option<u64>,
    pub title: Option<String>,
}

/// A chapter mark of an audio file's tag: the title of a chapter and where it starts,
/// in whole seconds. A chapter lasts until the next mark, the last one until the end of
/// the audio.
pub struct ChapterMark {
    pub title: String,
    pub start_secs: u64,
}

/// `a - b`, or 0 where `b` is larger.
pub open spec fn minus_or_zero(a: u64, b: u64) -> u64 {
    if a >= b {
        (a - b) as u64
    } else {
        0
    }
}

/// The chapter described by the mark at `i`, in audio of length `total_secs`: it lasts
/// until the next mark starts, the last one until the end of the audio (no time where
/// that lies before its start).
pub open spec fn chapter_of_marks(marks: Seq<ChapterMark>, total_secs: u64, i: int) -> TagChapter {
    TagChapter {
        title: marks[i].title,
        start_secs: marks[i].start_secs,
        duration_secs: if i + 1 < marks.len() {
            minus_or_zero(marks[i + 1].start_secs, marks[i].start_secs)
        } else {
            minus_or_zero(total_secs, marks[i].start_secs)
        },
    }
}

/// The chapters of a tag that gives chapter marks and the length of the audio.
pub fn tag_chapters(marks: &Vec<ChapterMark>, total_secs: u64) -> (chapters: Vec<TagChapter>)
    ensures
        chapters@.len() == marks@.len(),
        forall|i: int| 0 <= i < chapters@.len() ==> {
            let c = chapter_of_marks(marks@, total_secs, i);
            &&& (#[trigger] chapters@[i]).title@ == c.title@
            &&& chapters@[i].start_secs == c.start_secs
            &&& chapters@[i].duration_secs == c.duration_secs
        },
{
    let mut chapters: Vec<TagChapter> = Vec::new();
    let n = marks.len();
    let mut i: usize = 0;
    while i < n
        invariant
            n == marks@.len(),
            i <= n,
            chapters@.len() == i,
            forall|j: int| 0 <= j < i ==> {
                let c = chapter_of_marks(marks@, total_secs, j);
                &&& (#[trigger] chapters@[j]).title@ == c.title@
                &&& chapters@[j].start_secs == c.start_secs
                &&& chapters@[j].duration_secs == c.duration_secs
            },
        decreases n - i,
    {
        let start = marks[i].start_secs;
        let end = if i + 1 < n {
            marks[i + 1].start_secs
        } else {
            total_secs
        };
        let duration = if end >= start {
            end - start
        } else {
            0
        };
        chapters.push(TagChapter { title: marks[i].title.clone(), start_secs: start, duration_secs: duration });
        i = i + 1;
    }
    chapters
}

/// Whether the tag's times fit the book's signed seconds (and a tag without chapters
/// gives the length of the audio), as `get_book` needs.
pub fn tag_in_range(tag: &TagInfo) -> (res: bool)
    ensures
        res == tag_fits(*tag),
{
    let max: u64 = 0x7fff_ffff_ffff_ffff;
    let mut i: usize = 0;
    while i < tag.chapters.len()
        invariant
            i <= tag.chapters@.len(),
            max == i64::MAX,
            forall|j: int| 0 <= j < i ==> #[trigger] tag.chapters@[j].start_secs + tag.chapters@[j].duration_secs <= i64::MAX,
        decreases tag.chapters@.len() - i,
    {
        let c = &tag.chapters[i];
        if c.start_secs > max || c.duration_secs > max - c.start_secs {
            return false;
        }
        i = i + 1;
    }
    if tag.chapters.len() == 0 {
        match tag.duration_secs {
            Some(d) => d <= max,
            None => false,
        }
    } else {
        true
    }
}

/// The tag's times fit the book's signed seconds, and a tag without chapters gives
/// the length of the audio.
pub open spec fn tag_fits(tag: TagInfo) -> bool {
    &&& forall|i: int|
        0 <= i < tag.chapters@.len() ==> #[trigger] tag.chapters@[i].start_secs
            + tag.chapters@[i].duration_secs <= i64::MAX
    &&& tag.chapters@.len() == 0 ==> (tag.duration_secs matches Some(d) && d <= i64::MAX)
}

/// The title of the one chapter of a book whose tag lists none.
pub open spec fn whole_book_title() -> Seq<char> {
    seq!['C', 'h', 'a', 'p', 't', 'e', 'r']
}

/// The title of a book whose tag could not be read.
pub open spec fn unknown_title() -> Seq<char> {
    seq!['U', 'n', 'k', 'n', 'o', 'w', 'n']
}

/// The chapter of the book for a chapter of the tag.
pub open spec fn chapter_of_tag(c: TagChapter) -> ChapterView {
    ChapterView {
        title: c.title@,
        start: c.start_secs as i64,
        end: (c.start_secs + c.duration_secs) as i64,
        duration: c.duration_secs as i64,
    }
}

/// The chapters of a book with the given tag: those of the tag, or, where it lists
/// none, one chapter over the whole audio.
pub open spec fn chapters_of_tag(tag: TagInfo) -> Seq<ChapterView> {
    if tag.chapters@.len() == 0 {
        let d = tag.duration_secs->0 as i64;
        seq![ChapterView { title: whole_book_title(), start: 0, end: d, duration: d }]
    } else {
        tag.chapters@.map_values(|c: TagChapter| chapter_of_tag(c))
    }
}

/// The title of a book: the tag's title, else the stem of the file name, else `Unknown`;
/// `Unknown` too where the tag could not be read.
pub open spec fn title_of(name: Option<Seq<char>>, tag: Option<TagInfo>) -> Seq<char> {
    match tag {
        None => unknown_title(),
        Some(t) => match t.title {
            Some(title) => title@,
            None => match name {
                Some(n) => file_stem_of(n),
                None => unknown_title(),
            },
        },
    }
}

/// The book for an audio file at path `file`, with file name `name` and tag `tag`
/// (`None` where the tag could not be read), before any saved position is applied.
pub open spec fn book_of(file: Seq<char>, name: Option<Seq<char>>, tag: Option<TagInfo>) -> BookView {
    BookView {
        file: file,
        title: title_of(name, tag),
        chapters: match tag {
            Some(t) => chapters_of_tag(t),
            None => Seq::empty(),
        },
        time: 0,
    }
}

/// The plain value of an optional string.
pub open spec fn opt_str(s: Option<&str>) -> Option<Seq<char>> {
    match s {
        Some(v) => Some(v@),
        None => None,
    }
}

/// Builds the book for the audio file at `file`, whose file name is `file_name`, from
/// its tag, `None` where the tag could not be read.
pub fn get_book(file: &str, file_name: Option<&str>, tag: Option<&TagInfo>) -> (book: Book)
    requires
        tag matches Some(t) ==> tag_fits(*t),
    ensures
        book@ == book_of(file@, opt_str(file_name), match tag { Some(t) => Some(*t), None => None }),
        book_wf(book@),
{
    let mut chapters: Vec<Chapter> = Vec::new();
    let mut title = String::from_str("Unknown");
    proof {
        reveal_strlit("Unknown");
        reveal_strlit("Chapter");
    }
    assert(title@ =~= unknown_title());
    if let Some(tag) = tag {
        let n = tag.chapters.len();
        let mut i: usize = 0;
        while i < n
            invariant
                n == tag.chapters@.len(),
                i <= n,
                tag_fits(*tag),
                chapters@.len() == i,
                forall|j: int| 0 <= j < i ==> #[trigger] chapters@[j]@ == chapter_of_tag(tag.chapters@[j]),
                forall|j: int| 0 <= j < i ==> chapter_wf(#[trigger] chapters@[j]@),
            decreases n - i,
        {
            let c = &tag.chapters[i];
            assert(c.start_secs + c.duration_secs <= i64::MAX);
            let start = c.start_secs as i64;
            let duration = c.duration_secs as i64;
            chapters.push(Chapter { title: c.title.clone(), start, end: start + duration, duration });
            i = i + 1;
        }
        if chapters.len() == 0 {
            let duration = match tag.duration_secs {
                Some(d) => d as i64,
                None => 0,
            };
            let whole = String::from_str("Chapter");
            assert(whole@ =~= whole_book_title());
            chapters.push(Chapter { title: whole, start: 0, end: duration, duration });
            assert(chapters_view(chapters@) =~= chapters_of_tag(*tag));
        } else {
            assert(chapters_view(chapters@) =~= chapters_of_tag(*tag));
        }
        match &tag.title {
            Some(t) => {
                title = t.clone();
            },
            None => {
                if let Some(name) = file_name {
                    title = file_stem(name);
                }
            },
        }
    } else {
        assert(chapters_view(chapters@) =~= Seq::<ChapterView>::empty());
    }
    Book { file: String::from_str(file), title, chapters, time: 0 }
}


/// The `time` of an entry of the saved positions: a number that fits an `i64`, another
/// number, or no number at all.
pub enum SavedTime {
    Integer(i64),
    OtherNumber,
    NotNumber,
}

/// An entry of the saved positions: the `file` it names, where that is a string, and
/// its `time`.
pub struct SavedEntry {
    pub file: Option<String>,
    pub time: SavedTime,
}

/// What an entry of the saved positions holds, as plain values.
pub open spec fn entry_view(e: SavedEntry) -> (Option<Seq<char>>, SavedTime) {
    (
        match e.file {
            Some(f) => Some(f@),
            None => None,
        },
        e.time,
    )
}

/// The plain values of a list of saved entries.
pub open spec fn entries_view(entries: Seq<SavedEntry>) -> Seq<(Option<Seq<char>>, SavedTime)> {
    entries.map_values(|e: SavedEntry| entry_view(e))
}

/// The position of a book in `file` after the saved entries have been applied in order
/// to the position `time`: each entry that names `file` and holds a number sets it to
/// that number (to 0 where the number does not fit an `i64`).
pub open spec fn restored_time(entries: Seq<(Option<Seq<char>>, SavedTime)>, file: Seq<char>, time: i64) -> i64
    decreases entries.len(),
{
    if entries.len() == 0 {
        time
    } else {
        let before = restored_time(entries.drop_last(), file, time);
        let e = entries.last();
        if e.0 == Some(file) {
            match e.1 {
                SavedTime::Integer(n) => n,
                SavedTime::OtherNumber => 0,
                SavedTime::NotNumber => before,
            }
        } else {
            before
        }
    }
}

/// Applies the saved positions to a book.
pub fn restore_time(book: &mut Book, entries: &Vec<SavedEntry>)
    ensures
        final(book)@ == (BookView { time: restored_time(entries_view(entries@), old(book)@.file, old(book)@.time), ..old(book)@ }),
{
    let ghost start = book.time;
    let ghost all = entries_view(entries@);
    let mut i: usize = 0;
    while i < entries.len()
        invariant
            i <= entries@.len(),
            all == entries_view(entries@),
            book@ == (BookView { time: restored_time(all.take(i as int), old(book)@.file, start), ..old(book)@ }),
            start == old(book)@.time,
        decreases entries@.len() - i,
    {
        let e = &entries[i];
        assert(all.take(i as int + 1).drop_last() =~= all.take(i as int));
        assert(all.take(i as int + 1).last() == entry_view(*e));
        if let Some(f) = &e.file {
            if f.eq(&book.file) {
                match e.time {
                    SavedTime::Integer(n) => {
                        book.time = n;
                    },
                    SavedTime::OtherNumber => {
                        book.time = 0;
                    },
                    SavedTime::NotNumber => {},
                }
            }
        }
        i = i + 1;
    }
    assert(all.take(i as int) =~= all);
}

/// A file of the books folder: its path, its file name and its tag, `None` where it
/// could not be read.
pub struct BookFile {
    pub path: String,
    pub name: String,
    pub tag: Option<TagInfo>,
}

/// The file name has one of the extensions of audio books: `m4a`, `m4b` or `3gp`.
pub open spec fn is_book_name(name: Seq<char>) -> bool {
    extension_of(name) matches Some(e) && (e == seq!['m', '4', 'a'] || e == seq!['m', '4', 'b']
        || e == seq!['3', 'g', 'p'])
}

/// Whether the file with this name is an audio book, by its extension.
pub fn is_book_file(name: &str) -> (res: bool)
    ensures
        res == is_book_name(name@),
{
    proof {
        reveal_strlit("m4a");
        reveal_strlit("m4b");
        reveal_strlit("3gp");
    }
    match extension(name) {
        None => false,
        Some(e) => {
            let m4a = String::from_str("m4a");
            let m4b = String::from_str("m4b");
            let gp3 = String::from_str("3gp");
            assert(m4a@ =~= seq!['m', '4', 'a']);
            assert(m4b@ =~= seq!['m', '4', 'b']);
            assert(gp3@ =~= seq!['3', 'g', 'p']);
            e.eq(&m4a) || e.eq(&m4b) || e.eq(&gp3)
        },
    }
}

/// Every tag in the list fits the book's times.
pub open spec fn files_fit(files: Seq<BookFile>) -> bool {
    forall|i: int| 0 <= i < files.len() ==> ((#[trigger] files[i]).tag matches Some(t) ==> tag_fits(t))
}

/// The books of a folder whose files are `files`, in this order, with the saved
/// positions `entries` applied.
pub open spec fn books_of(files: Seq<BookFile>, entries: Seq<(Option<Seq<char>>, SavedTime)>) -> Seq<BookView>
    decreases files.len(),
{
    if files.len() == 0 {
        Seq::empty()
    } else {
        let before = books_of(files.drop_last(), entries);
        let f = files.last();
        if is_book_name(f.name@) {
            let b = book_of(f.path@, Some(f.name@), f.tag);
            before.push(BookView { time: restored_time(entries, b.file, b.time), ..b })
        } else {
            before
        }
    }
}

/// Gathers the books of the folder at `folder` from its files, in the order given, and
/// applies the saved positions to them.
pub fn init_books(folder: &str, files: &Vec<BookFile>, entries: &Vec<SavedEntry>) -> (books: Books)
    requires
        files_fit(files@),
    ensures
        books.path@ == folder@,
        books_view(books.list@) == books_of(files@, entries_view(entries@)),
        forall|i: int| 0 <= i < books.list@.len() ==> book_wf(#[trigger] books.list@[i]@),
{
    let mut list: Vec<Book> = Vec::new();
    let mut i: usize = 0;
    while i < files.len()
        invariant
            i <= files@.len(),
            files_fit(files@),
            books_view(list@) == books_of(files@.take(i as int), entries_view(entries@)),
            forall|j: int| 0 <= j < list@.len() ==> book_wf(#[trigger] list@[j]@),
        decreases files@.len() - i,
    {
        let f = &files[i];
        assert(files@.take(i as int + 1).drop_last() =~= files@.take(i as int));
        if is_book_file(f.name.as_str()) {
            assert(files@[i as int].tag matches Some(t) ==> tag_fits(t)) by {
                assert(files_fit(files@));
            }
            let tag = match &f.tag {
                Some(t) => Some(t),
                None => None,
            };
            let mut book = get_book(f.path.as_str(), Some(f.name.as_str()), tag);
            restore_time(&mut book, entries);
            proof {
                lemma_books_view_push(list@, book);
            }
            list.push(book);
        }
        i = i + 1;
    }
    assert(files@.take(i as int) =~= files@);
    Books { path: String::from_str(folder), list }
}

/// The key of an entry's file in the saved positions.
pub open spec fn file_key() -> Seq<char> {
    seq!['f', 'i', 'l', 'e']
}

/// The key of an entry's position in the saved positions.
pub open spec fn time_key() -> Seq<char> {
    seq!['t', 'i', 'm', 'e']
}

/// What `serde_json` reads from the text `contents`: `None` where it is not JSON; else,
/// where it is an array, for each element the string under `file_key` (where that is a
/// string) and the number under `time_key`, and `Some(None)` where it is not an array.
pub uninterp spec fn saved_entries_of(contents: Seq<char>, file_key: Seq<char>, time_key: Seq<char>) -> Option<Option<Seq<(Option<Seq<char>>, SavedTime)>>>;

/// The JSON text that `serde_json` writes for an array holding, for each pair, an object
/// with the pair's file under `file_key` and its position under `time_key`.
pub uninterp spec fn json_text_of(pairs: Seq<(Seq<char>, i64)>, file_key: Seq<char>, time_key: Seq<char>) -> Seq<char>;

/// The saved entries that name each pair's file and hold its position as an integer.
pub open spec fn saved_of(pairs: Seq<(Seq<char>, i64)>) -> Seq<(Option<Seq<char>>, SavedTime)> {
    pairs.map_values(|p: (Seq<char>, i64)| (Some(p.0), SavedTime::Integer(p.1)))
}

/// The plain values of a list of pairs of file and position.
pub open spec fn pairs_view(pairs: Seq<(String, i64)>) -> Seq<(Seq<char>, i64)> {
    pairs.map_values(|p: (String, i64)| (p.0@, p.1))
}

/// Parses the saved positions with `serde_json::from_str` into a `serde_json::Value`, and
/// reads them: `None` where the text is not JSON, `Some(None)` where it is not an array,
/// else for each element the string under `file_key` (`Value::as_str` of the element
/// indexed by the key) and the number under `time_key` (`Number::as_i64`). The contract
/// names the result `saved_entries_of` and says no more of it.
#[verifier::external_body]
fn parse_saved_entries(contents: &str, file_key: &str, time_key: &str) -> (entries: Option<Option<Vec<SavedEntry>>>)
    ensures
        match entries {
            None => saved_entries_of(contents@, file_key@, time_key@) is None,
            Some(None) => saved_entries_of(contents@, file_key@, time_key@) == Some(None::<Seq<(Option<Seq<char>>, SavedTime)>>),
            Some(Some(v)) => saved_entries_of(contents@, file_key@, time_key@) == Some(Some(entries_view(v@))),
        },
{
    let value: serde_json::Value = serde_json::from_str(contents).ok()?;
    let items = match value {
        serde_json::Value::Array(items) => items,
        _ => return Some(None),
    };
    Some(Some(items.iter().map(|item| SavedEntry {
        file: item[file_key].as_str().map(String::from),
        time: match &item[time_key] {
            serde_json::Value::Number(n) => n.as_i64().map_or(SavedTime::OtherNumber, SavedTime::Integer),
            _ => SavedTime::NotNumber,
        },
    }).collect()))
}

/// Writes with `serde_json` (`Value::to_string`) an array holding, for each pair, an
/// object with the file under `file_key` and the position under `time_key`. The contract
/// names the text `json_text_of`, and states what `serde_json` documents of a value it
/// wrote: parsing the text back gives the same strings and integers under the same keys,
/// where the two keys differ.
#[verifier::external_body]
fn entries_json(pairs: &Vec<(String, i64)>, file_key: &str, time_key: &str) -> (text: String)
    ensures
        text@ == json_text_of(pairs_view(pairs@), file_key@, time_key@),
        file_key@ != time_key@ ==> saved_entries_of(text@, file_key@, time_key@) == Some(Some(saved_of(pairs_view(pairs@)))),
{
    let items: Vec<serde_json::Value> = pairs.iter().map(|(file, time)| {
        let mut object = serde_json::Map::new();
        object.insert(file_key.to_string(), serde_json::Value::from(file.as_str()));
        object.insert(time_key.to_string(), serde_json::Value::from(*time));
        serde_json::Value::Object(object)
    }).collect();
    serde_json::Value::Array(items).to_string()
}

/// The saved entries read from the saved positions text, if any: none saved where there
/// is no text or it is not an array; `None` where the text is not JSON.
pub open spec fn saved_of_text(saved_json: Option<Seq<char>>) -> Option<Seq<(Option<Seq<char>>, SavedTime)>> {
    match saved_json {
        None => Some(Seq::empty()),
        Some(t) => match saved_entries_of(t, file_key(), time_key()) {
            None => None,
            Some(None) => Some(Seq::empty()),
            Some(Some(es)) => Some(es),
        },
    }
}

/// Gathers the books of the folder at `folder` from its files, in the order given, and
/// applies the positions saved in the text `saved_json` (`None` where there is none).
/// Returns `None` where that text is not JSON.
pub fn init_dir(folder: &str, files: &Vec<BookFile>, saved_json: Option<&str>) -> (books: Option<Books>)
    requires
        files_fit(files@),
    ensures
        match saved_of_text(opt_str(saved_json)) {
            None => books is None,
            Some(es) => books matches Some(b) && b.path@ == folder@ && books_view(b.list@) == books_of(files@, es)
                && forall|i: int| 0 <= i < b.list@.len() ==> book_wf(#[trigger] b.list@[i]@),
        },
{
    proof {
        reveal_strlit("file");
        reveal_strlit("time");
    }
    let file_name_key = "file";
    let time_name_key = "time";
    assert(file_name_key@ =~= file_key());
    assert(time_name_key@ =~= time_key());
    let none_saved: Vec<SavedEntry> = Vec::new();
    assert(entries_view(none_saved@) =~= Seq::empty());
    let entries: Vec<SavedEntry> = match saved_json {
        None => none_saved,
        Some(text) => match parse_saved_entries(text, file_name_key, time_name_key) {
            None => {
                return None;
            },
            Some(None) => none_saved,
            Some(Some(v)) => v,
        },
    };
    Some(init_books(folder, files, &entries))
}

/// The file and position of each book, in the order of the list.
pub open spec fn entries_of(list: Seq<BookView>) -> Seq<(Seq<char>, i64)> {
    list.map_values(|b: BookView| (b.file, b.time))
}

/// The text of the saved positions of the books: a JSON array with, for each book, its
/// file under `file` and its position under `time`. Reading it back gives the same files
/// and positions.
pub fn save_text(books: &Books) -> (text: String)
    ensures
        text@ == json_text_of(entries_of(books_view(books.list@)), file_key(), time_key()),
        saved_entries_of(text@, file_key(), time_key()) == Some(Some(saved_of(entries_of(books_view(books.list@))))),
{
    proof {
        reveal_strlit("file");
        reveal_strlit("time");
    }
    let mut pairs: Vec<(String, i64)> = Vec::new();
    let mut i: usize = 0;
    while i < books.list.len()
        invariant
            i <= books.list@.len(),
            pairs_view(pairs@) == entries_of(books_view(books.list@)).take(i as int),
        decreases books.list@.len() - i,
    {
        let b = &books.list[i];
        let ghost before = pairs@;
        pairs.push((b.file.clone(), b.time));
        assert(pairs_view(pairs@) =~= pairs_view(before).push((b.file@, b.time)));
        assert(entries_of(books_view(books.list@)).take(i as int + 1) =~= entries_of(books_view(books.list@)).take(i as int).push((b.file@, b.time)));
        i = i + 1;
    }
    assert(entries_of(books_view(books.list@)).take(i as int) =~= entries_of(books_view(books.list@)));
    let file_name_key = "file";
    let time_name_key = "time";
    assert(file_name_key@ =~= file_key());
    assert(time_name_key@ =~= time_key());
    assert(file_key() != time_key()) by {
        assert(file_key()[0] != time_key()[0]);
    }
    entries_json(&pairs, file_name_key, time_name_key)
}

/// The time of the last pair that names `file`, or `time` where none does.
pub open spec fn last_time(pairs: Seq<(Seq<char>, i64)>, file: Seq<char>, time: i64) -> i64
    decreases pairs.len(),
{
    if pairs.len() == 0 {
        time
    } else if pairs.last().0 == file {
        pairs.last().1
    } else {
        last_time(pairs.drop_last(), file, time)
    }
}

/// No two books of the list are in the same file.
pub open spec fn distinct_files(list: Seq<BookView>) -> bool {
    forall|i: int, j: int| 0 <= i < j < list.len() ==> list[i].file != list[j].file
}

/// Entries saved for a list of pairs of file and time restore, for a file, the time of
/// the last pair that names it, and leave the time of other files as it was.
pub proof fn lemma_restored_is_last_saved(pairs: Seq<(Seq<char>, i64)>, file: Seq<char>, time: i64)
    ensures
        restored_time(saved_of(pairs), file, time) == last_time(pairs, file, time),
    decreases pairs.len(),
{
    if pairs.len() > 0 {
        assert(saved_of(pairs).drop_last() =~= saved_of(pairs.drop_last()));
        lemma_restored_is_last_saved(pairs.drop_last(), file, time);
    }
}

proof fn lemma_last_time_of_unique(pairs: Seq<(Seq<char>, i64)>, i: int, time: i64)
    requires
        0 <= i < pairs.len(),
        forall|j: int| 0 <= j < pairs.len() && j != i ==> pairs[j].0 != pairs[i].0,
    ensures
        last_time(pairs, pairs[i].0, time) == pairs[i].1,
    decreases pairs.len(),
{
    if i < pairs.len() - 1 {
        let rest = pairs.drop_last();
        assert forall|j: int| 0 <= j < rest.len() && j != i implies rest[j].0 != rest[i].0 by {
            assert(rest[j] == pairs[j]);
        }
        lemma_last_time_of_unique(rest, i, time);
        assert(pairs.last() == pairs[pairs.len() - 1]);
    }
}

/// Saving the positions of books that are all in different files, then applying the
/// saved entries to a book in the file of one of them, whatever its position was, gives
/// it the position that was saved for that file.
pub proof fn lemma_saved_position_round_trip(books: Books, i: int, time: i64)
    requires
        distinct_files(books_view(books.list@)),
        0 <= i < books.list@.len(),
    ensures
        restored_time(saved_of(entries_of(books_view(books.list@))), books.list@[i].file@, time) == books.list@[i].time,
{
    let list = books_view(books.list@);
    let pairs = entries_of(list);
    lemma_restored_is_last_saved(pairs, books.list@[i].file@, time);
    assert forall|j: int| 0 <= j < pairs.len() && j != i implies pairs[j].0 != pairs[i].0 by {
        if j < i {
            assert(list[j].file != list[i].file);
        } else {
            assert(list[i].file != list[j].file);
        }
    }
    lemma_last_time_of_unique(pairs, i, time);
}

/// Each book gathered from a folder has the position that the saved entries give its
/// file, starting from 0.
pub proof fn lemma_books_of_times(files: Seq<BookFile>, entries: Seq<(Option<Seq<char>>, SavedTime)>)
    ensures
        forall|j: int| 0 <= j < books_of(files, entries).len()
            ==> (#[trigger] books_of(files, entries)[j]).time == restored_time(entries, books_of(files, entries)[j].file, 0),
    decreases files.len(),
{
    if files.len() > 0 {
        let before = books_of(files.drop_last(), entries);
        lemma_books_of_times(files.drop_last(), entries);
        let all = books_of(files, entries);
        assert forall|j: int| 0 <= j < all.len() implies (#[trigger] all[j]).time == restored_time(entries, all[j].file, 0) by {
            if j < before.len() {
                assert(all[j] == before[j]);
            }
        }
    }
}

/// Gathering the books of a folder with the text that was saved for books all in
/// different files gives every book in the file of one of them the position saved for it:
/// a position written to `books.json` is read back.
pub proof fn lemma_saved_text_round_trip(saved: Books, files: Seq<BookFile>, text: Seq<char>, k: int, m: int)
    requires
        saved_entries_of(text, file_key(), time_key()) == Some(Some(saved_of(entries_of(books_view(saved.list@))))),
        distinct_files(books_view(saved.list@)),
        0 <= m < saved.list@.len(),
        0 <= k < books_of(files, saved_of(entries_of(books_view(saved.list@)))).len(),
        books_of(files, saved_of(entries_of(books_view(saved.list@))))[k].file == saved.list@[m].file@,
    ensures
        saved_of_text(Some(text)) matches Some(es) && books_of(files, es)[k].time == saved.list@[m].time,
{
    let es = saved_of(entries_of(books_view(saved.list@)));
    lemma_books_of_times(files, es);
    lemma_saved_position_round_trip(saved, m, 0);
}

/// The chapter holds the position: it starts at or before it and ends after it.
pub open spec fn holds_position(c: ChapterView, position: i64) -> bool {
    c.start <= position < c.end
}

/// The index of the first chapter that holds the position, if any.
pub open spec fn chapter_at(chapters: Seq<ChapterView>, position: i64) -> Option<int>
    decreases chapters.len(),
{
    if chapters.len() == 0 {
        None
    } else {
        match chapter_at(chapters.drop_last(), position) {
            Some(i) => Some(i),
            None => if holds_position(chapters.last(), position) {
                Some(chapters.len() - 1)
            } else {
                None
            },
        }
    }
}

/// `chapter_at` gives the first chapter that holds the position, and none where no
/// chapter holds it.
pub proof fn lemma_chapter_at(chapters: Seq<ChapterView>, position: i64)
    ensures
        match chapter_at(chapters, position) {
            Some(i) => 0 <= i < chapters.len() && holds_position(chapters[i], position)
                && forall|j: int| 0 <= j < i ==> !holds_position(#[trigger] chapters[j], position),
            None => forall|j: int| 0 <= j < chapters.len() ==> !holds_position(#[trigger] chapters[j], position),
        },
    decreases chapters.len(),
{
    if chapters.len() > 0 {
        let rest = chapters.drop_last();
        lemma_chapter_at(rest, position);
        assert(chapters.last() == chapters[chapters.len() - 1]);
        match chapter_at(rest, position) {
            Some(i) => {
                assert(rest[i] == chapters[i]);
                assert forall|j: int| 0 <= j < i implies !holds_position(#[trigger] chapters[j], position) by {
                    assert(rest[j] == chapters[j]);
                }
            },
            None => {
                assert forall|j: int| 0 <= j < chapters.len() - 1 implies !holds_position(#[trigger] chapters[j], position) by {
                    assert(rest[j] == chapters[j]);
                }
            },
        }
    }
}

/// The index of the first chapter that holds the position, if any.
pub fn chapter_index_at(chapters: &Vec<Chapter>, position: i64) -> (res: Option<usize>)
    ensures
        match res {
            Some(i) => chapter_at(chapters_view(chapters@), position) == Some(i as int),
            None => chapter_at(chapters_view(chapters@), position) is None,
        },
{
    let mut i: usize = 0;
    while i < chapters.len()
        invariant
            i <= chapters@.len(),
            chapter_at(chapters_view(chapters@).take(i as int), position) is None,
        decreases chapters@.len() - i,
    {
        let c = &chapters[i];
        assert(chapters_view(chapters@).take(i as int + 1).drop_last() =~= chapters_view(chapters@).take(i as int));
        if position >= c.start && position < c.end {
            proof {
                lemma_chapter_at_prefix(chapters_view(chapters@), position, i as int + 1);
            }
            return Some(i);
        }
        i = i + 1;
    }
    assert(chapters_view(chapters@).take(i as int) =~= chapters_view(chapters@));
    None
}

/// Where a prefix of the chapters has a chapter that holds the position, the whole list
/// has the same first one.
proof fn lemma_chapter_at_prefix(chapters: Seq<ChapterView>, position: i64, n: int)
    requires
        0 <= n <= chapters.len(),
        chapter_at(chapters.take(n), position) is Some,
    ensures
        chapter_at(chapters, position) == chapter_at(chapters.take(n), position),
    decreases chapters.len() - n,
{
    if n < chapters.len() {
        assert(chapters.take(n + 1).drop_last() =~= chapters.take(n));
        lemma_chapter_at_prefix(chapters, position, n + 1);
    } else {
        assert(chapters.take(n) =~= chapters);
    }
}

/// A file named by a non-empty stem, a `.` and an ending without dots is an audio book
/// exactly where the ending is `m4a`, `m4b` or `3gp`, whatever dots the stem holds.
pub proof fn lemma_book_file_by_ending(stem: Seq<char>, ending: Seq<char>)
    requires
        stem.len() > 0,
        forall|i: int| 0 <= i < ending.len() ==> ending[i] != '.',
    ensures
        is_book_name(stem + seq!['.'] + ending) <==> (ending == seq!['m', '4', 'a']
            || ending == seq!['m', '4', 'b'] || ending == seq!['3', 'g', 'p']),
{
    let name = stem + seq!['.'] + ending;
    if is_parent_name(name) {
        assert(name.len() == 2);
        assert(ending.len() == 0);
        assert(crate::file_name::extension_of(name) is None);
    } else {
        lemma_name_splits_at_last_dot(stem, ending);
    }
}

/// The title of a book read from a tag is the tag's title where it has one, whatever its
/// chapters; else the stem of the file name; and `Unknown` where the tag could not be
/// read or there is neither.
pub proof fn lemma_book_title(file: Seq<char>, name: Option<Seq<char>>, tag: Option<TagInfo>)
    ensures
        (tag is Some && tag->0.title is Some) ==> book_of(file, name, tag).title == tag->0.title->0@,
        (tag is Some && tag->0.title is None && name is Some) ==> book_of(file, name, tag).title == file_stem_of(name->0),
        tag is None || (tag->0.title is None && name is None) ==> book_of(file, name, tag).title == unknown_title(),
        book_of(file, name, tag).file == file && book_of(file, name, tag).time == 0,
{
}

/// Where the chapter marks are in order, each chapter ends exactly where the next one
/// starts, and the last one ends at the end of the audio (where it starts before that).
pub proof fn lemma_chapters_meet(marks: Seq<ChapterMark>, total_secs: u64)
    ensures
        forall|i: int| 0 <= i && i + 1 < marks.len() && marks[i].start_secs <= marks[i + 1].start_secs
            ==> #[trigger] chapter_of_marks(marks, total_secs, i).start_secs
                + chapter_of_marks(marks, total_secs, i).duration_secs == marks[i + 1].start_secs,
        marks.len() > 0 && marks.last().start_secs <= total_secs ==> chapter_of_marks(marks, total_secs, marks.len() - 1).start_secs
            + chapter_of_marks(marks, total_secs, marks.len() - 1).duration_secs == total_secs,
{
}

} // verus!
