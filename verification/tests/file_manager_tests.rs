use aboba::file_manager::{
    tag_chapters, tag_in_range, ChapterMark, chapter_index_at, get_book, init_books, init_dir, is_book_file, restore_time, save_text, Book, BookFile,
    Books, Chapter, SavedEntry, SavedTime, TagChapter, TagInfo,
};

fn tag(chapters: Vec<(&str, u64, u64)>, duration: Option<u64>, title: Option<&str>) -> TagInfo {
    TagInfo {
        chapters: chapters
            .into_iter()
            .map(|(t, s, d)| TagChapter { title: t.to_string(), start_secs: s, duration_secs: d })
            .collect(),
        duration_secs: duration,
        title: title.map(|t| t.to_string()),
    }
}

fn chapter(title: &str, start: i64, end: i64, duration: i64) -> Chapter {
    Chapter { title: title.to_string(), start, end, duration }
}

fn book(file: &str, title: &str, time: i64) -> Book {
    Book { file: file.to_string(), title: title.to_string(), chapters: Vec::new(), time }
}

fn entry(file: Option<&str>, time: SavedTime) -> SavedEntry {
    SavedEntry { file: file.map(|f| f.to_string()), time }
}

#[test]
fn book_from_tag_with_chapters() {
    let t = tag(vec![("One", 0, 100), ("Two", 100, 50)], Some(150), Some("Novel"));
    let b = get_book("/books/novel.m4b", Some("novel.m4b"), Some(&t));
    assert_eq!(b.file, "/books/novel.m4b");
    assert_eq!(b.title, "Novel");
    assert_eq!(b.time, 0);
    assert_eq!(b.chapters.len(), 2);
    assert_eq!(b.chapters[0].title, "One");
    assert_eq!((b.chapters[0].start, b.chapters[0].end, b.chapters[0].duration), (0, 100, 100));
    assert_eq!(b.chapters[1].title, "Two");
    assert_eq!((b.chapters[1].start, b.chapters[1].end, b.chapters[1].duration), (100, 150, 50));
}

#[test]
fn book_without_chapters_has_one_over_the_whole_audio() {
    let t = tag(vec![], Some(4000), None);
    let b = get_book("/books/story.m4a", Some("story.m4a"), Some(&t));
    assert_eq!(b.title, "story");
    assert_eq!(b.chapters.len(), 1);
    assert_eq!(b.chapters[0].title, "Chapter");
    assert_eq!((b.chapters[0].start, b.chapters[0].end, b.chapters[0].duration), (0, 4000, 4000));
}

#[test]
fn book_with_unreadable_tag_is_unknown() {
    let b = get_book("/books/broken.m4b", Some("broken.m4b"), None);
    assert_eq!(b.title, "Unknown");
    assert!(b.chapters.is_empty());
    assert_eq!(b.time, 0);
}

#[test]
fn book_without_title_or_file_name_is_unknown() {
    let t = tag(vec![("A", 0, 1)], None, None);
    let b = get_book("/books", None, Some(&t));
    assert_eq!(b.title, "Unknown");
}

#[test]
fn book_extensions() {
    assert!(is_book_file("a.m4a"));
    assert!(is_book_file("a.m4b"));
    assert!(is_book_file("a.3gp"));
    assert!(!is_book_file("a.mp3"));
    assert!(!is_book_file("m4b"));
    assert!(!is_book_file(".m4b"));
    assert!(!is_book_file("a.M4B"));
}

#[test]
fn restore_takes_last_matching_number() {
    let mut b = book("/b/x.m4b", "X", 5);
    let entries = vec![
        entry(Some("/b/x.m4b"), SavedTime::Integer(10)),
        entry(Some("/b/y.m4b"), SavedTime::Integer(20)),
        entry(Some("/b/x.m4b"), SavedTime::Integer(30)),
        entry(Some("/b/x.m4b"), SavedTime::NotNumber),
    ];
    restore_time(&mut b, &entries);
    assert_eq!(b.time, 30);
}

#[test]
fn restore_other_number_gives_zero() {
    let mut b = book("/b/x.m4b", "X", 5);
    restore_time(&mut b, &vec![entry(Some("/b/x.m4b"), SavedTime::OtherNumber)]);
    assert_eq!(b.time, 0);
}

#[test]
fn restore_without_match_keeps_time() {
    let mut b = book("/b/x.m4b", "X", 5);
    restore_time(&mut b, &vec![entry(None, SavedTime::Integer(1)), entry(Some("/b/z.m4b"), SavedTime::Integer(2))]);
    assert_eq!(b.time, 5);
}

fn files() -> Vec<BookFile> {
    vec![
        BookFile { path: "/b/one.m4b".to_string(), name: "one.m4b".to_string(), tag: Some(tag(vec![], Some(10), None)) },
        BookFile { path: "/b/notes.txt".to_string(), name: "notes.txt".to_string(), tag: None },
        BookFile { path: "/b/two.3gp".to_string(), name: "two.3gp".to_string(), tag: None },
    ]
}

#[test]
fn init_books_keeps_book_files_in_order_and_restores_times() {
    let entries = vec![entry(Some("/b/two.3gp"), SavedTime::Integer(77))];
    let books = init_books("/b", &files(), &entries);
    assert_eq!(books.path, "/b");
    assert_eq!(books.list.len(), 2);
    assert_eq!(books.list[0].title, "one");
    assert_eq!(books.list[0].time, 0);
    assert_eq!(books.list[1].title, "Unknown");
    assert_eq!(books.list[1].time, 77);
}

#[test]
fn init_dir_reads_saved_json() {
    let text = r#"[{"file":"/b/two.3gp","time":77},{"file":"/b/one.m4b","time":1e3},{"file":5,"time":9},"x"]"#;
    let books = init_dir("/b", &files(), Some(text)).unwrap();
    assert_eq!(books.list.len(), 2);
    assert_eq!(books.list[0].time, 0);
    assert_eq!(books.list[1].time, 77);
}

#[test]
fn init_dir_big_number_gives_zero_and_text_keeps_time() {
    let text = r#"[{"file":"/b/two.3gp","time":99999999999999999999},{"file":"/b/one.m4b","time":"7"}]"#;
    let books = init_dir("/b", &files(), Some(text)).unwrap();
    assert_eq!(books.list[0].time, 0);
    assert_eq!(books.list[1].time, 0);
}

#[test]
fn init_dir_without_array_or_text_restores_nothing() {
    let books = init_dir("/b", &files(), Some(r#"{"file":"/b/two.3gp","time":5}"#)).unwrap();
    assert_eq!(books.list[1].time, 0);
    let books = init_dir("/b", &files(), None).unwrap();
    assert_eq!(books.list.len(), 2);
    assert_eq!(books.list[1].time, 0);
}

#[test]
fn init_dir_refuses_text_that_is_not_json() {
    assert!(init_dir("/b", &files(), Some("[{")).is_none());
}

#[test]
fn save_text_is_json_of_files_and_times() {
    let books = Books { path: "/b".to_string(), list: vec![book("/b/a.m4b", "A", 3), book("/b/\"q\".m4b", "B", -9)] };
    let text = save_text(&books);
    assert_eq!(text, r#"[{"file":"/b/a.m4b","time":3},{"file":"/b/\"q\".m4b","time":-9}]"#);
}

#[test]
fn saved_text_round_trip() {
    let saved = Books {
        path: "/b".to_string(),
        list: vec![book("/b/one.m4b", "One", 31), book("/b/two.3gp", "Two", 4_000_000_000)],
    };
    let text = save_text(&saved);
    let books = init_dir("/b", &files(), Some(&text)).unwrap();
    assert_eq!(books.list[0].time, 31);
    assert_eq!(books.list[1].time, 4_000_000_000);
}

#[test]
fn saved_positions_round_trip() {
    let books = Books { path: "/b".to_string(), list: vec![book("/b/a.m4b", "A", 3), book("/b/b.m4b", "B", 9)] };
    let text = save_text(&books);
    let files: Vec<BookFile> = books
        .list
        .iter()
        .map(|b| BookFile { path: b.file.clone(), name: b.file[3..].to_string(), tag: None })
        .collect();
    let restored = init_dir("/b", &files, Some(&text)).unwrap();
    for (original, back) in books.list.iter().zip(restored.list.iter()) {
        assert_eq!(back.file, original.file);
        assert_eq!(back.time, original.time);
    }
}

#[test]
fn chapter_lookup_takes_first_holding_chapter() {
    let chapters = vec![chapter("a", 0, 10, 10), chapter("b", 10, 20, 10), chapter("c", 5, 30, 25)];
    assert_eq!(chapter_index_at(&chapters, 0), Some(0));
    assert_eq!(chapter_index_at(&chapters, 9), Some(0));
    assert_eq!(chapter_index_at(&chapters, 10), Some(1));
    assert_eq!(chapter_index_at(&chapters, 25), Some(2));
    assert_eq!(chapter_index_at(&chapters, 30), None);
    assert_eq!(chapter_index_at(&chapters, -1), None);
}

#[test]
fn books_titles_and_book_at() {
    let books = Books { path: "/b".to_string(), list: vec![book("/b/a.m4b", "A", 3), book("/b/b.m4b", "B", 9)] };
    assert_eq!(books.titles(), vec!["A".to_string(), "B".to_string()]);
    let b = books.book_at(1).unwrap();
    assert_eq!((b.file.as_str(), b.title.as_str(), b.time), ("/b/b.m4b", "B", 9));
    assert!(books.book_at(2).is_none());
}

#[test]
fn clone_and_default() {
    let mut b = book("/b/a.m4b", "A", 3);
    b.chapters.push(chapter("c", 1, 2, 1));
    let c = b.clone();
    assert_eq!(c.file, b.file);
    assert_eq!(c.chapters.len(), 1);
    assert_eq!(c.chapters[0].title, "c");
    let d = Book::default();
    assert!(d.file.is_empty() && d.title.is_empty() && d.chapters.is_empty() && d.time == 0);
}

#[test]
fn chapters_last_until_the_next_mark_or_the_end() {
    let marks = vec![
        ChapterMark { title: "a".to_string(), start_secs: 0 },
        ChapterMark { title: "b".to_string(), start_secs: 100 },
        ChapterMark { title: "c".to_string(), start_secs: 90 },
    ];
    let chapters = tag_chapters(&marks, 95);
    let got: Vec<(String, u64, u64)> =
        chapters.into_iter().map(|c| (c.title, c.start_secs, c.duration_secs)).collect();
    assert_eq!(got, vec![("a".to_string(), 0, 100), ("b".to_string(), 100, 0), ("c".to_string(), 90, 5)]);
    assert!(tag_chapters(&vec![], 10).is_empty());
}

#[test]
fn tag_range_check() {
    assert!(tag_in_range(&tag(vec![("a", 0, 10)], None, None)));
    assert!(tag_in_range(&tag(vec![("a", i64::MAX as u64 - 1, 1)], None, None)));
    assert!(!tag_in_range(&tag(vec![("a", i64::MAX as u64, 1)], None, None)));
    assert!(!tag_in_range(&tag(vec![], None, None)));
    assert!(tag_in_range(&tag(vec![], Some(i64::MAX as u64), None)));
    assert!(!tag_in_range(&tag(vec![], Some(u64::MAX), None)));
}
