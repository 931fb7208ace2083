use aboba::audio::mod_ff::{Control, Player as Backend};
use aboba::audio::Player;
use aboba::file_manager::{Book, Books, Chapter};

fn chapter(title: &str, start: i64, end: i64) -> Chapter {
    Chapter { title: title.to_string(), start, end, duration: end - start }
}

fn library() -> Player {
    let a = Book {
        file: "/b/a.m4b".to_string(),
        title: "A".to_string(),
        chapters: vec![chapter("A1", 0, 100), chapter("A2", 100, 250)],
        time: 120,
    };
    let b = Book { file: "/b/b.m4b".to_string(), title: "B".to_string(), chapters: vec![chapter("B1", 0, 60)], time: 0 };
    Player::new(Books { path: "/b".to_string(), list: vec![a, b] })
}

#[test]
fn titles_in_order() {
    assert_eq!(library().get_titles(), vec!["A".to_string(), "B".to_string()]);
}

#[test]
fn nothing_open_at_start() {
    let p = library();
    assert!(p.get_current_book_title().is_none());
    assert!(p.get_chapters().is_none());
    assert!(p.set_chapter(0).is_none());
    assert!(p.get_current_chapter(10).is_none());
    assert!(p.get_current_chapter_title(10).is_none());
    assert!(p.get_current_chapter_duration_and_position(10).is_none());
    assert!(p.get_current_chapter_start_and_end(10).is_none());
}

#[test]
fn select_book_loads_file_at_saved_position() {
    let mut p = library();
    assert_eq!(p.select_book(0), Some(("/b/a.m4b".to_string(), 120)));
    assert_eq!(p.get_current_book_title(), Some("A".to_string()));
    assert_eq!(p.get_chapters(), Some(vec![("A1".to_string(), 100), ("A2".to_string(), 150)]));
}

#[test]
fn select_missing_book_changes_nothing() {
    let mut p = library();
    assert_eq!(p.select_book(2), None);
    assert!(p.get_current_book_title().is_none());
}

#[test]
fn chapter_of_open_book() {
    let mut p = library();
    p.select_book(0);
    assert_eq!(p.set_chapter(1), Some(100));
    assert_eq!(p.set_chapter(2), None);
    assert_eq!(p.get_current_chapter_title(99), Some("A1".to_string()));
    assert_eq!(p.get_current_chapter_title(100), Some("A2".to_string()));
    assert_eq!(p.get_current_chapter_duration_and_position(130), Some((150, 30)));
    assert_eq!(p.get_current_chapter_start_and_end(130), Some((100, 250)));
    assert!(p.get_current_chapter(250).is_none());
    let c = p.get_current_chapter(5).unwrap();
    assert_eq!((c.title.as_str(), c.start, c.end, c.duration), ("A1", 0, 100, 100));
}

#[test]
fn close_book_saves_position_and_reopen_resumes() {
    let mut p = library();
    p.select_book(1);
    let saved = p.close_book(42).unwrap();
    assert_eq!(saved.path, "/b");
    assert_eq!(saved.list.len(), 2);
    assert_eq!(saved.list[0].time, 120);
    assert_eq!(saved.list[1].time, 42);
    assert!(p.get_current_book_title().is_none());
    assert_eq!(p.select_book(1), Some(("/b/b.m4b".to_string(), 42)));
}

#[test]
fn close_without_open_book_does_nothing() {
    let mut p = library();
    assert!(p.close_book(7).is_none());
    assert_eq!(p.select_book(0), Some(("/b/a.m4b".to_string(), 120)));
}

#[test]
fn close_book_updates_first_book_with_the_title() {
    let same = |file: &str, time: i64| Book { file: file.to_string(), title: "T".to_string(), chapters: vec![], time };
    let mut p = Player::new(Books { path: "/b".to_string(), list: vec![same("/b/1.m4b", 1), same("/b/2.m4b", 2)] });
    p.select_book(1);
    let saved = p.close_book(99).unwrap();
    assert_eq!(saved.list[0].time, 99);
    assert_eq!(saved.list[1].time, 2);
}

#[test]
fn backend_controls_report_a_stopped_player() {
    let backend = Backend::setup().unwrap();
    let control: Control = backend.new_control();
    assert!(control.play().is_ok());
    assert!(!control.is_playing());
    assert!(control.pause().is_ok());
    control.set_position(50);
    assert_eq!(control.get_position(), 0);
    assert_eq!(control.get_duration(), 0);
}

#[test]
fn file_uri_prefixes_the_scheme() {
    assert_eq!(aboba::audio::file_uri("/home/me/Audiobooks/a.m4b"), "file:///home/me/Audiobooks/a.m4b");
}
