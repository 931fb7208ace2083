use aboba::file_manager::{Book, Chapter};
use aboba::filemanager::Chapter as OldChapter;
use aboba::ui::chapters_view::chapter_rows;
use aboba::ui::player::{get_current_chapter, play_back};
use aboba::ui::player_view::{backward_position, forward_position, PlayAction, PlayerView};
use aboba::ui::{progress_text, seek_left, seek_right};

fn chapter(title: &str, start: i64, end: i64) -> Chapter {
    Chapter { title: title.to_string(), start, end, duration: end - start }
}

fn book() -> Book {
    Book {
        file: "/b/a.m4b".to_string(),
        title: "A".to_string(),
        chapters: vec![chapter("One", 0, 100), chapter("Two", 100, 4000)],
        time: 150,
    }
}

#[test]
fn seek_left_stops_at_zero() {
    assert_eq!(seek_left(100), 70);
    assert_eq!(seek_left(30), 0);
    assert_eq!(seek_left(10), 0);
}

#[test]
fn seek_right_stops_at_duration() {
    assert_eq!(seek_right(100, 1000), 130);
    assert_eq!(seek_right(980, 1000), 1000);
    assert_eq!(seek_right(970, 1000), 1000);
}

#[test]
fn progress_text_of_position_and_length() {
    assert_eq!(progress_text(61, 3661), "1m 1s/1h 7m 1s");
}

#[test]
fn chapter_rows_show_lengths() {
    let rows = chapter_rows(&vec![("One".to_string(), 90), ("Two".to_string(), 0)]);
    assert_eq!(rows, vec![("One".to_string(), "1m 30s".to_string()), ("Two".to_string(), "0s".to_string())]);
}

#[test]
fn old_player_chapter_lookup_is_strict() {
    let chapters = vec![
        OldChapter { title: "a".to_string(), start: 0, end: 10 },
        OldChapter { title: "b".to_string(), start: 10, end: 20 },
    ];
    assert_eq!(get_current_chapter(&chapters, 0), None);
    assert_eq!(get_current_chapter(&chapters, 5), Some(0));
    assert_eq!(get_current_chapter(&chapters, 10), None);
    assert_eq!(get_current_chapter(&chapters, 11), Some(1));
}

#[test]
fn old_player_play_back() {
    assert_eq!(play_back(100), 70);
    assert_eq!(play_back(30), 0);
    assert_eq!(play_back(31), 1);
}

#[test]
fn empty_view_has_no_book() {
    let view = PlayerView::new();
    assert!(view.get_book().is_none());
}

#[test]
fn initialize_shows_chapter_at_book_position() {
    let mut view = PlayerView::new();
    let d = view.initialize_book(book()).unwrap();
    assert_eq!((d.title.as_str(), d.position, d.duration, d.label.as_str()), ("Two", 50, 3900, "50s"));
    let b = view.get_book().unwrap();
    assert_eq!((b.file.as_str(), b.time), ("/b/a.m4b", 150));
}

#[test]
fn play_toggles_and_keeps_position() {
    let mut view = PlayerView::new();
    view.initialize_book(book());
    assert!(matches!(view.toggle_play(false, 0), PlayAction::Play { seek: 150 }));
    assert!(matches!(view.toggle_play(true, 170), PlayAction::Pause));
    assert_eq!(view.get_book().unwrap().time, 170);
}

#[test]
fn tick_only_while_playing() {
    let mut view = PlayerView::new();
    view.initialize_book(book());
    assert!(view.tick(false, 10).is_none());
    assert_eq!(view.get_book().unwrap().time, 150);
    let d = view.tick(true, 10).unwrap();
    assert_eq!((d.title.as_str(), d.position), ("One", 10));
    assert_eq!(view.get_book().unwrap().time, 10);
}

#[test]
fn drop_book_keeps_position_only_when_playing() {
    let mut view = PlayerView::new();
    view.initialize_book(book());
    assert!(!view.drop_book(false, 5));
    assert_eq!(view.get_book().unwrap().time, 150);
    assert!(view.drop_book(true, 5));
    assert_eq!(view.get_book().unwrap().time, 5);
}

#[test]
fn seeks_move_and_show_the_chapter() {
    let mut view = PlayerView::new();
    view.initialize_book(book());
    let back = view.seek_backward(120);
    assert_eq!(back.position, 90);
    assert_eq!(back.display.unwrap().title, "One");
    let back = view.seek_backward(20);
    assert_eq!(back.position, 0);
    let fwd = view.seek_forward(90, 4000);
    assert_eq!(fwd.position, 120);
    let d = fwd.display.unwrap();
    assert_eq!((d.title.as_str(), d.position, d.label.as_str()), ("Two", 20, "20s"));
    let fwd = view.seek_forward(3980, 4000);
    assert_eq!(fwd.position, 4000);
    assert!(fwd.display.is_none());
    assert_eq!(view.get_book().unwrap().time, 4000);
}

#[test]
fn set_position_and_seek_in_chapter() {
    let mut view = PlayerView::new();
    view.initialize_book(book());
    let d = view.set_position(3300).unwrap();
    assert_eq!((d.position, d.label.as_str()), (3200, "1h 20s"));
    assert_eq!(view.chapter_at_position(3300), Some(("Two".to_string(), 100, 4000, 3900)));
    assert_eq!(view.seek_in_chapter(3300, 7), Some(107));
    assert_eq!(view.get_book().unwrap().time, 107);
    assert_eq!(view.seek_in_chapter(5000, 7), None);
    assert_eq!(view.get_book().unwrap().time, 107);
}

#[test]
fn any_book_is_shown_and_given_back() {
    let odd = Book {
        file: "/b/odd.m4b".to_string(),
        title: "Odd".to_string(),
        chapters: vec![Chapter { title: "Pre".to_string(), start: -5, end: 3, duration: 42 }],
        time: 0,
    };
    let mut view = PlayerView::new();
    let d = view.initialize_book(odd).unwrap();
    assert_eq!((d.title.as_str(), d.position, d.duration, d.label.as_str()), ("Pre", 5, 42, "5s"));
    let b = view.get_book().unwrap();
    assert_eq!((b.file.as_str(), b.title.as_str(), b.time, b.chapters[0].start), ("/b/odd.m4b", "Odd", 0, -5));
}

#[test]
fn offset_range_and_seek_targets() {
    let mut view = PlayerView::new();
    view.initialize_book(Book {
        file: "/b/f.m4b".to_string(),
        title: "F".to_string(),
        chapters: vec![Chapter { title: "Far".to_string(), start: -10, end: i64::MAX, duration: 0 }],
        time: 0,
    });
    assert!(view.offset_in_range(5));
    assert!(!view.offset_in_range(i64::MAX - 1));
    assert_eq!(backward_position(40), 10);
    assert_eq!(backward_position(30), 0);
    assert_eq!(forward_position(10, 100), 40);
    assert_eq!(forward_position(80, 100), 100);
}
