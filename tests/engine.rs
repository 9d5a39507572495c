use agadir::app::{classify, App, Effect, FocusedBlock, Key, Screen};
use agadir::catalog::{build_toc, Catalog};
use agadir::date::Date;
use agadir::post::{MetaData, Post, PostError};
use agadir::registry::{Dispatch, Registry};
use agadir::text::{count_lines, split_front_matter};

fn post(title: &str, y: i32, m: u32, d: u32, content: &str) -> Post {
    let date = Date::new(y, m, d).unwrap();
    Post {
        title: title.to_string(),
        created_at: date,
        modified_at: date,
        content: content.to_string(),
    }
}

fn catalog(n: usize) -> Catalog {
    let mut posts = Vec::new();
    for i in 0..n {
        posts.push(post(&format!("post {}", i), 2024, 1, (i % 28) as u32 + 1, "line one\nline two\nline three"));
    }
    Catalog::new(posts)
}

#[test]
fn classify_reads_each_token() {
    assert_eq!(classify(b"q"), Key::Quit);
    assert_eq!(classify(&[3]), Key::Quit);
    assert_eq!(classify(b"j"), Key::Down);
    assert_eq!(classify(b"k"), Key::Up);
    assert_eq!(classify(&[13]), Key::Enter);
    assert_eq!(classify(&[27]), Key::Back);
    assert_eq!(classify(&[127]), Key::Back);
    assert_eq!(classify(b"G"), Key::Bottom);
    assert_eq!(classify(b"g"), Key::Top);
    assert_eq!(classify(b"x"), Key::Other);
    assert_eq!(classify(&[27, 91, 65]), Key::Other);
    assert_eq!(classify(b""), Key::Other);
}

#[test]
fn new_session_starts_on_first_row() {
    let c = catalog(3);
    let a = App::new(&c);
    assert!(a.running);
    assert_eq!(a.focused_block, FocusedBlock::Toc);
    assert_eq!(a.selection, Some(0));
    assert_eq!(a.scroll, 0);
    assert_eq!(a.previous_key, vec![0u8]);
    let empty = Catalog::new(Vec::new());
    assert_eq!(App::new(&empty).selection, None);
}

#[test]
fn down_presses_stop_at_last_row() {
    let c = catalog(4);
    let mut a = App::new(&c);
    let mut seen = Vec::new();
    for _ in 0..7 {
        a.on_input(&c, b"j");
        seen.push(a.selection.unwrap());
    }
    assert_eq!(seen, vec![1, 2, 3, 3, 3, 3, 3]);
}

#[test]
fn bottom_selects_past_end_without_highlight() {
    let c = catalog(4);
    let mut a = App::new(&c);
    a.on_input(&c, b"G");
    assert_eq!(a.selection, Some(4));
    assert_eq!(a.compose(&c), Screen::Toc { highlighted: None });
    a.on_input(&c, b"j");
    assert_eq!(a.selection, Some(4));
    a.on_input(&c, &[13]);
    assert_eq!(a.compose(&c), Screen::Empty);
    a.on_input(&c, b"G");
    assert_eq!(a.scroll, 0);
}

#[test]
fn up_presses_stop_at_first_row() {
    let c = catalog(5);
    let mut a = App::new(&c);
    a.selection = Some(1);
    a.on_input(&c, b"k");
    assert_eq!(a.selection, Some(0));
    a.on_input(&c, b"k");
    assert_eq!(a.selection, Some(0));
    a.selection = Some(4);
    let mut seen = Vec::new();
    for _ in 0..6 {
        a.on_input(&c, b"k");
        seen.push(a.selection.unwrap());
    }
    assert_eq!(seen, vec![3, 2, 1, 0, 0, 0]);
}

#[test]
fn enter_then_escape_keeps_selection() {
    let c = catalog(5);
    let mut a = App::new(&c);
    a.on_input(&c, b"j");
    a.on_input(&c, b"j");
    let before = a.clone();
    assert_eq!(a.on_input(&c, &[13]), Effect::Continue);
    assert_eq!(a.focused_block, FocusedBlock::Post);
    a.on_input(&c, &[27]);
    assert_eq!(a.focused_block, FocusedBlock::Toc);
    assert_eq!(a.selection, before.selection);
    assert_eq!(a.scroll, before.scroll);
    assert_eq!(a.running, before.running);
    assert_eq!(a.previous_key, vec![27u8]);
}

#[test]
fn redraw_twice_gives_the_same_screens() {
    let mut r = Registry::new(catalog(3).posts);
    let a = r.open().unwrap();
    let b = r.open().unwrap();
    r.dispatch(a, b"j");
    r.dispatch(b, &[13]);
    let first = r.redraw_all();
    let second = r.redraw_all();
    assert_eq!(first, second);
    assert_eq!(first.len(), 2);
    assert_eq!(first[0], (a, Screen::Toc { highlighted: Some(1) }));
}

#[test]
fn g_twice_in_a_document_goes_to_top() {
    let c = catalog(2);
    let mut a = App::new(&c);
    a.on_input(&c, &[13]);
    for _ in 0..5 {
        a.on_input(&c, b"j");
    }
    assert_eq!(a.scroll, 5);
    a.on_input(&c, b"g");
    assert_eq!(a.scroll, 5);
    a.on_input(&c, b"g");
    assert_eq!(a.scroll, 0);
}

#[test]
fn g_then_other_key_keeps_scroll() {
    let c = catalog(2);
    let mut a = App::new(&c);
    a.on_input(&c, &[13]);
    a.on_input(&c, b"j");
    a.on_input(&c, b"j");
    a.on_input(&c, b"g");
    a.on_input(&c, b"x");
    assert_eq!(a.scroll, 2);
    a.on_input(&c, b"g");
    assert_eq!(a.scroll, 2);
    a.on_input(&c, b"j");
    assert_eq!(a.scroll, 3);
}

#[test]
fn g_twice_in_toc_goes_to_first_row() {
    let c = catalog(4);
    let mut a = App::new(&c);
    a.on_input(&c, b"j");
    a.on_input(&c, b"j");
    a.on_input(&c, b"g");
    assert_eq!(a.selection, Some(2));
    a.on_input(&c, b"g");
    assert_eq!(a.selection, Some(0));
}

#[test]
fn input_to_one_session_leaves_the_other() {
    let mut r = Registry::new(catalog(4).posts);
    let a = r.open().unwrap();
    let b = r.open().unwrap();
    assert_ne!(a, b);
    assert_eq!(r.dispatch(a, b"j"), Dispatch::Continued);
    assert_eq!(r.dispatch(a, b"j"), Dispatch::Continued);
    assert_eq!(r.app(a).unwrap().selection, Some(2));
    assert_eq!(r.app(b).unwrap().selection, Some(0));
    assert_eq!(r.dispatch(a, b"q"), Dispatch::Closed);
    assert!(r.app(a).is_none());
    assert_eq!(r.app(b).unwrap().selection, Some(0));
    assert_eq!(r.len(), 1);
}

#[test]
fn two_documents_end_to_end() {
    let alpha = post("Alpha", 2024, 1, 1, "alpha body");
    let beta = post("Beta", 2024, 3, 1, "first\nsecond\nthird\nfourth");
    let mut r = Registry::new(vec![alpha, beta]);
    let titles: Vec<String> = r.catalog().toc.iter().map(|e| e.title.clone()).collect();
    assert_eq!(titles, vec!["Beta".to_string(), "Alpha".to_string()]);
    let id = r.open().unwrap();
    let app = r.app(id).unwrap();
    assert_eq!(app.focused_block, FocusedBlock::Toc);
    assert_eq!(r.redraw_all(), vec![(id, Screen::Toc { highlighted: Some(0) })]);
    r.dispatch(id, &[13]);
    r.dispatch(id, b"G");
    assert_eq!(r.redraw_all(), vec![(id, Screen::Post { post: 1, scroll: 4 })]);
    let rows = r.catalog().toc_rows();
    assert_eq!(rows[0].date, "March 01 2024");
    assert_eq!(rows[0].title, "Beta");
    assert_eq!(rows[1].date, "January 01 2024");
}

#[test]
fn toc_is_newest_first_and_stable() {
    let posts = vec![
        post("a", 2023, 5, 1, ""),
        post("b", 2024, 5, 1, ""),
        post("c", 2023, 5, 1, ""),
        post("d", 2023, 12, 31, ""),
    ];
    let toc = build_toc(&posts);
    let titles: Vec<&str> = toc.iter().map(|e| e.title.as_str()).collect();
    assert_eq!(titles, vec!["b", "d", "a", "c"]);
}

#[test]
fn long_form_of_dates() {
    assert_eq!(Date::new(2024, 3, 1).unwrap().long_form(), "March 01 2024");
    assert_eq!(Date::new(999, 12, 25).unwrap().long_form(), "December 25 0999");
    assert_eq!(Date::new(12345, 7, 4).unwrap().long_form(), "July 04 +12345");
    assert_eq!(Date::new(-5, 2, 10).unwrap().long_form(), "February 10 -0005");
}

#[test]
fn date_new_checks_the_calendar() {
    assert!(Date::new(2024, 2, 29).is_some());
    assert!(Date::new(2023, 2, 29).is_none());
    assert!(Date::new(1900, 2, 29).is_none());
    assert!(Date::new(2000, 2, 29).is_some());
    assert!(Date::new(2024, 4, 31).is_none());
    assert!(Date::new(2024, 13, 1).is_none());
    assert!(Date::new(2024, 0, 1).is_none());
    assert!(Date::new(2024, 1, 0).is_none());
}

fn meta(created: &str, modified: &str) -> MetaData {
    MetaData {
        title: "Hello".to_string(),
        created_at: created.to_string(),
        modified_at: modified.to_string(),
    }
}

#[test]
fn post_from_metadata_reads_dates() {
    let p = Post::from_metadata(&meta("01/03/2024", "15/04/2024"), "body").unwrap();
    assert_eq!(p.title, "Hello");
    assert_eq!(p.created_at, Date::new(2024, 3, 1).unwrap());
    assert_eq!(p.modified_at, Date::new(2024, 4, 15).unwrap());
    assert_eq!(p.content, "body");
}

#[test]
fn post_from_metadata_rejects_bad_dates() {
    assert_eq!(Post::from_metadata(&meta("2024-03-01", "15/04/2024"), "").unwrap_err(), PostError::BadCreatedAt);
    assert_eq!(Post::from_metadata(&meta("01/03/2024", "31/02/2024"), "").unwrap_err(), PostError::BadModifiedAt);
    assert_eq!(Post::from_metadata(&meta("nope", "nope"), "").unwrap_err(), PostError::BadCreatedAt);
}

#[test]
fn front_matter_is_split_from_body() {
    let (m, b) = split_front_matter("---\ntitle: x\n---\n\nHello\nWorld").unwrap();
    assert_eq!(m, "title: x\n");
    assert_eq!(b, "Hello\nWorld");
    let (m, b) = split_front_matter("---\n---\n").unwrap();
    assert_eq!(m, "");
    assert_eq!(b, "");
    assert!(split_front_matter("title: x\n---\n").is_none());
    assert!(split_front_matter("---\ntitle: x\n").is_none());
    assert!(split_front_matter("").is_none());
}

#[test]
fn lines_are_counted_as_shown() {
    assert_eq!(count_lines(""), 1);
    assert_eq!(count_lines("one"), 1);
    assert_eq!(count_lines("one\ntwo"), 2);
    assert_eq!(count_lines("one\ntwo\n"), 2);
    assert_eq!(count_lines("\n\n"), 2);
    assert_eq!(post("t", 2024, 1, 1, "a\nb\nc").height(), 3);
}

#[test]
fn quit_ends_the_session() {
    let c = catalog(2);
    let mut a = App::new(&c);
    assert_eq!(a.on_input(&c, b"q"), Effect::Terminate);
    assert!(!a.running);
    let mut b = App::new(&c);
    assert_eq!(b.on_input(&c, &[3]), Effect::Terminate);
}

#[test]
fn registry_lookup_misses_are_harmless() {
    let mut r = Registry::new(catalog(2).posts);
    assert_eq!(r.dispatch(7, b"j"), Dispatch::Missing);
    assert!(!r.close(7));
    assert!(!r.resize(7, 100, 40));
    let a = r.open().unwrap();
    assert!(r.close(a));
    assert!(!r.close(a));
    assert_eq!(r.len(), 0);
}

#[test]
fn resize_sets_the_viewport() {
    let mut r = Registry::new(catalog(2).posts);
    let a = r.open().unwrap();
    assert_eq!(r.app(a).unwrap().viewport(), (80, 24));
    assert!(r.resize(a, 120, 40));
    assert_eq!(r.app(a).unwrap().viewport(), (120, 40));
}

#[test]
fn post_view_scrolls_and_jumps_to_bottom() {
    let c = Catalog::new(vec![post("only", 2024, 1, 1, "1\n2\n3\n4\n5\n6")]);
    let mut a = App::new(&c);
    a.on_input(&c, &[13]);
    assert_eq!(a.compose(&c), Screen::Post { post: 0, scroll: 0 });
    a.on_input(&c, b"k");
    assert_eq!(a.scroll, 0);
    a.on_input(&c, b"G");
    assert_eq!(a.scroll, 6);
    a.on_input(&c, &[127]);
    assert_eq!(a.focused_block, FocusedBlock::Toc);
}

#[test]
fn from_dates_checks_each_date() {
    let title = "T".to_string();
    let d = Date::new(2024, 1, 2).unwrap();
    let e = Date::new(2024, 2, 3).unwrap();
    let p = Post::from_dates(&title, Some(d), Some(e), "x\ny").unwrap();
    assert_eq!(p.title, "T");
    assert_eq!(p.created_at, d);
    assert_eq!(p.modified_at, e);
    assert_eq!(p.content, "x\ny");
    assert_eq!(Post::from_dates(&title, None, Some(e), "").unwrap_err(), PostError::BadCreatedAt);
    assert_eq!(Post::from_dates(&title, Some(d), None, "").unwrap_err(), PostError::BadModifiedAt);
    assert_eq!(Post::from_dates(&title, None, None, "").unwrap_err(), PostError::BadCreatedAt);
}

#[test]
fn empty_toc_keeps_no_selection() {
    let c = Catalog::new(Vec::new());
    let mut a = App::new(&c);
    assert_eq!(a.selection, None);
    a.on_input(&c, b"j");
    assert_eq!(a.selection, None);
    a.on_input(&c, b"k");
    assert_eq!(a.selection, None);
    a.on_input(&c, b"g");
    a.on_input(&c, b"g");
    assert_eq!(a.selection, None);
    assert_eq!(a.compose(&c), Screen::Toc { highlighted: None });
    a.on_input(&c, b"G");
    assert_eq!(a.selection, Some(0));
    assert_eq!(a.compose(&c), Screen::Toc { highlighted: None });
}

#[test]
fn open_hands_out_numbers_in_order() {
    let mut r = Registry::new(catalog(1).posts);
    assert_eq!(r.open(), Some(0));
    assert_eq!(r.open(), Some(1));
    assert!(r.close(0));
    assert_eq!(r.open(), Some(2));
    assert_eq!(r.len(), 2);
}
