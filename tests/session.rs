use mdview::session::{
    ClosedApplication, Command, ConsistencyError, MarkdownView, OpenedApplication, Outcome, Tab,
    UpdateView,
};

fn paths(names: &[&str]) -> Vec<String> {
    names.iter().map(|n| n.to_string()).collect()
}

fn open(names: &[&str]) -> OpenedApplication {
    ClosedApplication::open(paths(names))
}

fn open_paths(app: &OpenedApplication) -> Vec<String> {
    (0..app.view_count()).map(|i| app.view_at(i).file_path.clone()).collect()
}

fn remove(name: &str) -> Command {
    Command::Update(UpdateView::Remove(name.to_string()))
}

#[test]
fn three_files_end_to_end() {
    let mut app = open(&["/a", "/b", "/c"]);
    assert_eq!(app.focus_index(), 0);
    assert_eq!(app.process_command(Command::NextView), Ok(Outcome::Redraw));
    assert_eq!(app.process_command(Command::NextView), Ok(Outcome::Redraw));
    assert_eq!(app.focus_index(), 2);
    assert_eq!(app.focused_view().unwrap().file_path, "/c");
    assert_eq!(app.process_command(remove("/c")), Ok(Outcome::Redraw));
    assert_eq!(open_paths(&app), paths(&["/a", "/b"]));
    assert_eq!(app.focus_index(), 1);
    assert_eq!(app.process_command(remove("/b")), Ok(Outcome::Redraw));
    assert_eq!(open_paths(&app), paths(&["/a"]));
    assert_eq!(app.focus_index(), 0);
    assert_eq!(app.process_command(remove("/a")), Ok(Outcome::AllViewsRemoved));
    assert!(app.is_closed());
    let _closed: ClosedApplication = app.close();
}

#[test]
fn removing_every_view_closes_once_from_any_focus() {
    for start in 0..3 {
        let mut app = open(&["/a", "/b", "/c"]);
        for _ in 0..start {
            app.select_next_view();
        }
        assert_eq!(app.focus_index(), start);
        let mut closes = 0;
        for name in ["/b", "/a", "/c"] {
            if app.update_view(UpdateView::Remove(name.to_string())) == Ok(Some(Command::Close)) {
                closes += 1;
                assert!(app.is_closed());
            }
        }
        assert_eq!(closes, 1);
    }
}

#[test]
fn focus_stays_in_range() {
    let mut app = open(&["/a", "/b", "/c", "/d"]);
    let cmds = vec![
        Command::NextView,
        Command::NextView,
        Command::NextView,
        Command::NextView,
        remove("/d"),
        Command::PrevView,
        remove("/a"),
        Command::NextView,
        Command::NextView,
        remove("/c"),
    ];
    for cmd in cmds {
        app.process_command(cmd).unwrap();
        assert!(app.focus_index() < app.view_count());
    }
    assert_eq!(open_paths(&app), paths(&["/b"]));
}

#[test]
fn select_is_noop_at_the_edges() {
    let mut app = open(&["/a", "/b"]);
    app.select_prev_view();
    assert_eq!(app.focus_index(), 0);
    app.select_next_view();
    app.select_next_view();
    assert_eq!(app.focus_index(), 1);
    app.select_next_view();
    assert_eq!(app.focus_index(), 1);
}

#[test]
fn scroll_never_goes_below_zero() {
    let mut app = open(&["/a", "/b"]);
    app.scroll_markdown_view(3);
    assert_eq!(app.focused_view().unwrap().get_offset(), 3);
    app.scroll_markdown_view(-1);
    assert_eq!(app.focused_view().unwrap().get_offset(), 2);
    app.scroll_markdown_view(i16::MIN);
    assert_eq!(app.focused_view().unwrap().get_offset(), 0);
    assert_eq!(app.process_command(Command::Scroll(-1)), Ok(Outcome::Redraw));
    assert_eq!(app.focused_view().unwrap().get_offset(), 0);
    assert_eq!(app.view_at(1).get_offset(), 0);
}

#[test]
fn offset_saturates_at_both_ends() {
    let mut view = MarkdownView::new("/a".to_string());
    assert_eq!(view.get_offset(), 0);
    view.set_offset(-5);
    assert_eq!(view.get_offset(), 0);
    view.set_offset(i16::MAX);
    view.set_offset(i16::MAX);
    view.set_offset(i16::MAX);
    assert_eq!(view.get_offset(), u16::MAX);
    view.set_offset(-1);
    assert_eq!(view.get_offset(), u16::MAX - 1);
}

#[test]
fn reload_focuses_the_changed_view() {
    let mut app = open(&["/a", "/b", "/c"]);
    assert_eq!(app.update_view(UpdateView::Reload("/c".to_string())), Ok(None));
    assert_eq!(app.focus_index(), 2);
}

#[test]
fn unknown_paths_are_consistency_errors() {
    let mut app = open(&["/a", "/b"]);
    app.select_next_view();
    assert_eq!(
        app.process_command(remove("/zzz")),
        Err(ConsistencyError { path: "/zzz".to_string() })
    );
    assert_eq!(
        app.update_view(UpdateView::Reload("/x".to_string())),
        Err(ConsistencyError { path: "/x".to_string() })
    );
    assert_eq!(open_paths(&app), paths(&["/a", "/b"]));
    assert_eq!(app.focus_index(), 1);
}

#[test]
fn duplicate_removal_is_tolerated() {
    let mut app = open(&["/a", "/b"]);
    assert_eq!(app.update_view(UpdateView::Remove("/a".to_string())), Ok(None));
    assert_eq!(app.update_view(UpdateView::Remove("/a".to_string())), Ok(None));
    assert_eq!(open_paths(&app), paths(&["/b"]));
    assert_eq!(
        app.update_view(UpdateView::Reload("/a".to_string())),
        Err(ConsistencyError { path: "/a".to_string() })
    );
}

#[test]
fn focus_before_removed_slot_is_kept() {
    let mut app = open(&["/a", "/b", "/c"]);
    app.select_next_view();
    assert_eq!(app.process_command(remove("/c")), Ok(Outcome::Redraw));
    assert_eq!(app.focus_index(), 1);
    assert_eq!(app.focused_view().unwrap().file_path, "/b");
}

#[test]
fn close_and_resize_leave_the_state() {
    let mut app = open(&["/a", "/b"]);
    app.select_next_view();
    assert_eq!(app.process_command(Command::Update(UpdateView::Resize)), Ok(Outcome::Redraw));
    assert_eq!(app.process_command(Command::Close), Ok(Outcome::Close));
    assert_eq!(app.focus_index(), 1);
    assert_eq!(app.view_count(), 2);
}

#[test]
fn tabs_mark_the_focused_view() {
    let mut app = open(&["/x/a.md", "/x/b.md"]);
    app.process_command(Command::NextView).unwrap();
    assert_eq!(
        app.tabs(),
        vec![
            Tab { path: "/x/a.md".to_string(), focused: false },
            Tab { path: "/x/b.md".to_string(), focused: true },
        ]
    );
}

#[test]
fn empty_session_is_closed() {
    let mut app = ClosedApplication::open(Vec::new());
    assert!(app.is_closed());
    assert!(app.focused_view().is_none());
    app.select_next_view();
    app.scroll_markdown_view(2);
    assert_eq!(app.focus_index(), 0);
    assert!(app.tabs().is_empty());
}
