use sysview::app::{App, CpuView, InfoPanel, KeyPress};

fn key(c: char) -> Option<KeyPress> {
    Some(KeyPress::Char(c))
}

#[test]
fn starts_on_memory_summary() {
    let app = App::default();
    assert!(!app.should_quit());
    assert_eq!(app.cpu_view(), CpuView::Summary);
    assert_eq!(app.info_panel(), InfoPanel::Memory);
}

#[test]
fn keys_choose_views() {
    let mut app = App::default();
    app.handle_event(key('c'));
    assert_eq!(app.cpu_view(), CpuView::Threads);
    app.handle_event(key('c'));
    assert_eq!(app.cpu_view(), CpuView::Threads);
    app.handle_event(key('C'));
    assert_eq!(app.cpu_view(), CpuView::Summary);
    app.handle_event(key('d'));
    assert_eq!(app.info_panel(), InfoPanel::Disks);
    app.handle_event(key('o'));
    assert_eq!(app.info_panel(), InfoPanel::Os);
    app.handle_event(key('m'));
    assert_eq!(app.info_panel(), InfoPanel::Memory);
    assert!(!app.should_quit());
}

#[test]
fn quit_keys() {
    let mut app = App::default();
    app.handle_event(key('q'));
    assert!(app.should_quit());
    app.handle_event(key('m'));
    assert!(app.should_quit());
    let mut app = App::default();
    app.handle_event(Some(KeyPress::Esc));
    assert!(app.should_quit());
}

#[test]
fn other_events_change_nothing() {
    let mut app = App::default();
    app.handle_event(key('d'));
    for k in [None, Some(KeyPress::Other), key('x'), key('Q'), key('D')] {
        app.handle_event(k);
        assert!(!app.should_quit());
        assert_eq!(app.cpu_view(), CpuView::Summary);
        assert_eq!(app.info_panel(), InfoPanel::Disks);
    }
}

#[test]
fn info_panel_text() {
    let mut app = App::default();
    let memory = app.info_text(|| String::from("sh")).unwrap();
    assert!(memory.starts_with("Memoria: "));
    app.handle_event(key('d'));
    let disks = app.info_text(|| panic!("the shell is read for the operating-system panel only")).unwrap();
    assert!(disks.starts_with("Discos:\n"));
    app.handle_event(key('o'));
    if let Some(text) = app.info_text(|| String::from("Console Host")) {
        assert!(text.ends_with("\nShell: Console Host"));
    }
    assert_eq!(app.info_panel(), InfoPanel::Os);
}
