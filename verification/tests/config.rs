use romoto::config::{
    handle_click, App, Area, Event, Flow, KeyCode, Outcome, RunLoop, Step,
};

fn area(x: u16, y: u16, width: u16, height: u16) -> Area {
    Area { x, y, width, height }
}

#[test]
fn the_screen_opens_on_the_first_tab() {
    let app = App::new();
    assert_eq!(app.active_tab, 0);
    assert_eq!(app.tab_titles, vec!["General", "Auth"]);
}

#[test]
fn clicks_activate_the_tab_under_the_pointer() {
    // " General " covers columns 1 to 9, a divider column 10, " Auth " columns 11 to 16.
    for (col, expected) in [
        (0, None),
        (1, Some(0)),
        (9, Some(0)),
        (10, None),
        (11, Some(1)),
        (16, Some(1)),
        (17, None),
        (65535, None),
    ] {
        for start in [0, 1] {
            let mut app = App::new();
            app.active_tab = start;
            handle_click(&mut app, col, 1);
            assert_eq!(app.active_tab, expected.unwrap_or(start));
        }
    }
}

#[test]
fn clicks_on_other_rows_do_nothing() {
    for row in [0, 2, 3, 65535] {
        let mut app = App::new();
        handle_click(&mut app, 12, row);
        assert_eq!(app.active_tab, 0);
    }
}

#[test]
fn keys_quit() {
    let mut app = App::new();
    assert_eq!(app.handle_event(Event::Key(KeyCode::Char('q'))), Flow::Quit);
    assert_eq!(app.handle_event(Event::Key(KeyCode::Esc)), Flow::Quit);
    assert_eq!(app.active_tab, 0);
}

#[test]
fn the_tab_key_goes_round() {
    let mut app = App::new();
    assert_eq!(app.handle_event(Event::Key(KeyCode::Tab)), Flow::Continue);
    assert_eq!(app.active_tab, 1);
    assert_eq!(app.handle_event(Event::Key(KeyCode::Tab)), Flow::Continue);
    assert_eq!(app.active_tab, 0);
}

#[test]
fn clicks_come_as_events() {
    let mut app = App::new();
    assert_eq!(app.handle_event(Event::LeftClick { column: 11, row: 1 }), Flow::Continue);
    assert_eq!(app.active_tab, 1);
}

#[test]
fn other_events_do_nothing() {
    let mut app = App::new();
    for event in [
        Event::Other,
        Event::Key(KeyCode::Other),
        Event::Key(KeyCode::Char('x')),
        Event::Key(KeyCode::Char('Q')),
    ] {
        assert_eq!(app.handle_event(event), Flow::Continue);
        assert_eq!(app.active_tab, 0);
    }
}

#[test]
fn what_the_screen_shows() {
    let mut app = App::new();
    let screen = app.screen(area(0, 0, 80, 24));
    assert_eq!(screen.bar_title, "romoto config");
    assert_eq!(screen.tabs, vec!["General", "Auth"]);
    assert_eq!(screen.selected, 0);
    assert_eq!(screen.page_title, "General");
    assert_eq!(screen.page, "General settings (TODO)");
    app.handle_event(Event::Key(KeyCode::Tab));
    let screen = app.screen(area(0, 0, 80, 24));
    assert_eq!(screen.selected, 1);
    assert_eq!(screen.page_title, "Auth");
    assert_eq!(screen.page, "Authentication settings (TODO)");
    let more = App { active_tab: 2, tab_titles: vec!["General", "Auth", "More"] };
    assert_eq!(more.screen_in(area(0, 0, 1, 1), area(2, 2, 2, 2)).page, "");
    assert_eq!(more.screen_in(area(0, 0, 1, 1), area(2, 2, 2, 2)).page_title, "More");
}

#[test]
fn the_tab_bar_is_above_the_page() {
    let app = App::new();
    let screen = app.screen(area(0, 0, 80, 24));
    assert_eq!(screen.bar_area, area(0, 0, 80, 3));
    assert_eq!(screen.page_area, area(0, 3, 80, 21));
    for y in [0, 1, 7, 1000] {
        for height in 3..200 {
            let screen = app.screen(area(5, y, 40, height));
            assert_eq!(screen.bar_area, area(5, y, 40, 3));
            assert_eq!(screen.page_area, area(5, y + 3, 40, height - 3));
        }
    }
    let screen = app.screen(area(0, 0, 65535, 65535));
    assert_eq!(screen.bar_area, area(0, 0, 65535, 3));
    assert_eq!(screen.page_area, area(0, 3, 65535, 65532));
    let screen = app.screen(area(65535, 65532, 0, 3));
    assert_eq!(screen.bar_area, area(65535, 65532, 0, 3));
    assert_eq!(screen.page_area, area(65535, 65535, 0, 0));
}

#[test]
fn on_a_low_screen_the_tab_bar_has_every_row() {
    let app = App::new();
    for y in [0, 1, 9, 65533] {
        for height in 0..3 {
            let screen = app.screen(area(4, y, 30, height));
            assert_eq!(screen.bar_area, area(4, y, 30, height));
            assert_eq!(screen.page_area, area(4, y + height, 30, 0));
        }
    }
}

#[test]
fn titles_are_on_the_row_that_takes_clicks() {
    for height in 3..60 {
        let bar = App::new().screen(area(0, 0, 80, height)).bar_area;
        for row in 0..height {
            assert_eq!(bar.y < row && row < bar.y + bar.height - 1, row == 1);
        }
    }
    let mut app = App::new();
    handle_click(&mut app, 11, 2);
    assert_eq!(app.active_tab, 0);
    handle_click(&mut app, 11, 1);
    assert_eq!(app.active_tab, 1);
}

#[test]
fn areas_are_taken_as_they_are_given() {
    let screen = App::new().screen_in(area(1, 2, 3, 4), area(5, 6, 7, 8));
    assert_eq!(screen.bar_area, area(1, 2, 3, 4));
    assert_eq!(screen.page_area, area(5, 6, 7, 8));
}

#[test]
fn the_screen_closes_at_the_first_quit() {
    for quit in [KeyCode::Char('q'), KeyCode::Esc] {
        let reports = [
            Event::Key(KeyCode::Tab),
            Event::Key(KeyCode::Char('Q')),
            Event::Other,
            Event::LeftClick { column: 1, row: 1 },
            Event::Key(quit),
            Event::Key(KeyCode::Tab),
        ];
        let mut screen: RunLoop<&str> = RunLoop::new();
        let (mut frames, mut reads) = (0, 0);
        let result = loop {
            let outcome = match screen.step {
                Step::Draw => {
                    frames += 1;
                    Outcome::Drawn
                }
                Step::Read => {
                    reads += 1;
                    Outcome::Read(reports[reads - 1])
                }
                Step::Done(result) => break result,
            };
            screen.handle(outcome);
        };
        assert_eq!(result, Ok(()));
        assert_eq!((frames, reads), (5, 5));
        assert_eq!(screen.app.active_tab, 0);
    }
}

#[test]
fn a_failure_ends_the_loop() {
    let mut screen: RunLoop<&str> = RunLoop::new();
    screen.handle(Outcome::Failed("draw"));
    assert!(matches!(screen.step, Step::Done(Err("draw"))));
    screen.handle(Outcome::Drawn);
    screen.handle(Outcome::Failed("later"));
    assert!(matches!(screen.step, Step::Done(Err("draw"))));

    let mut screen: RunLoop<&str> = RunLoop::new();
    screen.handle(Outcome::Drawn);
    screen.handle(Outcome::Read(Event::Key(KeyCode::Tab)));
    assert_eq!(screen.app.active_tab, 1);
    screen.handle(Outcome::Drawn);
    screen.handle(Outcome::Failed("read"));
    assert!(matches!(screen.step, Step::Done(Err("read"))));
}

#[test]
fn what_is_out_of_turn_changes_nothing() {
    let mut screen: RunLoop<&str> = RunLoop::new();
    screen.handle(Outcome::Read(Event::Key(KeyCode::Tab)));
    assert!(matches!(screen.step, Step::Draw));
    assert_eq!(screen.app.active_tab, 0);
    screen.handle(Outcome::Drawn);
    screen.handle(Outcome::Drawn);
    assert!(matches!(screen.step, Step::Read));
}

#[test]
fn a_click_needs_no_active_tab() {
    let mut app = App { active_tab: 9, tab_titles: vec!["General", "Auth"] };
    handle_click(&mut app, 0, 1);
    assert_eq!(app.active_tab, 9);
    handle_click(&mut app, 11, 1);
    assert_eq!(app.active_tab, 1);
    let mut none = App { active_tab: 0, tab_titles: vec![] };
    handle_click(&mut none, 1, 1);
    assert_eq!(none.active_tab, 0);
}
