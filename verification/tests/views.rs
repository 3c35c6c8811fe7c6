use chrono::NaiveDate;
use icb::message::{Message, MessageType, DATE_PATTERN, TIME_PATTERN};
use icb::session::Command;
use icb::tab::{Added, ChatType, Tabs, STATUS, SYSTEM};
use icb::tailview::{count_rows, Area, TailView, ViewOptions, MAX_HEIGHT};

fn plain(kind: MessageType, from: &str, body: &str) -> Message {
    Message::stamped(
        "09:05".to_string(),
        "Mar-07 09:05".to_string(),
        kind,
        from.to_string(),
        body.to_string(),
    )
}

fn options() -> ViewOptions {
    ViewOptions::new()
}

#[test]
fn status_categories() {
    assert_eq!(MessageType::from_status_str("Arrive"), MessageType::Arrive);
    assert_eq!(MessageType::from_status_str("Boot"), MessageType::Boot);
    assert_eq!(MessageType::from_status_str("Depart"), MessageType::Depart);
    assert_eq!(MessageType::from_status_str("Help"), MessageType::Help);
    assert_eq!(MessageType::from_status_str("Name"), MessageType::Name);
    assert_eq!(MessageType::from_status_str("No-Beep"), MessageType::NoBeep);
    assert_eq!(MessageType::from_status_str("Notify"), MessageType::Notify);
    assert_eq!(MessageType::from_status_str("Sign-off"), MessageType::SignOff);
    assert_eq!(MessageType::from_status_str("Sign-on"), MessageType::SignOn);
    assert_eq!(MessageType::from_status_str("Status"), MessageType::Status);
    assert_eq!(MessageType::from_status_str("Topic"), MessageType::Topic);
    assert_eq!(MessageType::from_status_str("Warning"), MessageType::Warning);
    assert_eq!(MessageType::from_status_str("arrive"), MessageType::Unknown);
    assert_eq!(MessageType::from_status_str(""), MessageType::Unknown);
    assert_eq!(MessageType::from_status_str("Open"), MessageType::Unknown);
    assert_eq!(MessageType::from_status_str("Beep"), MessageType::Unknown);
}

#[test]
fn new_view_options() {
    let opts = ViewOptions::new();
    assert!(!opts.show_date);
    assert!(opts.show_arrivals);
    assert!(opts.show_departures);
    assert!(opts.autoscroll);
}

#[test]
fn a_message_is_stamped_by_chrono() {
    let moment = NaiveDate::from_ymd_opt(2020, 3, 7)
        .unwrap()
        .and_hms_opt(9, 5, 59)
        .unwrap();
    let m = Message::new(
        moment,
        MessageType::Open,
        "bob".to_string(),
        "hi".to_string(),
    );
    let mut opts = options();
    assert_eq!(m.render(&opts), Some("09:05: <bob> hi\n".to_string()));
    opts.show_date = true;
    assert_eq!(m.render(&opts), Some("Mar-07 09:05: <bob> hi\n".to_string()));
    assert_eq!(TIME_PATTERN, "%H:%M");
    assert_eq!(DATE_PATTERN, "%b-%d %H:%M");
}

#[test]
fn render_names_the_sender_of_what_users_say() {
    let opts = options();
    for kind in [MessageType::Open, MessageType::Personal, MessageType::Beep] {
        assert_eq!(
            plain(kind, "bob", "hello there").render(&opts),
            Some("09:05: <bob> hello there\n".to_string())
        );
    }
    for kind in [
        MessageType::Arrive,
        MessageType::Boot,
        MessageType::Depart,
        MessageType::Help,
        MessageType::Name,
        MessageType::NoBeep,
        MessageType::Notify,
        MessageType::SignOff,
        MessageType::SignOn,
        MessageType::Status,
        MessageType::Topic,
        MessageType::Unknown,
        MessageType::Warning,
    ] {
        assert_eq!(
            plain(kind, "bob", "hello there").render(&opts),
            Some("09:05: hello there\n".to_string())
        );
    }
}

#[test]
fn render_hides_arrivals_and_departures() {
    let mut opts = options();
    opts.show_arrivals = false;
    assert_eq!(plain(MessageType::Arrive, "", "x").render(&opts), None);
    assert_eq!(plain(MessageType::SignOn, "", "x").render(&opts), None);
    assert!(plain(MessageType::Depart, "", "x").render(&opts).is_some());
    assert!(plain(MessageType::SignOff, "", "x").render(&opts).is_some());
    assert!(plain(MessageType::Open, "", "x").render(&opts).is_some());
    let mut opts = options();
    opts.show_departures = false;
    assert_eq!(plain(MessageType::Depart, "", "x").render(&opts), None);
    assert_eq!(plain(MessageType::SignOff, "", "x").render(&opts), None);
    assert!(plain(MessageType::Arrive, "", "x").render(&opts).is_some());
    assert!(plain(MessageType::SignOn, "", "x").render(&opts).is_some());
}

#[test]
fn render_with_the_date() {
    let mut opts = options();
    opts.show_date = true;
    assert_eq!(
        plain(MessageType::Status, "[system]", "up").render(&opts),
        Some("Mar-07 09:05: up\n".to_string())
    );
}

#[test]
fn rows_of_words() {
    assert_eq!(count_rows(&vec![], 10), 1);
    assert_eq!(count_rows(&vec![], 0), 1);
    assert_eq!(count_rows(&vec![5], 10), 1);
    assert_eq!(count_rows(&vec![5, 4], 10), 1);
    assert_eq!(count_rows(&vec![5, 5], 10), 2);
    assert_eq!(count_rows(&vec![5, 4, 1], 10), 2);
    assert_eq!(count_rows(&vec![10], 10), 1);
    assert_eq!(count_rows(&vec![10, 1], 10), 2);
    assert_eq!(count_rows(&vec![3, 3, 3, 3], 7), 2);
    assert_eq!(count_rows(&vec![3, 3, 3, 3], 3), 4);
}

#[test]
fn rows_of_words_wider_than_the_view() {
    assert_eq!(count_rows(&vec![11], 10), 2);
    assert_eq!(count_rows(&vec![20], 10), 2);
    assert_eq!(count_rows(&vec![21], 10), 3);
    assert_eq!(count_rows(&vec![25, 4], 10), 3);
    assert_eq!(count_rows(&vec![25, 5], 10), 4);
    assert_eq!(count_rows(&vec![2, 25], 10), 4);
    assert_eq!(count_rows(&vec![1], 0), u16::MAX);
    assert_eq!(count_rows(&vec![0, 0, 0], 0), 3);
    assert_eq!(count_rows(&vec![usize::MAX], 1), u16::MAX);
    assert_eq!(count_rows(&vec![usize::MAX, 3, 3], 7), u16::MAX);
    assert_eq!(count_rows(&vec![70_000], 1), u16::MAX);
    assert_eq!(count_rows(&vec![65_534], 1), 65_534);
    assert_eq!(count_rows(&vec![65_535], 1), 65_535);
    assert_eq!(MAX_HEIGHT, 65_535);
    let many = vec![1usize; 70_000];
    assert_eq!(count_rows(&many, 1), u16::MAX);
    let some = vec![1usize; 300];
    assert_eq!(count_rows(&some, 1), 300);
}

#[test]
fn a_new_view_is_empty() {
    let mut view = TailView::new("room");
    assert_eq!(view.name(), "room");
    assert_eq!(view.status_line(), "");
    assert!(view
        .draw(Area {
            width: 80,
            height: 24
        })
        .is_empty());
}

#[test]
fn a_view_draws_what_fits() {
    let mut view = TailView::new("room");
    for i in 0..10 {
        assert_eq!(
            view.add(plain(MessageType::Open, "bob", &format!("line {}", i))),
            None
        );
    }
    let area = Area {
        width: 80,
        height: 4,
    };
    let texts = view.draw(area);
    assert_eq!(
        texts,
        vec![
            "09:05: <bob> line 6\n".to_string(),
            "09:05: <bob> line 7\n".to_string(),
            "09:05: <bob> line 8\n".to_string(),
            "09:05: <bob> line 9\n".to_string(),
        ]
    );
    assert_eq!(view.draw(area), texts);
    view.add(plain(MessageType::Open, "bob", "line 10"));
    let texts = view.draw(area);
    assert_eq!(texts.len(), 4);
    assert_eq!(texts[3], "09:05: <bob> line 10\n");
}

#[test]
fn a_view_counts_wrapped_rows() {
    let filled = || {
        let mut view = TailView::new("room");
        view.add(plain(MessageType::Open, "bob", "aaaa bbbb cccc dddd"));
        view.add(plain(MessageType::Open, "bob", "x"));
        view.add(plain(MessageType::Open, "bob", "y"));
        view
    };
    let texts = filled().draw(Area {
        width: 12,
        height: 3,
    });
    assert_eq!(texts, vec!["09:05: <bob> y\n".to_string()]);
    let texts = filled().draw(Area {
        width: 12,
        height: 6,
    });
    assert_eq!(
        texts,
        vec!["09:05: <bob> x\n".to_string(), "09:05: <bob> y\n".to_string()]
    );
    let texts = filled().draw(Area {
        width: 12,
        height: 7,
    });
    assert_eq!(texts.len(), 3);
    let texts = filled().draw(Area {
        width: 13,
        height: 4,
    });
    assert_eq!(texts.len(), 2);
}

#[test]
fn a_view_counts_columns_not_characters() {
    let filled = |body: &str| {
        let mut view = TailView::new("room");
        view.add(plain(MessageType::Status, "", body));
        view.add(plain(MessageType::Status, "", body));
        view
    };
    let area = Area {
        width: 11,
        height: 3,
    };
    assert_eq!(filled("abcd").draw(area).len(), 2);
    assert_eq!(filled("\u{4e2d}\u{6587}\u{4e2d}\u{6587}").draw(area).len(), 1);
    assert_eq!(filled("ab\u{301}c\u{301}d").draw(area).len(), 2);
    assert_eq!(filled("a  \t b").draw(area).len(), 2);
    assert_eq!(filled("a  \t bcd").draw(area).len(), 1);
}

#[test]
fn scrolling() {
    let mut view = TailView::new("room");
    for i in 0..20 {
        view.add(plain(MessageType::Open, "bob", &format!("line {}", i)));
    }
    let area = Area {
        width: 80,
        height: 4,
    };
    assert_eq!(view.draw(area).len(), 4);
    view.scroll_up(area);
    let texts = view.draw(area);
    assert_eq!(texts.len(), 6);
    assert_eq!(texts[0], "09:05: <bob> line 14\n");
    view.scroll_up(Area {
        width: 80,
        height: 1,
    });
    assert_eq!(view.draw(area)[0], "09:05: <bob> line 13\n");
    view.scroll_up(Area {
        width: 80,
        height: 100,
    });
    assert_eq!(view.draw(area).len(), 20);
    view.scroll_down(Area {
        width: 80,
        height: 0,
    });
    assert_eq!(view.draw(area).len(), 19);
    view.scroll_down(Area {
        width: 80,
        height: 100,
    });
    assert_eq!(view.draw(area).len(), 4);
    view.scroll_down(area);
    assert_eq!(view.draw(area).len(), 4);
}

#[test]
fn a_view_that_was_scrolled_up_does_not_follow() {
    let mut view = TailView::new("room");
    let area = Area {
        width: 80,
        height: 2,
    };
    for i in 0..6 {
        view.add(plain(MessageType::Open, "bob", &format!("line {}", i)));
    }
    assert_eq!(view.draw(area).len(), 2);
    view.scroll_up(area);
    assert_eq!(view.draw(area).len(), 3);
    view.add(plain(MessageType::Open, "bob", "line 6"));
    let texts = view.draw(area);
    assert_eq!(texts.len(), 4);
    assert_eq!(texts[0], "09:05: <bob> line 3\n");
}

#[test]
fn a_view_without_autoscroll_stays() {
    let mut view = TailView::new("room");
    view.toggle_autoscroll();
    assert_eq!(view.status_line(), "S");
    let area = Area {
        width: 80,
        height: 2,
    };
    for i in 0..5 {
        view.add(plain(MessageType::Open, "bob", &format!("line {}", i)));
    }
    assert_eq!(view.draw(area).len(), 5);
    view.scroll_down(Area {
        width: 80,
        height: 100,
    });
    assert_eq!(view.draw(area).len(), 2);
    view.toggle_autoscroll();
    assert_eq!(view.status_line(), "");
}

#[test]
fn hidden_lines_are_not_drawn() {
    let mut view = TailView::new("room");
    view.add(plain(MessageType::Arrive, "", "bob arrives"));
    view.add(plain(MessageType::Open, "bob", "hi"));
    view.add(plain(MessageType::Depart, "", "bob leaves"));
    let area = Area {
        width: 80,
        height: 24,
    };
    assert_eq!(view.draw(area).len(), 3);
    view.toggle_show_arrivals();
    assert_eq!(
        view.draw(area),
        vec![
            "09:05: <bob> hi\n".to_string(),
            "09:05: bob leaves\n".to_string()
        ]
    );
    view.toggle_show_departures();
    assert_eq!(view.draw(area), vec!["09:05: <bob> hi\n".to_string()]);
    view.toggle_show_date();
    assert_eq!(view.draw(area), vec!["Mar-07 09:05: <bob> hi\n".to_string()]);
    view.toggle_show_arrivals();
    view.toggle_show_departures();
    view.toggle_show_date();
    assert_eq!(view.draw(area).len(), 3);
}

#[test]
fn logging_a_view() {
    let mut view = TailView::new("room");
    assert_eq!(view.add(plain(MessageType::Open, "bob", "one")), None);
    assert!(view.toggle_logging());
    assert_eq!(view.status_line(), "");
    assert_eq!(view.add(plain(MessageType::Open, "bob", "two")), None);
    view.enable_logging();
    assert_eq!(view.status_line(), "L");
    assert_eq!(
        view.add(plain(MessageType::Open, "bob", "three")),
        Some("09:05: <bob> three\n".to_string())
    );
    view.toggle_show_arrivals();
    assert_eq!(view.add(plain(MessageType::Arrive, "", "carol")), None);
    view.toggle_autoscroll();
    assert_eq!(view.status_line(), "SL");
    assert!(!view.toggle_logging());
    assert_eq!(view.status_line(), "S");
    assert_eq!(view.add(plain(MessageType::Open, "bob", "four")), None);
    assert!(view.toggle_logging());
}

#[test]
fn chat_types() {
    let a = ChatType::Open("1".to_string());
    assert!(a.same(&ChatType::Open("1".to_string())));
    assert!(!a.same(&ChatType::Open("2".to_string())));
    assert!(!a.same(&ChatType::Personal("1".to_string())));
    assert!(!a.same(&ChatType::Status("1".to_string())));
    assert_eq!(a.name(), "1");
    assert_eq!(ChatType::Personal("bob".to_string()).name(), "bob");
    assert_eq!(ChatType::Status("Status".to_string()).name(), "Status");
    assert_eq!(STATUS, "Status");
    assert_eq!(SYSTEM, "[system]");
}

#[test]
fn new_tabs_hold_the_status_tab() {
    let tabs = Tabs::new();
    assert_eq!(tabs.len(), 1);
    assert_eq!(tabs.current(), 0);
    assert!(!tabs.log_default());
    assert_eq!(tabs.draw_titles(), vec![("Status".to_string(), false)]);
    assert_eq!(tabs.status_line(), "");
    assert_eq!(tabs.find(&ChatType::Status("Status".to_string())), Some(0));
    assert_eq!(tabs.find(&ChatType::Open("Status".to_string())), None);
}

#[test]
fn messages_open_tabs() {
    let mut tabs = Tabs::new();
    let added = tabs.add_message(
        ChatType::Personal("bob".to_string()),
        plain(MessageType::Personal, "bob", "psst"),
        false,
    );
    assert_eq!(
        added,
        Added {
            tab: 1,
            logged: None
        }
    );
    assert_eq!(tabs.current(), 0);
    let added = tabs.add_message(
        ChatType::Open("1".to_string()),
        plain(MessageType::Open, "bob", "hi"),
        true,
    );
    assert_eq!(
        added,
        Added {
            tab: 2,
            logged: Some("09:05: <bob> hi\n".to_string())
        }
    );
    assert_eq!(tabs.current(), 2);
    assert_eq!(tabs.status_line(), "L");
    let added = tabs.add_message(
        ChatType::Personal("bob".to_string()),
        plain(MessageType::Personal, "bob", "again"),
        true,
    );
    assert_eq!(
        added,
        Added {
            tab: 1,
            logged: None
        }
    );
    assert_eq!(tabs.len(), 3);
    assert_eq!(
        tabs.draw_titles(),
        vec![
            ("Status".to_string(), false),
            ("bob".to_string(), true),
            ("1".to_string(), true),
        ]
    );
    let area = Area {
        width: 80,
        height: 24,
    };
    assert_eq!(tabs.draw_current(area), vec!["09:05: <bob> hi\n".to_string()]);
    assert_eq!(tabs.draw_titles()[2], ("1".to_string(), false));
    assert_eq!(tabs.draw_titles()[1], ("bob".to_string(), true));
}

#[test]
fn stepping_through_tabs() {
    let mut tabs = Tabs::new();
    tabs.next();
    assert_eq!(tabs.current(), 0);
    tabs.previous();
    assert_eq!(tabs.current(), 0);
    tabs.add_message(
        ChatType::Personal("bob".to_string()),
        plain(MessageType::Personal, "bob", "x"),
        false,
    );
    tabs.add_message(
        ChatType::Personal("carol".to_string()),
        plain(MessageType::Personal, "carol", "y"),
        false,
    );
    tabs.next();
    assert_eq!(tabs.current(), 1);
    tabs.next();
    assert_eq!(tabs.current(), 2);
    tabs.next();
    assert_eq!(tabs.current(), 0);
    tabs.previous();
    assert_eq!(tabs.current(), 2);
    tabs.previous();
    assert_eq!(tabs.current(), 1);
    tabs.switch_to(ChatType::Status("Status".to_string()));
    assert_eq!(tabs.current(), 0);
    tabs.switch_to(ChatType::Personal("carol".to_string()));
    assert_eq!(tabs.current(), 2);
    tabs.switch_to(ChatType::Personal("dave".to_string()));
    assert_eq!(tabs.current(), 2);
}

#[test]
fn the_command_for_the_tab_in_front() {
    let mut tabs = Tabs::new();
    assert_eq!(
        tabs.command_for_current("hello"),
        Command::Open("hello".to_string())
    );
    tabs.add_message(
        ChatType::Personal("bob".to_string()),
        plain(MessageType::Personal, "bob", "x"),
        false,
    );
    tabs.switch_to(ChatType::Personal("bob".to_string()));
    assert_eq!(
        tabs.command_for_current("hello"),
        Command::Personal("bob".to_string(), "hello".to_string())
    );
    tabs.add_message(
        ChatType::Open("1".to_string()),
        plain(MessageType::Open, "bob", "x"),
        false,
    );
    assert_eq!(
        tabs.command_for_current("hello"),
        Command::Open("hello".to_string())
    );
}

#[test]
fn what_the_reader_writes_is_read() {
    let mut tabs = Tabs::new();
    tabs.add_message(
        ChatType::Open("1".to_string()),
        plain(MessageType::Open, "bob", "x"),
        false,
    );
    let area = Area {
        width: 80,
        height: 24,
    };
    tabs.draw_current(area);
    assert_eq!(tabs.add_current(plain(MessageType::Open, "me", "mine")), None);
    assert_eq!(tabs.draw_titles()[1], ("1".to_string(), false));
    assert_eq!(tabs.draw_current(area).len(), 2);
    tabs.enable_logging();
    assert_eq!(
        tabs.add_current(plain(MessageType::Open, "me", "more")),
        Some("09:05: <me> more\n".to_string())
    );
}

#[test]
fn reports_of_the_system_go_to_the_status_tab() {
    let mut tabs = Tabs::new();
    tabs.add_message(
        ChatType::Open("1".to_string()),
        plain(MessageType::Open, "bob", "x"),
        false,
    );
    let added = tabs.add_status("connected".to_string());
    assert_eq!(
        added,
        Added {
            tab: 0,
            logged: None
        }
    );
    assert_eq!(tabs.len(), 2);
    assert_eq!(tabs.current(), 1);
    assert_eq!(tabs.draw_titles()[0], ("Status".to_string(), true));
    tabs.switch_to(ChatType::Status("Status".to_string()));
    let texts = tabs.draw_current(Area {
        width: 80,
        height: 24,
    });
    assert_eq!(texts.len(), 1);
    assert!(texts[0].ends_with(": connected\n"));
    assert_eq!(texts[0].len(), "00:00: connected\n".len());
    assert!(!texts[0].contains("[system]"));
}

#[test]
fn options_of_the_tab_in_front() {
    let mut tabs = Tabs::new();
    tabs.add_message(
        ChatType::Status("Status".to_string()),
        plain(MessageType::Arrive, "", "bob arrives"),
        false,
    );
    tabs.add_message(
        ChatType::Status("Status".to_string()),
        plain(MessageType::SignOff, "", "bob signs off"),
        false,
    );
    let area = Area {
        width: 80,
        height: 24,
    };
    assert_eq!(tabs.draw_current(area).len(), 2);
    tabs.toggle_show_arrivals_departures();
    assert_eq!(tabs.draw_current(area).len(), 0);
    tabs.toggle_show_arrivals_departures();
    tabs.toggle_show_date();
    assert_eq!(tabs.draw_current(area)[0], "Mar-07 09:05: bob arrives\n");
    tabs.toggle_autoscroll();
    assert_eq!(tabs.status_line(), "S");
    assert!(tabs.toggle_logging());
    tabs.enable_logging();
    assert_eq!(tabs.status_line(), "SL");
    assert!(!tabs.toggle_logging());
    assert_eq!(tabs.status_line(), "S");
    tabs.set_logging(true);
    assert!(tabs.log_default());
}

#[test]
fn scrolling_the_tab_in_front() {
    let mut tabs = Tabs::new();
    for i in 0..10 {
        tabs.add_message(
            ChatType::Status("Status".to_string()),
            plain(MessageType::Status, "", &format!("line {}", i)),
            false,
        );
    }
    let area = Area {
        width: 80,
        height: 4,
    };
    assert_eq!(tabs.draw_current(area).len(), 4);
    tabs.scroll_up(area);
    assert_eq!(tabs.draw_current(area).len(), 6);
    tabs.scroll_down(area);
    assert_eq!(tabs.draw_current(area).len(), 4);
}
