use plte_cli::menu::{
    collection, csv_file, database, menu_input, next_screen, normalize_input, raw_file,
    read_command, search_field, search_term, source_url, Command, Feed, Next, Screen,
};

fn command(screen: Screen, line: &str) -> Option<Command> {
    read_command(screen, line).map(|(_, c)| c)
}

#[test]
fn top_menu_opens_sources() {
    assert_eq!(command(Screen::Main, "1\n"), Some(Command::Open(Feed::Calendar)));
    assert_eq!(command(Screen::Main, "  2  \n"), Some(Command::Open(Feed::Events)));
    assert_eq!(command(Screen::Main, "3 more words\n"), Some(Command::Open(Feed::Venues)));
    assert_eq!(
        next_screen(Screen::Main, Command::Open(Feed::Venues), true),
        Next::Show(Screen::Feed(Feed::Venues))
    );
}

#[test]
fn top_menu_leave_words_exit() {
    for w in ["0", "q", "quit", "exit"] {
        let c = command(Screen::Main, w).unwrap();
        assert_eq!(c, Command::Leave);
        assert_eq!(next_screen(Screen::Main, c, true), Next::Exit(0));
    }
}

#[test]
fn source_menu_entries() {
    let s = Screen::Feed(Feed::Events);
    assert_eq!(command(s, "1"), Some(Command::Scrape));
    assert_eq!(command(s, "2"), Some(Command::SaveCsv));
    assert_eq!(command(s, "3"), Some(Command::Import));
    assert_eq!(command(s, "4"), Some(Command::Show));
    assert_eq!(command(s, "5"), Some(Command::Search));
    for w in ["0", "q", "quit"] {
        assert_eq!(command(s, w), Some(Command::Leave));
        assert_eq!(next_screen(s, Command::Leave, true), Next::Show(Screen::Main));
    }
    assert_eq!(command(s, "exit"), Some(Command::NotFound));
    assert_eq!(command(s, "6"), Some(Command::NotFound));
    assert_eq!(next_screen(s, Command::NotFound, true), Next::Show(s));
}

#[test]
fn unknown_word_is_kept_for_the_message() {
    let (w, c) = read_command(Screen::Main, "\thello world\n").unwrap();
    assert_eq!(w, "hello");
    assert_eq!(c, Command::NotFound);
}

#[test]
fn scrape_and_failures_end_the_program() {
    let s = Screen::Feed(Feed::Calendar);
    assert_eq!(next_screen(s, Command::Scrape, true), Next::Exit(1));
    assert_eq!(next_screen(s, Command::SaveCsv, false), Next::Exit(1));
    assert_eq!(next_screen(s, Command::Import, false), Next::Exit(1));
    assert_eq!(next_screen(s, Command::SaveCsv, true), Next::Show(s));
    assert_eq!(next_screen(s, Command::Show, true), Next::Show(s));
}

#[test]
fn empty_line_goes_back_from_calendar_and_venues() {
    for f in [Feed::Calendar, Feed::Venues] {
        let line = menu_input(Screen::Feed(f), "\n".to_string());
        assert_eq!(line, "0");
        assert_eq!(command(Screen::Feed(f), &line), Some(Command::Leave));
    }
    for s in [Screen::Main, Screen::Feed(Feed::Events)] {
        let line = menu_input(s, "\n".to_string());
        assert_eq!(line, "\n");
        assert_eq!(command(s, &line), None);
    }
}

#[test]
fn only_a_bare_line_feed_becomes_zero() {
    assert_eq!(normalize_input("\n".to_string()), "0");
    assert_eq!(normalize_input(" \n".to_string()), " \n");
    assert_eq!(normalize_input("".to_string()), "");
    assert_eq!(normalize_input("5\n".to_string()), "5\n");
    assert_eq!(command(Screen::Feed(Feed::Venues), " \n"), None);
}

#[test]
fn search_term_is_trimmed() {
    assert_eq!(search_term(Feed::Calendar, "  Rust Meetup \n".to_string()), "Rust Meetup");
    assert_eq!(search_term(Feed::Venues, "\n".to_string()), "0");
    assert_eq!(search_term(Feed::Events, "\n".to_string()), "");
    assert_eq!(search_term(Feed::Events, "\u{3000}x\u{a0}".to_string()), "x");
}

#[test]
fn source_settings() {
    assert_eq!(source_url(Feed::Calendar), "https://calagator.org");
    assert_eq!(source_url(Feed::Events), "https://calagator.org/events.json");
    assert_eq!(raw_file(Feed::Venues), "assets/venues.json");
    assert_eq!(csv_file(Feed::Events), "assets/events.csv");
    assert_eq!(database(Feed::Events), "foo");
    assert_eq!(database(Feed::Venues), "calagator");
    assert_eq!(collection(Feed::Calendar), "calendar");
    assert_eq!(search_field(Feed::Venues), "title");
    assert_eq!(search_field(Feed::Events), "summary");
}
