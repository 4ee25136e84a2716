use vstd::prelude::*;
use crate::records::{calendar_columns, venue_columns};
use crate::text::{chars_of, first_word, first_word_of, is_space, trim, trim_text, words};

verus! {

/// The three data sources of the tool.
#[derive(Clone, Copy, Debug, PartialEq, Eq, Structural)]
pub enum Feed {
    /// The events on the home page calendar (HTML).
    Calendar,
    /// All events (JSON).
    Events,
    /// All venues (JSON).
    Venues,
}

/// The menu the user is in.
#[derive(Clone, Copy, Debug, PartialEq, Eq, Structural)]
pub enum Screen {
    /// The top menu.
    Main,
    /// The menu of one data source.
    Feed(Feed),
}

/// What a menu entry asks for.
#[derive(Clone, Copy, Debug, PartialEq, Eq, Structural)]
pub enum Command {
    /// Top menu: open the menu of a data source.
    Open(Feed),
    /// Download the source to its raw file.
    Scrape,
    /// Turn the raw file into the CSV file.
    SaveCsv,
    /// Replace the database collection with the CSV rows.
    Import,
    /// Print the documents of the collection.
    Show,
    /// Ask for a value and print the documents whose search field equals it.
    Search,
    /// Leave the menu (the top menu: end the program).
    Leave,
    /// No entry has this name.
    NotFound,
}

/// What happens after a command has run.
#[derive(Clone, Copy, Debug, PartialEq, Eq, Structural)]
pub enum Next {
    /// Show this menu again, or another.
    Show(Screen),
    /// End the program with this exit code.
    Exit(i32),
}

/// Whether the menu reads its input through the shared reader, which turns a
/// line that is just a line feed into "0".
pub open spec fn reads_blank_as_zero(screen: Screen) -> bool {
    screen == Screen::Feed(Feed::Calendar) || screen == Screen::Feed(Feed::Venues)
}

/// The line as the shared reader hands it on: "0" for a line that is just a
/// line feed, the line itself otherwise.
pub open spec fn blank_as_zero(line: Seq<char>) -> Seq<char> {
    if line == "\n"@ {
        "0"@
    } else {
        line
    }
}

/// The line a menu works with, from the line the user typed.
pub open spec fn menu_line(screen: Screen, raw: Seq<char>) -> Seq<char> {
    if reads_blank_as_zero(screen) {
        blank_as_zero(raw)
    } else {
        raw
    }
}

/// The command that the word `word` names in the menu `screen`.
pub open spec fn command_of(screen: Screen, word: Seq<char>) -> Command {
    match screen {
        Screen::Main => if word == "1"@ {
            Command::Open(Feed::Calendar)
        } else if word == "2"@ {
            Command::Open(Feed::Events)
        } else if word == "3"@ {
            Command::Open(Feed::Venues)
        } else if word == "0"@ || word == "q"@ || word == "quit"@ || word == "exit"@ {
            Command::Leave
        } else {
            Command::NotFound
        },
        Screen::Feed(_) => if word == "1"@ {
            Command::Scrape
        } else if word == "2"@ {
            Command::SaveCsv
        } else if word == "3"@ {
            Command::Import
        } else if word == "4"@ {
            Command::Show
        } else if word == "5"@ {
            Command::Search
        } else if word == "0"@ || word == "q"@ || word == "quit"@ {
            Command::Leave
        } else {
            Command::NotFound
        },
    }
}

/// What follows the command `cmd` in the menu `screen`, where `ok` tells
/// whether saving or importing succeeded. Downloading always ends the
/// program with code 1; a failed save or import ends it with code 1; leaving
/// the top menu ends it with code 0; leaving a source's menu goes back to
/// the top menu.
pub open spec fn next_of(screen: Screen, cmd: Command, ok: bool) -> Next {
    match screen {
        Screen::Main => match cmd {
            Command::Open(f) => Next::Show(Screen::Feed(f)),
            Command::Leave => Next::Exit(0),
            _ => Next::Show(Screen::Main),
        },
        Screen::Feed(_) => match cmd {
            Command::Scrape => Next::Exit(1),
            Command::SaveCsv | Command::Import => if ok {
                Next::Show(screen)
            } else {
                Next::Exit(1)
            },
            Command::Leave => Next::Show(Screen::Main),
            _ => Next::Show(screen),
        },
    }
}

/// Whether `a` and `b` hold the same characters.
pub fn same_text(a: &str, b: &str) -> (r: bool)
    ensures
        r == (a@ == b@),
{
    let x = chars_of(a);
    let y = chars_of(b);
    if x.len() != y.len() {
        return false;
    }
    let mut i: usize = 0;
    while i < x.len()
        invariant
            x@ == a@,
            y@ == b@,
            x.len() == y.len(),
            i <= x.len(),
            forall|j: int| 0 <= j < i ==> x@[j] == y@[j],
        decreases x.len() - i,
    {
        if x[i] != y[i] {
            return false;
        }
        i = i + 1;
    }
    assert(a@ =~= b@);
    true
}

/// The line as the shared reader hands it on.
pub fn normalize_input(line: String) -> (r: String)
    ensures
        r@ == blank_as_zero(line@),
{
    if same_text(line.as_str(), "\n") {
        String::from_str("0")
    } else {
        line
    }
}

/// The line the menu `screen` works with, from the line the user typed.
pub fn menu_input(screen: Screen, raw: String) -> (r: String)
    ensures
        r@ == menu_line(screen, raw@),
{
    match screen {
        Screen::Feed(Feed::Calendar) | Screen::Feed(Feed::Venues) => normalize_input(raw),
        _ => raw,
    }
}

/// The command that the word `word` names in the menu `screen`.
pub fn command_named(screen: Screen, word: &str) -> (r: Command)
    ensures
        r == command_of(screen, word@),
{
    match screen {
        Screen::Main => {
            if same_text(word, "1") {
                Command::Open(Feed::Calendar)
            } else if same_text(word, "2") {
                Command::Open(Feed::Events)
            } else if same_text(word, "3") {
                Command::Open(Feed::Venues)
            } else if same_text(word, "0") || same_text(word, "q") || same_text(word, "quit")
                || same_text(word, "exit") {
                Command::Leave
            } else {
                Command::NotFound
            }
        },
        Screen::Feed(_) => {
            if same_text(word, "1") {
                Command::Scrape
            } else if same_text(word, "2") {
                Command::SaveCsv
            } else if same_text(word, "3") {
                Command::Import
            } else if same_text(word, "4") {
                Command::Show
            } else if same_text(word, "5") {
                Command::Search
            } else if same_text(word, "0") || same_text(word, "q") || same_text(word, "quit") {
                Command::Leave
            } else {
                Command::NotFound
            }
        },
    }
}

/// The menu's reading of a line: its first word and the command it names,
/// or `None` when the line has no word.
pub fn read_command(screen: Screen, line: &str) -> (r: Option<(String, Command)>)
    ensures
        r is None <==> first_word(line@) is None,
        r matches Some((w, c)) ==> first_word(line@) == Some(w@) && c == command_of(screen, w@),
{
    match first_word_of(line) {
        Some(w) => {
            let c = command_named(screen, w.as_str());
            Some((w, c))
        },
        None => None,
    }
}

/// What follows the command `cmd` in the menu `screen`.
pub fn next_screen(screen: Screen, cmd: Command, ok: bool) -> (r: Next)
    ensures
        r == next_of(screen, cmd, ok),
{
    match screen {
        Screen::Main => match cmd {
            Command::Open(f) => Next::Show(Screen::Feed(f)),
            Command::Leave => Next::Exit(0),
            _ => Next::Show(Screen::Main),
        },
        Screen::Feed(_) => match cmd {
            Command::Scrape => Next::Exit(1),
            Command::SaveCsv | Command::Import => if ok {
                Next::Show(screen)
            } else {
                Next::Exit(1)
            },
            Command::Leave => Next::Show(Screen::Main),
            _ => Next::Show(screen),
        },
    }
}

/// The value searched for, from the line the user typed in the menu of
/// `feed`: the menu's line without leading and trailing whitespace.
pub fn search_term(feed: Feed, raw: String) -> (r: String)
    ensures
        r@ == trim(menu_line(Screen::Feed(feed), raw@)),
{
    let line = menu_input(Screen::Feed(feed), raw);
    trim_text(line.as_str())
}

/// The address the data is downloaded from of each source.
pub open spec fn source_url_of(feed: Feed) -> Seq<char> {
    match feed {
        Feed::Calendar => "https://calagator.org"@,
        Feed::Events => "https://calagator.org/events.json"@,
        Feed::Venues => "https://calagator.org/venues.json"@,
    }
}

/// The address the data is downloaded from of `feed`.
pub fn source_url(feed: Feed) -> (r: &'static str)
    ensures
        r@ == source_url_of(feed),
{
    match feed {
        Feed::Calendar => "https://calagator.org",
        Feed::Events => "https://calagator.org/events.json",
        Feed::Venues => "https://calagator.org/venues.json",
    }
}

/// The file the downloaded data is saved to of each source.
pub open spec fn raw_file_of(feed: Feed) -> Seq<char> {
    match feed {
        Feed::Calendar => "assets/calendar.html"@,
        Feed::Events => "assets/events.json"@,
        Feed::Venues => "assets/venues.json"@,
    }
}

/// The file the downloaded data is saved to of `feed`.
pub fn raw_file(feed: Feed) -> (r: &'static str)
    ensures
        r@ == raw_file_of(feed),
{
    match feed {
        Feed::Calendar => "assets/calendar.html",
        Feed::Events => "assets/events.json",
        Feed::Venues => "assets/venues.json",
    }
}

/// The CSV file the table is saved to of each source.
pub open spec fn csv_file_of(feed: Feed) -> Seq<char> {
    match feed {
        Feed::Calendar => "assets/calendar.csv"@,
        Feed::Events => "assets/events.csv"@,
        Feed::Venues => "assets/venues.csv"@,
    }
}

/// The CSV file the table is saved to of `feed`.
pub fn csv_file(feed: Feed) -> (r: &'static str)
    ensures
        r@ == csv_file_of(feed),
{
    match feed {
        Feed::Calendar => "assets/calendar.csv",
        Feed::Events => "assets/events.csv",
        Feed::Venues => "assets/venues.csv",
    }
}

/// The MongoDB database of each source.
pub open spec fn database_of(feed: Feed) -> Seq<char> {
    match feed {
        Feed::Calendar => "calagator"@,
        Feed::Events => "foo"@,
        Feed::Venues => "calagator"@,
    }
}

/// The MongoDB database of `feed`.
pub fn database(feed: Feed) -> (r: &'static str)
    ensures
        r@ == database_of(feed),
{
    match feed {
        Feed::Calendar => "calagator",
        Feed::Events => "foo",
        Feed::Venues => "calagator",
    }
}

/// The MongoDB collection of each source.
pub open spec fn collection_of(feed: Feed) -> Seq<char> {
    match feed {
        Feed::Calendar => "calendar"@,
        Feed::Events => "events"@,
        Feed::Venues => "venues"@,
    }
}

/// The MongoDB collection of `feed`.
pub fn collection(feed: Feed) -> (r: &'static str)
    ensures
        r@ == collection_of(feed),
{
    match feed {
        Feed::Calendar => "calendar",
        Feed::Events => "events",
        Feed::Venues => "venues",
    }
}

/// The document field that a search compares with of each source.
pub open spec fn search_field_of(feed: Feed) -> Seq<char> {
    match feed {
        Feed::Calendar => "summary"@,
        Feed::Events => "summary"@,
        Feed::Venues => "title"@,
    }
}

/// The document field that a search compares with of `feed`.
pub fn search_field(feed: Feed) -> (r: &'static str)
    ensures
        r@ == search_field_of(feed),
{
    match feed {
        Feed::Calendar => "summary",
        Feed::Events => "summary",
        Feed::Venues => "title",
    }
}

/// The menu words, character by character.
proof fn lemma_menu_words()
    ensures
        "0"@ == seq!['0'],
        "1"@ == seq!['1'],
        "2"@ == seq!['2'],
        "3"@ == seq!['3'],
        "4"@ == seq!['4'],
        "5"@ == seq!['5'],
        "q"@ == seq!['q'],
        "quit"@ == seq!['q', 'u', 'i', 't'],
        "exit"@ == seq!['e', 'x', 'i', 't'],
        "0"@ != "1"@,
        "0"@ != "2"@,
        "0"@ != "3"@,
        "0"@ != "4"@,
        "0"@ != "5"@,
        "0"@ != "q"@,
        "0"@ != "quit"@,
        "0"@ != "exit"@,
        "1"@ != "2"@,
        "1"@ != "3"@,
        "1"@ != "4"@,
        "1"@ != "5"@,
        "1"@ != "q"@,
        "1"@ != "quit"@,
        "1"@ != "exit"@,
        "2"@ != "3"@,
        "2"@ != "4"@,
        "2"@ != "5"@,
        "2"@ != "q"@,
        "2"@ != "quit"@,
        "2"@ != "exit"@,
        "3"@ != "4"@,
        "3"@ != "5"@,
        "3"@ != "q"@,
        "3"@ != "quit"@,
        "3"@ != "exit"@,
        "4"@ != "5"@,
        "4"@ != "q"@,
        "4"@ != "quit"@,
        "4"@ != "exit"@,
        "5"@ != "q"@,
        "5"@ != "quit"@,
        "5"@ != "exit"@,
        "q"@ != "quit"@,
        "q"@ != "exit"@,
        "quit"@ != "exit"@,
{
    reveal_strlit("0");
    reveal_strlit("1");
    reveal_strlit("2");
    reveal_strlit("3");
    reveal_strlit("4");
    reveal_strlit("5");
    reveal_strlit("q");
    reveal_strlit("quit");
    reveal_strlit("exit");
    assert("0"@ =~= seq!['0']);
    assert("1"@ =~= seq!['1']);
    assert("2"@ =~= seq!['2']);
    assert("3"@ =~= seq!['3']);
    assert("4"@ =~= seq!['4']);
    assert("5"@ =~= seq!['5']);
    assert("q"@ =~= seq!['q']);
    assert("quit"@ =~= seq!['q', 'u', 'i', 't']);
    assert("exit"@ =~= seq!['e', 'x', 'i', 't']);
    assert("0"@[0] != "1"@[0]);
    assert("0"@[0] != "2"@[0]);
    assert("0"@[0] != "3"@[0]);
    assert("0"@[0] != "4"@[0]);
    assert("0"@[0] != "5"@[0]);
    assert("0"@[0] != "q"@[0]);
    assert("0"@.len() != "quit"@.len());
    assert("0"@.len() != "exit"@.len());
    assert("1"@[0] != "2"@[0]);
    assert("1"@[0] != "3"@[0]);
    assert("1"@[0] != "4"@[0]);
    assert("1"@[0] != "5"@[0]);
    assert("1"@[0] != "q"@[0]);
    assert("1"@.len() != "quit"@.len());
    assert("1"@.len() != "exit"@.len());
    assert("2"@[0] != "3"@[0]);
    assert("2"@[0] != "4"@[0]);
    assert("2"@[0] != "5"@[0]);
    assert("2"@[0] != "q"@[0]);
    assert("2"@.len() != "quit"@.len());
    assert("2"@.len() != "exit"@.len());
    assert("3"@[0] != "4"@[0]);
    assert("3"@[0] != "5"@[0]);
    assert("3"@[0] != "q"@[0]);
    assert("3"@.len() != "quit"@.len());
    assert("3"@.len() != "exit"@.len());
    assert("4"@[0] != "5"@[0]);
    assert("4"@[0] != "q"@[0]);
    assert("4"@.len() != "quit"@.len());
    assert("4"@.len() != "exit"@.len());
    assert("5"@[0] != "q"@[0]);
    assert("5"@.len() != "quit"@.len());
    assert("5"@.len() != "exit"@.len());
    assert("q"@.len() != "quit"@.len());
    assert("q"@.len() != "exit"@.len());
    assert("quit"@[0] != "exit"@[0]);
}

/// In the menu of a source, "0", "q" and "quit" go back to the top menu.
pub proof fn lemma_source_menu_leave(feed: Feed, word: Seq<char>, ok: bool)
    requires
        word == "0"@ || word == "q"@ || word == "quit"@,
    ensures
        command_of(Screen::Feed(feed), word) == Command::Leave,
        next_of(Screen::Feed(feed), command_of(Screen::Feed(feed), word), ok) == Next::Show(
            Screen::Main,
        ),
{
    lemma_menu_words();
}

/// In the top menu, "0", "q", "quit" and "exit" end the program with code 0.
pub proof fn lemma_top_menu_leave(word: Seq<char>, ok: bool)
    requires
        word == "0"@ || word == "q"@ || word == "quit"@ || word == "exit"@,
    ensures
        next_of(Screen::Main, command_of(Screen::Main, word), ok) == Next::Exit(0),
{
    lemma_menu_words();
}

/// "exit" ends the program only from the top menu: a source's menu does not
/// know it and stays where it is.
pub proof fn lemma_exit_only_at_top(feed: Feed, ok: bool)
    ensures
        command_of(Screen::Feed(feed), "exit"@) == Command::NotFound,
        next_of(Screen::Feed(feed), Command::NotFound, ok) == Next::Show(Screen::Feed(feed)),
{
    lemma_menu_words();
}

/// A word that names no entry leaves the user in the same menu.
pub proof fn lemma_unknown_word_stays(screen: Screen, word: Seq<char>, ok: bool)
    requires
        command_of(screen, word) == Command::NotFound,
    ensures
        next_of(screen, command_of(screen, word), ok) == Next::Show(screen),
{
}

/// Downloading a source always ends the program with code 1.
pub proof fn lemma_scrape_ends(feed: Feed, ok: bool)
    ensures
        next_of(Screen::Feed(feed), Command::Scrape, ok) == Next::Exit(1),
{
}

/// An empty line (just a line feed): the calendar and venues menus read it
/// as "0" and go back to the top menu; the top and events menus find no word
/// in it.
pub proof fn lemma_empty_line(screen: Screen, ok: bool)
    ensures
        reads_blank_as_zero(screen) ==> first_word(menu_line(screen, "\n"@)) == Some("0"@)
            && next_of(screen, command_of(screen, "0"@), ok) == Next::Show(Screen::Main),
        !reads_blank_as_zero(screen) ==> first_word(menu_line(screen, "\n"@)) is None,
{
    reveal_strlit("\n");
    reveal_strlit("0");
    let blank = "\n"@;
    assert(blank.len() == 1 && blank[0] == '\n');
    assert(is_space('\n'));
    assert(blank.drop_last() =~= Seq::<char>::empty());
    assert(words(blank.drop_last(), false) =~= Seq::<Seq<char>>::empty());
    assert(words(blank, false) =~= Seq::<Seq<char>>::empty());
    let zero = "0"@;
    assert(zero.len() == 1 && zero[0] == '0');
    assert(!is_space('0'));
    assert(zero.drop_last() =~= Seq::<char>::empty());
    assert(words(zero.drop_last(), false) =~= Seq::<Seq<char>>::empty());
    assert(words(zero, false) =~= seq![seq!['0']]);
    lemma_menu_words();
    assert(seq!['0'] =~= zero);
}

/// Every source's menu has the same entries: the command a word names does
/// not depend on which source's menu it is typed in.
pub proof fn lemma_source_menus_agree(a: Feed, b: Feed, word: Seq<char>)
    ensures
        command_of(Screen::Feed(a), word) == command_of(Screen::Feed(b), word),
{
}

/// In every source's menu the entries "1" to "5" download, save, import,
/// show and search, and no other word does any of these.
pub proof fn lemma_source_menu_entries(feed: Feed, word: Seq<char>)
    ensures
        (command_of(Screen::Feed(feed), word) == Command::Scrape) <==> word == "1"@,
        (command_of(Screen::Feed(feed), word) == Command::SaveCsv) <==> word == "2"@,
        (command_of(Screen::Feed(feed), word) == Command::Import) <==> word == "3"@,
        (command_of(Screen::Feed(feed), word) == Command::Show) <==> word == "4"@,
        (command_of(Screen::Feed(feed), word) == Command::Search) <==> word == "5"@,
{
    lemma_menu_words();
}

/// In a source's menu, a command that succeeds shows the same menu again,
/// except downloading (which ends the program) and leaving (which goes
/// back to the top menu).
pub proof fn lemma_success_stays(feed: Feed, cmd: Command)
    requires
        cmd != Command::Scrape,
        cmd != Command::Leave,
    ensures
        next_of(Screen::Feed(feed), cmd, true) == Next::Show(Screen::Feed(feed)),
{
}

/// The program ends from a source's menu only after a download or after a
/// save or import that failed, and then with code 1.
pub proof fn lemma_source_menu_exits(feed: Feed, cmd: Command, ok: bool)
    ensures
        next_of(Screen::Feed(feed), cmd, ok) is Exit ==> (cmd == Command::Scrape || (!ok && (cmd
            == Command::SaveCsv || cmd == Command::Import))) && next_of(
            Screen::Feed(feed),
            cmd,
            ok,
        ) == Next::Exit(1),
{
}

/// The field a search compares with is a column of the source's table, so
/// a key of its documents: the calendar searches its events' summaries and
/// the venues menu its venues' titles.
pub proof fn lemma_search_field_is_column()
    ensures
        calendar_columns().contains(search_field_of(Feed::Calendar)),
        search_field_of(Feed::Calendar) == calendar_columns()[0],
        venue_columns().contains(search_field_of(Feed::Venues)),
        search_field_of(Feed::Venues) == venue_columns()[1],
{
    assert(calendar_columns()[0] == search_field_of(Feed::Calendar));
    assert(venue_columns()[1] == search_field_of(Feed::Venues));
}

/// Each source's files, collection and address are named after its
/// collection: the raw file is `assets/<collection>` with `.html` for the
/// calendar page and `.json` for the feeds, the CSV file is
/// `assets/<collection>.csv`, and each feed is downloaded from
/// `https://calagator.org/<collection>.json`; the calendar page is the
/// site's home page.
pub proof fn lemma_source_names(feed: Feed)
    ensures
        csv_file_of(feed) == "assets/"@ + collection_of(feed) + ".csv"@,
        feed == Feed::Calendar ==> raw_file_of(feed) == "assets/"@ + collection_of(feed)
            + ".html"@,
        feed != Feed::Calendar ==> raw_file_of(feed) == "assets/"@ + collection_of(feed)
            + ".json"@,
        feed != Feed::Calendar ==> source_url_of(feed) == "https://calagator.org/"@
            + collection_of(feed) + ".json"@,
        feed == Feed::Calendar ==> source_url_of(feed) == "https://calagator.org"@,
{
    reveal_strlit("assets/");
    reveal_strlit(".csv");
    reveal_strlit(".html");
    reveal_strlit(".json");
    reveal_strlit("https://calagator.org/");
    reveal_strlit("https://calagator.org");
    reveal_strlit("calendar");
    reveal_strlit("events");
    reveal_strlit("venues");
    reveal_strlit("assets/calendar.csv");
    reveal_strlit("assets/events.csv");
    reveal_strlit("assets/venues.csv");
    reveal_strlit("assets/calendar.html");
    reveal_strlit("assets/events.json");
    reveal_strlit("assets/venues.json");
    reveal_strlit("https://calagator.org/events.json");
    reveal_strlit("https://calagator.org/venues.json");
    match feed {
        Feed::Calendar => {
            assert(csv_file_of(feed) =~= "assets/"@ + collection_of(feed) + ".csv"@);
            assert(raw_file_of(feed) =~= "assets/"@ + collection_of(feed) + ".html"@);
        },
        Feed::Events => {
            assert(csv_file_of(feed) =~= "assets/"@ + collection_of(feed) + ".csv"@);
            assert(raw_file_of(feed) =~= "assets/"@ + collection_of(feed) + ".json"@);
            assert(source_url_of(feed) =~= "https://calagator.org/"@ + collection_of(feed)
                + ".json"@);
        },
        Feed::Venues => {
            assert(csv_file_of(feed) =~= "assets/"@ + collection_of(feed) + ".csv"@);
            assert(raw_file_of(feed) =~= "assets/"@ + collection_of(feed) + ".json"@);
            assert(source_url_of(feed) =~= "https://calagator.org/"@ + collection_of(feed)
                + ".json"@);
        },
    }
}

/// Different sources never share a collection, and so (by
/// `lemma_source_names`) never share an address, a raw file or a CSV file.
pub proof fn lemma_sources_distinct(a: Feed, b: Feed)
    requires
        a != b,
    ensures
        collection_of(a) != collection_of(b),
        source_url_of(a) != source_url_of(b),
        raw_file_of(a) != raw_file_of(b),
        csv_file_of(a) != csv_file_of(b),
{
    reveal_strlit("calendar");
    reveal_strlit("events");
    reveal_strlit("venues");
    reveal_strlit("https://calagator.org");
    reveal_strlit("https://calagator.org/events.json");
    reveal_strlit("https://calagator.org/venues.json");
    reveal_strlit("assets/calendar.html");
    reveal_strlit("assets/events.json");
    reveal_strlit("assets/venues.json");
    reveal_strlit("assets/calendar.csv");
    reveal_strlit("assets/events.csv");
    reveal_strlit("assets/venues.csv");
    assert(collection_of(a)[0] != collection_of(b)[0]);
    assert(raw_file_of(a)[7] != raw_file_of(b)[7]);
    assert(csv_file_of(a)[7] != csv_file_of(b)[7]);
    if a != Feed::Calendar && b != Feed::Calendar {
        assert(source_url_of(a)[22] != source_url_of(b)[22]);
    } else {
        assert(source_url_of(a).len() != source_url_of(b).len());
    }
}

/// The top menu opens every source, each from exactly one word: two words
/// that open the same source are the same word.
pub proof fn lemma_top_menu_opens(feed: Feed, w1: Seq<char>, w2: Seq<char>)
    ensures
        command_of(Screen::Main, w1) == Command::Open(feed) && command_of(Screen::Main, w2)
            == Command::Open(feed) ==> w1 == w2,
        exists|w: Seq<char>| command_of(Screen::Main, w) == Command::Open(feed),
{
    lemma_menu_words();
    match feed {
        Feed::Calendar => assert(command_of(Screen::Main, "1"@) == Command::Open(feed)),
        Feed::Events => assert(command_of(Screen::Main, "2"@) == Command::Open(feed)),
        Feed::Venues => assert(command_of(Screen::Main, "3"@) == Command::Open(feed)),
    }
}

/// The events menu searches the same field as the calendar menu.
pub proof fn lemma_events_search_like_calendar()
    ensures
        search_field_of(Feed::Events) == search_field_of(Feed::Calendar),
{
}

/// The calendar and the venues are kept in one database; the events feed is
/// kept in another.
pub proof fn lemma_databases()
    ensures
        database_of(Feed::Calendar) == database_of(Feed::Venues),
        database_of(Feed::Events) != database_of(Feed::Calendar),
{
    reveal_strlit("foo");
    reveal_strlit("calagator");
    assert(database_of(Feed::Events)[0] != database_of(Feed::Calendar)[0]);
}

} // verus!
