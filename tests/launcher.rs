use app_launcher::application_launcher::ApplicationLauncher;
use app_launcher::catalog::{normalize_exec, DesktopRecord, Entry, EntryCatalog};
use app_launcher::input::{ButtonState, InputEvent, Key};
use app_launcher::launch::{parse_command_line, LaunchError};
use app_launcher::text::{drop_last_word, split_words, str_contains};
use app_launcher::widgets::search::Search;
use app_launcher::widgets::select::{Direction, Select};

fn press(k: Key) -> InputEvent {
    InputEvent::Button(k, ButtonState::Press)
}

fn release(k: Key) -> InputEvent {
    InputEvent::Button(k, ButtonState::Release)
}

fn text(s: &str) -> InputEvent {
    InputEvent::Text(s.to_string())
}

fn entry(label: &str, command: &str) -> Entry {
    Entry::new(label.to_string(), command.to_string())
}

fn record(app_id: &str, name: Option<&str>, exec: Option<&str>) -> DesktopRecord {
    DesktopRecord::new(
        app_id.to_string(),
        name.map(|n| n.to_string()),
        exec.map(|e| e.to_string()),
    )
}

fn three_apps() -> EntryCatalog {
    let mut c = EntryCatalog::new();
    c.insert("Firefox".to_string(), "firefox".to_string());
    c.insert("Files".to_string(), "nautilus".to_string());
    c.insert("Terminal".to_string(), "xterm".to_string());
    c
}

fn numbered(n: usize) -> Vec<Entry> {
    (0..n).map(|i| entry(&format!("app{}", i), &format!("run{}", i))).collect()
}

#[test]
fn typing_fi_lists_firefox_and_files_then_down_and_enter_launch_nautilus() {
    let mut l = ApplicationLauncher::new(three_apps());
    assert_eq!(l.handle_event(&text("F")), None);
    assert_eq!(l.handle_event(&text("i")), None);
    assert_eq!(l.select().filtered_indices(), &vec![0, 1]);
    assert_eq!(l.select().selected_entry(), 0);
    assert_eq!(l.handle_event(&press(Key::Down)), None);
    assert_eq!(l.select().selected_entry(), 1);
    assert_eq!(l.handle_event(&press(Key::Return)), Some("nautilus".to_string()));
}

#[test]
fn lower_case_fi_matches_no_capitalised_label() {
    let mut l = ApplicationLauncher::new(three_apps());
    l.handle_event(&text("fi"));
    assert!(l.select().filtered_indices().is_empty());
    assert_eq!(l.handle_event(&press(Key::Return)), None);
}

#[test]
fn field_code_is_removed_and_command_splits_on_whitespace() {
    let normalized = normalize_exec("firefox %u --new-window");
    assert_eq!(normalized, "firefox  --new-window");
    let cmd = parse_command_line(&normalized).unwrap();
    assert_eq!(cmd.program, "firefox");
    assert_eq!(cmd.args, vec!["--new-window".to_string()]);
}

#[test]
fn every_field_code_is_removed() {
    assert_eq!(
        normalize_exec("app %f%F %u %U %d %D %n %N %i %k %v %m end"),
        format!("app{}end", " ".repeat(12))
    );
    assert_eq!(normalize_exec("a %%f b"), "a % b");
    assert_eq!(normalize_exec("keep %x %c"), "keep %x %c");
    assert_eq!(normalize_exec(""), "");
}

#[test]
fn page_of_ten_entries_with_selection_eight() {
    let mut s = Select::new(numbered(10));
    for _ in 0..8 {
        s.move_selection(Direction::Down);
    }
    assert_eq!(s.selected_entry(), 8);
    let w = s.visible_window();
    assert_eq!(w.start, 7);
    assert_eq!(w.indices, vec![7, 8, 9]);
    assert_eq!(w.highlighted, 1);
}

#[test]
fn first_page_holds_seven_rows() {
    let mut s = Select::new(numbered(10));
    s.move_selection(Direction::Down);
    s.move_selection(Direction::Down);
    let w = s.visible_window();
    assert_eq!(w.start, 0);
    assert_eq!(w.indices, vec![0, 1, 2, 3, 4, 5, 6]);
    assert_eq!(w.highlighted, 2);
}

#[test]
fn empty_list_has_empty_window_and_no_activation() {
    let mut s = Select::new(Vec::new());
    let w = s.visible_window();
    assert_eq!(w.start, 0);
    assert!(w.indices.is_empty());
    assert_eq!(w.highlighted, 0);
    assert_eq!(s.activate(), None);
    assert_eq!(s.handle_event(&press(Key::Return)), None);
    s.move_selection(Direction::Down);
    assert_eq!(s.selected_entry(), 0);
}

#[test]
fn filter_lists_exactly_the_labels_that_contain_it() {
    let mut s = Select::new(vec![
        entry("Alpha", "a"),
        entry("beta", "b"),
        entry("Gamma", "g"),
        entry("delta", "d"),
    ]);
    s.update_entry_filter(Some("ta".to_string()));
    assert_eq!(s.filtered_indices(), &vec![1, 3]);
    s.update_entry_filter(Some("a".to_string()));
    assert_eq!(s.filtered_indices(), &vec![0, 1, 2, 3]);
    s.update_entry_filter(Some("A".to_string()));
    assert_eq!(s.filtered_indices(), &vec![0]);
    s.update_entry_filter(Some("zz".to_string()));
    assert!(s.filtered_indices().is_empty());
    s.update_entry_filter(None);
    assert_eq!(s.filtered_indices(), &vec![0, 1, 2, 3]);
}

#[test]
fn same_filter_twice_keeps_the_selection() {
    let mut s = Select::new(numbered(12));
    s.update_entry_filter(Some("app1".to_string()));
    assert_eq!(s.filtered_indices(), &vec![1, 10, 11]);
    s.move_selection(Direction::Down);
    s.move_selection(Direction::Down);
    assert_eq!(s.selected_entry(), 2);
    s.update_entry_filter(Some("app1".to_string()));
    assert_eq!(s.selected_entry(), 2);
    assert_eq!(s.filtered_indices(), &vec![1, 10, 11]);
}

#[test]
fn changed_filter_resets_the_selection() {
    let mut s = Select::new(numbered(12));
    s.update_entry_filter(Some("app".to_string()));
    s.move_selection(Direction::Down);
    assert_eq!(s.selected_entry(), 1);
    s.update_entry_filter(Some("app1".to_string()));
    assert_eq!(s.selected_entry(), 0);
    s.move_selection(Direction::Down);
    s.update_entry_filter(None);
    assert_eq!(s.selected_entry(), 0);
    assert_eq!(s.filtered_indices().len(), 12);
}

#[test]
fn deleting_every_character_shows_the_placeholder_again() {
    let mut s = Search::new();
    assert_eq!(s.display_text(), "Search");
    assert!(!s.shows_cursor());
    s.handle_event(&text("abc"));
    assert!(s.shows_cursor());
    assert_eq!(s.display_text(), "abc");
    s.handle_event(&press(Key::Backspace));
    assert_eq!(s.buffer(), "ab");
    assert!(s.shows_cursor());
    s.handle_event(&press(Key::Backspace));
    s.handle_event(&press(Key::Backspace));
    assert_eq!(s.buffer(), "");
    assert!(!s.shows_cursor());
    assert!(!s.shows_cursor());
    assert_eq!(s.display_text(), "Search");
    s.handle_event(&press(Key::Backspace));
    assert_eq!(s.buffer(), "");
    assert!(!s.shows_cursor());
}

#[test]
fn backspace_removes_one_character_not_one_byte() {
    let mut s = Search::new();
    s.handle_event(&text("né"));
    s.handle_event(&press(Key::Backspace));
    assert_eq!(s.buffer(), "n");
}

#[test]
fn down_stops_at_the_last_entry() {
    let mut s = Select::new(numbered(4));
    for _ in 0..9 {
        s.handle_event(&press(Key::Down));
    }
    assert_eq!(s.selected_entry(), 3);
    for _ in 0..9 {
        s.handle_event(&press(Key::Up));
    }
    assert_eq!(s.selected_entry(), 0);
}

#[test]
fn ctrl_n_and_ctrl_p_move_the_selection() {
    let mut s = Select::new(numbered(4));
    s.handle_event(&press(Key::N));
    assert_eq!(s.selected_entry(), 0);
    s.handle_event(&press(Key::LCtrl));
    s.handle_event(&press(Key::N));
    s.handle_event(&press(Key::N));
    assert_eq!(s.selected_entry(), 2);
    s.handle_event(&press(Key::P));
    assert_eq!(s.selected_entry(), 1);
    s.handle_event(&release(Key::LCtrl));
    s.handle_event(&press(Key::P));
    assert_eq!(s.selected_entry(), 1);
}

#[test]
fn higher_priority_source_overrides_the_same_label() {
    let system = vec![
        record("firefox", Some("Firefox"), Some("/usr/bin/firefox %u")),
        record("xterm", Some("XTerm"), Some("xterm")),
    ];
    let local = vec![record("my-firefox", Some("Firefox"), Some("firefox-nightly %U"))];
    let c = EntryCatalog::build(&vec![system, local]);
    assert_eq!(c.len(), 2);
    let firefox: Vec<&Entry> = c.entries().iter().filter(|e| e.label == "Firefox").collect();
    assert_eq!(firefox.len(), 1);
    assert_eq!(firefox[0].command_line, "firefox-nightly ");
}

#[test]
fn records_without_exec_are_skipped_and_names_fall_back_to_the_id() {
    let records = vec![
        record("org.example.Tool", None, Some("tool %f")),
        record("org.example.Hidden", Some("Hidden"), None),
    ];
    let c = EntryCatalog::build(&vec![records]);
    assert_eq!(c.len(), 1);
    assert_eq!(c.entries()[0].label, "org.example.Tool");
    assert_eq!(c.entries()[0].command_line, "tool ");
}

#[test]
fn insert_replaces_in_place() {
    let mut c = three_apps();
    c.insert("Files".to_string(), "thunar".to_string());
    assert_eq!(c.len(), 3);
    assert_eq!(c.entries()[1].label, "Files");
    assert_eq!(c.entries()[1].command_line, "thunar");
}

#[test]
fn empty_command_line_is_refused() {
    assert!(matches!(parse_command_line(""), Err(LaunchError::EmptyCommand)));
    assert!(matches!(parse_command_line(" \t\n"), Err(LaunchError::EmptyCommand)));
}

#[test]
fn command_line_splits_on_unicode_whitespace() {
    let cmd = parse_command_line("  prog\u{3000}-a\t-b  ").unwrap();
    assert_eq!(cmd.program, "prog");
    assert_eq!(cmd.args, vec!["-a".to_string(), "-b".to_string()]);
}

#[test]
fn words_and_word_deletion() {
    assert_eq!(split_words(" a  bc d "), vec!["a", "bc", "d"]);
    assert!(split_words("   ").is_empty());
    assert_eq!(drop_last_word("foo bar"), "foo ");
    assert_eq!(drop_last_word("foo  bar  "), "foo ");
    assert_eq!(drop_last_word("  a   b c"), "a b ");
    assert_eq!(drop_last_word("single"), "");
    assert_eq!(drop_last_word("   "), "");
}

#[test]
fn substring_search_is_case_sensitive() {
    assert!(str_contains("Firefox", "fox"));
    assert!(str_contains("Firefox", ""));
    assert!(!str_contains("Firefox", "FIRE"));
    assert!(!str_contains("fox", "Firefox"));
}

#[test]
fn ctrl_backspace_deletes_a_word_and_ctrl_k_clears() {
    let mut s = Search::new();
    s.handle_event(&text("open the door"));
    s.handle_event(&press(Key::RCtrl));
    s.handle_event(&press(Key::Backspace));
    assert_eq!(s.buffer(), "open the ");
    s.handle_event(&text("ignored"));
    assert_eq!(s.buffer(), "open the ");
    s.handle_event(&press(Key::K));
    assert_eq!(s.buffer(), "");
    assert!(!s.shows_cursor());
    s.handle_event(&release(Key::RCtrl));
    s.handle_event(&text("x"));
    assert_eq!(s.buffer(), "x");
    s.handle_event(&text(""));
    assert_eq!(s.buffer(), "x");
}

#[test]
fn emptying_the_search_lists_everything_again() {
    let mut l = ApplicationLauncher::new(three_apps());
    l.handle_event(&text("Term"));
    assert_eq!(l.select().filtered_indices(), &vec![2]);
    for _ in 0..4 {
        l.handle_event(&press(Key::Backspace));
    }
    assert_eq!(l.search().buffer(), "");
    assert_eq!(l.select().filtered_indices(), &vec![0, 1, 2]);
    assert_eq!(l.handle_event(&press(Key::Return)), Some("firefox".to_string()));
}

#[test]
fn return_with_no_match_launches_nothing() {
    let mut l = ApplicationLauncher::new(three_apps());
    l.handle_event(&text("nothing"));
    assert!(l.select().filtered_indices().is_empty());
    assert_eq!(l.handle_event(&press(Key::Return)), None);
}
