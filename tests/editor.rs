use lecturn::commands::{join_words, last_match, split_words};
use lecturn::highlighting::error_color;
use lecturn::{
    CommandAction, Commands, Direction, Document, Editor, Effect, InteractionMode, Invocation,
    Key, KeyAction, Position, PromptState, SaveOutcome, SearchState, Size,
};

fn size() -> Size {
    Size { width: 20, height: 10 }
}

fn editor_with(text: &str) -> Editor {
    Editor::default(size(), Some("f.txt".to_owned()), Some(text.to_owned()))
}

fn row_text(e: &Editor, y: usize) -> String {
    e.document.row(y).unwrap().as_str().to_owned()
}

fn invocation(action: CommandAction, params: Vec<&str>, forced: bool) -> Invocation {
    Invocation { action, params: params.into_iter().map(|p| p.to_owned()).collect(), forced }
}

#[test]
fn opening_missing_file_gives_empty_document_and_message() {
    let e = Editor::default(size(), Some("missing.txt".to_owned()), None);
    assert_eq!(e.document.len(), 1);
    assert!(e.document.is_empty());
    assert!(!e.document.is_dirty());
    assert!(e.document.file_name.is_none());
    assert!(e.status_message.text.contains("missing.txt"));
    assert_eq!(e.status_message.text, "ERR: Could not open file: missing.txt");
    assert_eq!(e.status_message.color, Some(error_color()));
}

#[test]
fn opening_existing_file_reads_rows() {
    let e = editor_with("one\ntwo\n");
    assert_eq!(e.document.len(), 2);
    assert_eq!(row_text(&e, 1), "two");
    assert_eq!(e.status_message.text, "");
    assert_eq!(e.interaction_mode, InteractionMode::Command);
}

#[test]
fn quit_with_unsaved_changes_is_refused() {
    let mut e = editor_with("abc\n");
    e.document.insert(&Position { x: 0, y: 0 }, 'x');
    let commands = Commands::default().ok().unwrap();
    let quit = commands.resolve("q").unwrap();
    assert_eq!(quit.action, CommandAction::Quit);
    assert!(!quit.forced);
    let effect = e.execute(&quit);
    assert!(matches!(effect, Effect::Done));
    assert!(!e.should_quit);
    assert_eq!(e.status_message.text, "There are unsaved changes. Run :q! to force quit");
}

#[test]
fn forced_quit_with_unsaved_changes_quits() {
    let mut e = editor_with("abc\n");
    e.document.insert(&Position { x: 0, y: 0 }, 'x');
    e.execute(&invocation(CommandAction::Quit, vec!["!"], true));
    assert!(e.should_quit);
}

#[test]
fn quit_clean_document_quits() {
    let mut e = editor_with("abc\n");
    e.execute(&invocation(CommandAction::Quit, vec![""], false));
    assert!(e.should_quit);
}

#[test]
fn write_commands_ask_for_save() {
    let mut e = editor_with("abc\n");
    let w = e.execute(&invocation(CommandAction::Write, vec![""], false));
    assert!(matches!(w, Effect::Save { then_quit: false }));
    let wq = e.execute(&invocation(CommandAction::WriteQuit, vec![""], false));
    assert!(matches!(wq, Effect::Save { then_quit: true }));
    assert!(!e.should_quit);
}

#[test]
fn search_commands_join_params() {
    let mut e = editor_with("abc\n");
    match e.execute(&invocation(CommandAction::SearchBackward, vec!["foo", "bar"], false)) {
        Effect::Search { query, reverse } => {
            assert_eq!(query, "foo bar");
            assert!(reverse);
        }
        _ => panic!("expected a search"),
    }
    match e.execute(&invocation(CommandAction::SearchForward, vec!["x"], false)) {
        Effect::Search { query, reverse } => {
            assert_eq!(query, "x");
            assert!(!reverse);
        }
        _ => panic!("expected a search"),
    }
}

#[test]
fn save_outcomes_report_and_track_dirty() {
    let mut e = editor_with("abc\n");
    e.document.insert(&Position { x: 0, y: 0 }, 'x');
    assert!(!e.save(SaveOutcome::Failed, true));
    assert_eq!(e.status_message.text, "ERR: could not write to file");
    assert!(e.document.is_dirty());
    assert!(!e.should_quit);
    assert!(!e.save(SaveOutcome::Aborted, false));
    assert_eq!(e.status_message.text, "Save aborted.");
    assert!(e.save(SaveOutcome::Written, true));
    assert_eq!(e.status_message.text, "File saved successfully");
    assert_eq!(e.status_message.color, None);
    assert!(!e.document.is_dirty());
    assert!(e.should_quit);
}

#[test]
fn failed_commands_are_reported() {
    let mut e = editor_with("abc\n");
    e.command_failed(false);
    assert_eq!(e.status_message.text, "ERR: Invalid command");
    e.command_failed(true);
    assert_eq!(e.status_message.text, "ERR: Command aborted");
    e.search_aborted();
    assert_eq!(e.status_message.text, "ERR: Search Aborted");
}

#[test]
fn typing_in_insert_mode() {
    let mut e = Editor::default(size(), None, None);
    assert_eq!(e.process_key(Key::Char('i')), KeyAction::CursorBar);
    assert_eq!(e.interaction_mode, InteractionMode::Insert);
    e.process_key(Key::Char('h'));
    e.process_key(Key::Char('i'));
    assert_eq!(row_text(&e, 0), "hi");
    assert!(e.document.is_dirty());
    assert_eq!(e.cursor_position, Position { x: 2, y: 0 });
    assert_eq!(e.process_key(Key::Esc), KeyAction::CursorBlock);
    assert_eq!(e.interaction_mode, InteractionMode::Command);
}

#[test]
fn command_mode_letters_move_and_open_prompts() {
    let mut e = editor_with("abc\nde\n");
    e.process_key(Key::Char('l'));
    assert_eq!(e.cursor_position, Position { x: 1, y: 0 });
    e.process_key(Key::Char('j'));
    assert_eq!(e.cursor_position, Position { x: 1, y: 1 });
    e.process_key(Key::Char('k'));
    e.process_key(Key::Char('h'));
    assert_eq!(e.cursor_position, Position { x: 0, y: 0 });
    assert_eq!(e.process_key(Key::Char(':')), KeyAction::CommandPrompt);
    assert_eq!(e.process_key(Key::Char('/')), KeyAction::SearchPrompt);
    assert_eq!(e.interaction_mode, InteractionMode::Search);
    assert!(!e.document.is_dirty());
}

#[test]
fn backspace_joins_rows() {
    let mut e = editor_with("ab\ncd\n");
    e.process_key(Key::Down);
    assert_eq!(e.cursor_position, Position { x: 0, y: 1 });
    e.process_key(Key::Backspace);
    assert_eq!(e.cursor_position, Position { x: 2, y: 0 });
    assert_eq!(row_text(&e, 0), "abcd");
    assert_eq!(e.document.len(), 1);
}

#[test]
fn backspace_at_origin_does_nothing() {
    let mut e = editor_with("ab\n");
    e.process_key(Key::Backspace);
    assert_eq!(row_text(&e, 0), "ab");
    assert!(!e.document.is_dirty());
}

#[test]
fn delete_key_deletes_under_cursor() {
    let mut e = editor_with("ab\n");
    e.process_key(Key::Delete);
    assert_eq!(row_text(&e, 0), "b");
}

#[test]
fn horizontal_moves_wrap_at_row_ends() {
    let mut e = editor_with("ab\ncd\n");
    e.process_key(Key::End);
    assert_eq!(e.cursor_position, Position { x: 2, y: 0 });
    e.process_key(Key::Right);
    assert_eq!(e.cursor_position, Position { x: 0, y: 1 });
    e.process_key(Key::Left);
    assert_eq!(e.cursor_position, Position { x: 2, y: 0 });
    e.process_key(Key::Home);
    assert_eq!(e.cursor_position, Position { x: 0, y: 0 });
}

#[test]
fn vertical_moves_clamp_column_and_rows() {
    let mut e = editor_with("abcd\nx\n");
    e.process_key(Key::End);
    e.process_key(Key::Down);
    assert_eq!(e.cursor_position, Position { x: 1, y: 1 });
    e.process_key(Key::Down);
    assert_eq!(e.cursor_position, Position { x: 0, y: 2 });
    e.process_key(Key::Down);
    assert_eq!(e.cursor_position, Position { x: 0, y: 2 });
    e.process_key(Key::Up);
    e.process_key(Key::Up);
    e.process_key(Key::Up);
    assert_eq!(e.cursor_position, Position { x: 0, y: 0 });
}

#[test]
fn page_keys_jump_by_viewport_height() {
    let text: String = (0..30).map(|i| format!("{}\n", i)).collect();
    let mut e = editor_with(&text);
    e.process_key(Key::PageDown);
    assert_eq!(e.cursor_position.y, 10);
    e.process_key(Key::PageDown);
    e.process_key(Key::PageDown);
    assert_eq!(e.cursor_position.y, 30);
    e.process_key(Key::PageUp);
    assert_eq!(e.cursor_position.y, 20);
    e.process_key(Key::PageUp);
    e.process_key(Key::PageUp);
    assert_eq!(e.cursor_position.y, 0);
}

#[test]
fn scroll_moves_offset_minimally() {
    let text: String = (0..30).map(|i| format!("{}\n", i)).collect();
    let mut e = editor_with(&text);
    e.cursor_position = Position { x: 0, y: 15 };
    e.scroll();
    assert_eq!(e.offset, Position { x: 0, y: 6 });
    e.cursor_position = Position { x: 0, y: 8 };
    e.scroll();
    assert_eq!(e.offset, Position { x: 0, y: 6 });
    e.cursor_position = Position { x: 25, y: 2 };
    e.scroll();
    assert_eq!(e.offset, Position { x: 6, y: 2 });
}

#[test]
fn screen_cursor_accounts_for_gutter() {
    let text: String = (0..12).map(|i| format!("{}\n", i)).collect();
    let mut e = editor_with(&text);
    e.cursor_position = Position { x: 3, y: 4 };
    assert_eq!(e.screen_cursor(), Position { x: 6, y: 4 });
}

#[test]
fn status_bar_layout() {
    let mut e = Editor::default(size(), None, None);
    assert_eq!(e.status_bar(20), "[No Name]        1,1");
    e.document.insert(&Position { x: 0, y: 0 }, 'x');
    e.document.set_file_name("a_rather_long_file_name.txt".to_owned());
    e.cursor_position = Position { x: 1, y: 0 };
    assert_eq!(e.status_bar(30), "a_rather_long_file_n [+]   1,2");
    assert_eq!(e.status_bar(5), "a_rat");
}

#[test]
fn mode_banner_follows_mode() {
    let mut e = Editor::default(size(), None, None);
    e.process_key(Key::Char('i'));
    e.update_mode_message();
    assert_eq!(e.status_message.text, "-- INSERT --");
    e.process_key(Key::Esc);
    e.update_mode_message();
    assert_eq!(e.status_message.text, "");
}

#[test]
fn prompt_keys_edit_input() {
    let mut e = Editor::default(size(), None, None);
    let mut input = String::new();
    assert_eq!(e.prompt_key(&mut input, Key::Char('a')), PromptState::Editing);
    e.prompt_key(&mut input, Key::Char('\u{e9}'));
    e.prompt_key(&mut input, Key::Char('\u{7}'));
    assert_eq!(input, "a\u{e9}");
    e.prompt_key(&mut input, Key::Backspace);
    assert_eq!(input, "a");
    assert_eq!(e.prompt_key(&mut input, Key::Char('\n')), PromptState::Entered);
    e.interaction_mode = InteractionMode::Search;
    assert_eq!(e.prompt_key(&mut input, Key::Esc), PromptState::Cancelled);
    assert_eq!(input, "");
    assert_eq!(e.interaction_mode, InteractionMode::Command);
}

#[test]
fn search_without_matches_reports() {
    let mut e = editor_with("hello\n");
    assert!(e.start_search("zz", false, true).is_none());
    assert_eq!(e.status_message.text, "/zz - No results found");
    assert!(e.start_search("zz", false, false).is_none());
    assert_eq!(e.status_message.text, "No results found");
}

#[test]
fn search_jumps_to_first_or_last_match() {
    let mut e = editor_with("hello\nworld\n");
    let st = e.start_search("o", false, false).unwrap();
    assert_eq!(st.index, 0);
    assert_eq!(e.cursor_position, Position { x: 4, y: 0 });
    assert_eq!(e.status_message.text, "Search Mode - 1/2 (navigate = n / N)");
    let st = e.start_search("o", true, false).unwrap();
    assert_eq!(st.index, 1);
    assert_eq!(st.query_width, 1);
    assert_eq!(e.cursor_position, Position { x: 1, y: 1 });
    assert_eq!(e.status_message.text, "Search Mode - 2/2 (navigate = n / N)");
    assert_eq!(
        e.document.row(1).unwrap().render(0, 5),
        "w\u{1b}[48;2;255;255;255m\u{1b}[38;2;0;0;0mo\u{1b}[49m\u{1b}[39mrld\u{1b}[49m\u{1b}[39m"
    );
}

#[test]
fn live_search_keeps_message() {
    let mut e = editor_with("hello\n");
    e.status_message.text = "/l".to_owned();
    let st = e.start_search("l", false, true).unwrap();
    assert_eq!(st.positions, vec![Position { x: 2, y: 0 }, Position { x: 3, y: 0 }]);
    assert_eq!(e.status_message.text, "/l");
}

#[test]
fn search_navigation_saturates_at_both_ends() {
    let mut st = SearchState {
        positions: vec![Position { x: 0, y: 0 }, Position { x: 0, y: 1 }, Position { x: 0, y: 2 }],
        index: 0,
        direction: Direction::Forward,
        query_width: 1,
    };
    for _ in 0..5 {
        assert!(st.step(Key::Char('n')));
        assert_eq!(st.index, 0);
    }
    assert_eq!(st.direction, Direction::Backward);
    for _ in 0..7 {
        assert!(st.step(Key::Char('N')));
    }
    assert_eq!(st.index, 2);
    assert_eq!(st.direction, Direction::Forward);
    assert!(st.step(Key::Char('x')));
    assert_eq!(st.index, 2);
    assert!(!st.step(Key::Esc));
    assert!(!st.step(Key::Char('\n')));
}

#[test]
fn jumping_after_backward_step_aims_above() {
    let text: String = (0..40).map(|i| format!("l{}\n", i)).collect();
    let mut e = editor_with(&text);
    let mut st = e.start_search("l3", false, false).unwrap();
    assert_eq!(e.cursor_position, Position { x: 0, y: 3 });
    assert_eq!(e.offset.y, 0);
    st.step(Key::Char('N'));
    e.show_match(&st, false);
    assert_eq!(e.cursor_position, Position { x: 0, y: 30 });
    assert_eq!(e.offset.y, 26);
    st.step(Key::Char('n'));
    e.show_match(&st, false);
    assert_eq!(e.cursor_position, Position { x: 0, y: 3 });
    assert_eq!(e.offset.y, 0);
}

#[test]
fn later_registered_command_wins() {
    let commands = Commands::default().ok().unwrap();
    assert_eq!(commands.commands.len(), 5);
    let c = commands.get_command("/q").unwrap();
    assert_eq!(c.name(), "/");
    assert_eq!(c.action(), CommandAction::SearchForward);
    assert_eq!(last_match(&vec![true, false, true]), Some(2));
    assert_eq!(last_match(&vec![true, true, false]), Some(1));
    assert_eq!(last_match(&vec![false, false]), None);
}

#[test]
fn stock_commands_resolve() {
    let commands = Commands::default().ok().unwrap();
    assert_eq!(commands.get_command("q").unwrap().action(), CommandAction::Quit);
    assert_eq!(commands.get_command("w").unwrap().action(), CommandAction::Write);
    assert_eq!(commands.get_command("wq").unwrap().action(), CommandAction::WriteQuit);
    assert_eq!(commands.get_command("?x").unwrap().action(), CommandAction::SearchBackward);
    assert!(commands.get_command("zz").is_none());
    assert!(commands.get_command("quit").is_none());
    let q = commands.resolve("q!").unwrap();
    assert!(q.forced);
    assert_eq!(q.action, CommandAction::Quit);
    assert_eq!(q.params, vec!["".to_owned()]);
    let inner = commands.resolve("q!x").unwrap();
    assert!(!inner.forced);
    assert_eq!(inner.params, vec!["!x".to_owned()]);
    let s = commands.resolve("/foo bar").unwrap();
    assert!(!s.forced);
    assert_eq!(s.action, CommandAction::SearchForward);
    assert_eq!(join_words(&s.params), "foo bar");
    assert!(commands.resolve("nothing").is_none());
}

#[test]
fn words_split_and_join() {
    let ws = split_words(" a  b");
    assert_eq!(ws, vec!["", "a", "", "b"]);
    assert_eq!(join_words(&ws), " a  b");
    assert_eq!(split_words(""), vec![""]);
}

#[test]
fn document_wide_highlight_reset() {
    let mut e = editor_with("ab\n");
    e.start_search("a", false, false).unwrap();
    e.document.reset_highlighting();
    assert_eq!(e.document.row(0).unwrap().render(0, 2), "ab\u{1b}[49m\u{1b}[39m");
    let mut d = Document::default();
    d.add_highlighting(&Position { x: 0, y: 3 }, lecturn::HighlightType::Search);
    assert!(d.is_empty());
}

#[test]
fn stock_patterns_and_descriptions() {
    let commands = Commands::default().ok().unwrap();
    let c = &commands.commands;
    assert_eq!(c[0].pattern(), "\\b(q)\\b");
    assert_eq!(c[1].pattern(), "\\b(w)\\b");
    assert_eq!(c[2].pattern(), "\\b(wq)\\b");
    assert_eq!(c[3].pattern(), "/");
    assert_eq!(c[4].pattern(), "\\?");
    assert_eq!(c[0].description(), "Quits Editor");
    assert_eq!(c[2].name(), "wq");
}

#[test]
fn window_letters_move_to_window_rows() {
    let text: String = (0..30).map(|i| format!("row{}\n", i)).collect();
    let mut e = editor_with(&text);
    e.offset = Position { x: 0, y: 5 };
    e.cursor_position = Position { x: 2, y: 7 };
    e.process_key(Key::Char('M'));
    assert_eq!(e.cursor_position, Position { x: 2, y: 9 });
    e.process_key(Key::Char('L'));
    assert_eq!(e.cursor_position, Position { x: 2, y: 14 });
    e.process_key(Key::Char('H'));
    assert_eq!(e.cursor_position, Position { x: 2, y: 5 });
    e.process_key(Key::Char(':'));
    assert_eq!(e.cursor_position, Position { x: 2, y: 5 });
}

#[test]
fn current_match_alone_is_selected_in_its_row() {
    let mut e = editor_with("abab\n");
    let st = e.start_search("ab", false, false).unwrap();
    assert_eq!(st.positions, vec![Position { x: 0, y: 0 }, Position { x: 2, y: 0 }]);
    let sel = "\u{1b}[48;2;255;255;255m\u{1b}[38;2;0;0;0m";
    let other = "\u{1b}[48;2;249;241;165m\u{1b}[38;2;0;0;0m";
    let reset = "\u{1b}[49m\u{1b}[39m";
    assert_eq!(
        e.document.row(0).unwrap().render(0, 4),
        format!("{}ab{}ab{}", sel, other, reset)
    );
    e.document.reset_highlighting();
    e.start_search("ab", true, false).unwrap();
    assert_eq!(
        e.document.row(0).unwrap().render(0, 4),
        format!("{}ab{}ab{}", other, sel, reset)
    );
}

#[test]
fn overlapping_matches_leave_current_selected() {
    let mut e = editor_with("aaa\n");
    let mut st = e.start_search("aa", false, false).unwrap();
    st.step(Key::Char('N'));
    e.document.reset_highlighting();
    e.show_match(&st, false);
    let sel = "\u{1b}[48;2;255;255;255m\u{1b}[38;2;0;0;0m";
    let other = "\u{1b}[48;2;249;241;165m\u{1b}[38;2;0;0;0m";
    let reset = "\u{1b}[49m\u{1b}[39m";
    assert_eq!(
        e.document.row(0).unwrap().render(0, 3),
        format!("{}a{}aa{}", other, sel, reset)
    );
}

#[test]
fn prompt_result_and_command_lines() {
    let mut e = editor_with("abc\n");
    e.status_message.text = ":x".to_owned();
    assert_eq!(e.finish_prompt(String::new()), None);
    assert_eq!(e.status_message.text, "");
    assert_eq!(e.finish_prompt("wq".to_owned()), Some("wq".to_owned()));
    let commands = Commands::default().ok().unwrap();
    assert!(matches!(e.run_command_line(&commands, None), Effect::Done));
    assert_eq!(e.status_message.text, "ERR: Command aborted");
    assert!(matches!(e.run_command_line(&commands, Some("zz".to_owned())), Effect::Done));
    assert_eq!(e.status_message.text, "ERR: Invalid command");
    e.document.insert(&Position { x: 0, y: 0 }, 'x');
    e.run_command_line(&commands, Some("q".to_owned()));
    assert!(!e.should_quit);
    assert_eq!(e.status_message.text, "There are unsaved changes. Run :q! to force quit");
    assert!(matches!(
        e.run_command_line(&commands, Some("wq".to_owned())),
        Effect::Save { then_quit: true }
    ));
    e.run_command_line(&commands, Some("q!".to_owned()));
    assert!(e.should_quit);
}
