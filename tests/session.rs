use pipr::command_evaluation::{build_command, ExecutionMode, ExecutionTracker};
use pipr::commandlist::CommandList;
use pipr::key_select_menu::{KeySelectMenu, KeySelectMenuType};
use pipr::path_completion::{provide_path_autocomplete, DirListing};
use pipr::pipr_config::{parse_isolation_mounts, ConfigError, HelpViewer, PiprConfig, Snippet};
use pipr::session::{App, Effect, Key, Modifiers};

fn cs(s: &str) -> Vec<char> {
    s.chars().collect()
}

fn st(v: &[char]) -> String {
    v.iter().collect()
}

fn plain() -> Modifiers {
    Modifiers { control: false, alt: false }
}

fn ctrl() -> Modifiers {
    Modifiers { control: true, alt: false }
}

fn config() -> PiprConfig {
    PiprConfig::from_settings(
        None,
        None,
        None,
        100,
        vec![('f', Snippet { text: cs("for i in ; do done"), cursor_offset: 9 })],
        vec![('m', HelpViewer { command: cs("man") })],
    )
    .ok()
    .unwrap()
}

fn app(mode: ExecutionMode) -> App {
    App::new(mode, false, config(), CommandList::new(vec![], None), CommandList::new(vec![], Some(100)))
}

fn type_text(a: &mut App, s: &str) -> Vec<Effect> {
    s.chars().map(|c| a.handle_main_window_tui_event(Key::Char(c), plain())).collect()
}

fn run_args(e: &Effect) -> Option<(u64, Vec<String>)> {
    match e {
        Effect::Run(seq, args) => Some((*seq, args.iter().map(|a| st(a)).collect())),
        _ => None,
    }
}

#[test]
fn path_completion_with_single_match_appends_rest() {
    let mut a = app(ExecutionMode::UNSAFE);
    a.autoeval_mode = false;
    a.input_state.load_text(&cs("ls /tm"));
    let eff = a.handle_main_window_tui_event(Key::Tab, plain());
    let word = match eff {
        Effect::CompletePath(w) => w,
        _ => panic!("expected a path completion request"),
    };
    assert_eq!(st(&word), "/tm");
    let listing = DirListing::Siblings(cs("tm"), vec![(cs("tmp"), cs("/tmp")), (cs("usr"), cs("/usr"))]);
    let completions = provide_path_autocomplete(listing);
    assert_eq!(completions, Some(vec![cs("/tmp")]));
    a.apply_path_completions(word, completions);
    assert_eq!(st(&a.input_state.text), "ls /tmp");
    assert_eq!(a.input_state.cursor, 7);
}

#[test]
fn several_completions_open_overlay_and_accept() {
    let mut a = app(ExecutionMode::UNSAFE);
    a.autoeval_mode = false;
    a.input_state.load_text(&cs("cat /e"));
    a.apply_path_completions(cs("/e"), Some(vec![cs("/etc"), cs("/efi")]));
    assert!(a.autocomplete_state.is_some());
    a.handle_main_window_tui_event(Key::Tab, plain());
    a.handle_main_window_tui_event(Key::Enter, plain());
    assert!(a.autocomplete_state.is_none());
    assert_eq!(st(&a.input_state.text), "cat /efi");
}

#[test]
fn other_key_cancels_overlay() {
    let mut a = app(ExecutionMode::UNSAFE);
    a.autoeval_mode = false;
    a.apply_path_completions(cs("/e"), Some(vec![cs("/etc"), cs("/efi")]));
    a.handle_main_window_tui_event(Key::Char('z'), plain());
    assert!(a.autocomplete_state.is_none());
    assert_eq!(st(&a.input_state.text), "z");
}

#[test]
fn children_listing_gives_all_paths() {
    let r = provide_path_autocomplete(DirListing::Children(vec![cs("/tmp/a"), cs("/tmp/b")]));
    assert_eq!(r, Some(vec![cs("/tmp/a"), cs("/tmp/b")]));
    assert_eq!(provide_path_autocomplete(DirListing::Children(vec![])), None);
    assert_eq!(provide_path_autocomplete(DirListing::Siblings(cs("zz"), vec![(cs("tmp"), cs("/tmp"))])), None);
}

#[test]
fn isolated_command_runs_only_in_sandbox() {
    let mounts = vec![(cs("/usr"), cs("/usr")), (cs("/bin"), cs("/bin"))];
    let args: Vec<String> = build_command(ExecutionMode::ISOLATED, &mounts, &cs("rm -rf /")).iter().map(|a| st(a)).collect();
    assert_eq!(
        args,
        vec![
            "bwrap", "--ro-bind", "/usr", "/usr", "--ro-bind", "/bin", "/bin", "bash", "-c", "rm -rf /"
        ]
    );
    let direct: Vec<String> = build_command(ExecutionMode::UNSAFE, &mounts, &cs("rm -rf /")).iter().map(|a| st(a)).collect();
    assert_eq!(direct, vec!["bash", "-c", "rm -rf /"]);
}

#[test]
fn autoeval_shows_only_latest_output() {
    let mut a = app(ExecutionMode::UNSAFE);
    let effects = type_text(&mut a, "echo a");
    let (first_seq, first_args) = run_args(&effects[0]).unwrap();
    assert_eq!(first_args, vec!["bash", "-c", "e"]);
    assert!(effects[1..].iter().all(|e| matches!(e, Effect::Nothing)));
    let more = a.handle_main_window_tui_event(Key::Char('b'), plain());
    assert!(matches!(more, Effect::Nothing));
    let next = a.on_cmd_output(first_seq, cs("e output"));
    assert!(a.last_output.is_none());
    let (second_seq, second_args) = run_args(&next).unwrap();
    assert_eq!(second_args, vec!["bash", "-c", "echo ab"]);
    let done = a.on_cmd_output(second_seq, cs("ab\n"));
    assert!(matches!(done, Effect::Nothing));
    assert_eq!(a.last_output, Some(cs("ab\n")));
    let stale = a.on_cmd_output(first_seq, cs("a\n"));
    assert!(matches!(stale, Effect::Nothing));
    assert_eq!(a.last_output, Some(cs("ab\n")));
}

#[test]
fn tracker_drops_superseded_run() {
    let mut t = ExecutionTracker::new();
    let s1 = t.submit(cs("echo a")).unwrap();
    assert!(t.submit(cs("echo ab")).is_none());
    assert!(t.submit(cs("echo abc")).is_none());
    let d = t.on_finished(s1.seq);
    assert!(!d.show);
    let s2 = d.spawn.unwrap();
    assert_eq!(s2.text, cs("echo abc"));
    let d2 = t.on_finished(s2.seq);
    assert!(d2.show);
    assert!(d2.spawn.is_none());
    assert!(!t.is_running());
}

#[test]
fn enter_saves_history_and_runs() {
    let mut a = app(ExecutionMode::UNSAFE);
    a.autoeval_mode = false;
    type_text(&mut a, "ls");
    let e = a.handle_main_window_tui_event(Key::Enter, plain());
    assert_eq!(run_args(&e).unwrap().1, vec!["bash", "-c", "ls"]);
    assert_eq!(a.history.entries, vec![cs("ls")]);
}

#[test]
fn history_navigation() {
    let mut a = app(ExecutionMode::UNSAFE);
    a.autoeval_mode = false;
    a.history = CommandList::new(vec![cs("one"), cs("two")], None);
    type_text(&mut a, "cur");
    a.handle_main_window_tui_event(Key::Char('p'), ctrl());
    assert_eq!(st(&a.input_state.text), "two");
    assert_eq!(a.history_idx, Some(1));
    assert_eq!(a.history.entries, vec![cs("one"), cs("two"), cs("cur")]);
    a.handle_main_window_tui_event(Key::Char('p'), ctrl());
    assert_eq!(st(&a.input_state.text), "one");
    a.handle_main_window_tui_event(Key::Char('p'), ctrl());
    assert_eq!(a.history_idx, Some(0));
    a.handle_main_window_tui_event(Key::Char('n'), ctrl());
    assert_eq!(st(&a.input_state.text), "two");
    assert_eq!(a.history_idx, Some(1));
    a.handle_main_window_tui_event(Key::Char('n'), ctrl());
    assert_eq!(a.history_idx, None);
    assert_eq!(st(&a.input_state.text), "");
}

#[test]
fn ctrl_x_saves_and_clears() {
    let mut a = app(ExecutionMode::UNSAFE);
    a.autoeval_mode = false;
    type_text(&mut a, "ab");
    a.handle_main_window_tui_event(Key::Char('x'), ctrl());
    assert_eq!(a.history.entries, vec![cs("ab")]);
    assert_eq!(st(&a.input_state.text), "");
}

#[test]
fn bookmark_toggle() {
    let mut a = app(ExecutionMode::UNSAFE);
    a.autoeval_mode = false;
    type_text(&mut a, "ab");
    a.handle_main_window_tui_event(Key::Char('s'), ctrl());
    assert_eq!(a.bookmarks.entries, vec![cs("ab")]);
    a.handle_main_window_tui_event(Key::Char('s'), ctrl());
    assert!(a.bookmarks.entries.is_empty());
}

#[test]
fn snippet_menu_inserts_and_places_cursor() {
    let mut a = app(ExecutionMode::UNSAFE);
    a.autoeval_mode = false;
    a.handle_main_window_tui_event(Key::Char('v'), ctrl());
    assert!(a.opened_key_select_menu.is_some());
    a.handle_main_window_tui_event(Key::Char('f'), plain());
    assert!(a.opened_key_select_menu.is_none());
    assert_eq!(st(&a.input_state.text), "for i in ; do done");
    assert_eq!(a.input_state.cursor, 9);
}

#[test]
fn menu_miss_just_closes() {
    let mut a = app(ExecutionMode::UNSAFE);
    let menu = KeySelectMenu { options: vec![], menu_type: KeySelectMenuType::Snippets };
    a.handle_key_select_menu_event(menu, 'q');
    assert_eq!(st(&a.input_state.text), "");
    assert!(a.should_jump_to_other_cmd.is_none());
}

#[test]
fn help_viewer_menu_resolves_word() {
    let mut a = app(ExecutionMode::UNSAFE);
    a.autoeval_mode = false;
    type_text(&mut a, "grep x");
    a.input_state.cursor = 2;
    a.handle_main_window_tui_event(Key::F(5), plain());
    a.handle_main_window_tui_event(Key::Char('m'), plain());
    assert_eq!(a.should_jump_to_other_cmd, Some(cs("man grep")));
}

#[test]
fn quit_and_toggles() {
    let mut a = app(ExecutionMode::UNSAFE);
    a.handle_main_window_tui_event(Key::F(2), plain());
    assert!(!a.autoeval_mode);
    a.handle_main_window_tui_event(Key::F(3), plain());
    assert!(a.paranoid_history_mode);
    a.handle_main_window_tui_event(Key::Esc, plain());
    assert!(a.should_quit);
}

#[test]
fn mount_parsing() {
    let ok = parse_isolation_mounts(&vec![cs("/lib:/lib"), cs("/a:/b:/c")]);
    let ms = match ok {
        Ok(m) => m,
        Err(_) => panic!("expected mounts"),
    };
    assert_eq!(ms, vec![(cs("/lib"), cs("/lib")), (cs("/a"), cs("/b"))]);
    assert!(matches!(parse_isolation_mounts(&vec![cs("/lib")]), Err(ConfigError::InvalidMountFormat)));
}

#[test]
fn default_settings() {
    let c = config();
    assert!(c.show_help);
    assert_eq!(c.isolation_mounts_readonly.len(), 5);
    assert_eq!(c.isolation_mounts_readonly[2], (cs("/lib64"), cs("/lib64")));
    let bad = PiprConfig::from_settings(None, Some(false), Some(vec![cs("nocolon")]), 1, vec![], vec![]);
    assert!(matches!(bad, Err(ConfigError::InvalidMountFormat)));
}

#[test]
fn history_prev_at_cap_shows_last_entry() {
    let mut a = app(ExecutionMode::UNSAFE);
    a.autoeval_mode = false;
    a.history = CommandList::new(vec![cs("one"), cs("two"), cs("three")], Some(3));
    type_text(&mut a, "cur");
    a.handle_main_window_tui_event(Key::Char('p'), ctrl());
    assert_eq!(st(&a.input_state.text), "three");
    assert_eq!(a.history.entries, vec![cs("two"), cs("three"), cs("cur")]);
    assert_eq!(a.history_idx, Some(1));
    a.handle_main_window_tui_event(Key::Char('p'), ctrl());
    assert_eq!(st(&a.input_state.text), "two");
    a.handle_main_window_tui_event(Key::Char('n'), ctrl());
    assert_eq!(st(&a.input_state.text), "three");
}

#[test]
fn history_prev_with_cap_one_shows_last_entry() {
    let mut a = app(ExecutionMode::UNSAFE);
    a.autoeval_mode = false;
    a.history = CommandList::new(vec![cs("old")], Some(1));
    type_text(&mut a, "cur");
    a.handle_main_window_tui_event(Key::Char('p'), ctrl());
    assert_eq!(st(&a.input_state.text), "old");
    assert_eq!(a.history.entries, vec![cs("cur")]);
    assert_eq!(a.history_idx, None);
}

#[test]
fn history_prev_without_history_changes_nothing() {
    let mut a = app(ExecutionMode::UNSAFE);
    a.autoeval_mode = false;
    type_text(&mut a, "cur");
    a.handle_main_window_tui_event(Key::Char('p'), ctrl());
    assert_eq!(st(&a.input_state.text), "cur");
    assert_eq!(a.history_idx, None);
    assert!(a.history.entries.is_empty());
}
