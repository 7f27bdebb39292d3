use vstd::prelude::*;
use crate::autocomplete::{step_backward, step_forward, AutocompleteState};
use crate::command_evaluation::{
    build_command,
    command_args,
    args_view,
    finish_model,
    mounts_view,
    submit_model,
    ExecutionMode,
    ExecutionTracker,
};
use crate::commandlist::{pushed, toggled, CommandList};
use crate::key_select_menu::{find_key, key_index, KeySelectMenu, KeySelectMenuType};
use crate::lineeditor::{
    chars_eq,
    copy_chars,
    event_result,
    line_end,
    spaced,
    splice,
    word_at,
    word_at_idx,
    EditorEvent,
    LineEditor,
};
use crate::path_completion::{strip_prefix, strip_prefix_exec};
use crate::pipr_config::{viewer_command, PiprConfig};

verus! {

/// What the surrounding loop has to do after the session handled something.
pub enum Effect {
    Nothing,
    /// Start run `seq` of this program and arguments.
    Run(u64, Vec<Vec<char>>),
    /// List the directory entries that may complete this path, and hand them
    /// to `apply_path_completions`.
    CompletePath(Vec<char>),
}

/// A key of the terminal, as the session reads it.
pub enum Key {
    Char(char),
    Tab,
    BackTab,
    Up,
    Down,
    Left,
    Right,
    Home,
    End,
    Enter,
    Esc,
    Backspace,
    Delete,
    F(u8),
    Other,
}

/// Whether `key` is the character `c`.
pub fn key_is_char(key: &Key, c: char) -> (r: bool)
    ensures
        r == (*key is Char && key->Char_0 == c),
{
    match key {
        Key::Char(k) => *k == c,
        _ => false,
    }
}

/// The modifier keys held with a key.
pub struct Modifiers {
    pub control: bool,
    pub alt: bool,
}

/// The editing step that a key stands for, if any.
pub open spec fn editor_event_of(key: Key, mods: Modifiers) -> Option<EditorEvent> {
    match key {
        Key::Char(ch) => if mods.control {
            None
        } else {
            Some(EditorEvent::InsertChar(ch))
        },
        Key::Enter => if mods.alt {
            Some(EditorEvent::NewLine)
        } else {
            None
        },
        Key::Backspace => Some(EditorEvent::DeleteBackward),
        Key::Delete => Some(EditorEvent::DeleteForward),
        Key::Left => Some(EditorEvent::MoveLeft),
        Key::Right => Some(EditorEvent::MoveRight),
        Key::Up => Some(EditorEvent::MoveUp),
        Key::Down => Some(EditorEvent::MoveDown),
        Key::Home => Some(EditorEvent::LineStart),
        Key::End => Some(EditorEvent::LineEnd),
        _ => None,
    }
}

/// The editing step that a key stands for, if any.
pub fn convert_keyevent_to_editorevent(key: &Key, mods: &Modifiers) -> (r: Option<EditorEvent>)
    ensures
        r == editor_event_of(*key, *mods),
{
    match key {
        Key::Char(ch) => if mods.control {
            None
        } else {
            Some(EditorEvent::InsertChar(*ch))
        },
        Key::Enter => if mods.alt {
            Some(EditorEvent::NewLine)
        } else {
            None
        },
        Key::Backspace => Some(EditorEvent::DeleteBackward),
        Key::Delete => Some(EditorEvent::DeleteForward),
        Key::Left => Some(EditorEvent::MoveLeft),
        Key::Right => Some(EditorEvent::MoveRight),
        Key::Up => Some(EditorEvent::MoveUp),
        Key::Down => Some(EditorEvent::MoveDown),
        Key::Home => Some(EditorEvent::LineStart),
        Key::End => Some(EditorEvent::LineEnd),
        _ => None,
    }
}

/// `key` is character `c` held with control.
pub open spec fn ctrl_char(key: Key, mods: Modifiers, c: char) -> bool {
    mods.control && key is Char && key->Char_0 == c
}

/// The run request that the session makes for the buffer: `f` holds the
/// tracker after it and `r` the run it asks to start, if any.
pub open spec fn requested(o: App, f: App, r: Effect) -> bool {
    let sub = submit_model(o.tracker.view(), spaced(o.input_state.text@));
    &&& f.tracker.view() == sub.0
    &&& match sub.1 {
        Some(sp) => r matches Effect::Run(seq, args) && seq == sp.0 && args_view(args@)
            == command_args(o.execution_mode, mounts_view(o.config.isolation_mounts_readonly@), sp.1),
        None => r is Nothing,
    }
}

/// `m` is the viewer menu for `word`: one entry per viewer, in order.
pub open spec fn viewer_menu(o: App, word: Seq<char>, m: KeySelectMenu) -> bool {
    &&& m.menu_type matches KeySelectMenuType::OpenWordIn(x) && x@ == word
    &&& m.options@.len() == o.config.help_viewers@.len()
    &&& forall|i: int|
        0 <= i < m.options@.len() ==> (#[trigger] m.options@[i]).0 == o.config.help_viewers@[i].0
            && m.options@[i].1@ == viewer_command(o.config.help_viewers@[i].1.command@, word)
}

/// `m` is the snippet menu: one entry per snippet, in order.
pub open spec fn snippet_menu(o: App, m: KeySelectMenu) -> bool {
    &&& m.menu_type is Snippets
    &&& m.options@.len() == o.config.snippets@.len()
    &&& forall|i: int|
        0 <= i < m.options@.len() ==> (#[trigger] m.options@[i]).0 == o.config.snippets@[i].0
            && m.options@[i].1@ == o.config.snippets@[i].1.text@
}

/// State and effect after a key that no overlay took. Each branch names the
/// fields it changes; all others keep their values.
pub open spec fn plain_key_outcome(o: App, key: Key, mods: Modifiers, f: App, r: Effect) -> bool {
    let text = o.input_state.text@;
    if key is Esc || ctrl_char(key, mods, 'q') || ctrl_char(key, mods, 'c') {
        f == App { should_quit: true, ..o } && r is Nothing
    } else if key == Key::F(2) {
        f == App { autoeval_mode: !o.autoeval_mode, ..o } && r is Nothing
    } else if key == Key::F(3) {
        f == App { paranoid_history_mode: !o.paranoid_history_mode, ..o } && r is Nothing
    } else if key is Tab {
        let w = word_at(o.input_state.current_line_spec(), o.input_state.col());
        let c = o.input_state.cursor as int;
        let hovered_free = c >= line_end(text, c) || text[c] == ' ';
        &&& f == o
        &&& if hovered_free && w is Some {
            r matches Effect::CompletePath(x) && x@ == w->0
        } else {
            r is Nothing
        }
    } else if key == Key::F(5) {
        let w = word_at(o.input_state.current_line_spec(), o.input_state.col());
        &&& r is Nothing
        &&& w is Some ==> f == App { opened_key_select_menu: f.opened_key_select_menu, ..o }
            && (f.opened_key_select_menu matches Some(m) && viewer_menu(o, w->0, m))
        &&& w is None ==> f == o
    } else if ctrl_char(key, mods, 's') {
        &&& r is Nothing
        &&& f == App { bookmarks: f.bookmarks, ..o }
        &&& f.bookmarks.max_size == o.bookmarks.max_size
        &&& f.bookmarks.view_entries() == toggled(
            o.bookmarks.view_entries(),
            text,
            o.bookmarks.max_size,
        )
    } else if ctrl_char(key, mods, 'p') {
        history_prev_outcome(o, f) && r is Nothing
    } else if ctrl_char(key, mods, 'n') {
        history_next_outcome(o, f) && r is Nothing
    } else if ctrl_char(key, mods, 'x') {
        &&& r is Nothing
        &&& f == App { history: f.history, input_state: f.input_state, ..o }
        &&& f.history.max_size == o.history.max_size
        &&& f.history.view_entries() == pushed(o.history.view_entries(), text, o.history.max_size)
        &&& f.input_state.text@.len() == 0
        &&& f.input_state.cursor == 0
    } else if ctrl_char(key, mods, 'v') {
        &&& r is Nothing
        &&& f == App { opened_key_select_menu: f.opened_key_select_menu, ..o }
        &&& f.opened_key_select_menu matches Some(m) && snippet_menu(o, m)
    } else if key is Enter && !mods.alt {
        &&& f == App { history: f.history, tracker: f.tracker, ..o }
        &&& spaced(text).len() > 0 ==> f.history.max_size == o.history.max_size
            && f.history.view_entries() == pushed(
            o.history.view_entries(),
            text,
            o.history.max_size,
        )
        &&& spaced(text).len() == 0 ==> f.history == o.history
        &&& requested(o, f, r)
    } else {
        match editor_event_of(key, mods) {
            Some(ev) => {
                let res = event_result(text, o.input_state.cursor as int, ev);
                &&& (f.input_state.text@, f.input_state.cursor as int) == res
                &&& if o.autoeval_mode && spaced(res.0) != spaced(text) {
                    f == App { input_state: f.input_state, tracker: f.tracker, ..o }
                        && requested(App { input_state: f.input_state, ..o }, f, r)
                } else {
                    f == App { input_state: f.input_state, ..o } && r is Nothing
                }
            },
            None => f == o && r is Nothing,
        }
    }
}

/// State and effect after a key: an open autocomplete overlay takes the keys
/// that cycle or accept and closes on any other; an open menu takes the next
/// key and closes; else the key is handled as a plain one.
pub open spec fn key_outcome(o: App, key: Key, mods: Modifiers, f: App, r: Effect) -> bool {
    let forward = key is Tab || key is Down;
    let backward = key is BackTab || key is Up;
    let accept = key is Enter;
    if o.autocomplete_state is Some && (forward || backward || accept) {
        let a = o.autocomplete_state->0;
        let n = a.options@.len() as int;
        &&& r is Nothing
        &&& forward ==> f == App {
            autocomplete_state: Some(
                AutocompleteState { current_idx: step_forward(a.current_idx as int, n) as usize, ..a },
            ),
            ..o
        }
        &&& backward ==> f == App {
            autocomplete_state: Some(
                AutocompleteState { current_idx: step_backward(a.current_idx as int, n) as usize, ..a },
            ),
            ..o
        }
        &&& accept ==> {
            let rest = strip_prefix(a.options@[a.current_idx as int]@, a.original_prompt@);
            &&& f == App { autocomplete_state: None, input_state: f.input_state, ..o }
            &&& f.input_state.text@ == splice(o.input_state.text@, o.input_state.cursor as int, rest)
            &&& f.input_state.cursor == o.input_state.cursor + rest.len()
        }
    } else {
        let o1 = App { autocomplete_state: None, ..o };
        match o.opened_key_select_menu {
            Some(m) => {
                let o2 = App { opened_key_select_menu: None, ..o1 };
                &&& r is Nothing
                &&& if key is Char {
                    menu_outcome(o2, m, key->Char_0, f)
                } else {
                    f == o2
                }
            },
            None => plain_key_outcome(o1, key, mods, f, r),
        }
    }
}

/// The interactive session: the buffer, the overlays, history, bookmarks, and
/// which run of the pipeline is authoritative.
pub struct App {
    pub input_state: LineEditor,
    pub history: CommandList,
    pub bookmarks: CommandList,
    pub history_idx: Option<usize>,
    pub autocomplete_state: Option<AutocompleteState>,
    pub opened_key_select_menu: Option<KeySelectMenu>,
    pub autoeval_mode: bool,
    pub paranoid_history_mode: bool,
    pub should_quit: bool,
    pub should_jump_to_other_cmd: Option<Vec<char>>,
    pub raw_mode: bool,
    pub config: PiprConfig,
    pub execution_mode: ExecutionMode,
    pub tracker: ExecutionTracker,
    pub last_output: Option<Vec<char>>,
}

/// The snippet cursor lands `offset` characters into the inserted text, at
/// most at its end.
pub open spec fn snippet_cursor(at: int, offset: int, len: int) -> int {
    if offset < len {
        at + offset
    } else {
        at + len
    }
}

/// State after the menu received `c`: only the buffer (a snippet) or the
/// command to jump to (a viewer) changes, and a key with no entry changes
/// nothing.
pub open spec fn menu_outcome(o: App, key_select_menu: KeySelectMenu, c: char, f: App) -> bool {
    match key_select_menu.menu_type {
        KeySelectMenuType::Snippets => {
            let sn = o.config.snippets@;
            let i = key_index(sn, c);
            &&& i < sn.len() ==> {
                &&& f == App { input_state: f.input_state, ..o }
                &&& f.input_state.text@ == splice(
                    o.input_state.text@,
                    o.input_state.cursor as int,
                    sn[i].1.text@,
                )
                &&& f.input_state.cursor == snippet_cursor(
                    o.input_state.cursor as int,
                    sn[i].1.cursor_offset as int,
                    sn[i].1.text@.len() as int,
                )
            }
            &&& i >= sn.len() ==> f == o
        },
        KeySelectMenuType::OpenWordIn(word) => {
            let hv = o.config.help_viewers@;
            let i = key_index(hv, c);
            &&& i < hv.len() ==> f == App { should_jump_to_other_cmd: f.should_jump_to_other_cmd, ..o }
                && (f.should_jump_to_other_cmd matches Some(cmd) && cmd@ == viewer_command(
                hv[i].1.command@,
                word@,
            ))
            &&& i >= hv.len() ==> f == o
        },
    }
}

/// State after one step back in history. The first step saves the buffer as
/// a new trailing entry and shows the entry that was last before it; at the
/// first entry, or with no history, nothing changes.
pub open spec fn history_prev_outcome(o: App, f: App) -> bool {
    match o.history_idx {
        Some(idx) => if idx > 0 {
            &&& f == App { history_idx: Some((idx - 1) as usize), input_state: f.input_state, ..o }
            &&& f.input_state.text@ == o.history.entries@[idx - 1]@
            &&& f.input_state.cursor == f.input_state.text@.len()
        } else {
            f == o
        },
        None => if o.history.entries@.len() > 0 {
            let last = o.history.entries@[o.history.entries@.len() - 1]@;
            let n = f.history.entries@.len();
            &&& f == App { history: f.history, history_idx: f.history_idx, input_state: f.input_state, ..o }
            &&& f.history.max_size == o.history.max_size
            &&& f.history.view_entries() == pushed(
                o.history.view_entries(),
                o.input_state.text@,
                o.history.max_size,
            )
            &&& f.history_idx == if n >= 2 { Some((n - 2) as usize) } else { None::<usize> }
            &&& f.input_state.text@ == last
            &&& f.input_state.cursor == last.len()
            &&& (f.history_idx matches Some(i) ==> f.history.entries@[i as int]@ == last)
        } else {
            f == o
        },
    }
}

/// State after one step forward in history; past the second to last entry
/// (the last one is the buffer saved when navigation began) navigation ends
/// with an empty buffer.
pub open spec fn history_next_outcome(o: App, f: App) -> bool {
    match o.history_idx {
        Some(idx) => if idx + 1 < o.history.entries@.len() - 1 {
            &&& f == App { history_idx: Some((idx + 1) as usize), input_state: f.input_state, ..o }
            &&& f.input_state.text@ == o.history.entries@[idx + 1]@
            &&& f.input_state.cursor == f.input_state.text@.len()
        } else {
            &&& f == App { history_idx: None, input_state: f.input_state, ..o }
            &&& f.input_state.text@.len() == 0
            &&& f.input_state.cursor == 0
        },
        None => f == o,
    }
}

impl App {
    pub open spec fn wf(&self) -> bool {
        &&& self.input_state.wf()
        &&& (self.autocomplete_state matches Some(a) ==> a.wf())
        &&& self.history.wf()
        &&& self.bookmarks.wf()
        &&& self.config.wf()
        &&& (self.history_idx matches Some(i) ==> i < self.history.entries@.len())
    }

    pub fn new(
        execution_mode: ExecutionMode,
        raw_mode: bool,
        config: PiprConfig,
        bookmarks: CommandList,
        history: CommandList,
    ) -> (r: App)
        requires
            config.wf(),
            bookmarks.wf(),
            history.wf(),
        ensures
            r.wf(),
            r.config == config,
            r.bookmarks == bookmarks,
            r.history == history,
            !r.paranoid_history_mode,
            r.should_jump_to_other_cmd is None,
            r.input_state.text@.len() == 0,
            r.execution_mode == execution_mode,
            r.raw_mode == raw_mode,
            r.autoeval_mode,
            !r.should_quit,
            r.history_idx is None,
            r.autocomplete_state is None,
            r.opened_key_select_menu is None,
            r.tracker.view().running is None,
            r.tracker.view().pending is None,
            r.last_output is None,
    {
        App {
            input_state: LineEditor::new(),
            history,
            bookmarks,
            history_idx: None,
            autocomplete_state: None,
            opened_key_select_menu: None,
            autoeval_mode: true,
            paranoid_history_mode: false,
            should_quit: false,
            should_jump_to_other_cmd: None,
            raw_mode,
            config,
            execution_mode,
            tracker: ExecutionTracker::new(),
            last_output: None,
        }
    }

    /// Requests a run of the buffer's content (lines joined by spaces).
    pub fn execute_content(&mut self) -> (r: Effect)
        ensures
            *final(self) == (App { tracker: final(self).tracker, ..*old(self) }),
            requested(*old(self), *final(self), r),
    {
        let text = self.input_state.content_str();
        match self.tracker.submit(text) {
            Some(sp) => {
                let args = build_command(
                    self.execution_mode,
                    &self.config.isolation_mounts_readonly,
                    &sp.text,
                );
                Effect::Run(sp.seq, args)
            },
            None => Effect::Nothing,
        }
    }

    /// Takes in the output of finished run `seq`: it is displayed only where
    /// no newer request has been made since; a request that waited is started.
    pub fn on_cmd_output(&mut self, seq: u64, output: Vec<char>) -> (r: Effect)
        ensures
            *final(self) == (App {
                tracker: final(self).tracker,
                last_output: final(self).last_output,
                ..*old(self)
            }),
            final(self).tracker.view() == finish_model(old(self).tracker.view(), seq).0,
            finish_model(old(self).tracker.view(), seq).1 ==> (final(self).last_output matches Some(
                o,
            ) && o@ == output@),
            !finish_model(old(self).tracker.view(), seq).1 ==> final(self).last_output
                == old(self).last_output,
            match finish_model(old(self).tracker.view(), seq).2 {
                Some(sp) => r matches Effect::Run(s, args) && s == sp.0 && args_view(args@)
                    == command_args(
                    old(self).execution_mode,
                    mounts_view(old(self).config.isolation_mounts_readonly@),
                    sp.1,
                ),
                None => r is Nothing,
            },
    {
        let d = self.tracker.on_finished(seq);
        if d.show {
            self.last_output = Some(output);
        }
        match d.spawn {
            Some(sp) => {
                let args = build_command(
                    self.execution_mode,
                    &self.config.isolation_mounts_readonly,
                    &sp.text,
                );
                Effect::Run(sp.seq, args)
            },
            None => Effect::Nothing,
        }
    }
    /// Handles the one character that a key-select menu waited for: a snippet
    /// under that key is inserted at the cursor; a viewer under that key gives
    /// the command that opens the menu's word. Any other key does nothing.
    pub fn handle_key_select_menu_event(&mut self, key_select_menu: KeySelectMenu, c: char)
        requires
            old(self).wf(),
        ensures
            final(self).wf(),
            menu_outcome(*old(self), key_select_menu, c, *final(self)),
    {
        match key_select_menu.menu_type {
            KeySelectMenuType::Snippets => {
                let i = find_key(&self.config.snippets, c);
                if i < self.config.snippets.len() {
                    let text = copy_chars(&self.config.snippets[i].1.text);
                    let offset = self.config.snippets[i].1.cursor_offset;
                    let at = self.input_state.cursor;
                    self.input_state.insert_at_cursor(&text);
                    if offset < text.len() {
                        self.input_state.cursor = at + offset;
                    }
                }
            },
            KeySelectMenuType::OpenWordIn(word) => {
                let i = find_key(&self.config.help_viewers, c);
                if i < self.config.help_viewers.len() {
                    let cmd = self.config.help_viewers[i].1.resolve_to_command(&word);
                    self.should_jump_to_other_cmd = Some(cmd);
                }
            },
        }
    }

    /// Moves one entry back in history. The first step saves the buffer as a
    /// new trailing entry and loads the entry that was last.
    pub fn apply_history_prev(&mut self)
        requires
            old(self).wf(),
        ensures
            final(self).wf(),
            history_prev_outcome(*old(self), *final(self)),
    {
        match self.history_idx {
            Some(idx) => {
                if idx > 0 {
                    self.history_idx = Some(idx - 1);
                    match self.history.get_at(idx - 1) {
                        Ok(e) => self.input_state.load_text(&e),
                        Err(_) => {},
                    }
                }
            },
            None => {
                let n = self.history.len();
                if n > 0 {
                    match self.history.get_at(n - 1) {
                        Ok(last) => {
                            let ghost sv = self.history.view_entries();
                            let current = copy_chars(&self.input_state.text);
                            let ghost pv = sv.push(current@);
                            self.history.push(current);
                            let m = self.history.len();
                            if m >= 2 {
                                proof {
                                    let fv = self.history.view_entries();
                                    assert(fv.len() == m);
                                    assert(fv[m - 2] == pv[pv.len() - 2]);
                                    assert(pv[pv.len() - 2] == sv[n - 1]);
                                    assert(fv[m - 2] == self.history.entries@[m - 2]@);
                                }
                                self.history_idx = Some(m - 2);
                            }
                            self.input_state.load_text(&last);
                        },
                        Err(_) => {},
                    }
                }
            },
        }
    }

    /// Moves one entry forward in history; past the second to last entry
    /// (the last one is the buffer saved when navigation began) navigation
    /// ends with an empty buffer.
    pub fn apply_history_next(&mut self)
        requires
            old(self).wf(),
        ensures
            final(self).wf(),
            history_next_outcome(*old(self), *final(self)),
    {
        match self.history_idx {
            Some(idx) => {
                let n = self.history.len();
                if n >= 2 && idx < n - 2 {
                    let new_idx = idx + 1;
                    self.history_idx = Some(new_idx);
                    match self.history.get_at(new_idx) {
                        Ok(e) => self.input_state.load_text(&e),
                        Err(_) => {},
                    }
                } else {
                    self.history_idx = None;
                    self.input_state.load_text(&Vec::new());
                }
            },
            None => {},
        }
    }

    /// Applies the candidates of a path completion for `word`, the word at
    /// the cursor: a single one is inserted without the part already typed;
    /// several open the autocomplete overlay.
    pub fn apply_path_completions(&mut self, word: Vec<char>, completions: Option<Vec<Vec<char>>>)
        requires
            old(self).wf(),
        ensures
            *final(self) == (App {
                input_state: final(self).input_state,
                autocomplete_state: final(self).autocomplete_state,
                ..*old(self)
            }),
            final(self).opened_key_select_menu == old(self).opened_key_select_menu,
            final(self).wf(),
            final(self).history == old(self).history,
            final(self).tracker == old(self).tracker,
            match completions {
                Some(cs) => if cs@.len() == 1 {
                    &&& final(self).input_state.text@ == splice(
                        old(self).input_state.text@,
                        old(self).input_state.cursor as int,
                        strip_prefix(cs@[0]@, word@),
                    )
                    &&& final(self).input_state.cursor == old(self).input_state.cursor + strip_prefix(
                        cs@[0]@,
                        word@,
                    ).len()
                    &&& final(self).autocomplete_state == old(self).autocomplete_state
                } else if cs@.len() > 1 {
                    &&& final(self).input_state == old(self).input_state
                    &&& final(self).autocomplete_state matches Some(a) && a.current_idx == 0
                        && a.original_prompt@ == word@ && a.options@ == cs@
                } else {
                    final(self).input_state == old(self).input_state
                        && final(self).autocomplete_state == old(self).autocomplete_state
                },
                None => final(self).input_state == old(self).input_state
                    && final(self).autocomplete_state == old(self).autocomplete_state,
            },
    {
        match completions {
            Some(cs) => {
                if cs.len() == 1 {
                    let rest = strip_prefix_exec(&cs[0], &word);
                    self.input_state.insert_at_cursor(&rest);
                } else if cs.len() > 1 {
                    self.autocomplete_state = AutocompleteState::from_options(word, cs);
                }
            },
            None => {},
        }
    }
    /// Handles one key of the main window.
    pub fn handle_main_window_tui_event(&mut self, code: Key, modifiers: Modifiers) -> (r: Effect)
        requires
            old(self).wf(),
        ensures
            final(self).wf(),
            key_outcome(*old(self), code, modifiers, *final(self), r),
    {
        let control = modifiers.control;
        if self.autocomplete_state.is_some() {
            let forward = matches!(code, Key::Tab) || matches!(code, Key::Down);
            let backward = matches!(code, Key::BackTab) || matches!(code, Key::Up);
            let accept = matches!(code, Key::Enter);
            if forward || backward || accept {
                let mut a = self.autocomplete_state.take().unwrap();
                if forward {
                    a.cycle_selected();
                    self.autocomplete_state = Some(a);
                } else if backward {
                    a.cycle_selected_backwards();
                    self.autocomplete_state = Some(a);
                } else {
                    let rest = strip_prefix_exec(a.selected(), &a.original_prompt);
                    self.input_state.insert_at_cursor(&rest);
                }
                return Effect::Nothing;
            }
            self.autocomplete_state = None;
        }
        let ghost o1 = *self;
        if self.opened_key_select_menu.is_some() {
            let menu = self.opened_key_select_menu.take().unwrap();
            assert(self.input_state == o1.input_state);
            match code {
                Key::Char(c) => {
                    self.handle_key_select_menu_event(menu, c);
                },
                _ => {},
            }
            return Effect::Nothing;
        }
        if matches!(code, Key::Esc) || (control && (key_is_char(&code, 'q') || key_is_char(&code, 'c'))) {
            self.should_quit = true;
            Effect::Nothing
        } else if matches!(code, Key::F(2)) {
            self.autoeval_mode = !self.autoeval_mode;
            Effect::Nothing
        } else if matches!(code, Key::F(3)) {
            self.paranoid_history_mode = !self.paranoid_history_mode;
            Effect::Nothing
        } else if matches!(code, Key::Tab) {
            let line = self.input_state.current_line();
            let col = self.input_state.cursor_col();
            let hovered = self.input_state.hovered_char();
            let free = match hovered {
                None => true,
                Some(h) => h == ' ',
            };
            if free {
                match word_at_idx(&line, col) {
                    Some(w) => Effect::CompletePath(w),
                    None => Effect::Nothing,
                }
            } else {
                Effect::Nothing
            }
        } else if matches!(code, Key::F(5)) {
            let line = self.input_state.current_line();
            let col = self.input_state.cursor_col();
            match word_at_idx(&line, col) {
                Some(w) => {
                    let mut options: Vec<(char, Vec<char>)> = Vec::new();
                    let mut i: usize = 0;
                    while i < self.config.help_viewers.len()
                        invariant
                            i <= self.config.help_viewers@.len(),
                            options@.len() == i,
                            forall|j: int|
                                0 <= j < i ==> (#[trigger] options@[j]).0
                                    == self.config.help_viewers@[j].0 && options@[j].1@
                                    == viewer_command(self.config.help_viewers@[j].1.command@, w@),
                        decreases self.config.help_viewers@.len() - i,
                    {
                        let k = self.config.help_viewers[i].0;
                        let cmd = self.config.help_viewers[i].1.resolve_to_command(&w);
                        options.push((k, cmd));
                        i += 1;
                    }
                    self.opened_key_select_menu = Some(
                        KeySelectMenu { options, menu_type: KeySelectMenuType::OpenWordIn(w) },
                    );
                },
                None => {},
            }
            Effect::Nothing
        } else if control && key_is_char(&code, 's') {
            let entry = copy_chars(&self.input_state.text);
            self.bookmarks.toggle_entry(entry);
            Effect::Nothing
        } else if control && key_is_char(&code, 'p') {
            self.apply_history_prev();
            Effect::Nothing
        } else if control && key_is_char(&code, 'n') {
            self.apply_history_next();
            Effect::Nothing
        } else if control && key_is_char(&code, 'x') {
            let entry = copy_chars(&self.input_state.text);
            self.history.push(entry);
            self.input_state.apply_event(EditorEvent::Clear);
            Effect::Nothing
        } else if control && key_is_char(&code, 'v') {
            let mut options: Vec<(char, Vec<char>)> = Vec::new();
            let mut i: usize = 0;
            while i < self.config.snippets.len()
                invariant
                    i <= self.config.snippets@.len(),
                    options@.len() == i,
                    forall|j: int|
                        0 <= j < i ==> (#[trigger] options@[j]).0 == self.config.snippets@[j].0
                            && options@[j].1@ == self.config.snippets@[j].1.text@,
                decreases self.config.snippets@.len() - i,
            {
                let k = self.config.snippets[i].0;
                let t = copy_chars(&self.config.snippets[i].1.text);
                options.push((k, t));
                i += 1;
            }
            self.opened_key_select_menu = Some(
                KeySelectMenu { options, menu_type: KeySelectMenuType::Snippets },
            );
            Effect::Nothing
        } else if matches!(code, Key::Enter) && !modifiers.alt {
            let content = self.input_state.content_str();
            if content.len() > 0 {
                let entry = copy_chars(&self.input_state.text);
                self.history.push(entry);
            }
            self.execute_content()
        } else {
            match convert_keyevent_to_editorevent(&code, &modifiers) {
                Some(ev) => {
                    let previous = self.input_state.content_str();
                    self.input_state.apply_event(ev);
                    let now = self.input_state.content_str();
                    if self.autoeval_mode && !chars_eq(&previous, &now) {
                        self.execute_content()
                    } else {
                        Effect::Nothing
                    }
                },
                None => Effect::Nothing,
            }
        }
    }
    /// The command handed out when the session ends: the buffer with its
    /// line breaks in raw mode, else with lines joined by spaces.
    pub fn finished_command(&self) -> (r: Vec<char>)
        ensures
            r@ == if self.raw_mode {
                self.input_state.text@
            } else {
                spaced(self.input_state.text@)
            },
    {
        if self.raw_mode {
            copy_chars(&self.input_state.text)
        } else {
            self.input_state.content_str()
        }
    }
}

} // verus!