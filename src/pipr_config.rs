use vstd::prelude::*;
use crate::lineeditor::slice_chars;
use crate::key_select_menu::keys_unique;

verus! {

/// `i` is the position of the first `c` in `s`, or `s.len()` where `s` holds
/// none.
pub open spec fn is_first_char(s: Seq<char>, c: char, i: int) -> bool {
    0 <= i <= s.len() && (i < s.len() ==> s[i] == c) && forall|j: int| 0 <= j < i ==> s[j] != c
}

pub open spec fn find_char(s: Seq<char>, c: char) -> int {
    choose|i: int| is_first_char(s, c, i)
}

proof fn lemma_first_char_unique(s: Seq<char>, c: char, i: int, k: int)
    requires
        is_first_char(s, c, i),
        is_first_char(s, c, k),
    ensures
        i == k,
{
    if i < k {
        assert(s[i] != c);
    } else if k < i {
        assert(s[k] != c);
    }
}

/// Position of the first `c` in `s`, or its length.
pub fn find_char_exec(s: &Vec<char>, c: char, from: usize) -> (r: usize)
    requires
        from <= s@.len(),
    ensures
        from + find_char(s@.skip(from as int), c) == r,
        from <= r <= s@.len(),
{
    let ghost t = s@.skip(from as int);
    let mut i: usize = from;
    while i < s.len() && s[i] != c
        invariant
            from <= i <= s@.len(),
            t == s@.skip(from as int),
            forall|j: int| 0 <= j < i - from ==> t[j] != c,
        decreases s@.len() - i,
    {
        i += 1;
    }
    proof {
        assert(is_first_char(t, c, i - from));
        lemma_first_char_unique(t, c, i - from, find_char(t, c));
    }
    i
}

/// The `(host, sandboxed)` pair that a mount entry `host:sandboxed` names: the
/// text before the first colon and the text from there up to the next colon
/// or the end. None where the entry holds no colon.
pub open spec fn mount_of(e: Seq<char>) -> Option<(Seq<char>, Seq<char>)> {
    let i = find_char(e, ':');
    if i >= e.len() {
        None
    } else {
        let rest = e.skip(i + 1);
        Some((e.take(i), rest.take(find_char(rest, ':'))))
    }
}

pub open spec fn all_mounts_valid(es: Seq<Seq<char>>) -> bool {
    forall|k: int| 0 <= k < es.len() ==> (#[trigger] mount_of(es[k])) is Some
}

pub enum ConfigError {
    InvalidMountFormat,
}

/// Parses mount entries of the form `<on-host>:<in-isolated>`.
pub fn parse_isolation_mounts(entries: &Vec<Vec<char>>) -> (r: Result<
    Vec<(Vec<char>, Vec<char>)>,
    ConfigError,
>)
    ensures
        all_mounts_valid(entries@.map_values(|e: Vec<char>| e@)) <==> r is Ok,
        r matches Ok(ms) ==> ms@.len() == entries@.len() && forall|k: int|
            0 <= k < ms@.len() ==> mount_of(entries@[k]@) == Some(
                (#[trigger] ms@[k].0@, ms@[k].1@),
            ),
{
    let ghost es = entries@.map_values(|e: Vec<char>| e@);
    let mut out: Vec<(Vec<char>, Vec<char>)> = Vec::new();
    let mut k: usize = 0;
    while k < entries.len()
        invariant
            k <= entries@.len(),
            es == entries@.map_values(|e: Vec<char>| e@),
            out@.len() == k,
            forall|j: int| 0 <= j < k ==> (#[trigger] mount_of(es[j])) is Some,
            forall|j: int|
                0 <= j < k ==> mount_of(entries@[j]@) == Some((#[trigger] out@[j].0@, out@[j].1@)),
        decreases entries@.len() - k,
    {
        let e = &entries[k];
        let i = find_char_exec(e, ':', 0);
        assert(e@.skip(0) =~= e@);
        if i >= e.len() {
            assert(mount_of(es[k as int]) is None);
            return Err(ConfigError::InvalidMountFormat);
        }
        let j = find_char_exec(e, ':', i + 1);
        let host = slice_chars(e, 0, i);
        let inside = slice_chars(e, i + 1, j);
        assert(host@ =~= e@.take(i as int));
        assert(inside@ =~= e@.skip(i + 1).take(j - (i + 1)));
        out.push((host, inside));
        k += 1;
    }
    Ok(out)
}

/// A text to insert at the cursor, and where within it the cursor lands.
pub struct Snippet {
    pub text: Vec<char>,
    pub cursor_offset: usize,
}

/// A command that opens a word in some viewer, such as `man`.
pub struct HelpViewer {
    pub command: Vec<char>,
}

/// The command line that opens `word` in a viewer run by `command`.
pub open spec fn viewer_command(command: Seq<char>, word: Seq<char>) -> Seq<char> {
    command + seq![' '] + word
}

impl HelpViewer {
    /// The command that opens `word` in this viewer.
    pub fn resolve_to_command(&self, word: &Vec<char>) -> (r: Vec<char>)
        ensures
            r@ == viewer_command(self.command@, word@),
    {
        let mut r = crate::lineeditor::copy_chars(&self.command);
        r.push(' ');
        let ghost pre = r@;
        let mut i: usize = 0;
        while i < word.len()
            invariant
                i <= word@.len(),
                pre == self.command@ + seq![' '],
                r@ == pre + word@.take(i as int),
            decreases word@.len() - i,
        {
            r.push(word[i]);
            i += 1;
            assert(r@ =~= pre + word@.take(i as int));
        }
        assert(word@.take(i as int) =~= word@);
        r
    }
}

/// The settings that the session reads once at startup.
pub struct PiprConfig {
    pub finish_hook: Option<Vec<char>>,
    pub show_help: bool,
    pub isolation_mounts_readonly: Vec<(Vec<char>, Vec<char>)>,
    pub history_size: usize,
    pub snippets: Vec<(char, Snippet)>,
    pub help_viewers: Vec<(char, HelpViewer)>,
}

/// The mounts used where the settings name none: `/lib`, `/usr`, `/lib64`,
/// `/bin` and `/etc`, each at the same place.
pub open spec fn default_mount_entries_spec() -> Seq<Seq<char>> {
    seq![
        seq!['/', 'l', 'i', 'b', ':', '/', 'l', 'i', 'b'],
        seq!['/', 'u', 's', 'r', ':', '/', 'u', 's', 'r'],
        seq!['/', 'l', 'i', 'b', '6', '4', ':', '/', 'l', 'i', 'b', '6', '4'],
        seq!['/', 'b', 'i', 'n', ':', '/', 'b', 'i', 'n'],
        seq!['/', 'e', 't', 'c', ':', '/', 'e', 't', 'c'],
    ]
}

pub fn default_mount_entries() -> (r: Vec<Vec<char>>)
    ensures
        r@.map_values(|e: Vec<char>| e@) == default_mount_entries_spec(),
{
    let r = vec![
        vec!['/', 'l', 'i', 'b', ':', '/', 'l', 'i', 'b'],
        vec!['/', 'u', 's', 'r', ':', '/', 'u', 's', 'r'],
        vec!['/', 'l', 'i', 'b', '6', '4', ':', '/', 'l', 'i', 'b', '6', '4'],
        vec!['/', 'b', 'i', 'n', ':', '/', 'b', 'i', 'n'],
        vec!['/', 'e', 't', 'c', ':', '/', 'e', 't', 'c'],
    ];
    assert(r@.map_values(|e: Vec<char>| e@) =~= default_mount_entries_spec());
    r
}

impl PiprConfig {
    /// Each key names at most one snippet and at most one viewer.
    pub open spec fn wf(&self) -> bool {
        keys_unique(self.snippets@) && keys_unique(self.help_viewers@)
    }

    /// The configuration from already-read settings: help shown unless said
    /// otherwise, and the default mounts where none are given. Fails where a
    /// mount entry holds no colon.
    pub fn from_settings(
        finish_hook: Option<Vec<char>>,
        show_help: Option<bool>,
        mount_entries: Option<Vec<Vec<char>>>,
        history_size: usize,
        snippets: Vec<(char, Snippet)>,
        help_viewers: Vec<(char, HelpViewer)>,
    ) -> (r: Result<PiprConfig, ConfigError>)
        requires
            keys_unique(snippets@),
            keys_unique(help_viewers@),
        ensures
            ({
                let es = match mount_entries {
                    Some(v) => v@.map_values(|e: Vec<char>| e@),
                    None => default_mount_entries_spec(),
                };
                &&& all_mounts_valid(es) <==> r is Ok
                &&& r matches Ok(c) ==> {
                    &&& c.wf()
                    &&& c.finish_hook == finish_hook
                    &&& c.show_help == match show_help {
                        Some(b) => b,
                        None => true,
                    }
                    &&& c.history_size == history_size
                    &&& c.snippets == snippets
                    &&& c.help_viewers == help_viewers
                    &&& c.isolation_mounts_readonly@.len() == es.len()
                    &&& forall|k: int|
                        0 <= k < es.len() ==> mount_of(es[k]) == Some(
                            (
                                #[trigger] c.isolation_mounts_readonly@[k].0@,
                                c.isolation_mounts_readonly@[k].1@,
                            ),
                        )
                }
            }),
    {
        let entries = match mount_entries {
            Some(v) => v,
            None => default_mount_entries(),
        };
        match parse_isolation_mounts(&entries) {
            Ok(ms) => Ok(
                PiprConfig {
                    finish_hook,
                    show_help: match show_help {
                        Some(b) => b,
                        None => true,
                    },
                    isolation_mounts_readonly: ms,
                    history_size,
                    snippets,
                    help_viewers,
                },
            ),
            Err(e) => Err(e),
        }
    }
}

} // verus!
