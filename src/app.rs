use vstd::prelude::*;
use crate::sink::{appended, cleared, OutputSink};
use crate::text::{join3, same_text};

verus! {

/// Whether no two entries of `v` hold the same text.
pub open spec fn distinct(v: Seq<String>) -> bool {
    forall|i: int, j: int| 0 <= i < j < v.len() ==> v[i]@ != v[j]@
}

/// Whether some entry of `v` holds the text `s`.
pub open spec fn holds(v: Seq<String>, s: Seq<char>) -> bool {
    exists|i: int| 0 <= i < v.len() && v[i]@ == s
}

/// What the terminal shows when the editor starts.
pub open spec fn welcome_text() -> Seq<char> {
    "🖥️ Terminal Ready\nType commands below\n> "@
}

/// Where saving `app` writes its text.
pub open spec fn save_plan(app: CodeEditorApp) -> Option<String> {
    app.file_path
}

/// The line appended once the file at `path` was written.
pub open spec fn saved_line(path: Seq<char>) -> Seq<char> {
    "✓ Saved: "@ + path + "\n"@
}

/// The position of the entry of `v` that holds `s`, if any.
pub fn position_of(v: &Vec<String>, s: &str) -> (r: Option<usize>)
    ensures
        match r {
            Some(i) => i < v@.len() && v@[i as int]@ == s@,
            None => !holds(v@, s@),
        },
{
    let mut i: usize = 0;
    while i < v.len()
        invariant
            i <= v@.len(),
            forall|j: int| 0 <= j < i ==> v@[j]@ != s@,
        decreases v@.len() - i,
    {
        if same_text(v[i].as_str(), s) {
            return Some(i);
        }
        i = i + 1;
    }
    None
}

/// The state of the editor window: the text being edited and the file it
/// came from, the open tabs, the panels shown, the terminal output and the
/// folder being browsed. Paths are held as text.
pub struct CodeEditorApp {
    pub text: String,
    pub file_path: Option<String>,
    pub open_files: Vec<String>,
    pub current_file_index: usize,
    pub show_sidebar: bool,
    pub show_terminal: bool,
    pub terminal_output: OutputSink,
    pub terminal_input: String,
    pub root_folder: Option<String>,
    /// The folders of the tree that are shown expanded.
    pub file_tree_expanded: Vec<String>,
    pub breadcrumb_path: Vec<String>,
}

impl CodeEditorApp {
    /// The tabs hold no path twice, the current tab is one of them (or 0
    /// with no tab open), and no folder is listed twice as expanded.
    pub open spec fn wf(&self) -> bool {
        &&& distinct(self.open_files@)
        &&& distinct(self.file_tree_expanded@)
        &&& if self.open_files@.len() == 0 {
            self.current_file_index == 0
        } else {
            self.current_file_index < self.open_files@.len()
        }
    }

    /// The editor as it starts: nothing open, both panels shown, the
    /// terminal greeting the user.
    pub fn new() -> (r: CodeEditorApp)
        ensures
            r.wf(),
            r.text@.len() == 0,
            r.file_path is None,
            r.open_files@.len() == 0,
            r.current_file_index == 0,
            r.show_sidebar,
            r.show_terminal,
            r.terminal_output@ == welcome_text(),
            r.terminal_input@.len() == 0,
            r.root_folder is None,
            r.file_tree_expanded@.len() == 0,
            r.breadcrumb_path@.len() == 0,
    {
        CodeEditorApp {
            text: String::new(),
            file_path: None,
            open_files: Vec::new(),
            current_file_index: 0,
            show_sidebar: true,
            show_terminal: true,
            terminal_output: OutputSink::new("🖥️ Terminal Ready\nType commands below\n> "),
            terminal_input: String::new(),
            root_folder: None,
            file_tree_expanded: Vec::new(),
            breadcrumb_path: Vec::new(),
        }
    }

    /// Shows `content`, just read from `path`, as the text being edited.
    pub fn load_document(&mut self, path: String, content: String)
        ensures
            final(self).text@ == content@,
            final(self).file_path == Some(path),
            final(self).open_files == old(self).open_files,
            final(self).current_file_index == old(self).current_file_index,
            final(self).terminal_output == old(self).terminal_output,
            final(self).file_tree_expanded == old(self).file_tree_expanded,
            final(self).breadcrumb_path == old(self).breadcrumb_path,
            final(self).root_folder == old(self).root_folder,
            *final(self) == (CodeEditorApp { text: final(self).text, file_path: final(self).file_path, ..*old(self) }),
    {
        self.text = content;
        self.file_path = Some(path);
    }

    /// Shows `content`, just read from `path`, and makes `path` a tab: a
    /// new one, made current, unless a tab holds it already.
    pub fn open_document(&mut self, path: String, content: String)
        requires
            old(self).wf(),
        ensures
            final(self).wf(),
            final(self).text@ == content@,
            final(self).file_path == Some(path),
            holds(old(self).open_files@, path@) ==> final(self).open_files == old(self).open_files
                && final(self).current_file_index == old(self).current_file_index,
            !holds(old(self).open_files@, path@) ==> final(self).open_files@
                == old(self).open_files@.push(path)
                && final(self).current_file_index == old(self).open_files@.len(),
            final(self).terminal_output == old(self).terminal_output,
            final(self).file_tree_expanded == old(self).file_tree_expanded,
            final(self).breadcrumb_path == old(self).breadcrumb_path,
            *final(self) == (CodeEditorApp { text: final(self).text, file_path: final(self).file_path, open_files: final(self).open_files, current_file_index: final(self).current_file_index, ..*old(self) }),
    {
        let found = position_of(&self.open_files, path.as_str());
        if found.is_none() {
            let tab = path.clone();
            self.open_files.push(tab);
            self.current_file_index = self.open_files.len() - 1;
        }
        self.load_document(path, content);
    }

    /// Makes tab `i` current and gives the path whose text is to be loaded.
    pub fn select_tab(&mut self, i: usize) -> (r: String)
        requires
            old(self).wf(),
            i < old(self).open_files@.len(),
        ensures
            final(self).wf(),
            r@ == old(self).open_files@[i as int]@,
            final(self).current_file_index == i,
            final(self).open_files == old(self).open_files,
            final(self).text == old(self).text,
            final(self).file_path == old(self).file_path,
            *final(self) == (CodeEditorApp { current_file_index: final(self).current_file_index, ..*old(self) }),
    {
        self.current_file_index = i;
        self.open_files[i].clone()
    }

    /// Closes tab `i`; when the current tab falls off the end, the last
    /// one becomes current.
    pub fn close_tab(&mut self, i: usize)
        requires
            old(self).wf(),
            i < old(self).open_files@.len(),
        ensures
            final(self).wf(),
            final(self).open_files@ == old(self).open_files@.remove(i as int),
            final(self).current_file_index == if old(self).current_file_index
                < final(self).open_files@.len() {
                old(self).current_file_index
            } else if final(self).open_files@.len() == 0 {
                0
            } else {
                (final(self).open_files@.len() - 1) as usize
            },
            final(self).text == old(self).text,
            final(self).file_path == old(self).file_path,
            *final(self) == (CodeEditorApp { open_files: final(self).open_files, current_file_index: final(self).current_file_index, ..*old(self) }),
    {
        self.open_files.remove(i);
        let n = self.open_files.len();
        if self.current_file_index >= n {
            self.current_file_index = if n == 0 {
                0
            } else {
                n - 1
            };
        }
        assert forall|a: int, b: int|
            0 <= a < b < self.open_files@.len() implies self.open_files@[a]@
            != self.open_files@[b]@ by {
            let oa = if a < i { a } else { a + 1 };
            let ob = if b < i { b } else { b + 1 };
            assert(self.open_files@[a] == old(self).open_files@[oa]);
            assert(self.open_files@[b] == old(self).open_files@[ob]);
        }
    }

    /// Shows the sidebar if hidden, hides it if shown.
    pub fn toggle_sidebar(&mut self)
        ensures
            *final(self) == (CodeEditorApp { show_sidebar: !old(self).show_sidebar, ..*old(self) }),
    {
        self.show_sidebar = !self.show_sidebar;
    }

    /// Shows the terminal panel if hidden, hides it if shown.
    pub fn toggle_terminal(&mut self)
        ensures
            final(self).show_terminal == !old(self).show_terminal,
            final(self).show_sidebar == old(self).show_sidebar,
            *final(self) == (CodeEditorApp { show_terminal: final(self).show_terminal, ..*old(self) }),
    {
        self.show_terminal = !self.show_terminal;
    }

    /// Browses the folder at `path`: it becomes the tree's root and the
    /// only breadcrumb.
    pub fn open_folder(&mut self, path: String)
        ensures
            final(self).root_folder == Some(path),
            final(self).breadcrumb_path@ == seq![path],
            final(self).file_tree_expanded == old(self).file_tree_expanded,
            final(self).open_files == old(self).open_files,
            final(self).current_file_index == old(self).current_file_index,
            *final(self) == (CodeEditorApp { root_folder: final(self).root_folder, breadcrumb_path: final(self).breadcrumb_path, ..*old(self) }),
    {
        self.breadcrumb_path = vec![path.clone()];
        self.root_folder = Some(path);
    }

    /// Goes back to the root folder: it becomes the only breadcrumb. With
    /// no folder open nothing changes.
    pub fn select_root_crumb(&mut self)
        ensures
            final(self).root_folder == old(self).root_folder,
            match old(self).root_folder {
                Some(root) => final(self).breadcrumb_path@ == seq![root],
                None => final(self).breadcrumb_path == old(self).breadcrumb_path,
            },
            *final(self) == (CodeEditorApp { breadcrumb_path: final(self).breadcrumb_path, ..*old(self) }),
    {
        match &self.root_folder {
            Some(root) => {
                self.breadcrumb_path = vec![root.clone()];
            },
            None => {},
        }
    }

    /// Goes back to breadcrumb `i`: those after it are dropped.
    pub fn select_crumb(&mut self, i: usize)
        requires
            i < old(self).breadcrumb_path@.len(),
        ensures
            final(self).breadcrumb_path@ == old(self).breadcrumb_path@.take(i + 1),
            final(self).root_folder == old(self).root_folder,
            *final(self) == (CodeEditorApp { breadcrumb_path: final(self).breadcrumb_path, ..*old(self) }),
    {
        let n = self.breadcrumb_path.len();
        assert(i < n);
        self.breadcrumb_path.truncate(i + 1);
    }

    /// Whether the tree shows the folder at `path` expanded.
    pub fn is_expanded(&self, path: &str) -> (r: bool)
        ensures
            r == holds(self.file_tree_expanded@, path@),
    {
        position_of(&self.file_tree_expanded, path).is_some()
    }

    /// Expands the folder at `path` in the tree if it is collapsed,
    /// collapses it if it is expanded.
    pub fn toggle_folder(&mut self, path: &str)
        requires
            old(self).wf(),
        ensures
            final(self).wf(),
            holds(final(self).file_tree_expanded@, path@) != holds(
                old(self).file_tree_expanded@,
                path@,
            ),
            forall|p: Seq<char>|
                p != path@ ==> (holds(final(self).file_tree_expanded@, p) == holds(
                    old(self).file_tree_expanded@,
                    p,
                )),
            final(self).open_files == old(self).open_files,
            final(self).current_file_index == old(self).current_file_index,
            *final(self) == (CodeEditorApp { file_tree_expanded: final(self).file_tree_expanded, ..*old(self) }),
    {
        match position_of(&self.file_tree_expanded, path) {
            Some(i) => {
                let ghost before = self.file_tree_expanded@;
                self.file_tree_expanded.remove(i);
                let ghost after = self.file_tree_expanded@;
                assert forall|p: Seq<char>| holds(after, p) == (holds(before, p) && p != path@) by {
                    if holds(after, p) {
                        let k = choose|k: int| 0 <= k < after.len() && after[k]@ == p;
                        let ok = if k < i { k } else { k + 1 };
                        assert(after[k] == before[ok]);
                        assert(ok != i);
                    }
                    if holds(before, p) && p != path@ {
                        let k = choose|k: int| 0 <= k < before.len() && before[k]@ == p;
                        assert(k != i);
                        let nk = if k < i { k } else { k - 1 };
                        assert(after[nk] == before[k]);
                    }
                }
                assert forall|a: int, b: int|
                    0 <= a < b < after.len() implies after[a]@ != after[b]@ by {
                    let oa = if a < i { a } else { a + 1 };
                    let ob = if b < i { b } else { b + 1 };
                    assert(after[a] == before[oa]);
                    assert(after[b] == before[ob]);
                }
            },
            None => {
                let ghost before = self.file_tree_expanded@;
                self.file_tree_expanded.push(path.to_string());
                let ghost after = self.file_tree_expanded@;
                assert(after[before.len() as int]@ == path@);
                assert forall|p: Seq<char>| holds(after, p) == (holds(before, p) || p == path@) by {
                    if holds(before, p) {
                        let k = choose|k: int| 0 <= k < before.len() && before[k]@ == p;
                        assert(after[k] == before[k]);
                    }
                    if holds(after, p) {
                        let k = choose|k: int| 0 <= k < after.len() && after[k]@ == p;
                        if k < before.len() {
                            assert(after[k] == before[k]);
                        }
                    }
                }
            },
        }
    }

    /// The path the text is to be written to: the file it came from. With
    /// no file opened there is none, and saving writes nothing.
    pub fn save_target(&self) -> (r: Option<String>)
        ensures
            r == save_plan(*self),
    {
        self.file_path.clone()
    }

    /// Records that the text was written to `path`.
    pub fn record_saved(&mut self, path: &str)
        ensures
            final(self).terminal_output@ == old(self).terminal_output@ + saved_line(path@),
            final(self).text == old(self).text,
            final(self).file_path == old(self).file_path,
            *final(self) == (CodeEditorApp { terminal_output: final(self).terminal_output, ..*old(self) }),
    {
        let line = join3("✓ Saved: ", path, "\n");
        self.terminal_output.append(line.as_str());
    }

    /// Adds `text`, which a background command produced, to the terminal.
    pub fn append_output(&mut self, text: &str)
        ensures
            final(self).terminal_output@ == appended(old(self).terminal_output@, text@),
            final(self).text == old(self).text,
            *final(self) == (CodeEditorApp { terminal_output: final(self).terminal_output, ..*old(self) }),
    {
        self.terminal_output.append(text);
    }

    /// Empties the terminal.
    pub fn clear_terminal(&mut self)
        ensures
            final(self).terminal_output@ == cleared(old(self).terminal_output@),
            final(self).terminal_output@.len() == 0,
            *final(self) == (CodeEditorApp { terminal_output: final(self).terminal_output, ..*old(self) }),
    {
        self.terminal_output.clear();
    }

    /// Takes the command line typed into the terminal input, leaving the
    /// input empty; an empty input gives no command.
    pub fn take_command(&mut self) -> (r: Option<String>)
        ensures
            old(self).terminal_input@.len() == 0 ==> r is None && final(self).terminal_input
                == old(self).terminal_input,
            old(self).terminal_input@.len() > 0 ==> r == Some(old(self).terminal_input)
                && final(self).terminal_input@.len() == 0,
            final(self).terminal_output == old(self).terminal_output,
            final(self).text == old(self).text,
            *final(self) == (CodeEditorApp { terminal_input: final(self).terminal_input, ..*old(self) }),
    {
        if self.terminal_input.as_str().unicode_len() == 0 {
            None
        } else {
            let line = self.terminal_input.clone();
            self.terminal_input = String::new();
            Some(line)
        }
    }
}

impl Default for CodeEditorApp {
    fn default() -> (r: CodeEditorApp)
        ensures
            r.wf(),
            r.text@.len() == 0,
            r.file_path is None,
            r.open_files@.len() == 0,
            r.current_file_index == 0,
            r.show_sidebar,
            r.show_terminal,
            r.terminal_output@ == welcome_text(),
            r.terminal_input@.len() == 0,
            r.root_folder is None,
            r.file_tree_expanded@.len() == 0,
            r.breadcrumb_path@.len() == 0,
    {
        CodeEditorApp::new()
    }
}

/// Saving with no file opened writes nothing: there is no path to write to,
/// and so no line is added to the terminal either.
pub proof fn saving_without_file_is_silent(app: CodeEditorApp)
    requires
        app.file_path is None,
    ensures
        save_plan(app) is None,
{
}

} // verus!
