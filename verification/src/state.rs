//! The application state the render loop works on: the two snapshots, the
//! current view selection through an index vector, the mode, the typed
//! command, the job slots and the sandbox records. One loop tick drains the
//! bus, folds messages in here, dispatches one key, and redraws; everything
//! it decides is decided by the functions of this module.

use vstd::prelude::*;
use vstd::string::{StrSliceExecFns, StringExecFns};

use crate::bus::{spec_request, JobSlots};
use crate::install::{apply_to_sandboxes, begin_install, spec_begin_install, SandboxSet};
use crate::query::{
    filter_core_indices, filter_matching_indices, identity_indices, sort_indices_desc,
    spec_core_indices, spec_identity_indices, spec_matching_indices, spec_sort_desc, SortKey,
};
use crate::text::{
    chars_eq_str, chars_to_string, dec_str, drop_last_char, join_space_at, lower_of, lowercase,
    parse_usize, push_char, spec_join_space, spec_parse_usize, spec_split_ws, spec_trim, split_ws,
    string_to_chars, trim_chars, u64_to_string, views_of,
};
use crate::types::{
    AppError, BusMessage, CratePackage, CratesData, JobCategory, Metadata, ProgressMessage,
    RepoRecord, SandboxInstallation,
};

verus! {

/// The input mode: plain navigation, or typing a command after `:`.
#[derive(Debug, Clone, Copy, PartialEq, Eq, Structural)]
pub enum Mode {
    Normal,
    Command,
}

/// Which pane fills the right side: the record detail, the statistics, or
/// the help text.
#[derive(Debug, Clone, Copy, PartialEq, Eq, Structural)]
pub enum Pane {
    List,
    Stats,
    Help,
}

/// The whole application state. The package records are held once, in
/// `all_crates`; `filtered` selects and orders them by index, so a view
/// never copies a snapshot.
#[derive(Debug)]
pub struct App {
    pub all_crates: Vec<CratePackage>,
    pub filtered: Vec<usize>,
    pub metadata: Metadata,
    pub selected: Option<usize>,
    pub mode: Mode,
    pub view: Pane,
    pub command_input: String,
    pub status_message: String,
    pub last_search: String,
    pub repos: Vec<RepoRecord>,
    pub progress: Vec<ProgressMessage>,
    pub slots: JobSlots,
    pub sandboxes: SandboxSet,
}

/// The status line shown at startup.
pub open spec fn spec_new_status(m: Metadata) -> Seq<char> {
    dec_str(m.total_crates as int) + " crates | "@ + dec_str(m.core_libraries as int)
        + " core | "@ + dec_str(m.community_packages as int)
        + " community | Press TAB for stats, ? for help, : for commands"@
}

/// The numeric argument of a list command: the second word when it parses
/// as a count, ten otherwise.
pub open spec fn spec_limit_arg(toks: Seq<Seq<char>>) -> int {
    if toks.len() > 1 {
        match spec_parse_usize(toks[1]) {
            Some(l) => l as int,
            None => 10,
        }
    } else {
        10
    }
}

/// The first `limit` entries of an index sequence (all of them when there
/// are fewer).
pub open spec fn spec_take(s: Seq<usize>, limit: int) -> Seq<usize> {
    if limit <= s.len() {
        s.subrange(0, limit)
    } else {
        s
    }
}

/// A command that replaces the view: the post state differs from the pre
/// state exactly in the new filter, the selection reset to the top, the new
/// status line, the cleared command input, and normal mode.
pub open spec fn command_sets_filter(
    pre: App,
    post: App,
    filt: Seq<usize>,
    status: Seq<char>,
) -> bool {
    &&& post == (App {
        filtered: post.filtered,
        selected: Some(0usize),
        status_message: post.status_message,
        command_input: post.command_input,
        mode: Mode::Normal,
        ..pre
    })
    &&& post.filtered@ == filt
    &&& post.status_message@ == status
    &&& post.command_input@ == Seq::<char>::empty()
}

/// A search that replaces the view and remembers the lowercased query.
pub open spec fn command_sets_search(
    pre: App,
    post: App,
    q: Seq<char>,
    filt: Seq<usize>,
    status: Seq<char>,
) -> bool {
    &&& post == (App {
        filtered: post.filtered,
        selected: Some(0usize),
        status_message: post.status_message,
        command_input: post.command_input,
        last_search: post.last_search,
        mode: Mode::Normal,
        ..pre
    })
    &&& post.filtered@ == filt
    &&& post.last_search@ == q
    &&& post.status_message@ == status
    &&& post.command_input@ == Seq::<char>::empty()
}

/// What running the typed command does. The command is the first
/// whitespace-separated word of the input: `q`/`quit` are left to the event
/// loop; `core` and `all` filter; `top`, `recent` and `new` order the
/// records descending by downloads, weekly downloads or creation time and
/// keep the first `limit`; `search` (and `/`) filters by a lowercased
/// query, as does an unrecognized command taken verbatim; `help`/`?`
/// toggles the help pane. Every non-empty command clears the input and
/// returns to normal mode; an all-whitespace input only returns to normal
/// mode.
pub open spec fn executes_command(pre: App, post: App) -> bool {
    let toks = spec_split_ws(pre.command_input@);
    let n_all = pre.all_crates@.len() as int;
    if toks.len() == 0 {
        post == (App { mode: Mode::Normal, ..pre })
    } else {
        let cmd = toks[0];
        let limit = spec_limit_arg(toks);
        if cmd == "q"@ || cmd == "quit"@ {
            post == (App { command_input: post.command_input, mode: Mode::Normal, ..pre })
                && post.command_input@ == Seq::<char>::empty()
        } else if cmd == "core"@ {
            command_sets_filter(
                pre,
                post,
                spec_core_indices(pre.all_crates@),
                "Showing "@ + dec_str(spec_core_indices(pre.all_crates@).len() as int)
                    + " core libraries"@,
            )
        } else if cmd == "all"@ {
            command_sets_filter(
                pre,
                post,
                spec_identity_indices(n_all),
                "Showing all "@ + dec_str(n_all) + " crates"@,
            )
        } else if cmd == "top"@ {
            command_sets_filter(
                pre,
                post,
                spec_take(
                    spec_sort_desc(pre.all_crates@, spec_identity_indices(n_all), SortKey::Downloads),
                    limit,
                ),
                "Showing top "@ + dec_str(limit) + " by downloads"@,
            )
        } else if cmd == "recent"@ {
            command_sets_filter(
                pre,
                post,
                spec_take(
                    spec_sort_desc(pre.all_crates@, spec_identity_indices(n_all), SortKey::Recent),
                    limit,
                ),
                "Showing top "@ + dec_str(limit) + " by weekly downloads"@,
            )
        } else if cmd == "new"@ {
            command_sets_filter(
                pre,
                post,
                spec_take(
                    spec_sort_desc(pre.all_crates@, spec_identity_indices(n_all), SortKey::Created),
                    limit,
                ),
                "Showing "@ + dec_str(limit) + " newest crates"@,
            )
        } else if cmd == "search"@ || cmd == "/"@ {
            if toks.len() > 1 {
                let q = lower_of(spec_join_space(toks.skip(1)));
                command_sets_search(
                    pre,
                    post,
                    q,
                    spec_matching_indices(pre.all_crates@, q),
                    "Found "@ + dec_str(spec_matching_indices(pre.all_crates@, q).len() as int)
                        + " crates matching '"@ + q + "'"@,
                )
            } else {
                post == (App {
                    status_message: post.status_message,
                    command_input: post.command_input,
                    mode: Mode::Normal,
                    ..pre
                }) && post.status_message@ == "Usage: :search <query> or /<query>"@
                    && post.command_input@ == Seq::<char>::empty()
            }
        } else if cmd == "help"@ || cmd == "?"@ {
            let newpane = if pre.view == Pane::Help {
                Pane::List
            } else {
                Pane::Help
            };
            post == (App {
                view: newpane,
                status_message: post.status_message,
                command_input: post.command_input,
                mode: Mode::Normal,
                ..pre
            }) && post.status_message@ == (if newpane == Pane::Help {
                "Showing help - Press ? or TAB to go back"@
            } else {
                "Help hidden"@
            }) && post.command_input@ == Seq::<char>::empty()
        } else {
            let q = lower_of(spec_trim(pre.command_input@));
            command_sets_search(
                pre,
                post,
                q,
                spec_matching_indices(pre.all_crates@, q),
                "Found "@ + dec_str(spec_matching_indices(pre.all_crates@, q).len() as int)
                    + " crates matching '"@ + q + "'"@,
            )
        }
    }
}

/// One key, as the event source hands it in: a plain character, a
/// control-modified character, or one of the special keys the loop acts on.
#[derive(Debug, Clone, Copy, PartialEq, Eq, Structural)]
pub enum KeyInput {
    Char(char),
    Ctrl(char),
    Down,
    Up,
    Tab,
    Enter,
    Backspace,
    Esc,
    Other,
}

/// Only control-d and control-u act as control keys; any other modified
/// character acts as the plain character, as the key dispatch matches it.
pub open spec fn spec_normalize_key(key: KeyInput) -> KeyInput {
    match key {
        KeyInput::Ctrl(c) => {
            if c == 'd' || c == 'u' {
                key
            } else {
                KeyInput::Char(c)
            }
        },
        _ => key,
    }
}

/// A key that only moves the selection.
pub open spec fn selects(pre: App, post: App, idx: int) -> bool {
    &&& post == (App { selected: post.selected, ..pre })
    &&& post.selected matches Some(j) && j as int == idx
}

/// What one key does in normal mode: `q` quits; `j`/`k` and the arrows
/// step the selection, `g`/`G` jump to the ends, control-d/control-u page,
/// all only while the list is non-empty where a step could wrap; Tab and
/// `?` switch panes; `:` and `/` enter command mode, `/` with `search `
/// pre-filled; everything else does nothing.
pub open spec fn handles_normal_key(pre: App, key: KeyInput, post: App, quit: bool) -> bool {
    let len = pre.filtered@.len() as int;
    match spec_normalize_key(key) {
        KeyInput::Char(c) => {
            if c == 'q' {
                quit && post == pre
            } else if c == 'j' {
                !quit && (if len > 0 {
                    selects(pre, post, pre.spec_next_index())
                } else {
                    post == pre
                })
            } else if c == 'k' {
                !quit && (if len > 0 {
                    selects(pre, post, pre.spec_previous_index())
                } else {
                    post == pre
                })
            } else if c == 'g' {
                !quit && selects(pre, post, 0)
            } else if c == 'G' {
                !quit && selects(
                    pre,
                    post,
                    if len == 0 {
                        0
                    } else {
                        len - 1
                    },
                )
            } else if c == '?' {
                !quit && post == (App {
                    view: if pre.view == Pane::Help {
                        Pane::List
                    } else {
                        Pane::Help
                    },
                    ..pre
                })
            } else if c == ':' {
                !quit && post == (App {
                    mode: Mode::Command,
                    command_input: post.command_input,
                    ..pre
                }) && post.command_input@ == Seq::<char>::empty()
            } else if c == '/' {
                !quit && post == (App {
                    mode: Mode::Command,
                    command_input: post.command_input,
                    ..pre
                }) && post.command_input@ == "search "@
            } else {
                !quit && post == pre
            }
        },
        KeyInput::Down => !quit && (if len > 0 {
            selects(pre, post, pre.spec_next_index())
        } else {
            post == pre
        }),
        KeyInput::Up => !quit && (if len > 0 {
            selects(pre, post, pre.spec_previous_index())
        } else {
            post == pre
        }),
        KeyInput::Ctrl(c) => {
            if c == 'd' {
                !quit && (if len > 0 {
                    selects(pre, post, pre.spec_next_page_index())
                } else {
                    post == pre
                })
            } else {
                !quit && selects(pre, post, pre.spec_previous_page_index())
            }
        },
        KeyInput::Tab => !quit && post == (App {
            view: match pre.view {
                Pane::List => Pane::Stats,
                Pane::Stats => Pane::List,
                Pane::Help => Pane::List,
            },
            ..pre
        }),
        _ => !quit && post == pre,
    }
}

/// What one key does in command mode: Enter quits on a bare `q`/`quit` and
/// otherwise runs the command; characters are appended to the input;
/// Backspace removes the last one; Esc abandons the input; everything else
/// does nothing.
pub open spec fn handles_command_key(pre: App, key: KeyInput, post: App, quit: bool) -> bool {
    match spec_normalize_key(key) {
        KeyInput::Enter => {
            if pre.command_input@ == "q"@ || pre.command_input@ == "quit"@ {
                quit && post == pre
            } else {
                !quit && executes_command(pre, post)
            }
        },
        KeyInput::Char(c) => !quit && post == (App {
            command_input: post.command_input,
            ..pre
        }) && post.command_input@ == pre.command_input@.push(c),
        KeyInput::Backspace => !quit && post == (App { command_input: post.command_input, ..pre })
            && post.command_input@ == (if pre.command_input@.len() == 0 {
            Seq::<char>::empty()
        } else {
            pre.command_input@.drop_last()
        }),
        KeyInput::Esc => !quit && post == (App {
            mode: Mode::Normal,
            command_input: post.command_input,
            ..pre
        }) && post.command_input@ == Seq::<char>::empty(),
        _ => !quit && post == pre,
    }
}

/// What one key does, depending on the mode.
pub open spec fn handles_key(pre: App, key: KeyInput, post: App, quit: bool) -> bool {
    match pre.mode {
        Mode::Normal => handles_normal_key(pre, key, post, quit),
        Mode::Command => handles_command_key(pre, key, post, quit),
    }
}

/// What folding one drained message into the state does: a snapshot fully
/// replaces the package list and resets the view; the secondary snapshot
/// replaces the repository list; a fetch failure becomes the status line;
/// install progress is appended to the log, an install error becomes the
/// status line, and `SandboxReady` records the installation — the sandbox
/// records change exactly as `apply_to_sandboxes` says.
pub open spec fn applies_message(pre: App, post: App, msg: BusMessage) -> bool {
    match msg {
        BusMessage::PrimarySnapshot(v) => {
            &&& post == (App {
                all_crates: post.all_crates,
                filtered: post.filtered,
                selected: Some(0usize),
                status_message: post.status_message,
                ..pre
            })
            &&& post.all_crates@ == v@
            &&& post.filtered@ == spec_identity_indices(v@.len() as int)
            &&& post.status_message@ == "Loaded "@ + dec_str(v@.len() as int) + " crates"@
        },
        BusMessage::SecondarySnapshot(v) => {
            &&& post == (App { repos: post.repos, ..pre })
            &&& post.repos@ == v@
        },
        BusMessage::FetchFailed(e) => {
            &&& post == (App { status_message: post.status_message, ..pre })
            &&& post.status_message@ == e@
        },
        BusMessage::Install(p) => {
            &&& post == (App {
                progress: post.progress,
                status_message: post.status_message,
                sandboxes: post.sandboxes,
                ..pre
            })
            &&& post.progress@ == pre.progress@.push(p)
            &&& post.sandboxes.entries@ == apply_to_sandboxes(pre.sandboxes.entries@, p)
            &&& match p {
                ProgressMessage::Error(e) => post.status_message@ == e@,
                ProgressMessage::SandboxReady(inst) => post.status_message@ == "Installed "@
                    + inst.identity@,
                _ => post.status_message == pre.status_message,
            }
        },
    }
}

/// A copy of a progress message, field for field.
fn clone_progress(p: &ProgressMessage) -> (r: ProgressMessage)
    ensures
        r == *p,
{
    match p {
        ProgressMessage::Starting => ProgressMessage::Starting,
        ProgressMessage::Downloading(n) => ProgressMessage::Downloading(*n),
        ProgressMessage::Compiling(n) => ProgressMessage::Compiling(*n),
        ProgressMessage::Finished => ProgressMessage::Finished,
        ProgressMessage::Error(e) => ProgressMessage::Error(e.clone()),
        ProgressMessage::SandboxReady(inst) => ProgressMessage::SandboxReady(
            SandboxInstallation {
                identity: inst.identity.clone(),
                root: inst.root.clone(),
                tool_home: inst.tool_home.clone(),
                binary_path: inst.binary_path.clone(),
            },
        ),
    }
}

/// The numeric argument of a list command, executable form.
fn limit_arg(toks: &Vec<Vec<char>>) -> (r: usize)
    ensures
        r as int == spec_limit_arg(views_of(toks@)),
{
    if toks.len() > 1 {
        match parse_usize(&toks[1]) {
            Some(l) => l,
            None => 10,
        }
    } else {
        10
    }
}

impl App {
    /// Every filter index points at a record, and the sandbox records are
    /// uniquely keyed.
    pub open spec fn wf(self) -> bool {
        &&& forall|i: int|
            0 <= i < self.filtered@.len() ==> (#[trigger] self.filtered@[i]) < self.all_crates@.len()
        &&& self.sandboxes.wf()
    }

    /// The state a loaded data set starts in: every record visible in its
    /// original order, the first one selected, normal mode, the list view,
    /// no jobs outstanding and no sandboxes on record.
    pub fn new(data: CratesData) -> (app: App)
        ensures
            app.all_crates@ == data.crates@,
            app.filtered@ == crate::query::spec_identity_indices(data.crates@.len() as int),
            app.metadata == data.metadata,
            app.selected == Some(0usize),
            app.mode == Mode::Normal,
            app.view == Pane::List,
            app.command_input@ == Seq::<char>::empty(),
            app.last_search@ == Seq::<char>::empty(),
            app.status_message@ == spec_new_status(data.metadata),
            app.repos@ == Seq::<RepoRecord>::empty(),
            app.progress@ == Seq::<ProgressMessage>::empty(),
            app.slots == (JobSlots { fetch_primary: false, fetch_secondary: false, install: false }),
            app.sandboxes.entries@ == Seq::<crate::types::SandboxInstallation>::empty(),
            app.wf(),
    {
        let CratesData { metadata, crates } = data;
        let n = crates.len();
        let filtered = crate::query::identity_indices(n);
        let mut status = String::new();
        let total_s = u64_to_string(metadata.total_crates as u64);
        let core_s = u64_to_string(metadata.core_libraries as u64);
        let community_s = u64_to_string(metadata.community_packages as u64);
        status.append(total_s.as_str());
        status.append(" crates | ");
        status.append(core_s.as_str());
        status.append(" core | ");
        status.append(community_s.as_str());
        status.append(" community | Press TAB for stats, ? for help, : for commands");
        proof {
            assert(status@ =~= spec_new_status(metadata));
        }
        let app = App {
            all_crates: crates,
            filtered,
            metadata,
            selected: Some(0),
            mode: Mode::Normal,
            view: Pane::List,
            command_input: String::new(),
            status_message: status,
            last_search: String::new(),
            repos: Vec::new(),
            progress: Vec::new(),
            slots: JobSlots::new(),
            sandboxes: SandboxSet::new(),
        };
        proof {
            assert(app.repos@ =~= Seq::<RepoRecord>::empty());
            assert(app.progress@ =~= Seq::<ProgressMessage>::empty());
        }
        app
    }

    /// The record the selection points at, if it points at one.
    pub fn selected_crate(&self) -> (r: Option<&CratePackage>)
        requires
            self.wf(),
        ensures
            match self.selected {
                Some(i) => {
                    if (i as int) < self.filtered@.len() {
                        r matches Some(c) && *c == self.all_crates@[self.filtered@[i as int] as int]
                    } else {
                        r is None
                    }
                },
                None => r is None,
            },
    {
        match self.selected {
            Some(i) => {
                if i < self.filtered.len() {
                    Some(&self.all_crates[self.filtered[i]])
                } else {
                    None
                }
            },
            None => None,
        }
    }

    /// Where one step down from the current selection lands: the next
    /// record, wrapping from the last to the first.
    pub open spec fn spec_next_index(self) -> int {
        match self.selected {
            Some(i) => {
                if i >= self.filtered@.len() - 1 {
                    0
                } else {
                    i + 1
                }
            },
            None => 0,
        }
    }

    /// Selects the next record, wrapping at the end.
    pub fn next(&mut self)
        requires
            old(self).filtered@.len() > 0,
        ensures
            final(self).selected matches Some(j) && j as int == old(self).spec_next_index(),
            *final(self) == (App { selected: final(self).selected, ..*old(self) }),
    {
        let i: usize = match self.selected {
            Some(i) => {
                if i >= self.filtered.len() - 1 {
                    0
                } else {
                    i + 1
                }
            },
            None => 0,
        };
        self.selected = Some(i);
    }

    /// Where one step up from the current selection lands: the previous
    /// record, wrapping from the first to the last.
    pub open spec fn spec_previous_index(self) -> int {
        match self.selected {
            Some(i) => {
                if i == 0 {
                    self.filtered@.len() - 1
                } else {
                    i - 1
                }
            },
            None => 0,
        }
    }

    /// Selects the previous record, wrapping at the start.
    pub fn previous(&mut self)
        requires
            old(self).filtered@.len() > 0,
        ensures
            final(self).selected matches Some(j) && j as int == old(self).spec_previous_index(),
            *final(self) == (App { selected: final(self).selected, ..*old(self) }),
    {
        let i: usize = match self.selected {
            Some(i) => {
                if i == 0 {
                    self.filtered.len() - 1
                } else {
                    i - 1
                }
            },
            None => 0,
        };
        self.selected = Some(i);
    }

    /// Where a ten-record jump down lands, stopping at the last record.
    pub open spec fn spec_next_page_index(self) -> int {
        match self.selected {
            Some(i) => {
                if i + 10 >= self.filtered@.len() {
                    self.filtered@.len() - 1
                } else {
                    i + 10
                }
            },
            None => 0,
        }
    }

    /// Jumps ten records down, stopping at the last.
    pub fn next_page(&mut self)
        requires
            old(self).filtered@.len() > 0,
        ensures
            final(self).selected matches Some(j) && j as int == old(self).spec_next_page_index(),
            *final(self) == (App { selected: final(self).selected, ..*old(self) }),
    {
        let jump: usize = 10;
        let len = self.filtered.len();
        let i: usize = match self.selected {
            Some(i) => {
                if i >= len || jump >= len - i {
                    len - 1
                } else {
                    i + jump
                }
            },
            None => 0,
        };
        self.selected = Some(i);
    }

    /// Where a ten-record jump up lands, stopping at the first record.
    pub open spec fn spec_previous_page_index(self) -> int {
        match self.selected {
            Some(i) => {
                if i < 10 {
                    0
                } else {
                    i - 10
                }
            },
            None => 0,
        }
    }

    /// Runs the typed command, exactly as `executes_command` says.
    pub fn execute_command(&mut self)
        requires
            old(self).wf(),
        ensures
            final(self).wf(),
            executes_command(*old(self), *final(self)),
    {
        let chars = string_to_chars(self.command_input.as_str());
        let toks = split_ws(&chars);
        let ghost stoks = spec_split_ws(old(self).command_input@);
        if toks.len() == 0 {
            self.mode = Mode::Normal;
            return ;
        }
        let n_all = self.all_crates.len();
        proof {
            assert(stoks[0] == toks@[0]@);
        }
        if chars_eq_str(&toks[0], "q") || chars_eq_str(&toks[0], "quit") {
            // handled by the event loop; only the tail below applies
        } else if chars_eq_str(&toks[0], "core") {
            let filt = filter_core_indices(&self.all_crates);
            let count_s = u64_to_string(filt.len() as u64);
            let mut status = String::from_str("Showing ");
            status.append(count_s.as_str());
            status.append(" core libraries");
            proof {
                assert(status@ =~= "Showing "@ + dec_str(filt@.len() as int)
                    + " core libraries"@);
            }
            self.filtered = filt;
            self.selected = Some(0);
            self.status_message = status;
        } else if chars_eq_str(&toks[0], "all") {
            let filt = identity_indices(n_all);
            let count_s = u64_to_string(n_all as u64);
            let mut status = String::from_str("Showing all ");
            status.append(count_s.as_str());
            status.append(" crates");
            proof {
                assert(status@ =~= "Showing all "@ + dec_str(n_all as int) + " crates"@);
            }
            self.filtered = filt;
            self.selected = Some(0);
            self.status_message = status;
        } else if chars_eq_str(&toks[0], "top") {
            let limit = limit_arg(&toks);
            let mut filt = sort_indices_desc(&self.all_crates, SortKey::Downloads);
            filt.truncate(limit);
            let count_s = u64_to_string(limit as u64);
            let mut status = String::from_str("Showing top ");
            status.append(count_s.as_str());
            status.append(" by downloads");
            proof {
                assert(status@ =~= "Showing top "@ + dec_str(limit as int) + " by downloads"@);
            }
            self.filtered = filt;
            self.selected = Some(0);
            self.status_message = status;
        } else if chars_eq_str(&toks[0], "recent") {
            let limit = limit_arg(&toks);
            let mut filt = sort_indices_desc(&self.all_crates, SortKey::Recent);
            filt.truncate(limit);
            let count_s = u64_to_string(limit as u64);
            let mut status = String::from_str("Showing top ");
            status.append(count_s.as_str());
            status.append(" by weekly downloads");
            proof {
                assert(status@ =~= "Showing top "@ + dec_str(limit as int)
                    + " by weekly downloads"@);
            }
            self.filtered = filt;
            self.selected = Some(0);
            self.status_message = status;
        } else if chars_eq_str(&toks[0], "new") {
            let limit = limit_arg(&toks);
            let mut filt = sort_indices_desc(&self.all_crates, SortKey::Created);
            filt.truncate(limit);
            let count_s = u64_to_string(limit as u64);
            let mut status = String::from_str("Showing ");
            status.append(count_s.as_str());
            status.append(" newest crates");
            proof {
                assert(status@ =~= "Showing "@ + dec_str(limit as int) + " newest crates"@);
            }
            self.filtered = filt;
            self.selected = Some(0);
            self.status_message = status;
        } else if chars_eq_str(&toks[0], "search") || chars_eq_str(&toks[0], "/") {
            if toks.len() > 1 {
                let mut joined: Vec<char> = Vec::new();
                join_space_at(&toks, 1, &mut joined);
                proof {
                    assert(views_of(toks@).skip(1) =~= stoks.skip(1));
                }
                let joined_s = chars_to_string(&joined);
                let lq = lowercase(&joined_s);
                let qchars = string_to_chars(lq.as_str());
                let filt = filter_matching_indices(&self.all_crates, &qchars);
                let count_s = u64_to_string(filt.len() as u64);
                let mut status = String::from_str("Found ");
                status.append(count_s.as_str());
                status.append(" crates matching '");
                status.append(lq.as_str());
                status.append("'");
                proof {
                    assert(status@ =~= "Found "@ + dec_str(filt@.len() as int)
                        + " crates matching '"@ + lower_of(spec_join_space(stoks.skip(1)))
                        + "'"@);
                }
                self.filtered = filt;
                self.selected = Some(0);
                self.status_message = status;
                self.last_search = lq;
            } else {
                self.status_message = String::from_str("Usage: :search <query> or /<query>");
            }
        } else if chars_eq_str(&toks[0], "help") || chars_eq_str(&toks[0], "?") {
            let newpane = if matches!(self.view, Pane::Help) {
                Pane::List
            } else {
                Pane::Help
            };
            self.view = newpane;
            self.status_message = if matches!(newpane, Pane::Help) {
                String::from_str("Showing help - Press ? or TAB to go back")
            } else {
                String::from_str("Help hidden")
            };
        } else {
            let trimmed = trim_chars(&chars);
            let trimmed_s = chars_to_string(&trimmed);
            let lq = lowercase(&trimmed_s);
            let qchars = string_to_chars(lq.as_str());
            let filt = filter_matching_indices(&self.all_crates, &qchars);
            let count_s = u64_to_string(filt.len() as u64);
            let mut status = String::from_str("Found ");
            status.append(count_s.as_str());
            status.append(" crates matching '");
            status.append(lq.as_str());
            status.append("'");
            proof {
                assert(status@ =~= "Found "@ + dec_str(filt@.len() as int)
                    + " crates matching '"@ + lower_of(spec_trim(old(self).command_input@))
                    + "'"@);
            }
            self.filtered = filt;
            self.selected = Some(0);
            self.status_message = status;
            self.last_search = lq;
        }
        self.command_input = String::new();
        self.mode = Mode::Normal;
    }

    /// Folds one drained message into the state, exactly as
    /// `applies_message` says.
    pub fn apply_bus_message(&mut self, msg: BusMessage)
        requires
            old(self).wf(),
        ensures
            final(self).wf(),
            applies_message(*old(self), *final(self), msg),
    {
        match msg {
            BusMessage::PrimarySnapshot(v) => {
                let n = v.len();
                self.all_crates = v;
                self.filtered = identity_indices(n);
                self.selected = Some(0);
                let ns = u64_to_string(n as u64);
                let mut status = String::from_str("Loaded ");
                status.append(ns.as_str());
                status.append(" crates");
                proof {
                    assert(status@ =~= "Loaded "@ + dec_str(n as int) + " crates"@);
                }
                self.status_message = status;
            },
            BusMessage::SecondarySnapshot(v) => {
                self.repos = v;
            },
            BusMessage::FetchFailed(e) => {
                self.status_message = e;
            },
            BusMessage::Install(p) => {
                let logged = clone_progress(&p);
                self.progress.push(logged);
                match p {
                    ProgressMessage::Error(e) => {
                        self.status_message = e;
                    },
                    ProgressMessage::SandboxReady(inst) => {
                        let mut status = String::from_str("Installed ");
                        status.append(inst.identity.as_str());
                        self.status_message = status;
                        if !self.sandboxes.contains(&inst.identity) {
                            self.sandboxes.insert(inst);
                        }
                    },
                    _ => {},
                }
            },
        }
    }

    /// Dispatches one key to the active mode, exactly as `handles_key`
    /// says, and reports whether the loop should quit.
    pub fn handle_key(&mut self, key: KeyInput) -> (quit: bool)
        requires
            old(self).wf(),
        ensures
            final(self).wf(),
            handles_key(*old(self), key, *final(self), quit),
    {
        let k = match key {
            KeyInput::Ctrl(c) => {
                if c == 'd' || c == 'u' {
                    KeyInput::Ctrl(c)
                } else {
                    KeyInput::Char(c)
                }
            },
            _ => key,
        };
        match self.mode {
            Mode::Normal => {
                match k {
                    KeyInput::Char(c) => {
                        if c == 'q' {
                            return true;
                        }
                        if c == 'j' {
                            if self.filtered.len() > 0 {
                                self.next();
                            }
                        } else if c == 'k' {
                            if self.filtered.len() > 0 {
                                self.previous();
                            }
                        } else if c == 'g' {
                            self.selected = Some(0);
                        } else if c == 'G' {
                            let len = self.filtered.len();
                            self.selected = Some(
                                if len == 0 {
                                    0
                                } else {
                                    len - 1
                                },
                            );
                        } else if c == '?' {
                            self.view = if matches!(self.view, Pane::Help) {
                                Pane::List
                            } else {
                                Pane::Help
                            };
                        } else if c == ':' {
                            self.mode = Mode::Command;
                            self.command_input = String::new();
                        } else if c == '/' {
                            self.mode = Mode::Command;
                            self.command_input = String::from_str("search ");
                        }
                    },
                    KeyInput::Down => {
                        if self.filtered.len() > 0 {
                            self.next();
                        }
                    },
                    KeyInput::Up => {
                        if self.filtered.len() > 0 {
                            self.previous();
                        }
                    },
                    KeyInput::Ctrl(c) => {
                        if c == 'd' {
                            if self.filtered.len() > 0 {
                                self.next_page();
                            }
                        } else {
                            self.previous_page();
                        }
                    },
                    KeyInput::Tab => {
                        self.view = match self.view {
                            Pane::List => Pane::Stats,
                            Pane::Stats => Pane::List,
                            Pane::Help => Pane::List,
                        };
                    },
                    _ => {},
                }
                false
            },
            Mode::Command => {
                match k {
                    KeyInput::Enter => {
                        if self.command_input == String::from_str("q") || self.command_input
                            == String::from_str("quit") {
                            return true;
                        }
                        self.execute_command();
                        false
                    },
                    KeyInput::Char(c) => {
                        push_char(&mut self.command_input, c);
                        false
                    },
                    KeyInput::Backspace => {
                        let shortened = drop_last_char(&self.command_input);
                        self.command_input = shortened;
                        false
                    },
                    KeyInput::Esc => {
                        self.mode = Mode::Normal;
                        self.command_input = String::new();
                        false
                    },
                    _ => false,
                }
            },
        }
    }

    /// A fetch request: admitted, occupying the slot, only while no job of
    /// that category is outstanding; rejected with `Busy` otherwise. The
    /// caller starts exactly the one job an `Ok` has admitted.
    pub fn request_fetch(&mut self, cat: JobCategory) -> (r: Result<(), AppError>)
        ensures
            (final(self).slots, r is Ok) == spec_request(old(self).slots, cat),
            *final(self) == (App { slots: final(self).slots, ..*old(self) }),
            old(self).wf() ==> final(self).wf(),
    {
        self.slots.acquire(cat)
    }

    /// An install request: rejected with `AlreadyInstalled` for an identity
    /// whose sandbox is on record, with `Busy` while an install job is
    /// outstanding; otherwise admitted, occupying the install slot. The
    /// caller starts exactly the one job an `Ok` has admitted.
    pub fn request_install(&mut self, identity: &String) -> (r: Result<(), AppError>)
        ensures
            (final(self).slots, r is Ok) == spec_begin_install(
                old(self).slots,
                old(self).sandboxes,
                identity@,
            ),
            *final(self) == (App { slots: final(self).slots, ..*old(self) }),
            old(self).sandboxes.contains_identity(identity@) ==> r == Err::<(), AppError>(
                AppError::AlreadyInstalled,
            ),
            old(self).wf() ==> final(self).wf(),
    {
        begin_install(&mut self.slots, &self.sandboxes, identity)
    }

    /// Jumps ten records up, stopping at the first.
    pub fn previous_page(&mut self)
        ensures
            final(self).selected matches Some(j) && j as int == old(
                self,
            ).spec_previous_page_index(),
            *final(self) == (App { selected: final(self).selected, ..*old(self) }),
    {
        let jump: usize = 10;
        let i: usize = match self.selected {
            Some(i) => {
                if i < jump {
                    0
                } else {
                    i - jump
                }
            },
            None => 0,
        };
        self.selected = Some(i);
    }
}

} // verus!
