//! Home-view action keybindings: a single table from which the dispatcher,
//! the command palette and the help overlay all derive their chords.
//!
//! In strict mode bare lowercase letters are reserved for the typing-guard,
//! so actions move under a modifier: the bare-lowercase (primary) action
//! becomes `Shift`+letter and the `Shift`+letter (secondary) action becomes
//! `Ctrl`+letter.
use vstd::prelude::*;
use crate::text::{
    chars_of, decimal_string, decimal_text, has_prefix, lower, lower_char_exec, lower_chars,
    owned, parse_unsigned, parse_unsigned_chars, push_all, seq_eq, split_chars, split_on,
    starts_with_chars, trim, trim_chars, upper_char, upper_char_exec, lower_char, join_on,
    lemma_split_join, lemma_split_pieces_free, lemma_trim_free, lemma_trim_idempotent,
};

verus! {

/// Logical action. Each variant is dispatched by the home view.
#[derive(Debug, Clone, Copy, PartialEq, Eq, Hash, Structural)]
pub enum ActionId {
    Quit,
    Help,
    ToolPicker,
    SearchStart,
    SearchNext,
    SearchPrev,
    NewSession,
    NewFromSelection,
    NewFromProject,
    AttachTerminal,
    ToggleView,
    SendMessage,
    Stop,
    Delete,
    Rename,
    SetWorktreeName,
    Diff,
    Serve,
    Settings,
    Profiles,
    Projects,
    Restart,
    Update,
    ToggleArchive,
    ToggleFavorite,
    ToggleSnooze,
    /// Toggle the selected session's unread marker.
    ToggleUnread,
    ToggleContainer,
    TogglePreviewInfo,
    SortPicker,
    GroupBy,
    NextWaiting,
    /// Open the plugin manager (palette only; no default chord).
    Plugins,
    /// Pin or unpin the selected project header (project view only).
    ToggleProjectPin,
    /// Open the tips overlay (no global hotkey).
    Tips,
    /// Fork the selected session (palette and context menu only; no chord).
    Fork,
}

/// The key of a key press or chord.
#[derive(Debug, Clone, Copy, PartialEq, Eq, Structural)]
pub enum KeyCode {
    Char(char),
    F(u8),
    /// Any other key (arrows, Enter, ...); no binding uses one.
    Other,
}

/// A single chord. `ctrl` requires the Control modifier; Shift is implicit in
/// the uppercase letter of `code`.
#[derive(Debug, Clone, Copy, PartialEq, Eq, Structural)]
pub struct Chord {
    pub code: KeyCode,
    pub ctrl: bool,
}

/// A key press: its key and whether Control was held.
#[derive(Debug, Clone, Copy, PartialEq, Eq, Structural)]
pub struct KeyPress {
    pub code: KeyCode,
    pub ctrl: bool,
}

/// Contextual guard: a binding only resolves when its context holds.
#[derive(Debug, Clone, Copy, PartialEq, Eq, Structural)]
pub enum Context {
    Always,
    TerminalView,
    AttentionSort,
    SearchActive,
    /// The cursor is on a real (non-synthetic) project header in project view.
    ProjectGroupSelected,
    /// The unread-session feature is enabled.
    UnreadEnabled,
}

/// Help-overlay section.
#[derive(Debug, Clone, Copy, PartialEq, Eq, Structural)]
pub enum HelpSection {
    Actions,
    Attention,
    Views,
    Other,
}

/// Command-palette group.
#[derive(Debug, Clone, Copy, PartialEq, Eq, Structural)]
pub enum PaletteGroup {
    Actions,
    Views,
    Settings,
}

/// View mode of the home screen.
#[derive(Debug, Clone, PartialEq, Eq)]
pub enum ViewMode {
    Structured,
    Terminal,
    /// Previewing a tool session (lazygit, yazi, etc.)
    Tool(String),
}

/// Terminal mode for sandboxed sessions (container vs host).
#[derive(Debug, Clone, Copy, PartialEq, Eq, Structural)]
pub enum TerminalMode {
    Host,
    Container,
}

/// Session list sort order.
#[derive(Debug, Clone, Copy, PartialEq, Eq, Structural)]
pub enum SortOrder {
    Newest,
    LastActivity,
    Attention,
}

#[derive(Clone, Copy)]
pub struct HelpMeta {
    pub section: HelpSection,
    pub desc: &'static str,
}

pub struct PaletteMeta {
    pub title: &'static str,
    pub keywords: Vec<&'static str>,
    pub group: PaletteGroup,
    /// Only included when the `serve` feature is on (just the Serve command).
    pub serve_only: bool,
}

/// The content of a [`PaletteMeta`].
pub struct PaletteSpec {
    pub title: &'static str,
    pub keywords: Seq<&'static str>,
    pub group: PaletteGroup,
    pub serve_only: bool,
}

pub struct Binding {
    pub id: ActionId,
    pub non_strict: Vec<Chord>,
    pub strict: Vec<Chord>,
    pub context: Context,
    pub help: Option<HelpMeta>,
    pub palette: Option<PaletteMeta>,
}

/// The content of a [`Binding`].
pub struct BindingSpec {
    pub id: ActionId,
    pub non_strict: Seq<Chord>,
    pub strict: Seq<Chord>,
    pub context: Context,
    pub help: Option<HelpMeta>,
    pub palette: Option<PaletteSpec>,
}

impl View for Binding {
    type V = BindingSpec;

    open spec fn view(&self) -> BindingSpec {
        BindingSpec {
            id: self.id,
            non_strict: self.non_strict@,
            strict: self.strict@,
            context: self.context,
            help: self.help,
            palette: match self.palette {
                Some(p) => Some(
                    PaletteSpec {
                        title: p.title,
                        keywords: p.keywords@,
                        group: p.group,
                        serve_only: p.serve_only,
                    },
                ),
                None => None,
            },
        }
    }
}

/// Runtime state the guards consult.
pub struct Ctx {
    pub view_mode: ViewMode,
    pub sort_order: SortOrder,
    pub has_search: bool,
    /// True when the cursor sits on a real project header in project view.
    pub project_group_selected: bool,
    /// The unread-session feature is enabled (`session.unread_indicator`).
    pub unread_enabled: bool,
}

/// Number of rows in the binding table.
pub const BINDING_COUNT: usize = 36;

/// Row `i` of the binding table.
pub open spec fn row(i: int) -> BindingSpec {
    if i == 0 {
        BindingSpec {
            id: ActionId::SearchNext,
            non_strict: seq![Chord { code: KeyCode::Char('n'), ctrl: false }],
            strict: seq![Chord { code: KeyCode::Char('n'), ctrl: false }],
            context: Context::SearchActive,
            help: None,
            palette: None,
        }
    } else if i == 1 {
        BindingSpec {
            id: ActionId::SearchPrev,
            non_strict: seq![Chord { code: KeyCode::Char('N'), ctrl: false }],
            strict: seq![Chord { code: KeyCode::Char('N'), ctrl: false }],
            context: Context::SearchActive,
            help: None,
            palette: None,
        }
    } else if i == 2 {
        BindingSpec {
            id: ActionId::ToggleFavorite,
            non_strict: seq![Chord { code: KeyCode::Char('f'), ctrl: false }],
            strict: seq![Chord { code: KeyCode::Char('F'), ctrl: false }],
            context: Context::AttentionSort,
            help: Some(HelpMeta { section: HelpSection::Attention, desc: "Toggle favorite (Attention sort)" }),
            palette: Some(PaletteSpec { title: "Toggle favorite", keywords: seq!["star", "pin", "fav"], group: PaletteGroup::Actions, serve_only: false }),
        }
    } else if i == 3 {
        BindingSpec {
            id: ActionId::ToggleSnooze,
            non_strict: seq![Chord { code: KeyCode::Char('h'), ctrl: false }],
            strict: seq![Chord { code: KeyCode::Char('H'), ctrl: false }],
            context: Context::AttentionSort,
            help: Some(HelpMeta { section: HelpSection::Attention, desc: "Snooze (toggle, Attention sort)" }),
            palette: Some(PaletteSpec { title: "Toggle snooze", keywords: seq!["later", "defer", "wait"], group: PaletteGroup::Actions, serve_only: false }),
        }
    } else if i == 4 {
        BindingSpec {
            id: ActionId::ToggleContainer,
            non_strict: seq![Chord { code: KeyCode::Char('c'), ctrl: false }],
            strict: seq![Chord { code: KeyCode::Char('C'), ctrl: false }],
            context: Context::TerminalView,
            help: Some(HelpMeta { section: HelpSection::Views, desc: "Toggle container/host (sandbox)" }),
            palette: None,
        }
    } else if i == 5 {
        BindingSpec {
            id: ActionId::Quit,
            non_strict: seq![Chord { code: KeyCode::Char('q'), ctrl: false }],
            strict: seq![Chord { code: KeyCode::Char('q'), ctrl: false }],
            context: Context::Always,
            help: Some(HelpMeta { section: HelpSection::Other, desc: "Quit" }),
            palette: None,
        }
    } else if i == 6 {
        BindingSpec {
            id: ActionId::Help,
            non_strict: seq![Chord { code: KeyCode::Char('?'), ctrl: false }],
            strict: seq![Chord { code: KeyCode::Char('?'), ctrl: false }],
            context: Context::Always,
            help: Some(HelpMeta { section: HelpSection::Other, desc: "Toggle help" }),
            palette: Some(PaletteSpec { title: "Show keyboard shortcuts", keywords: seq!["keys", "shortcuts"], group: PaletteGroup::Settings, serve_only: false }),
        }
    } else if i == 7 {
        BindingSpec {
            id: ActionId::ToolPicker,
            non_strict: seq![Chord { code: KeyCode::Char(';'), ctrl: false }],
            strict: seq![Chord { code: KeyCode::Char(';'), ctrl: false }],
            context: Context::Always,
            help: Some(HelpMeta { section: HelpSection::Actions, desc: "Open tool session" }),
            palette: None,
        }
    } else if i == 8 {
        BindingSpec {
            id: ActionId::SearchStart,
            non_strict: seq![Chord { code: KeyCode::Char('/'), ctrl: false }],
            strict: seq![Chord { code: KeyCode::Char('/'), ctrl: false }],
            context: Context::Always,
            help: Some(HelpMeta { section: HelpSection::Other, desc: "Search" }),
            palette: None,
        }
    } else if i == 9 {
        BindingSpec {
            id: ActionId::NewSession,
            non_strict: seq![Chord { code: KeyCode::Char('n'), ctrl: false }],
            strict: seq![Chord { code: KeyCode::Char('N'), ctrl: false }],
            context: Context::Always,
            help: Some(HelpMeta { section: HelpSection::Actions, desc: "New session" }),
            palette: Some(PaletteSpec { title: "New session", keywords: seq!["create", "add", "spawn"], group: PaletteGroup::Actions, serve_only: false }),
        }
    } else if i == 10 {
        BindingSpec {
            id: ActionId::NewFromSelection,
            non_strict: seq![Chord { code: KeyCode::Char('N'), ctrl: false }],
            strict: seq![Chord { code: KeyCode::Char('n'), ctrl: true }],
            context: Context::Always,
            help: Some(HelpMeta { section: HelpSection::Actions, desc: "New from selection" }),
            palette: Some(PaletteSpec { title: "New session from selection", keywords: seq!["create", "duplicate", "clone"], group: PaletteGroup::Actions, serve_only: false }),
        }
    } else if i == 11 {
        BindingSpec {
            id: ActionId::NewFromProject,
            non_strict: seq![Chord { code: KeyCode::Char('b'), ctrl: false }],
            strict: seq![Chord { code: KeyCode::Char('B'), ctrl: false }],
            context: Context::Always,
            help: Some(HelpMeta { section: HelpSection::Actions, desc: "New session from project" }),
            palette: Some(PaletteSpec { title: "New session from saved project", keywords: seq!["project", "saved", "registry", "create"], group: PaletteGroup::Actions, serve_only: false }),
        }
    } else if i == 12 {
        BindingSpec {
            id: ActionId::AttachTerminal,
            non_strict: seq![Chord { code: KeyCode::Char('T'), ctrl: false }],
            strict: seq![Chord { code: KeyCode::Char('t'), ctrl: true }],
            context: Context::Always,
            help: Some(HelpMeta { section: HelpSection::Actions, desc: "Attach to terminal" }),
            palette: Some(PaletteSpec { title: "Attach to paired terminal", keywords: seq!["shell", "host"], group: PaletteGroup::Actions, serve_only: false }),
        }
    } else if i == 13 {
        BindingSpec {
            id: ActionId::ToggleView,
            non_strict: seq![Chord { code: KeyCode::Char('t'), ctrl: false }],
            strict: seq![Chord { code: KeyCode::Char('T'), ctrl: false }],
            context: Context::Always,
            help: Some(HelpMeta { section: HelpSection::Views, desc: "Toggle Agent/Terminal view" }),
            palette: Some(PaletteSpec { title: "Toggle Agent / Terminal view", keywords: seq!["switch", "shell"], group: PaletteGroup::Views, serve_only: false }),
        }
    } else if i == 14 {
        BindingSpec {
            id: ActionId::SendMessage,
            non_strict: seq![Chord { code: KeyCode::Char('m'), ctrl: false }],
            strict: seq![Chord { code: KeyCode::Char('M'), ctrl: false }],
            context: Context::Always,
            help: Some(HelpMeta { section: HelpSection::Actions, desc: "Send message to agent" }),
            palette: Some(PaletteSpec { title: "Send message to agent", keywords: seq!["prompt", "tell", "say"], group: PaletteGroup::Actions, serve_only: false }),
        }
    } else if i == 15 {
        BindingSpec {
            id: ActionId::Stop,
            non_strict: seq![Chord { code: KeyCode::Char('x'), ctrl: false }],
            strict: seq![Chord { code: KeyCode::Char('X'), ctrl: false }],
            context: Context::Always,
            help: Some(HelpMeta { section: HelpSection::Actions, desc: "Stop session" }),
            palette: Some(PaletteSpec { title: "Stop session", keywords: seq!["kill", "end", "halt"], group: PaletteGroup::Actions, serve_only: false }),
        }
    } else if i == 16 {
        BindingSpec {
            id: ActionId::Delete,
            non_strict: seq![Chord { code: KeyCode::Char('d'), ctrl: false }],
            strict: seq![Chord { code: KeyCode::Char('D'), ctrl: false }],
            context: Context::Always,
            help: Some(HelpMeta { section: HelpSection::Actions, desc: "Delete session/group" }),
            palette: Some(PaletteSpec { title: "Delete session or group", keywords: seq!["remove", "trash"], group: PaletteGroup::Actions, serve_only: false }),
        }
    } else if i == 17 {
        BindingSpec {
            id: ActionId::Rename,
            non_strict: seq![Chord { code: KeyCode::Char('r'), ctrl: false }],
            strict: seq![Chord { code: KeyCode::Char('R'), ctrl: false }],
            context: Context::Always,
            help: Some(HelpMeta { section: HelpSection::Actions, desc: "Rename session/group" }),
            palette: Some(PaletteSpec { title: "Rename or move to group", keywords: seq!["title", "label", "move", "regroup"], group: PaletteGroup::Actions, serve_only: false }),
        }
    } else if i == 18 {
        BindingSpec {
            id: ActionId::SetWorktreeName,
            non_strict: seq![Chord { code: KeyCode::Char('W'), ctrl: false }],
            strict: seq![Chord { code: KeyCode::Char('w'), ctrl: true }],
            context: Context::Always,
            help: Some(HelpMeta { section: HelpSection::Actions, desc: "Edit worktree workdir name" }),
            palette: Some(PaletteSpec { title: "Edit worktree workdir name", keywords: seq!["worktree", "workdir", "directory", "branch", "rename"], group: PaletteGroup::Actions, serve_only: false }),
        }
    } else if i == 19 {
        BindingSpec {
            id: ActionId::Diff,
            non_strict: seq![Chord { code: KeyCode::Char('D'), ctrl: false }],
            strict: seq![Chord { code: KeyCode::Char('d'), ctrl: true }],
            context: Context::Always,
            help: Some(HelpMeta { section: HelpSection::Views, desc: "Diff view (git changes)" }),
            palette: Some(PaletteSpec { title: "Open diff view", keywords: seq!["git", "changes"], group: PaletteGroup::Views, serve_only: false }),
        }
    } else if i == 20 {
        BindingSpec {
            id: ActionId::Serve,
            non_strict: seq![Chord { code: KeyCode::Char('R'), ctrl: false }],
            strict: seq![Chord { code: KeyCode::Char('r'), ctrl: true }],
            context: Context::Always,
            help: Some(HelpMeta { section: HelpSection::Other, desc: "Serve (LAN / Tunnel)" }),
            palette: Some(PaletteSpec { title: "Open serve (LAN / Tunnel)", keywords: seq!["web", "remote", "phone", "tunnel"], group: PaletteGroup::Settings, serve_only: true }),
        }
    } else if i == 21 {
        BindingSpec {
            id: ActionId::Settings,
            non_strict: seq![Chord { code: KeyCode::Char('s'), ctrl: false }],
            strict: seq![Chord { code: KeyCode::Char('S'), ctrl: false }],
            context: Context::Always,
            help: Some(HelpMeta { section: HelpSection::Other, desc: "Settings" }),
            palette: Some(PaletteSpec { title: "Open settings", keywords: seq!["preferences", "config"], group: PaletteGroup::Settings, serve_only: false }),
        }
    } else if i == 22 {
        BindingSpec {
            id: ActionId::ToggleProjectPin,
            non_strict: seq![Chord { code: KeyCode::Char('p'), ctrl: false }],
            strict: seq![Chord { code: KeyCode::Char('P'), ctrl: false }],
            context: Context::ProjectGroupSelected,
            help: Some(HelpMeta { section: HelpSection::Actions, desc: "Pin/unpin project (keep without sessions)" }),
            palette: None,
        }
    } else if i == 23 {
        BindingSpec {
            id: ActionId::Projects,
            non_strict: seq![Chord { code: KeyCode::Char('p'), ctrl: false }],
            strict: seq![Chord { code: KeyCode::Char('P'), ctrl: false }],
            context: Context::Always,
            help: Some(HelpMeta { section: HelpSection::Other, desc: "Projects" }),
            palette: Some(PaletteSpec { title: "Manage projects", keywords: seq!["registry", "repos", "multi-repo", "workspace"], group: PaletteGroup::Settings, serve_only: false }),
        }
    } else if i == 24 {
        BindingSpec {
            id: ActionId::Profiles,
            non_strict: seq![Chord { code: KeyCode::Char('P'), ctrl: false }],
            strict: seq![Chord { code: KeyCode::Char('p'), ctrl: true }],
            context: Context::Always,
            help: Some(HelpMeta { section: HelpSection::Other, desc: "Profiles" }),
            palette: Some(PaletteSpec { title: "Switch profile", keywords: seq!["account", "switch"], group: PaletteGroup::Settings, serve_only: false }),
        }
    } else if i == 25 {
        BindingSpec {
            id: ActionId::Restart,
            non_strict: seq![Chord { code: KeyCode::Char('e'), ctrl: false }, Chord { code: KeyCode::F(5u8), ctrl: false }],
            strict: seq![Chord { code: KeyCode::Char('E'), ctrl: false }, Chord { code: KeyCode::F(5u8), ctrl: false }],
            context: Context::Always,
            help: Some(HelpMeta { section: HelpSection::Actions, desc: "Restart session (also F5)" }),
            palette: Some(PaletteSpec { title: "Restart session", keywords: seq!["reload", "respawn", "reset"], group: PaletteGroup::Actions, serve_only: false }),
        }
    } else if i == 26 {
        BindingSpec {
            id: ActionId::ToggleUnread,
            non_strict: seq![Chord { code: KeyCode::Char('U'), ctrl: false }],
            strict: seq![Chord { code: KeyCode::Char('U'), ctrl: false }],
            context: Context::UnreadEnabled,
            help: Some(HelpMeta { section: HelpSection::Actions, desc: "Mark read/unread (toggle)" }),
            palette: Some(PaletteSpec { title: "Toggle read/unread", keywords: seq!["read", "unread", "seen", "flag", "viewed"], group: PaletteGroup::Actions, serve_only: false }),
        }
    } else if i == 27 {
        BindingSpec {
            id: ActionId::Update,
            non_strict: seq![Chord { code: KeyCode::Char('u'), ctrl: false }],
            strict: seq![Chord { code: KeyCode::Char('u'), ctrl: true }],
            context: Context::Always,
            help: Some(HelpMeta { section: HelpSection::Other, desc: "Update BOA (when available)" }),
            palette: None,
        }
    } else if i == 28 {
        BindingSpec {
            id: ActionId::ToggleArchive,
            non_strict: seq![Chord { code: KeyCode::Char('z'), ctrl: false }],
            strict: seq![Chord { code: KeyCode::Char('Z'), ctrl: false }],
            context: Context::Always,
            help: Some(HelpMeta { section: HelpSection::Attention, desc: "Archive (toggle, any sort)" }),
            palette: Some(PaletteSpec { title: "Toggle archive", keywords: seq!["park", "stash", "done", "zzz"], group: PaletteGroup::Actions, serve_only: false }),
        }
    } else if i == 29 {
        BindingSpec {
            id: ActionId::TogglePreviewInfo,
            non_strict: seq![Chord { code: KeyCode::Char('i'), ctrl: false }],
            strict: seq![Chord { code: KeyCode::Char('I'), ctrl: false }],
            context: Context::Always,
            help: Some(HelpMeta { section: HelpSection::Views, desc: "Toggle preview info header" }),
            palette: Some(PaletteSpec { title: "Toggle preview info header", keywords: seq!["hide", "show", "info", "header", "preview"], group: PaletteGroup::Views, serve_only: false }),
        }
    } else if i == 30 {
        BindingSpec {
            id: ActionId::SortPicker,
            non_strict: seq![Chord { code: KeyCode::Char('o'), ctrl: false }, Chord { code: KeyCode::Char('O'), ctrl: false }, Chord { code: KeyCode::Char('o'), ctrl: true }],
            strict: seq![Chord { code: KeyCode::Char('O'), ctrl: false }, Chord { code: KeyCode::Char('o'), ctrl: true }],
            context: Context::Always,
            help: Some(HelpMeta { section: HelpSection::Views, desc: "Sort order" }),
            palette: Some(PaletteSpec { title: "Sort order", keywords: seq!["order", "sort", "pick"], group: PaletteGroup::Views, serve_only: false }),
        }
    } else if i == 31 {
        BindingSpec {
            id: ActionId::GroupBy,
            non_strict: seq![Chord { code: KeyCode::Char('g'), ctrl: false }],
            strict: seq![Chord { code: KeyCode::Char('g'), ctrl: true }],
            context: Context::Always,
            help: Some(HelpMeta { section: HelpSection::Views, desc: "Group by" }),
            palette: Some(PaletteSpec { title: "Group by", keywords: seq!["group", "project", "pick"], group: PaletteGroup::Views, serve_only: false }),
        }
    } else if i == 32 {
        BindingSpec {
            id: ActionId::NextWaiting,
            non_strict: seq![Chord { code: KeyCode::Char('w'), ctrl: false }],
            strict: seq![],
            context: Context::Always,
            help: Some(HelpMeta { section: HelpSection::Attention, desc: "Jump to next waiting/idle" }),
            palette: Some(PaletteSpec { title: "Jump to next waiting / idle session", keywords: seq!["jump", "next", "waiting", "idle"], group: PaletteGroup::Views, serve_only: false }),
        }
    } else if i == 33 {
        BindingSpec {
            id: ActionId::Tips,
            non_strict: seq![],
            strict: seq![],
            context: Context::Always,
            help: None,
            palette: Some(PaletteSpec { title: "Show tips", keywords: seq!["tips", "hints", "learn", "discover", "did you know"], group: PaletteGroup::Settings, serve_only: false }),
        }
    } else if i == 34 {
        BindingSpec {
            id: ActionId::Plugins,
            non_strict: seq![],
            strict: seq![],
            context: Context::Always,
            help: None,
            palette: Some(PaletteSpec { title: "Manage plugins", keywords: seq!["plugin", "extension", "enable", "disable"], group: PaletteGroup::Settings, serve_only: false }),
        }
    } else {
        BindingSpec {
            id: ActionId::Fork,
            non_strict: seq![],
            strict: seq![],
            context: Context::Always,
            help: None,
            palette: Some(PaletteSpec { title: "Fork session (resume context, diverge)", keywords: seq!["fork", "branch", "duplicate", "clone", "context", "resume"], group: PaletteGroup::Actions, serve_only: false }),
        }
    }
}

/// Row `i` of the binding table. Order matters: context-guarded rows that
/// share a chord with an unguarded one come first, so they win while their
/// guard holds.
pub fn binding_row(i: usize) -> (b: Binding)
    requires
        i < BINDING_COUNT,
    ensures
        b@ == row(i as int),
{
    let b = 
if i == 0 {
        Binding {
            id: ActionId::SearchNext,
            non_strict: vec![Chord { code: KeyCode::Char('n'), ctrl: false }],
            strict: vec![Chord { code: KeyCode::Char('n'), ctrl: false }],
            context: Context::SearchActive,
            help: None,
            palette: None,
        }
    } else if i == 1 {
        Binding {
            id: ActionId::SearchPrev,
            non_strict: vec![Chord { code: KeyCode::Char('N'), ctrl: false }],
            strict: vec![Chord { code: KeyCode::Char('N'), ctrl: false }],
            context: Context::SearchActive,
            help: None,
            palette: None,
        }
    } else if i == 2 {
        Binding {
            id: ActionId::ToggleFavorite,
            non_strict: vec![Chord { code: KeyCode::Char('f'), ctrl: false }],
            strict: vec![Chord { code: KeyCode::Char('F'), ctrl: false }],
            context: Context::AttentionSort,
            help: Some(HelpMeta { section: HelpSection::Attention, desc: "Toggle favorite (Attention sort)" }),
            palette: Some(PaletteMeta { title: "Toggle favorite", keywords: vec!["star", "pin", "fav"], group: PaletteGroup::Actions, serve_only: false }),
        }
    } else if i == 3 {
        Binding {
            id: ActionId::ToggleSnooze,
            non_strict: vec![Chord { code: KeyCode::Char('h'), ctrl: false }],
            strict: vec![Chord { code: KeyCode::Char('H'), ctrl: false }],
            context: Context::AttentionSort,
            help: Some(HelpMeta { section: HelpSection::Attention, desc: "Snooze (toggle, Attention sort)" }),
            palette: Some(PaletteMeta { title: "Toggle snooze", keywords: vec!["later", "defer", "wait"], group: PaletteGroup::Actions, serve_only: false }),
        }
    } else if i == 4 {
        Binding {
            id: ActionId::ToggleContainer,
            non_strict: vec![Chord { code: KeyCode::Char('c'), ctrl: false }],
            strict: vec![Chord { code: KeyCode::Char('C'), ctrl: false }],
            context: Context::TerminalView,
            help: Some(HelpMeta { section: HelpSection::Views, desc: "Toggle container/host (sandbox)" }),
            palette: None,
        }
    } else if i == 5 {
        Binding {
            id: ActionId::Quit,
            non_strict: vec![Chord { code: KeyCode::Char('q'), ctrl: false }],
            strict: vec![Chord { code: KeyCode::Char('q'), ctrl: false }],
            context: Context::Always,
            help: Some(HelpMeta { section: HelpSection::Other, desc: "Quit" }),
            palette: None,
        }
    } else if i == 6 {
        Binding {
            id: ActionId::Help,
            non_strict: vec![Chord { code: KeyCode::Char('?'), ctrl: false }],
            strict: vec![Chord { code: KeyCode::Char('?'), ctrl: false }],
            context: Context::Always,
            help: Some(HelpMeta { section: HelpSection::Other, desc: "Toggle help" }),
            palette: Some(PaletteMeta { title: "Show keyboard shortcuts", keywords: vec!["keys", "shortcuts"], group: PaletteGroup::Settings, serve_only: false }),
        }
    } else if i == 7 {
        Binding {
            id: ActionId::ToolPicker,
            non_strict: vec![Chord { code: KeyCode::Char(';'), ctrl: false }],
            strict: vec![Chord { code: KeyCode::Char(';'), ctrl: false }],
            context: Context::Always,
            help: Some(HelpMeta { section: HelpSection::Actions, desc: "Open tool session" }),
            palette: None,
        }
    } else if i == 8 {
        Binding {
            id: ActionId::SearchStart,
            non_strict: vec![Chord { code: KeyCode::Char('/'), ctrl: false }],
            strict: vec![Chord { code: KeyCode::Char('/'), ctrl: false }],
            context: Context::Always,
            help: Some(HelpMeta { section: HelpSection::Other, desc: "Search" }),
            palette: None,
        }
    } else if i == 9 {
        Binding {
            id: ActionId::NewSession,
            non_strict: vec![Chord { code: KeyCode::Char('n'), ctrl: false }],
            strict: vec![Chord { code: KeyCode::Char('N'), ctrl: false }],
            context: Context::Always,
            help: Some(HelpMeta { section: HelpSection::Actions, desc: "New session" }),
            palette: Some(PaletteMeta { title: "New session", keywords: vec!["create", "add", "spawn"], group: PaletteGroup::Actions, serve_only: false }),
        }
    } else if i == 10 {
        Binding {
            id: ActionId::NewFromSelection,
            non_strict: vec![Chord { code: KeyCode::Char('N'), ctrl: false }],
            strict: vec![Chord { code: KeyCode::Char('n'), ctrl: true }],
            context: Context::Always,
            help: Some(HelpMeta { section: HelpSection::Actions, desc: "New from selection" }),
            palette: Some(PaletteMeta { title: "New session from selection", keywords: vec!["create", "duplicate", "clone"], group: PaletteGroup::Actions, serve_only: false }),
        }
    } else if i == 11 {
        Binding {
            id: ActionId::NewFromProject,
            non_strict: vec![Chord { code: KeyCode::Char('b'), ctrl: false }],
            strict: vec![Chord { code: KeyCode::Char('B'), ctrl: false }],
            context: Context::Always,
            help: Some(HelpMeta { section: HelpSection::Actions, desc: "New session from project" }),
            palette: Some(PaletteMeta { title: "New session from saved project", keywords: vec!["project", "saved", "registry", "create"], group: PaletteGroup::Actions, serve_only: false }),
        }
    } else if i == 12 {
        Binding {
            id: ActionId::AttachTerminal,
            non_strict: vec![Chord { code: KeyCode::Char('T'), ctrl: false }],
            strict: vec![Chord { code: KeyCode::Char('t'), ctrl: true }],
            context: Context::Always,
            help: Some(HelpMeta { section: HelpSection::Actions, desc: "Attach to terminal" }),
            palette: Some(PaletteMeta { title: "Attach to paired terminal", keywords: vec!["shell", "host"], group: PaletteGroup::Actions, serve_only: false }),
        }
    } else if i == 13 {
        Binding {
            id: ActionId::ToggleView,
            non_strict: vec![Chord { code: KeyCode::Char('t'), ctrl: false }],
            strict: vec![Chord { code: KeyCode::Char('T'), ctrl: false }],
            context: Context::Always,
            help: Some(HelpMeta { section: HelpSection::Views, desc: "Toggle Agent/Terminal view" }),
            palette: Some(PaletteMeta { title: "Toggle Agent / Terminal view", keywords: vec!["switch", "shell"], group: PaletteGroup::Views, serve_only: false }),
        }
    } else if i == 14 {
        Binding {
            id: ActionId::SendMessage,
            non_strict: vec![Chord { code: KeyCode::Char('m'), ctrl: false }],
            strict: vec![Chord { code: KeyCode::Char('M'), ctrl: false }],
            context: Context::Always,
            help: Some(HelpMeta { section: HelpSection::Actions, desc: "Send message to agent" }),
            palette: Some(PaletteMeta { title: "Send message to agent", keywords: vec!["prompt", "tell", "say"], group: PaletteGroup::Actions, serve_only: false }),
        }
    } else if i == 15 {
        Binding {
            id: ActionId::Stop,
            non_strict: vec![Chord { code: KeyCode::Char('x'), ctrl: false }],
            strict: vec![Chord { code: KeyCode::Char('X'), ctrl: false }],
            context: Context::Always,
            help: Some(HelpMeta { section: HelpSection::Actions, desc: "Stop session" }),
            palette: Some(PaletteMeta { title: "Stop session", keywords: vec!["kill", "end", "halt"], group: PaletteGroup::Actions, serve_only: false }),
        }
    } else if i == 16 {
        Binding {
            id: ActionId::Delete,
            non_strict: vec![Chord { code: KeyCode::Char('d'), ctrl: false }],
            strict: vec![Chord { code: KeyCode::Char('D'), ctrl: false }],
            context: Context::Always,
            help: Some(HelpMeta { section: HelpSection::Actions, desc: "Delete session/group" }),
            palette: Some(PaletteMeta { title: "Delete session or group", keywords: vec!["remove", "trash"], group: PaletteGroup::Actions, serve_only: false }),
        }
    } else if i == 17 {
        Binding {
            id: ActionId::Rename,
            non_strict: vec![Chord { code: KeyCode::Char('r'), ctrl: false }],
            strict: vec![Chord { code: KeyCode::Char('R'), ctrl: false }],
            context: Context::Always,
            help: Some(HelpMeta { section: HelpSection::Actions, desc: "Rename session/group" }),
            palette: Some(PaletteMeta { title: "Rename or move to group", keywords: vec!["title", "label", "move", "regroup"], group: PaletteGroup::Actions, serve_only: false }),
        }
    } else if i == 18 {
        Binding {
            id: ActionId::SetWorktreeName,
            non_strict: vec![Chord { code: KeyCode::Char('W'), ctrl: false }],
            strict: vec![Chord { code: KeyCode::Char('w'), ctrl: true }],
            context: Context::Always,
            help: Some(HelpMeta { section: HelpSection::Actions, desc: "Edit worktree workdir name" }),
            palette: Some(PaletteMeta { title: "Edit worktree workdir name", keywords: vec!["worktree", "workdir", "directory", "branch", "rename"], group: PaletteGroup::Actions, serve_only: false }),
        }
    } else if i == 19 {
        Binding {
            id: ActionId::Diff,
            non_strict: vec![Chord { code: KeyCode::Char('D'), ctrl: false }],
            strict: vec![Chord { code: KeyCode::Char('d'), ctrl: true }],
            context: Context::Always,
            help: Some(HelpMeta { section: HelpSection::Views, desc: "Diff view (git changes)" }),
            palette: Some(PaletteMeta { title: "Open diff view", keywords: vec!["git", "changes"], group: PaletteGroup::Views, serve_only: false }),
        }
    } else if i == 20 {
        Binding {
            id: ActionId::Serve,
            non_strict: vec![Chord { code: KeyCode::Char('R'), ctrl: false }],
            strict: vec![Chord { code: KeyCode::Char('r'), ctrl: true }],
            context: Context::Always,
            help: Some(HelpMeta { section: HelpSection::Other, desc: "Serve (LAN / Tunnel)" }),
            palette: Some(PaletteMeta { title: "Open serve (LAN / Tunnel)", keywords: vec!["web", "remote", "phone", "tunnel"], group: PaletteGroup::Settings, serve_only: true }),
        }
    } else if i == 21 {
        Binding {
            id: ActionId::Settings,
            non_strict: vec![Chord { code: KeyCode::Char('s'), ctrl: false }],
            strict: vec![Chord { code: KeyCode::Char('S'), ctrl: false }],
            context: Context::Always,
            help: Some(HelpMeta { section: HelpSection::Other, desc: "Settings" }),
            palette: Some(PaletteMeta { title: "Open settings", keywords: vec!["preferences", "config"], group: PaletteGroup::Settings, serve_only: false }),
        }
    } else if i == 22 {
        Binding {
            id: ActionId::ToggleProjectPin,
            non_strict: vec![Chord { code: KeyCode::Char('p'), ctrl: false }],
            strict: vec![Chord { code: KeyCode::Char('P'), ctrl: false }],
            context: Context::ProjectGroupSelected,
            help: Some(HelpMeta { section: HelpSection::Actions, desc: "Pin/unpin project (keep without sessions)" }),
            palette: None,
        }
    } else if i == 23 {
        Binding {
            id: ActionId::Projects,
            non_strict: vec![Chord { code: KeyCode::Char('p'), ctrl: false }],
            strict: vec![Chord { code: KeyCode::Char('P'), ctrl: false }],
            context: Context::Always,
            help: Some(HelpMeta { section: HelpSection::Other, desc: "Projects" }),
            palette: Some(PaletteMeta { title: "Manage projects", keywords: vec!["registry", "repos", "multi-repo", "workspace"], group: PaletteGroup::Settings, serve_only: false }),
        }
    } else if i == 24 {
        Binding {
            id: ActionId::Profiles,
            non_strict: vec![Chord { code: KeyCode::Char('P'), ctrl: false }],
            strict: vec![Chord { code: KeyCode::Char('p'), ctrl: true }],
            context: Context::Always,
            help: Some(HelpMeta { section: HelpSection::Other, desc: "Profiles" }),
            palette: Some(PaletteMeta { title: "Switch profile", keywords: vec!["account", "switch"], group: PaletteGroup::Settings, serve_only: false }),
        }
    } else if i == 25 {
        Binding {
            id: ActionId::Restart,
            non_strict: vec![Chord { code: KeyCode::Char('e'), ctrl: false }, Chord { code: KeyCode::F(5u8), ctrl: false }],
            strict: vec![Chord { code: KeyCode::Char('E'), ctrl: false }, Chord { code: KeyCode::F(5u8), ctrl: false }],
            context: Context::Always,
            help: Some(HelpMeta { section: HelpSection::Actions, desc: "Restart session (also F5)" }),
            palette: Some(PaletteMeta { title: "Restart session", keywords: vec!["reload", "respawn", "reset"], group: PaletteGroup::Actions, serve_only: false }),
        }
    } else if i == 26 {
        Binding {
            id: ActionId::ToggleUnread,
            non_strict: vec![Chord { code: KeyCode::Char('U'), ctrl: false }],
            strict: vec![Chord { code: KeyCode::Char('U'), ctrl: false }],
            context: Context::UnreadEnabled,
            help: Some(HelpMeta { section: HelpSection::Actions, desc: "Mark read/unread (toggle)" }),
            palette: Some(PaletteMeta { title: "Toggle read/unread", keywords: vec!["read", "unread", "seen", "flag", "viewed"], group: PaletteGroup::Actions, serve_only: false }),
        }
    } else if i == 27 {
        Binding {
            id: ActionId::Update,
            non_strict: vec![Chord { code: KeyCode::Char('u'), ctrl: false }],
            strict: vec![Chord { code: KeyCode::Char('u'), ctrl: true }],
            context: Context::Always,
            help: Some(HelpMeta { section: HelpSection::Other, desc: "Update BOA (when available)" }),
            palette: None,
        }
    } else if i == 28 {
        Binding {
            id: ActionId::ToggleArchive,
            non_strict: vec![Chord { code: KeyCode::Char('z'), ctrl: false }],
            strict: vec![Chord { code: KeyCode::Char('Z'), ctrl: false }],
            context: Context::Always,
            help: Some(HelpMeta { section: HelpSection::Attention, desc: "Archive (toggle, any sort)" }),
            palette: Some(PaletteMeta { title: "Toggle archive", keywords: vec!["park", "stash", "done", "zzz"], group: PaletteGroup::Actions, serve_only: false }),
        }
    } else if i == 29 {
        Binding {
            id: ActionId::TogglePreviewInfo,
            non_strict: vec![Chord { code: KeyCode::Char('i'), ctrl: false }],
            strict: vec![Chord { code: KeyCode::Char('I'), ctrl: false }],
            context: Context::Always,
            help: Some(HelpMeta { section: HelpSection::Views, desc: "Toggle preview info header" }),
            palette: Some(PaletteMeta { title: "Toggle preview info header", keywords: vec!["hide", "show", "info", "header", "preview"], group: PaletteGroup::Views, serve_only: false }),
        }
    } else if i == 30 {
        Binding {
            id: ActionId::SortPicker,
            non_strict: vec![Chord { code: KeyCode::Char('o'), ctrl: false }, Chord { code: KeyCode::Char('O'), ctrl: false }, Chord { code: KeyCode::Char('o'), ctrl: true }],
            strict: vec![Chord { code: KeyCode::Char('O'), ctrl: false }, Chord { code: KeyCode::Char('o'), ctrl: true }],
            context: Context::Always,
            help: Some(HelpMeta { section: HelpSection::Views, desc: "Sort order" }),
            palette: Some(PaletteMeta { title: "Sort order", keywords: vec!["order", "sort", "pick"], group: PaletteGroup::Views, serve_only: false }),
        }
    } else if i == 31 {
        Binding {
            id: ActionId::GroupBy,
            non_strict: vec![Chord { code: KeyCode::Char('g'), ctrl: false }],
            strict: vec![Chord { code: KeyCode::Char('g'), ctrl: true }],
            context: Context::Always,
            help: Some(HelpMeta { section: HelpSection::Views, desc: "Group by" }),
            palette: Some(PaletteMeta { title: "Group by", keywords: vec!["group", "project", "pick"], group: PaletteGroup::Views, serve_only: false }),
        }
    } else if i == 32 {
        Binding {
            id: ActionId::NextWaiting,
            non_strict: vec![Chord { code: KeyCode::Char('w'), ctrl: false }],
            strict: vec![],
            context: Context::Always,
            help: Some(HelpMeta { section: HelpSection::Attention, desc: "Jump to next waiting/idle" }),
            palette: Some(PaletteMeta { title: "Jump to next waiting / idle session", keywords: vec!["jump", "next", "waiting", "idle"], group: PaletteGroup::Views, serve_only: false }),
        }
    } else if i == 33 {
        Binding {
            id: ActionId::Tips,
            non_strict: vec![],
            strict: vec![],
            context: Context::Always,
            help: None,
            palette: Some(PaletteMeta { title: "Show tips", keywords: vec!["tips", "hints", "learn", "discover", "did you know"], group: PaletteGroup::Settings, serve_only: false }),
        }
    } else if i == 34 {
        Binding {
            id: ActionId::Plugins,
            non_strict: vec![],
            strict: vec![],
            context: Context::Always,
            help: None,
            palette: Some(PaletteMeta { title: "Manage plugins", keywords: vec!["plugin", "extension", "enable", "disable"], group: PaletteGroup::Settings, serve_only: false }),
        }
    } else {
        Binding {
            id: ActionId::Fork,
            non_strict: vec![],
            strict: vec![],
            context: Context::Always,
            help: None,
            palette: Some(PaletteMeta { title: "Fork session (resume context, diverge)", keywords: vec!["fork", "branch", "duplicate", "clone", "context", "resume"], group: PaletteGroup::Actions, serve_only: false }),
        }
    };
    proof {
        assert(b.non_strict@ =~= row(i as int).non_strict);
        assert(b.strict@ =~= row(i as int).strict);
    }
    b
}
/// The whole binding table, in dispatch order.
pub fn bindings() -> (r: Vec<Binding>)
    ensures
        r@.len() == BINDING_COUNT,
        forall|i: int| 0 <= i < BINDING_COUNT ==> (#[trigger] r@[i])@ == row(i),
{
    let mut r: Vec<Binding> = Vec::new();
    let mut i: usize = 0;
    while i < BINDING_COUNT
        invariant
            i <= BINDING_COUNT,
            r@.len() == i,
            forall|k: int| 0 <= k < i ==> (#[trigger] r@[k])@ == row(k),
        decreases BINDING_COUNT - i,
    {
        r.push(binding_row(i));
        i = i + 1;
    }
    r
}

// ---------------------------------------------------------------------------
// Resolution
// ---------------------------------------------------------------------------
/// A chord fires on a key press: same key, and Control held exactly when the
/// chord requires it.
pub open spec fn chord_fires(c: Chord, key: KeyPress) -> bool {
    c.code == key.code && c.ctrl == key.ctrl
}

/// The chords of a binding in the given mode.
pub open spec fn chords_for(b: BindingSpec, strict: bool) -> Seq<Chord> {
    if strict {
        b.strict
    } else {
        b.non_strict
    }
}

/// Whether a context guard holds.
pub open spec fn context_holds(context: Context, ctx: Ctx) -> bool {
    match context {
        Context::Always => true,
        Context::TerminalView => ctx.view_mode is Terminal,
        Context::AttentionSort => ctx.sort_order == SortOrder::Attention,
        Context::SearchActive => ctx.has_search,
        Context::ProjectGroupSelected => ctx.project_group_selected,
        Context::UnreadEnabled => ctx.unread_enabled,
    }
}

/// Row `i` claims the key press.
pub open spec fn row_fires(i: int, key: KeyPress, strict: bool, ctx: Ctx) -> bool {
    context_holds(row(i).context, ctx) && exists|j: int|
        0 <= j < chords_for(row(i), strict).len() && chord_fires(
            #[trigger] chords_for(row(i), strict)[j],
            key,
        )
}

/// The action of the first row at or after `i` that claims the key press.
pub open spec fn resolve_from(i: int, key: KeyPress, strict: bool, ctx: Ctx) -> Option<ActionId>
    decreases BINDING_COUNT - i,
{
    if i < 0 || i >= BINDING_COUNT {
        None
    } else if row_fires(i, key, strict, ctx) {
        Some(row(i).id)
    } else {
        resolve_from(i + 1, key, strict, ctx)
    }
}

/// What [`resolve`] returns.
pub open spec fn resolved(key: KeyPress, strict: bool, ctx: Ctx) -> Option<ActionId> {
    resolve_from(0, key, strict, ctx)
}

fn context_holds_exec(context: Context, ctx: &Ctx) -> (r: bool)
    ensures
        r == context_holds(context, *ctx),
{
    match context {
        Context::Always => true,
        Context::TerminalView => match ctx.view_mode {
            ViewMode::Terminal => true,
            _ => false,
        },
        Context::AttentionSort => match ctx.sort_order {
            SortOrder::Attention => true,
            _ => false,
        },
        Context::SearchActive => ctx.has_search,
        Context::ProjectGroupSelected => ctx.project_group_selected,
        Context::UnreadEnabled => ctx.unread_enabled,
    }
}

fn any_chord_fires(cs: &Vec<Chord>, key: &KeyPress) -> (r: bool)
    ensures
        r == exists|j: int| 0 <= j < cs@.len() && chord_fires(#[trigger] cs@[j], *key),
{
    let mut j: usize = 0;
    while j < cs.len()
        invariant
            j <= cs.len(),
            forall|t: int| 0 <= t < j ==> !chord_fires(#[trigger] cs@[t], *key),
        decreases cs.len() - j,
    {
        if cs[j].code == key.code && cs[j].ctrl == key.ctrl {
            assert(chord_fires(cs@[j as int], *key));
            return true;
        }
        j = j + 1;
    }
    false
}

/// Resolve a key press to an action, honoring strict mode and context
/// guards: the action of the first binding in table order whose guard holds
/// and one of whose chords for the mode fires.
pub fn resolve(key: &KeyPress, strict: bool, ctx: &Ctx) -> (r: Option<ActionId>)
    ensures
        r == resolved(*key, strict, *ctx),
{
    let mut i: usize = 0;
    while i < BINDING_COUNT
        invariant
            i <= BINDING_COUNT,
            resolved(*key, strict, *ctx) == resolve_from(i as int, *key, strict, *ctx),
        decreases BINDING_COUNT - i,
    {
        let b = binding_row(i);
        let chords = if strict {
            &b.strict
        } else {
            &b.non_strict
        };
        if context_holds_exec(b.context, ctx) && any_chord_fires(chords, key) {
            proof {
                let cs = chords_for(row(i as int), strict);
                assert(cs == chords@);
                let j = choose|j: int| 0 <= j < chords@.len() && chord_fires(#[trigger] chords@[j], *key);
                assert(chord_fires(cs[j], *key));
                assert(row_fires(i as int, *key, strict, *ctx));
            }
            return Some(b.id);
        }
        i = i + 1;
    }
    None
}

proof fn lemma_attention_rows(i: int)
    requires
        0 <= i < BINDING_COUNT,
    ensures
        row(i).id == ActionId::ToggleFavorite || row(i).id == ActionId::ToggleSnooze
            ==> row(i).context == Context::AttentionSort,
{
}

proof fn lemma_attention_from(i: int, key: KeyPress, strict: bool, ctx: Ctx)
    requires
        ctx.sort_order != SortOrder::Attention,
    ensures
        resolve_from(i, key, strict, ctx) != Some(ActionId::ToggleFavorite),
        resolve_from(i, key, strict, ctx) != Some(ActionId::ToggleSnooze),
    decreases BINDING_COUNT - i,
{
    if 0 <= i < BINDING_COUNT {
        lemma_attention_rows(i);
        if !row_fires(i, key, strict, ctx) {
            lemma_attention_from(i + 1, key, strict, ctx);
        }
    }
}

/// Favorite and snooze are guarded by the Attention sort: under any other
/// sort order no key press resolves to either of them, in either mode.
pub proof fn law_attention_actions_need_attention_sort(key: KeyPress, strict: bool, ctx: Ctx)
    ensures
        resolved(key, strict, ctx) == Some(ActionId::ToggleFavorite) ==> ctx.sort_order
            == SortOrder::Attention,
        resolved(key, strict, ctx) == Some(ActionId::ToggleSnooze) ==> ctx.sort_order
            == SortOrder::Attention,
{
    if ctx.sort_order != SortOrder::Attention {
        lemma_attention_from(0, key, strict, ctx);
    }
}

/// Under the Attention sort, plain `f` and `h` are favorite and snooze.
pub proof fn law_attention_keys_fire_under_attention_sort(ctx: Ctx)
    requires
        ctx.sort_order == SortOrder::Attention,
    ensures
        resolved(KeyPress { code: KeyCode::Char('f'), ctrl: false }, false, ctx) == Some(
            ActionId::ToggleFavorite,
        ),
        resolved(KeyPress { code: KeyCode::Char('h'), ctrl: false }, false, ctx) == Some(
            ActionId::ToggleSnooze,
        ),
{
    let f = KeyPress { code: KeyCode::Char('f'), ctrl: false };
    let h = KeyPress { code: KeyCode::Char('h'), ctrl: false };
    assert(chord_fires(chords_for(row(2), false)[0], f));
    assert(chord_fires(chords_for(row(3), false)[0], h));
    assert(!row_fires(0, f, false, ctx)) by {
        assert(chords_for(row(0), false).len() == 1);
    }
    assert(!row_fires(1, f, false, ctx)) by {
        assert(chords_for(row(1), false).len() == 1);
    }
    assert(!row_fires(0, h, false, ctx)) by {
        assert(chords_for(row(0), false).len() == 1);
    }
    assert(!row_fires(1, h, false, ctx)) by {
        assert(chords_for(row(1), false).len() == 1);
    }
    assert(!row_fires(2, h, false, ctx)) by {
        assert(chords_for(row(2), false).len() == 1);
    }
    lemma_resolve_hits(2, f, false, ctx, 0);
    lemma_resolve_hits(3, h, false, ctx, 0);
}

/// A plugin-contributed action: a plugin id plus the command its keybind targets.
#[derive(Debug, Clone, PartialEq, Eq)]
pub struct PluginAction {
    pub plugin_id: String,
    pub action: String,
}

/// The canonical external name of a plugin action: the action itself when it
/// already starts with `plugin.`, else `plugin.<id>.<action>`.
pub open spec fn canonical_name(plugin_id: Seq<char>, action: Seq<char>) -> Seq<char> {
    if has_prefix(action, "plugin."@) {
        action
    } else {
        "plugin."@ + plugin_id + "."@ + action
    }
}

impl PluginAction {
    /// A copy of this action.
    pub fn duplicate(&self) -> (r: PluginAction)
        ensures
            r == *self,
    {
        PluginAction { plugin_id: self.plugin_id.clone(), action: self.action.clone() }
    }

    /// Canonical external name, `plugin.<id>.<action>`; idempotent on an
    /// action that is already canonical.
    pub fn canonical(&self) -> (r: String)
        ensures
            r@ == canonical_name(self.plugin_id@, self.action@),
    {
        let a = chars_of(self.action.as_str());
        let p = chars_of("plugin.");
        if starts_with_chars(&a, &p) {
            return owned(self.action.as_str());
        }
        let mut s = owned("plugin.");
        push_all(&mut s, self.plugin_id.as_str());
        push_all(&mut s, ".");
        push_all(&mut s, self.action.as_str());
        s
    }
}

/// Canonical names are fixed points: canonicalizing a canonical name, as a
/// manifest that already targets one does, gives it back unchanged.
pub proof fn law_canonical_idempotent(plugin_id: Seq<char>, action: Seq<char>)
    ensures
        canonical_name(plugin_id, canonical_name(plugin_id, action)) == canonical_name(plugin_id, action),
{
    let p = "plugin."@;
    if !has_prefix(action, p) {
        let c = p + plugin_id + "."@ + action;
        assert(c.take(p.len() as int) =~= p);
    }
}

/// The merged resolver's result: a core action, or a plugin action.
#[derive(Debug, Clone, PartialEq, Eq)]
pub enum ResolvedAction {
    Core(ActionId),
    Plugin(PluginAction),
}

/// A keybind a plugin's manifest declares: its key string and target command.
pub struct PluginKeybind {
    pub plugin_id: String,
    pub key: String,
    pub command: String,
}

/// Index of the first plugin binding that fires on the key press, if any.
pub open spec fn first_plugin_fire(ps: Seq<(Chord, PluginAction)>, key: KeyPress) -> Option<int>
    decreases ps.len(),
{
    if ps.len() == 0 {
        None
    } else if chord_fires(ps[0].0, key) {
        Some(0)
    } else {
        match first_plugin_fire(ps.drop_first(), key) {
            Some(j) => Some(j + 1),
            None => None,
        }
    }
}

/// Resolve a key across the core table and the active plugins' keybinds.
/// Core bindings are tried first and always win; only then does the first
/// plugin binding whose chord fires claim the key.
pub fn resolve_action(
    key: &KeyPress,
    strict: bool,
    ctx: &Ctx,
    plugin_bindings: &Vec<(Chord, PluginAction)>,
) -> (r: Option<ResolvedAction>)
    ensures
        match resolved(*key, strict, *ctx) {
            Some(id) => r == Some(ResolvedAction::Core(id)),
            None => match first_plugin_fire(plugin_bindings@, *key) {
                Some(j) => r == Some(ResolvedAction::Plugin(plugin_bindings@[j].1)),
                None => r is None,
            },
        },
{
    if let Some(id) = resolve(key, strict, ctx) {
        return Some(ResolvedAction::Core(id));
    }
    let ghost ps = plugin_bindings@;
    let mut i: usize = 0;
    assert(ps.skip(0) =~= ps);
    while i < plugin_bindings.len()
        invariant
            i <= plugin_bindings.len(),
            ps == plugin_bindings@,
            resolved(*key, strict, *ctx) is None,
            first_plugin_fire(ps, *key) == match first_plugin_fire(ps.skip(i as int), *key) {
                Some(j) => Some(j + i),
                None => None,
            },
        decreases plugin_bindings.len() - i,
    {
        let (c, a) = &plugin_bindings[i];
        assert(ps.skip(i as int)[0] == ps[i as int]);
        assert(*c == ps[i as int].0 && *a == ps[i as int].1);
        if c.code == key.code && c.ctrl == key.ctrl {
            assert(chord_fires(ps.skip(i as int)[0].0, *key));
            assert(first_plugin_fire(ps.skip(i as int), *key) == Some(0int));
            return Some(ResolvedAction::Plugin(a.duplicate()));
        }
        assert(ps.skip(i as int).drop_first() =~= ps.skip(i + 1));
        i = i + 1;
    }
    None
}

// ---------------------------------------------------------------------------
// Chord strings
// ---------------------------------------------------------------------------
/// Modifier state while reading the `+`-separated tokens of a chord string.
pub struct ChordScan {
    pub ctrl: bool,
    pub shift: bool,
    pub key: Option<Seq<char>>,
}

pub open spec fn is_ctrl_word(w: Seq<char>) -> bool {
    w == "ctrl"@ || w == "control"@
}

pub open spec fn is_rejected_modifier(w: Seq<char>) -> bool {
    w == "alt"@ || w == "option"@ || w == "meta"@ || w == "super"@ || w == "cmd"@
}

/// Reading one raw piece: blank pieces are skipped, `ctrl`/`control` and
/// `shift` (any case) set their modifier, `alt`/`option`/`meta`/`super`/`cmd`
/// reject the chord, the first other token is the key and a second one
/// rejects the chord.
pub open spec fn scan_step(st: ChordScan, piece: Seq<char>) -> Option<ChordScan> {
    let t = trim(piece);
    let w = lower(t);
    if t.len() == 0 {
        Some(st)
    } else if is_ctrl_word(w) {
        Some(ChordScan { ctrl: true, ..st })
    } else if w == "shift"@ {
        Some(ChordScan { shift: true, ..st })
    } else if is_rejected_modifier(w) {
        None
    } else if st.key is None {
        Some(ChordScan { key: Some(t), ..st })
    } else {
        None
    }
}

/// Reading a list of raw pieces from the start.
pub open spec fn scan_pieces(ps: Seq<Seq<char>>) -> Option<ChordScan>
    decreases ps.len(),
{
    if ps.len() == 0 {
        Some(ChordScan { ctrl: false, shift: false, key: None })
    } else {
        match scan_pieces(ps.drop_last()) {
            Some(st) => scan_step(st, ps.last()),
            None => None,
        }
    }
}

/// The key of a chord string's key token: a one-byte token is that character
/// (uppercased with Shift, else lowercased); `F<n>`/`f<n>` with `n` a `u8` is
/// a function key; anything else is no key.
pub open spec fn key_code_of(key: Seq<char>, shift: bool) -> Option<KeyCode> {
    if key.len() == 1 && (key[0] as u32) < 128 {
        Some(
            KeyCode::Char(
                if shift {
                    upper_char(key[0])
                } else {
                    lower_char(key[0])
                },
            ),
        )
    } else if key.len() > 0 && (key[0] == 'F' || key[0] == 'f') && parse_unsigned(
        key.drop_first(),
        255,
    ) is Some {
        Some(KeyCode::F(parse_unsigned(key.drop_first(), 255)->0 as u8))
    } else {
        None
    }
}

/// The chord a key-chord string denotes (`Ctrl+K`, `Shift+D`, `F5`, `q`).
pub open spec fn chord_of(s: Seq<char>) -> Option<Chord> {
    match scan_pieces(split_on(s, '+')) {
        Some(st) => match st.key {
            Some(k) => match key_code_of(k, st.shift) {
                Some(code) => Some(Chord { code, ctrl: st.ctrl }),
                None => None,
            },
            None => None,
        },
        None => None,
    }
}

fn lit_eq(v: &Vec<char>, s: &str) -> (r: bool)
    ensures
        r == (v@ == s@),
{
    let w = chars_of(s);
    seq_eq(v, &w)
}

/// Parse a key-chord string like `Ctrl+K`, `Shift+D`, `F5` or `q` into a
/// chord; `None` for anything else.
pub fn parse_chord(s: &str) -> (r: Option<Chord>)
    ensures
        r == chord_of(s@),
{
    let cs = chars_of(s);
    let pieces = split_chars(&cs, '+');
    let ghost ps = split_on(s@, '+');
    let mut ctrl = false;
    let mut shift = false;
    let mut key: Option<Vec<char>> = None;
    let mut i: usize = 0;
    while i < pieces.len()
        invariant
            i <= pieces.len(),
            pieces@.len() == ps.len(),
            ps == split_on(s@, '+'),
            forall|k: int| 0 <= k < pieces@.len() ==> (#[trigger] pieces@[k])@ == ps[k],
            scan_pieces(ps.take(i as int)) == Some(
                ChordScan {
                    ctrl,
                    shift,
                    key: match key {
                        Some(k) => Some(k@),
                        None => None,
                    },
                },
            ),
        decreases pieces.len() - i,
    {
        assert(ps.take(i + 1).drop_last() =~= ps.take(i as int));
        assert(ps.take(i + 1).last() == pieces@[i as int]@);
        let t = trim_chars(&pieces[i]);
        let w = lower_chars(&t);
        if t.len() == 0 {
        } else if lit_eq(&w, "ctrl") || lit_eq(&w, "control") {
            ctrl = true;
        } else if lit_eq(&w, "shift") {
            shift = true;
        } else if lit_eq(&w, "alt") || lit_eq(&w, "option") || lit_eq(&w, "meta") || lit_eq(
            &w,
            "super",
        ) || lit_eq(&w, "cmd") {
            proof {
                lemma_scan_none_stays(ps, i as int + 1);
            }
            return None;
        } else if key.is_none() {
            key = Some(t);
        } else {
            proof {
                lemma_scan_none_stays(ps, i as int + 1);
            }
            return None;
        }
        i = i + 1;
    }
    assert(ps.take(pieces.len() as int) =~= ps);
    let key = match key {
        None => {
            return None;
        },
        Some(k) => k,
    };
    let code = if key.len() == 1 && (key[0] as u32) < 128 {
        let c = if shift {
            upper_char_exec(key[0])
        } else {
            lower_char_exec(key[0])
        };
        KeyCode::Char(c)
    } else if key.len() > 0 && (key[0] == 'F' || key[0] == 'f') {
        let rest = crate::text::slice_chars(&key, 1, key.len());
        assert(rest@ =~= key@.drop_first());
        match parse_unsigned_chars(&rest, 255) {
            Some(n) => KeyCode::F(n as u8),
            None => {
                return None;
            },
        }
    } else {
        return None;
    };
    Some(Chord { code, ctrl })
}

proof fn lemma_scan_none_stays(ps: Seq<Seq<char>>, n: int)
    requires
        0 < n <= ps.len(),
        scan_pieces(ps.take(n)) is None,
    ensures
        scan_pieces(ps) is None,
    decreases ps.len() - n,
{
    if n < ps.len() {
        assert(ps.take(n + 1).drop_last() =~= ps.take(n));
        lemma_scan_none_stays(ps, n + 1);
    } else {
        assert(ps.take(n) =~= ps);
    }
}

proof fn lemma_scan_step_trimmed(st: ChordScan, piece: Seq<char>)
    ensures
        scan_step(st, trim(piece)) == scan_step(st, piece),
{
    lemma_trim_idempotent(piece);
}

proof fn lemma_scan_pieces_trimmed(ps: Seq<Seq<char>>)
    ensures
        scan_pieces(ps.map_values(|p: Seq<char>| trim(p))) == scan_pieces(ps),
    decreases ps.len(),
{
    let tp = ps.map_values(|p: Seq<char>| trim(p));
    if ps.len() > 0 {
        assert(tp.drop_last() =~= ps.drop_last().map_values(|p: Seq<char>| trim(p)));
        lemma_scan_pieces_trimmed(ps.drop_last());
        assert(tp.last() == trim(ps.last()));
        match scan_pieces(ps.drop_last()) {
            Some(st) => lemma_scan_step_trimmed(st, ps.last()),
            None => {},
        }
    }
}

/// A chord string with the whitespace around each `+`-separated token removed.
pub open spec fn chord_tokens_trimmed(s: Seq<char>) -> Seq<char> {
    join_on(split_on(s, '+').map_values(|p: Seq<char>| trim(p)), '+')
}

/// Whitespace around the `+`-separated tokens of a chord string does not
/// change the chord it denotes: `Ctrl + K` reads as `Ctrl+K`, ` q ` as `q`.
pub proof fn law_chord_ignores_token_padding(s: Seq<char>)
    ensures
        chord_of(s) == chord_of(chord_tokens_trimmed(s)),
{
    let ps = split_on(s, '+');
    let tp = ps.map_values(|p: Seq<char>| trim(p));
    lemma_split_pieces_free(s, '+');
    assert forall|k: int, j: int| 0 <= k < tp.len() && 0 <= j < tp[k].len() implies #[trigger] tp[k][j]
        != '+' by {
        assert forall|i: int| 0 <= i < ps[k].len() implies ps[k][i] != '+' by {
            assert(split_on(s, '+')[k][i] != '+');
        }
        lemma_trim_free(ps[k], '+');
        assert(tp[k] == trim(ps[k]));
    }
    lemma_split_join(tp, '+');
    lemma_scan_pieces_trimmed(ps);
}

/// The keybinds that parse, in order, each as a chord and its plugin action.
pub open spec fn parsed_keybinds(kbs: Seq<PluginKeybind>) -> Seq<(Chord, PluginAction)>
    decreases kbs.len(),
{
    if kbs.len() == 0 {
        seq![]
    } else {
        let rest = parsed_keybinds(kbs.drop_last());
        match chord_of(kbs.last().key@) {
            Some(c) => rest.push(
                (
                    c,
                    PluginAction { plugin_id: kbs.last().plugin_id, action: kbs.last().command },
                ),
            ),
            None => rest,
        }
    }
}

/// The active plugins' declared keybinds as `(chord, action)` pairs; a
/// keybind whose key string does not parse is skipped.
pub fn plugin_bindings(keybinds: &Vec<PluginKeybind>) -> (r: Vec<(Chord, PluginAction)>)
    ensures
        r@ == parsed_keybinds(keybinds@),
{
    let mut out: Vec<(Chord, PluginAction)> = Vec::new();
    let mut i: usize = 0;
    while i < keybinds.len()
        invariant
            i <= keybinds.len(),
            out@ == parsed_keybinds(keybinds@.take(i as int)),
        decreases keybinds.len() - i,
    {
        let kb = &keybinds[i];
        assert(keybinds@.take(i + 1).drop_last() =~= keybinds@.take(i as int));
        assert(keybinds@.take(i + 1).last() == keybinds@[i as int]);
        match parse_chord(kb.key.as_str()) {
            Some(c) => {
                out.push(
                    (c, PluginAction { plugin_id: kb.plugin_id.clone(), action: kb.command.clone() }),
                );
            },
            None => {},
        }
        i = i + 1;
    }
    assert(keybinds@.take(keybinds.len() as int) =~= keybinds@);
    out
}

/// Some core binding claims the chord in either mode.
pub open spec fn shadowed(c: Chord) -> bool {
    exists|i: int| 0 <= i < BINDING_COUNT && #[trigger] row_claims(i, c)
}

/// Row `i` lists the chord in either mode.
pub open spec fn row_claims(i: int, c: Chord) -> bool {
    row(i).non_strict.contains(c) || row(i).strict.contains(c)
}

fn contains_chord(cs: &Vec<Chord>, c: &Chord) -> (r: bool)
    ensures
        r == cs@.contains(*c),
{
    let mut j: usize = 0;
    while j < cs.len()
        invariant
            j <= cs.len(),
            forall|t: int| 0 <= t < j ==> cs@[t] != *c,
        decreases cs.len() - j,
    {
        if cs[j].code == c.code && cs[j].ctrl == c.ctrl {
            assert(cs@[j as int] == *c);
            return true;
        }
        j = j + 1;
    }
    false
}

/// Whether a core binding already claims `chord` in either mode.
pub fn core_shadows(chord: &Chord) -> (r: bool)
    ensures
        r == shadowed(*chord),
{
    let mut i: usize = 0;
    while i < BINDING_COUNT
        invariant
            i <= BINDING_COUNT,
            forall|k: int| 0 <= k < i ==> !#[trigger] row_claims(k, *chord),
        decreases BINDING_COUNT - i,
    {
        let b = binding_row(i);
        if contains_chord(&b.non_strict, chord) || contains_chord(&b.strict, chord) {
            assert(row_claims(i as int, *chord));
            return true;
        }
        i = i + 1;
    }
    false
}

/// The display text of a chord: `Ctrl+D`, `d`, `F5`.
pub open spec fn chord_text(c: Chord) -> Seq<char> {
    match c.code {
        KeyCode::Char(ch) => if c.ctrl {
            "Ctrl+"@ + seq![upper_char(ch)]
        } else {
            seq![ch]
        },
        KeyCode::F(n) => seq!['F'] + decimal_string(n as nat),
        KeyCode::Other => seq![],
    }
}

/// Index of the first row bound to `id`.
pub open spec fn row_of(id: ActionId, from: int) -> Option<int>
    decreases BINDING_COUNT - from,
{
    if from < 0 || from >= BINDING_COUNT {
        None
    } else if row(from).id == id {
        Some(from)
    } else {
        row_of(id, from + 1)
    }
}

/// The label of an action's primary chord in a mode; empty when the action
/// has no chord there.
pub open spec fn label_text(id: ActionId, strict: bool) -> Seq<char> {
    match row_of(id, 0) {
        Some(i) => if chords_for(row(i), strict).len() > 0 {
            chord_text(chords_for(row(i), strict)[0])
        } else {
            seq![]
        },
        None => seq![],
    }
}

fn format_chord(c: &Chord) -> (r: String)
    ensures
        r@ == chord_text(*c),
{
    match c.code {
        KeyCode::Char(ch) => {
            if c.ctrl {
                let mut s = owned("Ctrl+");
                s.push(upper_char_exec(ch));
                s
            } else {
                let mut s = String::new();
                s.push(ch);
                s
            }
        },
        KeyCode::F(n) => {
            let mut s = String::new();
            s.push('F');
            let d = decimal_text(n as u64);
            push_all(&mut s, d.as_str());
            s
        },
        KeyCode::Other => String::new(),
    }
}

/// Human-readable label for an action's primary chord in the given mode,
/// e.g. `"D"`, `"Ctrl+D"`, `"F5"`; `""` when the action has none there.
pub fn label(id: ActionId, strict: bool) -> (r: String)
    ensures
        r@ == label_text(id, strict),
{
    let mut i: usize = 0;
    while i < BINDING_COUNT
        invariant
            i <= BINDING_COUNT,
            row_of(id, 0) == row_of(id, i as int),
        decreases BINDING_COUNT - i,
    {
        let b = binding_row(i);
        if b.id == id {
            let chords = if strict {
                &b.strict
            } else {
                &b.non_strict
            };
            if chords.len() > 0 {
                return format_chord(&chords[0]);
            }
            return String::new();
        }
        i = i + 1;
    }
    String::new()
}

/// The stable palette id of each action.
pub open spec fn palette_name(id: ActionId) -> &'static str {
    match id {
        ActionId::NewSession => "new-session",
        ActionId::NewFromSelection => "new-from-selection",
        ActionId::NewFromProject => "new-from-project",
        ActionId::AttachTerminal => "attach-terminal",
        ActionId::ToggleView => "toggle-view",
        ActionId::SendMessage => "send-message",
        ActionId::Stop => "stop",
        ActionId::Delete => "delete",
        ActionId::Rename => "rename",
        ActionId::SetWorktreeName => "set-worktree-name",
        ActionId::Diff => "diff",
        ActionId::Serve => "serve",
        ActionId::Settings => "settings",
        ActionId::Profiles => "profiles",
        ActionId::Projects => "projects",
        ActionId::Restart => "restart",
        ActionId::ToggleArchive => "archive",
        ActionId::ToggleFavorite => "favorite",
        ActionId::ToggleSnooze => "snooze",
        ActionId::ToggleUnread => "toggle-unread",
        ActionId::TogglePreviewInfo => "toggle-preview-info",
        ActionId::SortPicker => "pick-sort",
        ActionId::GroupBy => "pick-group-by",
        ActionId::Help => "help",
        ActionId::NextWaiting => "next-waiting",
        ActionId::Quit => "quit",
        ActionId::ToolPicker => "tool-picker",
        ActionId::SearchStart => "search",
        ActionId::SearchNext => "search-next",
        ActionId::SearchPrev => "search-prev",
        ActionId::Update => "update",
        ActionId::ToggleContainer => "toggle-container",
        ActionId::ToggleProjectPin => "toggle-project-pin",
        ActionId::Tips => "tips",
        ActionId::Plugins => "plugins",
        ActionId::Fork => "fork",
    }
}

/// Stable palette/test id for an action.
pub fn palette_id(id: ActionId) -> (r: &'static str)
    ensures
        r == palette_name(id),
{
    match id {
        ActionId::NewSession => "new-session",
        ActionId::NewFromSelection => "new-from-selection",
        ActionId::NewFromProject => "new-from-project",
        ActionId::AttachTerminal => "attach-terminal",
        ActionId::ToggleView => "toggle-view",
        ActionId::SendMessage => "send-message",
        ActionId::Stop => "stop",
        ActionId::Delete => "delete",
        ActionId::Rename => "rename",
        ActionId::SetWorktreeName => "set-worktree-name",
        ActionId::Diff => "diff",
        ActionId::Serve => "serve",
        ActionId::Settings => "settings",
        ActionId::Profiles => "profiles",
        ActionId::Projects => "projects",
        ActionId::Restart => "restart",
        ActionId::ToggleArchive => "archive",
        ActionId::ToggleFavorite => "favorite",
        ActionId::ToggleSnooze => "snooze",
        ActionId::ToggleUnread => "toggle-unread",
        ActionId::TogglePreviewInfo => "toggle-preview-info",
        ActionId::SortPicker => "pick-sort",
        ActionId::GroupBy => "pick-group-by",
        ActionId::Help => "help",
        ActionId::NextWaiting => "next-waiting",
        ActionId::Quit => "quit",
        ActionId::ToolPicker => "tool-picker",
        ActionId::SearchStart => "search",
        ActionId::SearchNext => "search-next",
        ActionId::SearchPrev => "search-prev",
        ActionId::Update => "update",
        ActionId::ToggleContainer => "toggle-container",
        ActionId::ToggleProjectPin => "toggle-project-pin",
        ActionId::Tips => "tips",
        ActionId::Plugins => "plugins",
        ActionId::Fork => "fork",
    }
}

/// Strict-mode rule of the table: a bare lowercase letter is bound in strict
/// mode only as `q` (Quit) and `n` (cycling an active search).
pub open spec fn strict_bare_lower_ok(id: ActionId, c: Chord) -> bool {
    match c.code {
        KeyCode::Char(ch) => (!c.ctrl && 'a' <= ch && ch <= 'z') ==> ((id == ActionId::Quit
            && ch == 'q') || (id == ActionId::SearchNext && ch == 'n')),
        _ => true,
    }
}

proof fn lemma_table_strict_rule(i: int, j: int)
    requires
        0 <= i < BINDING_COUNT,
        0 <= j < row(i).strict.len(),
    ensures
        strict_bare_lower_ok(row(i).id, row(i).strict[j]),
{
    if i == 0 {
        if j == 0 {
            assert(strict_bare_lower_ok(row(0).id, row(0).strict[0]));
        }
    } else if i == 1 {
        if j == 0 {
            assert(strict_bare_lower_ok(row(1).id, row(1).strict[0]));
        }
    } else if i == 2 {
        if j == 0 {
            assert(strict_bare_lower_ok(row(2).id, row(2).strict[0]));
        }
    } else if i == 3 {
        if j == 0 {
            assert(strict_bare_lower_ok(row(3).id, row(3).strict[0]));
        }
    } else if i == 4 {
        if j == 0 {
            assert(strict_bare_lower_ok(row(4).id, row(4).strict[0]));
        }
    } else if i == 5 {
        if j == 0 {
            assert(strict_bare_lower_ok(row(5).id, row(5).strict[0]));
        }
    } else if i == 6 {
        if j == 0 {
            assert(strict_bare_lower_ok(row(6).id, row(6).strict[0]));
        }
    } else if i == 7 {
        if j == 0 {
            assert(strict_bare_lower_ok(row(7).id, row(7).strict[0]));
        }
    } else if i == 8 {
        if j == 0 {
            assert(strict_bare_lower_ok(row(8).id, row(8).strict[0]));
        }
    } else if i == 9 {
        if j == 0 {
            assert(strict_bare_lower_ok(row(9).id, row(9).strict[0]));
        }
    } else if i == 10 {
        if j == 0 {
            assert(strict_bare_lower_ok(row(10).id, row(10).strict[0]));
        }
    } else if i == 11 {
        if j == 0 {
            assert(strict_bare_lower_ok(row(11).id, row(11).strict[0]));
        }
    } else if i == 12 {
        if j == 0 {
            assert(strict_bare_lower_ok(row(12).id, row(12).strict[0]));
        }
    } else if i == 13 {
        if j == 0 {
            assert(strict_bare_lower_ok(row(13).id, row(13).strict[0]));
        }
    } else if i == 14 {
        if j == 0 {
            assert(strict_bare_lower_ok(row(14).id, row(14).strict[0]));
        }
    } else if i == 15 {
        if j == 0 {
            assert(strict_bare_lower_ok(row(15).id, row(15).strict[0]));
        }
    } else if i == 16 {
        if j == 0 {
            assert(strict_bare_lower_ok(row(16).id, row(16).strict[0]));
        }
    } else if i == 17 {
        if j == 0 {
            assert(strict_bare_lower_ok(row(17).id, row(17).strict[0]));
        }
    } else if i == 18 {
        if j == 0 {
            assert(strict_bare_lower_ok(row(18).id, row(18).strict[0]));
        }
    } else if i == 19 {
        if j == 0 {
            assert(strict_bare_lower_ok(row(19).id, row(19).strict[0]));
        }
    } else if i == 20 {
        if j == 0 {
            assert(strict_bare_lower_ok(row(20).id, row(20).strict[0]));
        }
    } else if i == 21 {
        if j == 0 {
            assert(strict_bare_lower_ok(row(21).id, row(21).strict[0]));
        }
    } else if i == 22 {
        if j == 0 {
            assert(strict_bare_lower_ok(row(22).id, row(22).strict[0]));
        }
    } else if i == 23 {
        if j == 0 {
            assert(strict_bare_lower_ok(row(23).id, row(23).strict[0]));
        }
    } else if i == 24 {
        if j == 0 {
            assert(strict_bare_lower_ok(row(24).id, row(24).strict[0]));
        }
    } else if i == 25 {
        if j == 0 {
            assert(strict_bare_lower_ok(row(25).id, row(25).strict[0]));
        }
        if j == 1 {
            assert(strict_bare_lower_ok(row(25).id, row(25).strict[1]));
        }
    } else if i == 26 {
        if j == 0 {
            assert(strict_bare_lower_ok(row(26).id, row(26).strict[0]));
        }
    } else if i == 27 {
        if j == 0 {
            assert(strict_bare_lower_ok(row(27).id, row(27).strict[0]));
        }
    } else if i == 28 {
        if j == 0 {
            assert(strict_bare_lower_ok(row(28).id, row(28).strict[0]));
        }
    } else if i == 29 {
        if j == 0 {
            assert(strict_bare_lower_ok(row(29).id, row(29).strict[0]));
        }
    } else if i == 30 {
        if j == 0 {
            assert(strict_bare_lower_ok(row(30).id, row(30).strict[0]));
        }
        if j == 1 {
            assert(strict_bare_lower_ok(row(30).id, row(30).strict[1]));
        }
    } else if i == 31 {
        if j == 0 {
            assert(strict_bare_lower_ok(row(31).id, row(31).strict[0]));
        }
    } else if i == 32 {
    } else if i == 33 {
    } else if i == 34 {
    } else if i == 35 {
    }
}

/// The key press of a bare (unmodified) character.
pub open spec fn bare(ch: char) -> KeyPress {
    KeyPress { code: KeyCode::Char(ch), ctrl: false }
}

/// What a bare lowercase letter may resolve to in strict mode.
pub open spec fn strict_lower_outcome(ch: char, r: Option<ActionId>) -> bool {
    r is None || (ch == 'q' && r == Some(ActionId::Quit)) || (ch == 'n' && r == Some(
        ActionId::SearchNext,
    ))
}

proof fn lemma_strict_from(i: int, ch: char, ctx: Ctx)
    requires
        'a' <= ch <= 'z',
    ensures
        strict_lower_outcome(ch, resolve_from(i, bare(ch), true, ctx)),
    decreases BINDING_COUNT - i,
{
    if 0 <= i < BINDING_COUNT {
        if row_fires(i, bare(ch), true, ctx) {
            let j = choose|j: int|
                0 <= j < chords_for(row(i), true).len() && chord_fires(
                    #[trigger] chords_for(row(i), true)[j],
                    bare(ch),
                );
            lemma_table_strict_rule(i, j);
        } else {
            lemma_strict_from(i + 1, ch, ctx);
        }
    }
}

/// Strict mode reserves bare lowercase letters for the typing guard: in any
/// context such a key resolves to no action, except `q` (Quit) and `n` (next
/// search match, while a search is active).
pub proof fn law_strict_bare_lowercase(ch: char, ctx: Ctx)
    requires
        'a' <= ch <= 'z',
    ensures
        strict_lower_outcome(ch, resolved(bare(ch), true, ctx)),
{
    lemma_strict_from(0, ch, ctx);
}

/// Every guard of the binding table is off.
pub open spec fn quiet(ctx: Ctx) -> bool {
    &&& !(ctx.view_mode is Terminal)
    &&& ctx.sort_order != SortOrder::Attention
    &&& !ctx.has_search
    &&& !ctx.project_group_selected
    &&& !ctx.unread_enabled
}

/// The key press of a chord.
pub open spec fn press(c: Chord) -> KeyPress {
    KeyPress { code: c.code, ctrl: c.ctrl }
}

proof fn lemma_resolve_hits(i: int, key: KeyPress, strict: bool, ctx: Ctx, k: int)
    requires
        0 <= k <= i < BINDING_COUNT,
        row_fires(i, key, strict, ctx),
        forall|t: int| k <= t < i ==> !#[trigger] row_fires(t, key, strict, ctx),
    ensures
        resolve_from(k, key, strict, ctx) == Some(row(i).id),
    decreases i - k,
{
    if k < i {
        lemma_resolve_hits(i, key, strict, ctx, k + 1);
    }
}

proof fn lemma_row_fires_own_chord(i: int, strict: bool, ctx: Ctx)
    requires
        0 <= i < BINDING_COUNT,
        row(i).context == Context::Always,
        chords_for(row(i), strict).len() > 0,
    ensures
        row_fires(i, press(chords_for(row(i), strict)[0]), strict, ctx),
{
    assert(chord_fires(chords_for(row(i), strict)[0], press(chords_for(row(i), strict)[0])));
}

proof fn lemma_no_drift_5_plain(ctx: Ctx)
    requires
        quiet(ctx),
    ensures
        resolved(press(chords_for(row(5), false)[0]), false, ctx) == Some(row(5).id),
{
    let key = press(chords_for(row(5), false)[0]);
    lemma_row_fires_own_chord(5, false, ctx);
    assert(!row_fires(0, key, false, ctx));
    assert(!row_fires(1, key, false, ctx));
    assert(!row_fires(2, key, false, ctx));
    assert(!row_fires(3, key, false, ctx));
    assert(!row_fires(4, key, false, ctx));
    lemma_resolve_hits(5, key, false, ctx, 0);
}

proof fn lemma_no_drift_5_strict(ctx: Ctx)
    requires
        quiet(ctx),
    ensures
        resolved(press(chords_for(row(5), true)[0]), true, ctx) == Some(row(5).id),
{
    let key = press(chords_for(row(5), true)[0]);
    lemma_row_fires_own_chord(5, true, ctx);
    assert(!row_fires(0, key, true, ctx));
    assert(!row_fires(1, key, true, ctx));
    assert(!row_fires(2, key, true, ctx));
    assert(!row_fires(3, key, true, ctx));
    assert(!row_fires(4, key, true, ctx));
    lemma_resolve_hits(5, key, true, ctx, 0);
}

proof fn lemma_no_drift_6_plain(ctx: Ctx)
    requires
        quiet(ctx),
    ensures
        resolved(press(chords_for(row(6), false)[0]), false, ctx) == Some(row(6).id),
{
    let key = press(chords_for(row(6), false)[0]);
    lemma_row_fires_own_chord(6, false, ctx);
    assert(!row_fires(0, key, false, ctx));
    assert(!row_fires(1, key, false, ctx));
    assert(!row_fires(2, key, false, ctx));
    assert(!row_fires(3, key, false, ctx));
    assert(!row_fires(4, key, false, ctx));
    assert(!row_fires(5, key, false, ctx));
    lemma_resolve_hits(6, key, false, ctx, 0);
}

proof fn lemma_no_drift_6_strict(ctx: Ctx)
    requires
        quiet(ctx),
    ensures
        resolved(press(chords_for(row(6), true)[0]), true, ctx) == Some(row(6).id),
{
    let key = press(chords_for(row(6), true)[0]);
    lemma_row_fires_own_chord(6, true, ctx);
    assert(!row_fires(0, key, true, ctx));
    assert(!row_fires(1, key, true, ctx));
    assert(!row_fires(2, key, true, ctx));
    assert(!row_fires(3, key, true, ctx));
    assert(!row_fires(4, key, true, ctx));
    assert(!row_fires(5, key, true, ctx));
    lemma_resolve_hits(6, key, true, ctx, 0);
}

proof fn lemma_no_drift_7_plain(ctx: Ctx)
    requires
        quiet(ctx),
    ensures
        resolved(press(chords_for(row(7), false)[0]), false, ctx) == Some(row(7).id),
{
    let key = press(chords_for(row(7), false)[0]);
    lemma_row_fires_own_chord(7, false, ctx);
    assert(!row_fires(0, key, false, ctx));
    assert(!row_fires(1, key, false, ctx));
    assert(!row_fires(2, key, false, ctx));
    assert(!row_fires(3, key, false, ctx));
    assert(!row_fires(4, key, false, ctx));
    assert(!row_fires(5, key, false, ctx));
    assert(!row_fires(6, key, false, ctx));
    lemma_resolve_hits(7, key, false, ctx, 0);
}

proof fn lemma_no_drift_7_strict(ctx: Ctx)
    requires
        quiet(ctx),
    ensures
        resolved(press(chords_for(row(7), true)[0]), true, ctx) == Some(row(7).id),
{
    let key = press(chords_for(row(7), true)[0]);
    lemma_row_fires_own_chord(7, true, ctx);
    assert(!row_fires(0, key, true, ctx));
    assert(!row_fires(1, key, true, ctx));
    assert(!row_fires(2, key, true, ctx));
    assert(!row_fires(3, key, true, ctx));
    assert(!row_fires(4, key, true, ctx));
    assert(!row_fires(5, key, true, ctx));
    assert(!row_fires(6, key, true, ctx));
    lemma_resolve_hits(7, key, true, ctx, 0);
}

proof fn lemma_no_drift_8_plain(ctx: Ctx)
    requires
        quiet(ctx),
    ensures
        resolved(press(chords_for(row(8), false)[0]), false, ctx) == Some(row(8).id),
{
    let key = press(chords_for(row(8), false)[0]);
    lemma_row_fires_own_chord(8, false, ctx);
    assert(!row_fires(0, key, false, ctx));
    assert(!row_fires(1, key, false, ctx));
    assert(!row_fires(2, key, false, ctx));
    assert(!row_fires(3, key, false, ctx));
    assert(!row_fires(4, key, false, ctx));
    assert(!row_fires(5, key, false, ctx));
    assert(!row_fires(6, key, false, ctx));
    assert(!row_fires(7, key, false, ctx));
    lemma_resolve_hits(8, key, false, ctx, 0);
}

proof fn lemma_no_drift_8_strict(ctx: Ctx)
    requires
        quiet(ctx),
    ensures
        resolved(press(chords_for(row(8), true)[0]), true, ctx) == Some(row(8).id),
{
    let key = press(chords_for(row(8), true)[0]);
    lemma_row_fires_own_chord(8, true, ctx);
    assert(!row_fires(0, key, true, ctx));
    assert(!row_fires(1, key, true, ctx));
    assert(!row_fires(2, key, true, ctx));
    assert(!row_fires(3, key, true, ctx));
    assert(!row_fires(4, key, true, ctx));
    assert(!row_fires(5, key, true, ctx));
    assert(!row_fires(6, key, true, ctx));
    assert(!row_fires(7, key, true, ctx));
    lemma_resolve_hits(8, key, true, ctx, 0);
}

proof fn lemma_no_drift_9_plain(ctx: Ctx)
    requires
        quiet(ctx),
    ensures
        resolved(press(chords_for(row(9), false)[0]), false, ctx) == Some(row(9).id),
{
    let key = press(chords_for(row(9), false)[0]);
    lemma_row_fires_own_chord(9, false, ctx);
    assert(!row_fires(0, key, false, ctx));
    assert(!row_fires(1, key, false, ctx));
    assert(!row_fires(2, key, false, ctx));
    assert(!row_fires(3, key, false, ctx));
    assert(!row_fires(4, key, false, ctx));
    assert(!row_fires(5, key, false, ctx));
    assert(!row_fires(6, key, false, ctx));
    assert(!row_fires(7, key, false, ctx));
    assert(!row_fires(8, key, false, ctx));
    lemma_resolve_hits(9, key, false, ctx, 0);
}

proof fn lemma_no_drift_9_strict(ctx: Ctx)
    requires
        quiet(ctx),
    ensures
        resolved(press(chords_for(row(9), true)[0]), true, ctx) == Some(row(9).id),
{
    let key = press(chords_for(row(9), true)[0]);
    lemma_row_fires_own_chord(9, true, ctx);
    assert(!row_fires(0, key, true, ctx));
    assert(!row_fires(1, key, true, ctx));
    assert(!row_fires(2, key, true, ctx));
    assert(!row_fires(3, key, true, ctx));
    assert(!row_fires(4, key, true, ctx));
    assert(!row_fires(5, key, true, ctx));
    assert(!row_fires(6, key, true, ctx));
    assert(!row_fires(7, key, true, ctx));
    assert(!row_fires(8, key, true, ctx));
    lemma_resolve_hits(9, key, true, ctx, 0);
}

proof fn lemma_no_drift_10_plain(ctx: Ctx)
    requires
        quiet(ctx),
    ensures
        resolved(press(chords_for(row(10), false)[0]), false, ctx) == Some(row(10).id),
{
    let key = press(chords_for(row(10), false)[0]);
    lemma_row_fires_own_chord(10, false, ctx);
    assert(!row_fires(0, key, false, ctx));
    assert(!row_fires(1, key, false, ctx));
    assert(!row_fires(2, key, false, ctx));
    assert(!row_fires(3, key, false, ctx));
    assert(!row_fires(4, key, false, ctx));
    assert(!row_fires(5, key, false, ctx));
    assert(!row_fires(6, key, false, ctx));
    assert(!row_fires(7, key, false, ctx));
    assert(!row_fires(8, key, false, ctx));
    assert(!row_fires(9, key, false, ctx));
    lemma_resolve_hits(10, key, false, ctx, 0);
}

proof fn lemma_no_drift_10_strict(ctx: Ctx)
    requires
        quiet(ctx),
    ensures
        resolved(press(chords_for(row(10), true)[0]), true, ctx) == Some(row(10).id),
{
    let key = press(chords_for(row(10), true)[0]);
    lemma_row_fires_own_chord(10, true, ctx);
    assert(!row_fires(0, key, true, ctx));
    assert(!row_fires(1, key, true, ctx));
    assert(!row_fires(2, key, true, ctx));
    assert(!row_fires(3, key, true, ctx));
    assert(!row_fires(4, key, true, ctx));
    assert(!row_fires(5, key, true, ctx));
    assert(!row_fires(6, key, true, ctx));
    assert(!row_fires(7, key, true, ctx));
    assert(!row_fires(8, key, true, ctx));
    assert(!row_fires(9, key, true, ctx));
    lemma_resolve_hits(10, key, true, ctx, 0);
}

proof fn lemma_no_drift_11_plain(ctx: Ctx)
    requires
        quiet(ctx),
    ensures
        resolved(press(chords_for(row(11), false)[0]), false, ctx) == Some(row(11).id),
{
    let key = press(chords_for(row(11), false)[0]);
    lemma_row_fires_own_chord(11, false, ctx);
    assert(!row_fires(0, key, false, ctx));
    assert(!row_fires(1, key, false, ctx));
    assert(!row_fires(2, key, false, ctx));
    assert(!row_fires(3, key, false, ctx));
    assert(!row_fires(4, key, false, ctx));
    assert(!row_fires(5, key, false, ctx));
    assert(!row_fires(6, key, false, ctx));
    assert(!row_fires(7, key, false, ctx));
    assert(!row_fires(8, key, false, ctx));
    assert(!row_fires(9, key, false, ctx));
    assert(!row_fires(10, key, false, ctx));
    lemma_resolve_hits(11, key, false, ctx, 0);
}

proof fn lemma_no_drift_11_strict(ctx: Ctx)
    requires
        quiet(ctx),
    ensures
        resolved(press(chords_for(row(11), true)[0]), true, ctx) == Some(row(11).id),
{
    let key = press(chords_for(row(11), true)[0]);
    lemma_row_fires_own_chord(11, true, ctx);
    assert(!row_fires(0, key, true, ctx));
    assert(!row_fires(1, key, true, ctx));
    assert(!row_fires(2, key, true, ctx));
    assert(!row_fires(3, key, true, ctx));
    assert(!row_fires(4, key, true, ctx));
    assert(!row_fires(5, key, true, ctx));
    assert(!row_fires(6, key, true, ctx));
    assert(!row_fires(7, key, true, ctx));
    assert(!row_fires(8, key, true, ctx));
    assert(!row_fires(9, key, true, ctx));
    assert(!row_fires(10, key, true, ctx));
    lemma_resolve_hits(11, key, true, ctx, 0);
}

proof fn lemma_no_drift_12_plain(ctx: Ctx)
    requires
        quiet(ctx),
    ensures
        resolved(press(chords_for(row(12), false)[0]), false, ctx) == Some(row(12).id),
{
    let key = press(chords_for(row(12), false)[0]);
    lemma_row_fires_own_chord(12, false, ctx);
    assert(!row_fires(0, key, false, ctx));
    assert(!row_fires(1, key, false, ctx));
    assert(!row_fires(2, key, false, ctx));
    assert(!row_fires(3, key, false, ctx));
    assert(!row_fires(4, key, false, ctx));
    assert(!row_fires(5, key, false, ctx));
    assert(!row_fires(6, key, false, ctx));
    assert(!row_fires(7, key, false, ctx));
    assert(!row_fires(8, key, false, ctx));
    assert(!row_fires(9, key, false, ctx));
    assert(!row_fires(10, key, false, ctx));
    assert(!row_fires(11, key, false, ctx));
    lemma_resolve_hits(12, key, false, ctx, 0);
}

proof fn lemma_no_drift_12_strict(ctx: Ctx)
    requires
        quiet(ctx),
    ensures
        resolved(press(chords_for(row(12), true)[0]), true, ctx) == Some(row(12).id),
{
    let key = press(chords_for(row(12), true)[0]);
    lemma_row_fires_own_chord(12, true, ctx);
    assert(!row_fires(0, key, true, ctx));
    assert(!row_fires(1, key, true, ctx));
    assert(!row_fires(2, key, true, ctx));
    assert(!row_fires(3, key, true, ctx));
    assert(!row_fires(4, key, true, ctx));
    assert(!row_fires(5, key, true, ctx));
    assert(!row_fires(6, key, true, ctx));
    assert(!row_fires(7, key, true, ctx));
    assert(!row_fires(8, key, true, ctx));
    assert(!row_fires(9, key, true, ctx));
    assert(!row_fires(10, key, true, ctx));
    assert(!row_fires(11, key, true, ctx));
    lemma_resolve_hits(12, key, true, ctx, 0);
}

proof fn lemma_no_drift_13_plain(ctx: Ctx)
    requires
        quiet(ctx),
    ensures
        resolved(press(chords_for(row(13), false)[0]), false, ctx) == Some(row(13).id),
{
    let key = press(chords_for(row(13), false)[0]);
    lemma_row_fires_own_chord(13, false, ctx);
    assert(!row_fires(0, key, false, ctx));
    assert(!row_fires(1, key, false, ctx));
    assert(!row_fires(2, key, false, ctx));
    assert(!row_fires(3, key, false, ctx));
    assert(!row_fires(4, key, false, ctx));
    assert(!row_fires(5, key, false, ctx));
    assert(!row_fires(6, key, false, ctx));
    assert(!row_fires(7, key, false, ctx));
    assert(!row_fires(8, key, false, ctx));
    assert(!row_fires(9, key, false, ctx));
    assert(!row_fires(10, key, false, ctx));
    assert(!row_fires(11, key, false, ctx));
    assert(!row_fires(12, key, false, ctx));
    lemma_resolve_hits(13, key, false, ctx, 0);
}

proof fn lemma_no_drift_13_strict(ctx: Ctx)
    requires
        quiet(ctx),
    ensures
        resolved(press(chords_for(row(13), true)[0]), true, ctx) == Some(row(13).id),
{
    let key = press(chords_for(row(13), true)[0]);
    lemma_row_fires_own_chord(13, true, ctx);
    assert(!row_fires(0, key, true, ctx));
    assert(!row_fires(1, key, true, ctx));
    assert(!row_fires(2, key, true, ctx));
    assert(!row_fires(3, key, true, ctx));
    assert(!row_fires(4, key, true, ctx));
    assert(!row_fires(5, key, true, ctx));
    assert(!row_fires(6, key, true, ctx));
    assert(!row_fires(7, key, true, ctx));
    assert(!row_fires(8, key, true, ctx));
    assert(!row_fires(9, key, true, ctx));
    assert(!row_fires(10, key, true, ctx));
    assert(!row_fires(11, key, true, ctx));
    assert(!row_fires(12, key, true, ctx));
    lemma_resolve_hits(13, key, true, ctx, 0);
}

proof fn lemma_no_drift_14_plain(ctx: Ctx)
    requires
        quiet(ctx),
    ensures
        resolved(press(chords_for(row(14), false)[0]), false, ctx) == Some(row(14).id),
{
    let key = press(chords_for(row(14), false)[0]);
    lemma_row_fires_own_chord(14, false, ctx);
    assert(!row_fires(0, key, false, ctx));
    assert(!row_fires(1, key, false, ctx));
    assert(!row_fires(2, key, false, ctx));
    assert(!row_fires(3, key, false, ctx));
    assert(!row_fires(4, key, false, ctx));
    assert(!row_fires(5, key, false, ctx));
    assert(!row_fires(6, key, false, ctx));
    assert(!row_fires(7, key, false, ctx));
    assert(!row_fires(8, key, false, ctx));
    assert(!row_fires(9, key, false, ctx));
    assert(!row_fires(10, key, false, ctx));
    assert(!row_fires(11, key, false, ctx));
    assert(!row_fires(12, key, false, ctx));
    assert(!row_fires(13, key, false, ctx));
    lemma_resolve_hits(14, key, false, ctx, 0);
}

proof fn lemma_no_drift_14_strict(ctx: Ctx)
    requires
        quiet(ctx),
    ensures
        resolved(press(chords_for(row(14), true)[0]), true, ctx) == Some(row(14).id),
{
    let key = press(chords_for(row(14), true)[0]);
    lemma_row_fires_own_chord(14, true, ctx);
    assert(!row_fires(0, key, true, ctx));
    assert(!row_fires(1, key, true, ctx));
    assert(!row_fires(2, key, true, ctx));
    assert(!row_fires(3, key, true, ctx));
    assert(!row_fires(4, key, true, ctx));
    assert(!row_fires(5, key, true, ctx));
    assert(!row_fires(6, key, true, ctx));
    assert(!row_fires(7, key, true, ctx));
    assert(!row_fires(8, key, true, ctx));
    assert(!row_fires(9, key, true, ctx));
    assert(!row_fires(10, key, true, ctx));
    assert(!row_fires(11, key, true, ctx));
    assert(!row_fires(12, key, true, ctx));
    assert(!row_fires(13, key, true, ctx));
    lemma_resolve_hits(14, key, true, ctx, 0);
}

proof fn lemma_no_drift_15_plain(ctx: Ctx)
    requires
        quiet(ctx),
    ensures
        resolved(press(chords_for(row(15), false)[0]), false, ctx) == Some(row(15).id),
{
    let key = press(chords_for(row(15), false)[0]);
    lemma_row_fires_own_chord(15, false, ctx);
    assert(!row_fires(0, key, false, ctx));
    assert(!row_fires(1, key, false, ctx));
    assert(!row_fires(2, key, false, ctx));
    assert(!row_fires(3, key, false, ctx));
    assert(!row_fires(4, key, false, ctx));
    assert(!row_fires(5, key, false, ctx));
    assert(!row_fires(6, key, false, ctx));
    assert(!row_fires(7, key, false, ctx));
    assert(!row_fires(8, key, false, ctx));
    assert(!row_fires(9, key, false, ctx));
    assert(!row_fires(10, key, false, ctx));
    assert(!row_fires(11, key, false, ctx));
    assert(!row_fires(12, key, false, ctx));
    assert(!row_fires(13, key, false, ctx));
    assert(!row_fires(14, key, false, ctx));
    lemma_resolve_hits(15, key, false, ctx, 0);
}

proof fn lemma_no_drift_15_strict(ctx: Ctx)
    requires
        quiet(ctx),
    ensures
        resolved(press(chords_for(row(15), true)[0]), true, ctx) == Some(row(15).id),
{
    let key = press(chords_for(row(15), true)[0]);
    lemma_row_fires_own_chord(15, true, ctx);
    assert(!row_fires(0, key, true, ctx));
    assert(!row_fires(1, key, true, ctx));
    assert(!row_fires(2, key, true, ctx));
    assert(!row_fires(3, key, true, ctx));
    assert(!row_fires(4, key, true, ctx));
    assert(!row_fires(5, key, true, ctx));
    assert(!row_fires(6, key, true, ctx));
    assert(!row_fires(7, key, true, ctx));
    assert(!row_fires(8, key, true, ctx));
    assert(!row_fires(9, key, true, ctx));
    assert(!row_fires(10, key, true, ctx));
    assert(!row_fires(11, key, true, ctx));
    assert(!row_fires(12, key, true, ctx));
    assert(!row_fires(13, key, true, ctx));
    assert(!row_fires(14, key, true, ctx));
    lemma_resolve_hits(15, key, true, ctx, 0);
}

proof fn lemma_no_drift_16_plain(ctx: Ctx)
    requires
        quiet(ctx),
    ensures
        resolved(press(chords_for(row(16), false)[0]), false, ctx) == Some(row(16).id),
{
    let key = press(chords_for(row(16), false)[0]);
    lemma_row_fires_own_chord(16, false, ctx);
    assert(!row_fires(0, key, false, ctx));
    assert(!row_fires(1, key, false, ctx));
    assert(!row_fires(2, key, false, ctx));
    assert(!row_fires(3, key, false, ctx));
    assert(!row_fires(4, key, false, ctx));
    assert(!row_fires(5, key, false, ctx));
    assert(!row_fires(6, key, false, ctx));
    assert(!row_fires(7, key, false, ctx));
    assert(!row_fires(8, key, false, ctx));
    assert(!row_fires(9, key, false, ctx));
    assert(!row_fires(10, key, false, ctx));
    assert(!row_fires(11, key, false, ctx));
    assert(!row_fires(12, key, false, ctx));
    assert(!row_fires(13, key, false, ctx));
    assert(!row_fires(14, key, false, ctx));
    assert(!row_fires(15, key, false, ctx));
    lemma_resolve_hits(16, key, false, ctx, 0);
}

proof fn lemma_no_drift_16_strict(ctx: Ctx)
    requires
        quiet(ctx),
    ensures
        resolved(press(chords_for(row(16), true)[0]), true, ctx) == Some(row(16).id),
{
    let key = press(chords_for(row(16), true)[0]);
    lemma_row_fires_own_chord(16, true, ctx);
    assert(!row_fires(0, key, true, ctx));
    assert(!row_fires(1, key, true, ctx));
    assert(!row_fires(2, key, true, ctx));
    assert(!row_fires(3, key, true, ctx));
    assert(!row_fires(4, key, true, ctx));
    assert(!row_fires(5, key, true, ctx));
    assert(!row_fires(6, key, true, ctx));
    assert(!row_fires(7, key, true, ctx));
    assert(!row_fires(8, key, true, ctx));
    assert(!row_fires(9, key, true, ctx));
    assert(!row_fires(10, key, true, ctx));
    assert(!row_fires(11, key, true, ctx));
    assert(!row_fires(12, key, true, ctx));
    assert(!row_fires(13, key, true, ctx));
    assert(!row_fires(14, key, true, ctx));
    assert(!row_fires(15, key, true, ctx));
    lemma_resolve_hits(16, key, true, ctx, 0);
}

proof fn lemma_no_drift_17_plain(ctx: Ctx)
    requires
        quiet(ctx),
    ensures
        resolved(press(chords_for(row(17), false)[0]), false, ctx) == Some(row(17).id),
{
    let key = press(chords_for(row(17), false)[0]);
    lemma_row_fires_own_chord(17, false, ctx);
    assert(!row_fires(0, key, false, ctx));
    assert(!row_fires(1, key, false, ctx));
    assert(!row_fires(2, key, false, ctx));
    assert(!row_fires(3, key, false, ctx));
    assert(!row_fires(4, key, false, ctx));
    assert(!row_fires(5, key, false, ctx));
    assert(!row_fires(6, key, false, ctx));
    assert(!row_fires(7, key, false, ctx));
    assert(!row_fires(8, key, false, ctx));
    assert(!row_fires(9, key, false, ctx));
    assert(!row_fires(10, key, false, ctx));
    assert(!row_fires(11, key, false, ctx));
    assert(!row_fires(12, key, false, ctx));
    assert(!row_fires(13, key, false, ctx));
    assert(!row_fires(14, key, false, ctx));
    assert(!row_fires(15, key, false, ctx));
    assert(!row_fires(16, key, false, ctx));
    lemma_resolve_hits(17, key, false, ctx, 0);
}

proof fn lemma_no_drift_17_strict(ctx: Ctx)
    requires
        quiet(ctx),
    ensures
        resolved(press(chords_for(row(17), true)[0]), true, ctx) == Some(row(17).id),
{
    let key = press(chords_for(row(17), true)[0]);
    lemma_row_fires_own_chord(17, true, ctx);
    assert(!row_fires(0, key, true, ctx));
    assert(!row_fires(1, key, true, ctx));
    assert(!row_fires(2, key, true, ctx));
    assert(!row_fires(3, key, true, ctx));
    assert(!row_fires(4, key, true, ctx));
    assert(!row_fires(5, key, true, ctx));
    assert(!row_fires(6, key, true, ctx));
    assert(!row_fires(7, key, true, ctx));
    assert(!row_fires(8, key, true, ctx));
    assert(!row_fires(9, key, true, ctx));
    assert(!row_fires(10, key, true, ctx));
    assert(!row_fires(11, key, true, ctx));
    assert(!row_fires(12, key, true, ctx));
    assert(!row_fires(13, key, true, ctx));
    assert(!row_fires(14, key, true, ctx));
    assert(!row_fires(15, key, true, ctx));
    assert(!row_fires(16, key, true, ctx));
    lemma_resolve_hits(17, key, true, ctx, 0);
}

proof fn lemma_no_drift_18_plain(ctx: Ctx)
    requires
        quiet(ctx),
    ensures
        resolved(press(chords_for(row(18), false)[0]), false, ctx) == Some(row(18).id),
{
    let key = press(chords_for(row(18), false)[0]);
    lemma_row_fires_own_chord(18, false, ctx);
    assert(!row_fires(0, key, false, ctx));
    assert(!row_fires(1, key, false, ctx));
    assert(!row_fires(2, key, false, ctx));
    assert(!row_fires(3, key, false, ctx));
    assert(!row_fires(4, key, false, ctx));
    assert(!row_fires(5, key, false, ctx));
    assert(!row_fires(6, key, false, ctx));
    assert(!row_fires(7, key, false, ctx));
    assert(!row_fires(8, key, false, ctx));
    assert(!row_fires(9, key, false, ctx));
    assert(!row_fires(10, key, false, ctx));
    assert(!row_fires(11, key, false, ctx));
    assert(!row_fires(12, key, false, ctx));
    assert(!row_fires(13, key, false, ctx));
    assert(!row_fires(14, key, false, ctx));
    assert(!row_fires(15, key, false, ctx));
    assert(!row_fires(16, key, false, ctx));
    assert(!row_fires(17, key, false, ctx));
    lemma_resolve_hits(18, key, false, ctx, 0);
}

proof fn lemma_no_drift_18_strict(ctx: Ctx)
    requires
        quiet(ctx),
    ensures
        resolved(press(chords_for(row(18), true)[0]), true, ctx) == Some(row(18).id),
{
    let key = press(chords_for(row(18), true)[0]);
    lemma_row_fires_own_chord(18, true, ctx);
    assert(!row_fires(0, key, true, ctx));
    assert(!row_fires(1, key, true, ctx));
    assert(!row_fires(2, key, true, ctx));
    assert(!row_fires(3, key, true, ctx));
    assert(!row_fires(4, key, true, ctx));
    assert(!row_fires(5, key, true, ctx));
    assert(!row_fires(6, key, true, ctx));
    assert(!row_fires(7, key, true, ctx));
    assert(!row_fires(8, key, true, ctx));
    assert(!row_fires(9, key, true, ctx));
    assert(!row_fires(10, key, true, ctx));
    assert(!row_fires(11, key, true, ctx));
    assert(!row_fires(12, key, true, ctx));
    assert(!row_fires(13, key, true, ctx));
    assert(!row_fires(14, key, true, ctx));
    assert(!row_fires(15, key, true, ctx));
    assert(!row_fires(16, key, true, ctx));
    assert(!row_fires(17, key, true, ctx));
    lemma_resolve_hits(18, key, true, ctx, 0);
}

proof fn lemma_no_drift_19_plain(ctx: Ctx)
    requires
        quiet(ctx),
    ensures
        resolved(press(chords_for(row(19), false)[0]), false, ctx) == Some(row(19).id),
{
    let key = press(chords_for(row(19), false)[0]);
    lemma_row_fires_own_chord(19, false, ctx);
    assert(!row_fires(0, key, false, ctx));
    assert(!row_fires(1, key, false, ctx));
    assert(!row_fires(2, key, false, ctx));
    assert(!row_fires(3, key, false, ctx));
    assert(!row_fires(4, key, false, ctx));
    assert(!row_fires(5, key, false, ctx));
    assert(!row_fires(6, key, false, ctx));
    assert(!row_fires(7, key, false, ctx));
    assert(!row_fires(8, key, false, ctx));
    assert(!row_fires(9, key, false, ctx));
    assert(!row_fires(10, key, false, ctx));
    assert(!row_fires(11, key, false, ctx));
    assert(!row_fires(12, key, false, ctx));
    assert(!row_fires(13, key, false, ctx));
    assert(!row_fires(14, key, false, ctx));
    assert(!row_fires(15, key, false, ctx));
    assert(!row_fires(16, key, false, ctx));
    assert(!row_fires(17, key, false, ctx));
    assert(!row_fires(18, key, false, ctx));
    lemma_resolve_hits(19, key, false, ctx, 0);
}

proof fn lemma_no_drift_19_strict(ctx: Ctx)
    requires
        quiet(ctx),
    ensures
        resolved(press(chords_for(row(19), true)[0]), true, ctx) == Some(row(19).id),
{
    let key = press(chords_for(row(19), true)[0]);
    lemma_row_fires_own_chord(19, true, ctx);
    assert(!row_fires(0, key, true, ctx));
    assert(!row_fires(1, key, true, ctx));
    assert(!row_fires(2, key, true, ctx));
    assert(!row_fires(3, key, true, ctx));
    assert(!row_fires(4, key, true, ctx));
    assert(!row_fires(5, key, true, ctx));
    assert(!row_fires(6, key, true, ctx));
    assert(!row_fires(7, key, true, ctx));
    assert(!row_fires(8, key, true, ctx));
    assert(!row_fires(9, key, true, ctx));
    assert(!row_fires(10, key, true, ctx));
    assert(!row_fires(11, key, true, ctx));
    assert(!row_fires(12, key, true, ctx));
    assert(!row_fires(13, key, true, ctx));
    assert(!row_fires(14, key, true, ctx));
    assert(!row_fires(15, key, true, ctx));
    assert(!row_fires(16, key, true, ctx));
    assert(!row_fires(17, key, true, ctx));
    assert(!row_fires(18, key, true, ctx));
    lemma_resolve_hits(19, key, true, ctx, 0);
}

proof fn lemma_no_drift_20_plain(ctx: Ctx)
    requires
        quiet(ctx),
    ensures
        resolved(press(chords_for(row(20), false)[0]), false, ctx) == Some(row(20).id),
{
    let key = press(chords_for(row(20), false)[0]);
    lemma_row_fires_own_chord(20, false, ctx);
    assert(!row_fires(0, key, false, ctx));
    assert(!row_fires(1, key, false, ctx));
    assert(!row_fires(2, key, false, ctx));
    assert(!row_fires(3, key, false, ctx));
    assert(!row_fires(4, key, false, ctx));
    assert(!row_fires(5, key, false, ctx));
    assert(!row_fires(6, key, false, ctx));
    assert(!row_fires(7, key, false, ctx));
    assert(!row_fires(8, key, false, ctx));
    assert(!row_fires(9, key, false, ctx));
    assert(!row_fires(10, key, false, ctx));
    assert(!row_fires(11, key, false, ctx));
    assert(!row_fires(12, key, false, ctx));
    assert(!row_fires(13, key, false, ctx));
    assert(!row_fires(14, key, false, ctx));
    assert(!row_fires(15, key, false, ctx));
    assert(!row_fires(16, key, false, ctx));
    assert(!row_fires(17, key, false, ctx));
    assert(!row_fires(18, key, false, ctx));
    assert(!row_fires(19, key, false, ctx));
    lemma_resolve_hits(20, key, false, ctx, 0);
}

proof fn lemma_no_drift_20_strict(ctx: Ctx)
    requires
        quiet(ctx),
    ensures
        resolved(press(chords_for(row(20), true)[0]), true, ctx) == Some(row(20).id),
{
    let key = press(chords_for(row(20), true)[0]);
    lemma_row_fires_own_chord(20, true, ctx);
    assert(!row_fires(0, key, true, ctx));
    assert(!row_fires(1, key, true, ctx));
    assert(!row_fires(2, key, true, ctx));
    assert(!row_fires(3, key, true, ctx));
    assert(!row_fires(4, key, true, ctx));
    assert(!row_fires(5, key, true, ctx));
    assert(!row_fires(6, key, true, ctx));
    assert(!row_fires(7, key, true, ctx));
    assert(!row_fires(8, key, true, ctx));
    assert(!row_fires(9, key, true, ctx));
    assert(!row_fires(10, key, true, ctx));
    assert(!row_fires(11, key, true, ctx));
    assert(!row_fires(12, key, true, ctx));
    assert(!row_fires(13, key, true, ctx));
    assert(!row_fires(14, key, true, ctx));
    assert(!row_fires(15, key, true, ctx));
    assert(!row_fires(16, key, true, ctx));
    assert(!row_fires(17, key, true, ctx));
    assert(!row_fires(18, key, true, ctx));
    assert(!row_fires(19, key, true, ctx));
    lemma_resolve_hits(20, key, true, ctx, 0);
}

proof fn lemma_no_drift_21_plain(ctx: Ctx)
    requires
        quiet(ctx),
    ensures
        resolved(press(chords_for(row(21), false)[0]), false, ctx) == Some(row(21).id),
{
    let key = press(chords_for(row(21), false)[0]);
    lemma_row_fires_own_chord(21, false, ctx);
    assert(!row_fires(0, key, false, ctx));
    assert(!row_fires(1, key, false, ctx));
    assert(!row_fires(2, key, false, ctx));
    assert(!row_fires(3, key, false, ctx));
    assert(!row_fires(4, key, false, ctx));
    assert(!row_fires(5, key, false, ctx));
    assert(!row_fires(6, key, false, ctx));
    assert(!row_fires(7, key, false, ctx));
    assert(!row_fires(8, key, false, ctx));
    assert(!row_fires(9, key, false, ctx));
    assert(!row_fires(10, key, false, ctx));
    assert(!row_fires(11, key, false, ctx));
    assert(!row_fires(12, key, false, ctx));
    assert(!row_fires(13, key, false, ctx));
    assert(!row_fires(14, key, false, ctx));
    assert(!row_fires(15, key, false, ctx));
    assert(!row_fires(16, key, false, ctx));
    assert(!row_fires(17, key, false, ctx));
    assert(!row_fires(18, key, false, ctx));
    assert(!row_fires(19, key, false, ctx));
    assert(!row_fires(20, key, false, ctx));
    lemma_resolve_hits(21, key, false, ctx, 0);
}

proof fn lemma_no_drift_21_strict(ctx: Ctx)
    requires
        quiet(ctx),
    ensures
        resolved(press(chords_for(row(21), true)[0]), true, ctx) == Some(row(21).id),
{
    let key = press(chords_for(row(21), true)[0]);
    lemma_row_fires_own_chord(21, true, ctx);
    assert(!row_fires(0, key, true, ctx));
    assert(!row_fires(1, key, true, ctx));
    assert(!row_fires(2, key, true, ctx));
    assert(!row_fires(3, key, true, ctx));
    assert(!row_fires(4, key, true, ctx));
    assert(!row_fires(5, key, true, ctx));
    assert(!row_fires(6, key, true, ctx));
    assert(!row_fires(7, key, true, ctx));
    assert(!row_fires(8, key, true, ctx));
    assert(!row_fires(9, key, true, ctx));
    assert(!row_fires(10, key, true, ctx));
    assert(!row_fires(11, key, true, ctx));
    assert(!row_fires(12, key, true, ctx));
    assert(!row_fires(13, key, true, ctx));
    assert(!row_fires(14, key, true, ctx));
    assert(!row_fires(15, key, true, ctx));
    assert(!row_fires(16, key, true, ctx));
    assert(!row_fires(17, key, true, ctx));
    assert(!row_fires(18, key, true, ctx));
    assert(!row_fires(19, key, true, ctx));
    assert(!row_fires(20, key, true, ctx));
    lemma_resolve_hits(21, key, true, ctx, 0);
}

proof fn lemma_no_drift_23_plain(ctx: Ctx)
    requires
        quiet(ctx),
    ensures
        resolved(press(chords_for(row(23), false)[0]), false, ctx) == Some(row(23).id),
{
    let key = press(chords_for(row(23), false)[0]);
    lemma_row_fires_own_chord(23, false, ctx);
    assert(!row_fires(0, key, false, ctx));
    assert(!row_fires(1, key, false, ctx));
    assert(!row_fires(2, key, false, ctx));
    assert(!row_fires(3, key, false, ctx));
    assert(!row_fires(4, key, false, ctx));
    assert(!row_fires(5, key, false, ctx));
    assert(!row_fires(6, key, false, ctx));
    assert(!row_fires(7, key, false, ctx));
    assert(!row_fires(8, key, false, ctx));
    assert(!row_fires(9, key, false, ctx));
    assert(!row_fires(10, key, false, ctx));
    assert(!row_fires(11, key, false, ctx));
    assert(!row_fires(12, key, false, ctx));
    assert(!row_fires(13, key, false, ctx));
    assert(!row_fires(14, key, false, ctx));
    assert(!row_fires(15, key, false, ctx));
    assert(!row_fires(16, key, false, ctx));
    assert(!row_fires(17, key, false, ctx));
    assert(!row_fires(18, key, false, ctx));
    assert(!row_fires(19, key, false, ctx));
    assert(!row_fires(20, key, false, ctx));
    assert(!row_fires(21, key, false, ctx));
    assert(!row_fires(22, key, false, ctx));
    lemma_resolve_hits(23, key, false, ctx, 0);
}

proof fn lemma_no_drift_23_strict(ctx: Ctx)
    requires
        quiet(ctx),
    ensures
        resolved(press(chords_for(row(23), true)[0]), true, ctx) == Some(row(23).id),
{
    let key = press(chords_for(row(23), true)[0]);
    lemma_row_fires_own_chord(23, true, ctx);
    assert(!row_fires(0, key, true, ctx));
    assert(!row_fires(1, key, true, ctx));
    assert(!row_fires(2, key, true, ctx));
    assert(!row_fires(3, key, true, ctx));
    assert(!row_fires(4, key, true, ctx));
    assert(!row_fires(5, key, true, ctx));
    assert(!row_fires(6, key, true, ctx));
    assert(!row_fires(7, key, true, ctx));
    assert(!row_fires(8, key, true, ctx));
    assert(!row_fires(9, key, true, ctx));
    assert(!row_fires(10, key, true, ctx));
    assert(!row_fires(11, key, true, ctx));
    assert(!row_fires(12, key, true, ctx));
    assert(!row_fires(13, key, true, ctx));
    assert(!row_fires(14, key, true, ctx));
    assert(!row_fires(15, key, true, ctx));
    assert(!row_fires(16, key, true, ctx));
    assert(!row_fires(17, key, true, ctx));
    assert(!row_fires(18, key, true, ctx));
    assert(!row_fires(19, key, true, ctx));
    assert(!row_fires(20, key, true, ctx));
    assert(!row_fires(21, key, true, ctx));
    assert(!row_fires(22, key, true, ctx));
    lemma_resolve_hits(23, key, true, ctx, 0);
}

proof fn lemma_no_drift_24_plain(ctx: Ctx)
    requires
        quiet(ctx),
    ensures
        resolved(press(chords_for(row(24), false)[0]), false, ctx) == Some(row(24).id),
{
    let key = press(chords_for(row(24), false)[0]);
    lemma_row_fires_own_chord(24, false, ctx);
    assert(!row_fires(0, key, false, ctx));
    assert(!row_fires(1, key, false, ctx));
    assert(!row_fires(2, key, false, ctx));
    assert(!row_fires(3, key, false, ctx));
    assert(!row_fires(4, key, false, ctx));
    assert(!row_fires(5, key, false, ctx));
    assert(!row_fires(6, key, false, ctx));
    assert(!row_fires(7, key, false, ctx));
    assert(!row_fires(8, key, false, ctx));
    assert(!row_fires(9, key, false, ctx));
    assert(!row_fires(10, key, false, ctx));
    assert(!row_fires(11, key, false, ctx));
    assert(!row_fires(12, key, false, ctx));
    assert(!row_fires(13, key, false, ctx));
    assert(!row_fires(14, key, false, ctx));
    assert(!row_fires(15, key, false, ctx));
    assert(!row_fires(16, key, false, ctx));
    assert(!row_fires(17, key, false, ctx));
    assert(!row_fires(18, key, false, ctx));
    assert(!row_fires(19, key, false, ctx));
    assert(!row_fires(20, key, false, ctx));
    assert(!row_fires(21, key, false, ctx));
    assert(!row_fires(22, key, false, ctx));
    assert(!row_fires(23, key, false, ctx));
    lemma_resolve_hits(24, key, false, ctx, 0);
}

proof fn lemma_no_drift_24_strict(ctx: Ctx)
    requires
        quiet(ctx),
    ensures
        resolved(press(chords_for(row(24), true)[0]), true, ctx) == Some(row(24).id),
{
    let key = press(chords_for(row(24), true)[0]);
    lemma_row_fires_own_chord(24, true, ctx);
    assert(!row_fires(0, key, true, ctx));
    assert(!row_fires(1, key, true, ctx));
    assert(!row_fires(2, key, true, ctx));
    assert(!row_fires(3, key, true, ctx));
    assert(!row_fires(4, key, true, ctx));
    assert(!row_fires(5, key, true, ctx));
    assert(!row_fires(6, key, true, ctx));
    assert(!row_fires(7, key, true, ctx));
    assert(!row_fires(8, key, true, ctx));
    assert(!row_fires(9, key, true, ctx));
    assert(!row_fires(10, key, true, ctx));
    assert(!row_fires(11, key, true, ctx));
    assert(!row_fires(12, key, true, ctx));
    assert(!row_fires(13, key, true, ctx));
    assert(!row_fires(14, key, true, ctx));
    assert(!row_fires(15, key, true, ctx));
    assert(!row_fires(16, key, true, ctx));
    assert(!row_fires(17, key, true, ctx));
    assert(!row_fires(18, key, true, ctx));
    assert(!row_fires(19, key, true, ctx));
    assert(!row_fires(20, key, true, ctx));
    assert(!row_fires(21, key, true, ctx));
    assert(!row_fires(22, key, true, ctx));
    assert(!row_fires(23, key, true, ctx));
    lemma_resolve_hits(24, key, true, ctx, 0);
}

proof fn lemma_no_drift_25_plain(ctx: Ctx)
    requires
        quiet(ctx),
    ensures
        resolved(press(chords_for(row(25), false)[0]), false, ctx) == Some(row(25).id),
{
    let key = press(chords_for(row(25), false)[0]);
    lemma_row_fires_own_chord(25, false, ctx);
    assert(!row_fires(0, key, false, ctx));
    assert(!row_fires(1, key, false, ctx));
    assert(!row_fires(2, key, false, ctx));
    assert(!row_fires(3, key, false, ctx));
    assert(!row_fires(4, key, false, ctx));
    assert(!row_fires(5, key, false, ctx));
    assert(!row_fires(6, key, false, ctx));
    assert(!row_fires(7, key, false, ctx));
    assert(!row_fires(8, key, false, ctx));
    assert(!row_fires(9, key, false, ctx));
    assert(!row_fires(10, key, false, ctx));
    assert(!row_fires(11, key, false, ctx));
    assert(!row_fires(12, key, false, ctx));
    assert(!row_fires(13, key, false, ctx));
    assert(!row_fires(14, key, false, ctx));
    assert(!row_fires(15, key, false, ctx));
    assert(!row_fires(16, key, false, ctx));
    assert(!row_fires(17, key, false, ctx));
    assert(!row_fires(18, key, false, ctx));
    assert(!row_fires(19, key, false, ctx));
    assert(!row_fires(20, key, false, ctx));
    assert(!row_fires(21, key, false, ctx));
    assert(!row_fires(22, key, false, ctx));
    assert(!row_fires(23, key, false, ctx));
    assert(!row_fires(24, key, false, ctx));
    lemma_resolve_hits(25, key, false, ctx, 0);
}

proof fn lemma_no_drift_25_strict(ctx: Ctx)
    requires
        quiet(ctx),
    ensures
        resolved(press(chords_for(row(25), true)[0]), true, ctx) == Some(row(25).id),
{
    let key = press(chords_for(row(25), true)[0]);
    lemma_row_fires_own_chord(25, true, ctx);
    assert(!row_fires(0, key, true, ctx));
    assert(!row_fires(1, key, true, ctx));
    assert(!row_fires(2, key, true, ctx));
    assert(!row_fires(3, key, true, ctx));
    assert(!row_fires(4, key, true, ctx));
    assert(!row_fires(5, key, true, ctx));
    assert(!row_fires(6, key, true, ctx));
    assert(!row_fires(7, key, true, ctx));
    assert(!row_fires(8, key, true, ctx));
    assert(!row_fires(9, key, true, ctx));
    assert(!row_fires(10, key, true, ctx));
    assert(!row_fires(11, key, true, ctx));
    assert(!row_fires(12, key, true, ctx));
    assert(!row_fires(13, key, true, ctx));
    assert(!row_fires(14, key, true, ctx));
    assert(!row_fires(15, key, true, ctx));
    assert(!row_fires(16, key, true, ctx));
    assert(!row_fires(17, key, true, ctx));
    assert(!row_fires(18, key, true, ctx));
    assert(!row_fires(19, key, true, ctx));
    assert(!row_fires(20, key, true, ctx));
    assert(!row_fires(21, key, true, ctx));
    assert(!row_fires(22, key, true, ctx));
    assert(!row_fires(23, key, true, ctx));
    assert(!row_fires(24, key, true, ctx));
    lemma_resolve_hits(25, key, true, ctx, 0);
}

proof fn lemma_no_drift_27_plain(ctx: Ctx)
    requires
        quiet(ctx),
    ensures
        resolved(press(chords_for(row(27), false)[0]), false, ctx) == Some(row(27).id),
{
    let key = press(chords_for(row(27), false)[0]);
    lemma_row_fires_own_chord(27, false, ctx);
    assert(!row_fires(0, key, false, ctx));
    assert(!row_fires(1, key, false, ctx));
    assert(!row_fires(2, key, false, ctx));
    assert(!row_fires(3, key, false, ctx));
    assert(!row_fires(4, key, false, ctx));
    assert(!row_fires(5, key, false, ctx));
    assert(!row_fires(6, key, false, ctx));
    assert(!row_fires(7, key, false, ctx));
    assert(!row_fires(8, key, false, ctx));
    assert(!row_fires(9, key, false, ctx));
    assert(!row_fires(10, key, false, ctx));
    assert(!row_fires(11, key, false, ctx));
    assert(!row_fires(12, key, false, ctx));
    assert(!row_fires(13, key, false, ctx));
    assert(!row_fires(14, key, false, ctx));
    assert(!row_fires(15, key, false, ctx));
    assert(!row_fires(16, key, false, ctx));
    assert(!row_fires(17, key, false, ctx));
    assert(!row_fires(18, key, false, ctx));
    assert(!row_fires(19, key, false, ctx));
    assert(!row_fires(20, key, false, ctx));
    assert(!row_fires(21, key, false, ctx));
    assert(!row_fires(22, key, false, ctx));
    assert(!row_fires(23, key, false, ctx));
    assert(!row_fires(24, key, false, ctx));
    assert(!row_fires(25, key, false, ctx));
    assert(!row_fires(26, key, false, ctx));
    lemma_resolve_hits(27, key, false, ctx, 0);
}

proof fn lemma_no_drift_27_strict(ctx: Ctx)
    requires
        quiet(ctx),
    ensures
        resolved(press(chords_for(row(27), true)[0]), true, ctx) == Some(row(27).id),
{
    let key = press(chords_for(row(27), true)[0]);
    lemma_row_fires_own_chord(27, true, ctx);
    assert(!row_fires(0, key, true, ctx));
    assert(!row_fires(1, key, true, ctx));
    assert(!row_fires(2, key, true, ctx));
    assert(!row_fires(3, key, true, ctx));
    assert(!row_fires(4, key, true, ctx));
    assert(!row_fires(5, key, true, ctx));
    assert(!row_fires(6, key, true, ctx));
    assert(!row_fires(7, key, true, ctx));
    assert(!row_fires(8, key, true, ctx));
    assert(!row_fires(9, key, true, ctx));
    assert(!row_fires(10, key, true, ctx));
    assert(!row_fires(11, key, true, ctx));
    assert(!row_fires(12, key, true, ctx));
    assert(!row_fires(13, key, true, ctx));
    assert(!row_fires(14, key, true, ctx));
    assert(!row_fires(15, key, true, ctx));
    assert(!row_fires(16, key, true, ctx));
    assert(!row_fires(17, key, true, ctx));
    assert(!row_fires(18, key, true, ctx));
    assert(!row_fires(19, key, true, ctx));
    assert(!row_fires(20, key, true, ctx));
    assert(!row_fires(21, key, true, ctx));
    assert(!row_fires(22, key, true, ctx));
    assert(!row_fires(23, key, true, ctx));
    assert(!row_fires(24, key, true, ctx));
    assert(!row_fires(25, key, true, ctx));
    assert(!row_fires(26, key, true, ctx));
    lemma_resolve_hits(27, key, true, ctx, 0);
}

proof fn lemma_no_drift_28_plain(ctx: Ctx)
    requires
        quiet(ctx),
    ensures
        resolved(press(chords_for(row(28), false)[0]), false, ctx) == Some(row(28).id),
{
    let key = press(chords_for(row(28), false)[0]);
    lemma_row_fires_own_chord(28, false, ctx);
    assert(!row_fires(0, key, false, ctx));
    assert(!row_fires(1, key, false, ctx));
    assert(!row_fires(2, key, false, ctx));
    assert(!row_fires(3, key, false, ctx));
    assert(!row_fires(4, key, false, ctx));
    assert(!row_fires(5, key, false, ctx));
    assert(!row_fires(6, key, false, ctx));
    assert(!row_fires(7, key, false, ctx));
    assert(!row_fires(8, key, false, ctx));
    assert(!row_fires(9, key, false, ctx));
    assert(!row_fires(10, key, false, ctx));
    assert(!row_fires(11, key, false, ctx));
    assert(!row_fires(12, key, false, ctx));
    assert(!row_fires(13, key, false, ctx));
    assert(!row_fires(14, key, false, ctx));
    assert(!row_fires(15, key, false, ctx));
    assert(!row_fires(16, key, false, ctx));
    assert(!row_fires(17, key, false, ctx));
    assert(!row_fires(18, key, false, ctx));
    assert(!row_fires(19, key, false, ctx));
    assert(!row_fires(20, key, false, ctx));
    assert(!row_fires(21, key, false, ctx));
    assert(!row_fires(22, key, false, ctx));
    assert(!row_fires(23, key, false, ctx));
    assert(!row_fires(24, key, false, ctx));
    assert(!row_fires(25, key, false, ctx));
    assert(!row_fires(26, key, false, ctx));
    assert(!row_fires(27, key, false, ctx));
    lemma_resolve_hits(28, key, false, ctx, 0);
}

proof fn lemma_no_drift_28_strict(ctx: Ctx)
    requires
        quiet(ctx),
    ensures
        resolved(press(chords_for(row(28), true)[0]), true, ctx) == Some(row(28).id),
{
    let key = press(chords_for(row(28), true)[0]);
    lemma_row_fires_own_chord(28, true, ctx);
    assert(!row_fires(0, key, true, ctx));
    assert(!row_fires(1, key, true, ctx));
    assert(!row_fires(2, key, true, ctx));
    assert(!row_fires(3, key, true, ctx));
    assert(!row_fires(4, key, true, ctx));
    assert(!row_fires(5, key, true, ctx));
    assert(!row_fires(6, key, true, ctx));
    assert(!row_fires(7, key, true, ctx));
    assert(!row_fires(8, key, true, ctx));
    assert(!row_fires(9, key, true, ctx));
    assert(!row_fires(10, key, true, ctx));
    assert(!row_fires(11, key, true, ctx));
    assert(!row_fires(12, key, true, ctx));
    assert(!row_fires(13, key, true, ctx));
    assert(!row_fires(14, key, true, ctx));
    assert(!row_fires(15, key, true, ctx));
    assert(!row_fires(16, key, true, ctx));
    assert(!row_fires(17, key, true, ctx));
    assert(!row_fires(18, key, true, ctx));
    assert(!row_fires(19, key, true, ctx));
    assert(!row_fires(20, key, true, ctx));
    assert(!row_fires(21, key, true, ctx));
    assert(!row_fires(22, key, true, ctx));
    assert(!row_fires(23, key, true, ctx));
    assert(!row_fires(24, key, true, ctx));
    assert(!row_fires(25, key, true, ctx));
    assert(!row_fires(26, key, true, ctx));
    assert(!row_fires(27, key, true, ctx));
    lemma_resolve_hits(28, key, true, ctx, 0);
}

proof fn lemma_no_drift_29_plain(ctx: Ctx)
    requires
        quiet(ctx),
    ensures
        resolved(press(chords_for(row(29), false)[0]), false, ctx) == Some(row(29).id),
{
    let key = press(chords_for(row(29), false)[0]);
    lemma_row_fires_own_chord(29, false, ctx);
    assert(!row_fires(0, key, false, ctx));
    assert(!row_fires(1, key, false, ctx));
    assert(!row_fires(2, key, false, ctx));
    assert(!row_fires(3, key, false, ctx));
    assert(!row_fires(4, key, false, ctx));
    assert(!row_fires(5, key, false, ctx));
    assert(!row_fires(6, key, false, ctx));
    assert(!row_fires(7, key, false, ctx));
    assert(!row_fires(8, key, false, ctx));
    assert(!row_fires(9, key, false, ctx));
    assert(!row_fires(10, key, false, ctx));
    assert(!row_fires(11, key, false, ctx));
    assert(!row_fires(12, key, false, ctx));
    assert(!row_fires(13, key, false, ctx));
    assert(!row_fires(14, key, false, ctx));
    assert(!row_fires(15, key, false, ctx));
    assert(!row_fires(16, key, false, ctx));
    assert(!row_fires(17, key, false, ctx));
    assert(!row_fires(18, key, false, ctx));
    assert(!row_fires(19, key, false, ctx));
    assert(!row_fires(20, key, false, ctx));
    assert(!row_fires(21, key, false, ctx));
    assert(!row_fires(22, key, false, ctx));
    assert(!row_fires(23, key, false, ctx));
    assert(!row_fires(24, key, false, ctx));
    assert(!row_fires(25, key, false, ctx));
    assert(!row_fires(26, key, false, ctx));
    assert(!row_fires(27, key, false, ctx));
    assert(!row_fires(28, key, false, ctx));
    lemma_resolve_hits(29, key, false, ctx, 0);
}

proof fn lemma_no_drift_29_strict(ctx: Ctx)
    requires
        quiet(ctx),
    ensures
        resolved(press(chords_for(row(29), true)[0]), true, ctx) == Some(row(29).id),
{
    let key = press(chords_for(row(29), true)[0]);
    lemma_row_fires_own_chord(29, true, ctx);
    assert(!row_fires(0, key, true, ctx));
    assert(!row_fires(1, key, true, ctx));
    assert(!row_fires(2, key, true, ctx));
    assert(!row_fires(3, key, true, ctx));
    assert(!row_fires(4, key, true, ctx));
    assert(!row_fires(5, key, true, ctx));
    assert(!row_fires(6, key, true, ctx));
    assert(!row_fires(7, key, true, ctx));
    assert(!row_fires(8, key, true, ctx));
    assert(!row_fires(9, key, true, ctx));
    assert(!row_fires(10, key, true, ctx));
    assert(!row_fires(11, key, true, ctx));
    assert(!row_fires(12, key, true, ctx));
    assert(!row_fires(13, key, true, ctx));
    assert(!row_fires(14, key, true, ctx));
    assert(!row_fires(15, key, true, ctx));
    assert(!row_fires(16, key, true, ctx));
    assert(!row_fires(17, key, true, ctx));
    assert(!row_fires(18, key, true, ctx));
    assert(!row_fires(19, key, true, ctx));
    assert(!row_fires(20, key, true, ctx));
    assert(!row_fires(21, key, true, ctx));
    assert(!row_fires(22, key, true, ctx));
    assert(!row_fires(23, key, true, ctx));
    assert(!row_fires(24, key, true, ctx));
    assert(!row_fires(25, key, true, ctx));
    assert(!row_fires(26, key, true, ctx));
    assert(!row_fires(27, key, true, ctx));
    assert(!row_fires(28, key, true, ctx));
    lemma_resolve_hits(29, key, true, ctx, 0);
}

proof fn lemma_no_drift_30_plain(ctx: Ctx)
    requires
        quiet(ctx),
    ensures
        resolved(press(chords_for(row(30), false)[0]), false, ctx) == Some(row(30).id),
{
    let key = press(chords_for(row(30), false)[0]);
    lemma_row_fires_own_chord(30, false, ctx);
    assert(!row_fires(0, key, false, ctx));
    assert(!row_fires(1, key, false, ctx));
    assert(!row_fires(2, key, false, ctx));
    assert(!row_fires(3, key, false, ctx));
    assert(!row_fires(4, key, false, ctx));
    assert(!row_fires(5, key, false, ctx));
    assert(!row_fires(6, key, false, ctx));
    assert(!row_fires(7, key, false, ctx));
    assert(!row_fires(8, key, false, ctx));
    assert(!row_fires(9, key, false, ctx));
    assert(!row_fires(10, key, false, ctx));
    assert(!row_fires(11, key, false, ctx));
    assert(!row_fires(12, key, false, ctx));
    assert(!row_fires(13, key, false, ctx));
    assert(!row_fires(14, key, false, ctx));
    assert(!row_fires(15, key, false, ctx));
    assert(!row_fires(16, key, false, ctx));
    assert(!row_fires(17, key, false, ctx));
    assert(!row_fires(18, key, false, ctx));
    assert(!row_fires(19, key, false, ctx));
    assert(!row_fires(20, key, false, ctx));
    assert(!row_fires(21, key, false, ctx));
    assert(!row_fires(22, key, false, ctx));
    assert(!row_fires(23, key, false, ctx));
    assert(!row_fires(24, key, false, ctx));
    assert(!row_fires(25, key, false, ctx));
    assert(!row_fires(26, key, false, ctx));
    assert(!row_fires(27, key, false, ctx));
    assert(!row_fires(28, key, false, ctx));
    assert(!row_fires(29, key, false, ctx));
    lemma_resolve_hits(30, key, false, ctx, 0);
}

proof fn lemma_no_drift_30_strict(ctx: Ctx)
    requires
        quiet(ctx),
    ensures
        resolved(press(chords_for(row(30), true)[0]), true, ctx) == Some(row(30).id),
{
    let key = press(chords_for(row(30), true)[0]);
    lemma_row_fires_own_chord(30, true, ctx);
    assert(!row_fires(0, key, true, ctx));
    assert(!row_fires(1, key, true, ctx));
    assert(!row_fires(2, key, true, ctx));
    assert(!row_fires(3, key, true, ctx));
    assert(!row_fires(4, key, true, ctx));
    assert(!row_fires(5, key, true, ctx));
    assert(!row_fires(6, key, true, ctx));
    assert(!row_fires(7, key, true, ctx));
    assert(!row_fires(8, key, true, ctx));
    assert(!row_fires(9, key, true, ctx));
    assert(!row_fires(10, key, true, ctx));
    assert(!row_fires(11, key, true, ctx));
    assert(!row_fires(12, key, true, ctx));
    assert(!row_fires(13, key, true, ctx));
    assert(!row_fires(14, key, true, ctx));
    assert(!row_fires(15, key, true, ctx));
    assert(!row_fires(16, key, true, ctx));
    assert(!row_fires(17, key, true, ctx));
    assert(!row_fires(18, key, true, ctx));
    assert(!row_fires(19, key, true, ctx));
    assert(!row_fires(20, key, true, ctx));
    assert(!row_fires(21, key, true, ctx));
    assert(!row_fires(22, key, true, ctx));
    assert(!row_fires(23, key, true, ctx));
    assert(!row_fires(24, key, true, ctx));
    assert(!row_fires(25, key, true, ctx));
    assert(!row_fires(26, key, true, ctx));
    assert(!row_fires(27, key, true, ctx));
    assert(!row_fires(28, key, true, ctx));
    assert(!row_fires(29, key, true, ctx));
    lemma_resolve_hits(30, key, true, ctx, 0);
}

proof fn lemma_no_drift_31_plain(ctx: Ctx)
    requires
        quiet(ctx),
    ensures
        resolved(press(chords_for(row(31), false)[0]), false, ctx) == Some(row(31).id),
{
    let key = press(chords_for(row(31), false)[0]);
    lemma_row_fires_own_chord(31, false, ctx);
    assert(!row_fires(0, key, false, ctx));
    assert(!row_fires(1, key, false, ctx));
    assert(!row_fires(2, key, false, ctx));
    assert(!row_fires(3, key, false, ctx));
    assert(!row_fires(4, key, false, ctx));
    assert(!row_fires(5, key, false, ctx));
    assert(!row_fires(6, key, false, ctx));
    assert(!row_fires(7, key, false, ctx));
    assert(!row_fires(8, key, false, ctx));
    assert(!row_fires(9, key, false, ctx));
    assert(!row_fires(10, key, false, ctx));
    assert(!row_fires(11, key, false, ctx));
    assert(!row_fires(12, key, false, ctx));
    assert(!row_fires(13, key, false, ctx));
    assert(!row_fires(14, key, false, ctx));
    assert(!row_fires(15, key, false, ctx));
    assert(!row_fires(16, key, false, ctx));
    assert(!row_fires(17, key, false, ctx));
    assert(!row_fires(18, key, false, ctx));
    assert(!row_fires(19, key, false, ctx));
    assert(!row_fires(20, key, false, ctx));
    assert(!row_fires(21, key, false, ctx));
    assert(!row_fires(22, key, false, ctx));
    assert(!row_fires(23, key, false, ctx));
    assert(!row_fires(24, key, false, ctx));
    assert(!row_fires(25, key, false, ctx));
    assert(!row_fires(26, key, false, ctx));
    assert(!row_fires(27, key, false, ctx));
    assert(!row_fires(28, key, false, ctx));
    assert(!row_fires(29, key, false, ctx));
    assert(!row_fires(30, key, false, ctx));
    lemma_resolve_hits(31, key, false, ctx, 0);
}

proof fn lemma_no_drift_31_strict(ctx: Ctx)
    requires
        quiet(ctx),
    ensures
        resolved(press(chords_for(row(31), true)[0]), true, ctx) == Some(row(31).id),
{
    let key = press(chords_for(row(31), true)[0]);
    lemma_row_fires_own_chord(31, true, ctx);
    assert(!row_fires(0, key, true, ctx));
    assert(!row_fires(1, key, true, ctx));
    assert(!row_fires(2, key, true, ctx));
    assert(!row_fires(3, key, true, ctx));
    assert(!row_fires(4, key, true, ctx));
    assert(!row_fires(5, key, true, ctx));
    assert(!row_fires(6, key, true, ctx));
    assert(!row_fires(7, key, true, ctx));
    assert(!row_fires(8, key, true, ctx));
    assert(!row_fires(9, key, true, ctx));
    assert(!row_fires(10, key, true, ctx));
    assert(!row_fires(11, key, true, ctx));
    assert(!row_fires(12, key, true, ctx));
    assert(!row_fires(13, key, true, ctx));
    assert(!row_fires(14, key, true, ctx));
    assert(!row_fires(15, key, true, ctx));
    assert(!row_fires(16, key, true, ctx));
    assert(!row_fires(17, key, true, ctx));
    assert(!row_fires(18, key, true, ctx));
    assert(!row_fires(19, key, true, ctx));
    assert(!row_fires(20, key, true, ctx));
    assert(!row_fires(21, key, true, ctx));
    assert(!row_fires(22, key, true, ctx));
    assert(!row_fires(23, key, true, ctx));
    assert(!row_fires(24, key, true, ctx));
    assert(!row_fires(25, key, true, ctx));
    assert(!row_fires(26, key, true, ctx));
    assert(!row_fires(27, key, true, ctx));
    assert(!row_fires(28, key, true, ctx));
    assert(!row_fires(29, key, true, ctx));
    assert(!row_fires(30, key, true, ctx));
    lemma_resolve_hits(31, key, true, ctx, 0);
}

proof fn lemma_no_drift_32_plain(ctx: Ctx)
    requires
        quiet(ctx),
    ensures
        resolved(press(chords_for(row(32), false)[0]), false, ctx) == Some(row(32).id),
{
    let key = press(chords_for(row(32), false)[0]);
    lemma_row_fires_own_chord(32, false, ctx);
    assert(!row_fires(0, key, false, ctx));
    assert(!row_fires(1, key, false, ctx));
    assert(!row_fires(2, key, false, ctx));
    assert(!row_fires(3, key, false, ctx));
    assert(!row_fires(4, key, false, ctx));
    assert(!row_fires(5, key, false, ctx));
    assert(!row_fires(6, key, false, ctx));
    assert(!row_fires(7, key, false, ctx));
    assert(!row_fires(8, key, false, ctx));
    assert(!row_fires(9, key, false, ctx));
    assert(!row_fires(10, key, false, ctx));
    assert(!row_fires(11, key, false, ctx));
    assert(!row_fires(12, key, false, ctx));
    assert(!row_fires(13, key, false, ctx));
    assert(!row_fires(14, key, false, ctx));
    assert(!row_fires(15, key, false, ctx));
    assert(!row_fires(16, key, false, ctx));
    assert(!row_fires(17, key, false, ctx));
    assert(!row_fires(18, key, false, ctx));
    assert(!row_fires(19, key, false, ctx));
    assert(!row_fires(20, key, false, ctx));
    assert(!row_fires(21, key, false, ctx));
    assert(!row_fires(22, key, false, ctx));
    assert(!row_fires(23, key, false, ctx));
    assert(!row_fires(24, key, false, ctx));
    assert(!row_fires(25, key, false, ctx));
    assert(!row_fires(26, key, false, ctx));
    assert(!row_fires(27, key, false, ctx));
    assert(!row_fires(28, key, false, ctx));
    assert(!row_fires(29, key, false, ctx));
    assert(!row_fires(30, key, false, ctx));
    assert(!row_fires(31, key, false, ctx));
    lemma_resolve_hits(32, key, false, ctx, 0);
}

/// The table is a single source of truth: with every guard off, the chord
/// an unguarded action is labelled with in a mode resolves back to that
/// action in that mode.
pub proof fn law_labels_resolve_back(i: int, strict: bool, ctx: Ctx)
    requires
        0 <= i < BINDING_COUNT,
        row(i).context == Context::Always,
        chords_for(row(i), strict).len() > 0,
        quiet(ctx),
    ensures
        resolved(press(chords_for(row(i), strict)[0]), strict, ctx) == Some(row(i).id),
{
    if i == 5 && !strict {
        lemma_no_drift_5_plain(ctx);
    } else if i == 5 && strict {
        lemma_no_drift_5_strict(ctx);
    } else if i == 6 && !strict {
        lemma_no_drift_6_plain(ctx);
    } else if i == 6 && strict {
        lemma_no_drift_6_strict(ctx);
    } else if i == 7 && !strict {
        lemma_no_drift_7_plain(ctx);
    } else if i == 7 && strict {
        lemma_no_drift_7_strict(ctx);
    } else if i == 8 && !strict {
        lemma_no_drift_8_plain(ctx);
    } else if i == 8 && strict {
        lemma_no_drift_8_strict(ctx);
    } else if i == 9 && !strict {
        lemma_no_drift_9_plain(ctx);
    } else if i == 9 && strict {
        lemma_no_drift_9_strict(ctx);
    } else if i == 10 && !strict {
        lemma_no_drift_10_plain(ctx);
    } else if i == 10 && strict {
        lemma_no_drift_10_strict(ctx);
    } else if i == 11 && !strict {
        lemma_no_drift_11_plain(ctx);
    } else if i == 11 && strict {
        lemma_no_drift_11_strict(ctx);
    } else if i == 12 && !strict {
        lemma_no_drift_12_plain(ctx);
    } else if i == 12 && strict {
        lemma_no_drift_12_strict(ctx);
    } else if i == 13 && !strict {
        lemma_no_drift_13_plain(ctx);
    } else if i == 13 && strict {
        lemma_no_drift_13_strict(ctx);
    } else if i == 14 && !strict {
        lemma_no_drift_14_plain(ctx);
    } else if i == 14 && strict {
        lemma_no_drift_14_strict(ctx);
    } else if i == 15 && !strict {
        lemma_no_drift_15_plain(ctx);
    } else if i == 15 && strict {
        lemma_no_drift_15_strict(ctx);
    } else if i == 16 && !strict {
        lemma_no_drift_16_plain(ctx);
    } else if i == 16 && strict {
        lemma_no_drift_16_strict(ctx);
    } else if i == 17 && !strict {
        lemma_no_drift_17_plain(ctx);
    } else if i == 17 && strict {
        lemma_no_drift_17_strict(ctx);
    } else if i == 18 && !strict {
        lemma_no_drift_18_plain(ctx);
    } else if i == 18 && strict {
        lemma_no_drift_18_strict(ctx);
    } else if i == 19 && !strict {
        lemma_no_drift_19_plain(ctx);
    } else if i == 19 && strict {
        lemma_no_drift_19_strict(ctx);
    } else if i == 20 && !strict {
        lemma_no_drift_20_plain(ctx);
    } else if i == 20 && strict {
        lemma_no_drift_20_strict(ctx);
    } else if i == 21 && !strict {
        lemma_no_drift_21_plain(ctx);
    } else if i == 21 && strict {
        lemma_no_drift_21_strict(ctx);
    } else if i == 23 && !strict {
        lemma_no_drift_23_plain(ctx);
    } else if i == 23 && strict {
        lemma_no_drift_23_strict(ctx);
    } else if i == 24 && !strict {
        lemma_no_drift_24_plain(ctx);
    } else if i == 24 && strict {
        lemma_no_drift_24_strict(ctx);
    } else if i == 25 && !strict {
        lemma_no_drift_25_plain(ctx);
    } else if i == 25 && strict {
        lemma_no_drift_25_strict(ctx);
    } else if i == 27 && !strict {
        lemma_no_drift_27_plain(ctx);
    } else if i == 27 && strict {
        lemma_no_drift_27_strict(ctx);
    } else if i == 28 && !strict {
        lemma_no_drift_28_plain(ctx);
    } else if i == 28 && strict {
        lemma_no_drift_28_strict(ctx);
    } else if i == 29 && !strict {
        lemma_no_drift_29_plain(ctx);
    } else if i == 29 && strict {
        lemma_no_drift_29_strict(ctx);
    } else if i == 30 && !strict {
        lemma_no_drift_30_plain(ctx);
    } else if i == 30 && strict {
        lemma_no_drift_30_strict(ctx);
    } else if i == 31 && !strict {
        lemma_no_drift_31_plain(ctx);
    } else if i == 31 && strict {
        lemma_no_drift_31_strict(ctx);
    } else if i == 32 && !strict {
        lemma_no_drift_32_plain(ctx);
    }
}
/// Kebab case: one or more runs of lowercase letters joined by single
/// hyphens.
pub open spec fn kebab_case(s: Seq<char>) -> bool {
    &&& s.len() > 0
    &&& s[0] != '-'
    &&& s[s.len() - 1] != '-'
    &&& forall|i: int|
        0 <= i < s.len() ==> ('a' <= #[trigger] s[i] <= 'z' || (s[i] == '-' && i + 1 < s.len() && s[i + 1] != '-'))
}

/// The length and the first and two last characters of a name: enough to
/// tell the palette ids apart.
spec fn id_key(s: Seq<char>) -> (nat, char, char, char) {
    (s.len(), s[0], s[s.len() - 2], s[s.len() - 1])
}

/// The action whose palette id has key `k`.
spec fn action_of_key(k: (nat, char, char, char)) -> Option<ActionId> {
    if k == (11nat, 'n', 'o', 'n') {
        Some(ActionId::NewSession)
    } else if k == (18nat, 'n', 'o', 'n') {
        Some(ActionId::NewFromSelection)
    } else if k == (16nat, 'n', 'c', 't') {
        Some(ActionId::NewFromProject)
    } else if k == (15nat, 'a', 'a', 'l') {
        Some(ActionId::AttachTerminal)
    } else if k == (11nat, 't', 'e', 'w') {
        Some(ActionId::ToggleView)
    } else if k == (12nat, 's', 'g', 'e') {
        Some(ActionId::SendMessage)
    } else if k == (4nat, 's', 'o', 'p') {
        Some(ActionId::Stop)
    } else if k == (6nat, 'd', 't', 'e') {
        Some(ActionId::Delete)
    } else if k == (6nat, 'r', 'm', 'e') {
        Some(ActionId::Rename)
    } else if k == (17nat, 's', 'm', 'e') {
        Some(ActionId::SetWorktreeName)
    } else if k == (4nat, 'd', 'f', 'f') {
        Some(ActionId::Diff)
    } else if k == (5nat, 's', 'v', 'e') {
        Some(ActionId::Serve)
    } else if k == (8nat, 's', 'g', 's') {
        Some(ActionId::Settings)
    } else if k == (8nat, 'p', 'e', 's') {
        Some(ActionId::Profiles)
    } else if k == (8nat, 'p', 't', 's') {
        Some(ActionId::Projects)
    } else if k == (7nat, 'r', 'r', 't') {
        Some(ActionId::Restart)
    } else if k == (7nat, 'a', 'v', 'e') {
        Some(ActionId::ToggleArchive)
    } else if k == (8nat, 'f', 't', 'e') {
        Some(ActionId::ToggleFavorite)
    } else if k == (6nat, 's', 'z', 'e') {
        Some(ActionId::ToggleSnooze)
    } else if k == (13nat, 't', 'a', 'd') {
        Some(ActionId::ToggleUnread)
    } else if k == (19nat, 't', 'f', 'o') {
        Some(ActionId::TogglePreviewInfo)
    } else if k == (9nat, 'p', 'r', 't') {
        Some(ActionId::SortPicker)
    } else if k == (13nat, 'p', 'b', 'y') {
        Some(ActionId::GroupBy)
    } else if k == (4nat, 'h', 'l', 'p') {
        Some(ActionId::Help)
    } else if k == (12nat, 'n', 'n', 'g') {
        Some(ActionId::NextWaiting)
    } else if k == (4nat, 'q', 'i', 't') {
        Some(ActionId::Quit)
    } else if k == (11nat, 't', 'e', 'r') {
        Some(ActionId::ToolPicker)
    } else if k == (6nat, 's', 'c', 'h') {
        Some(ActionId::SearchStart)
    } else if k == (11nat, 's', 'x', 't') {
        Some(ActionId::SearchNext)
    } else if k == (11nat, 's', 'e', 'v') {
        Some(ActionId::SearchPrev)
    } else if k == (6nat, 'u', 't', 'e') {
        Some(ActionId::Update)
    } else if k == (16nat, 't', 'e', 'r') {
        Some(ActionId::ToggleContainer)
    } else if k == (18nat, 't', 'i', 'n') {
        Some(ActionId::ToggleProjectPin)
    } else if k == (4nat, 't', 'p', 's') {
        Some(ActionId::Tips)
    } else if k == (7nat, 'p', 'n', 's') {
        Some(ActionId::Plugins)
    } else if k == (4nat, 'f', 'r', 'k') {
        Some(ActionId::Fork)
    } else {
        None
    }
}

proof fn lemma_palette_name_facts(id: ActionId)
    ensures
        kebab_case(palette_name(id)@),
        action_of_key(id_key(palette_name(id)@)) == Some(id),
{
    match id {
        ActionId::NewSession => {
            reveal_strlit("new-session");
        },
        ActionId::NewFromSelection => {
            reveal_strlit("new-from-selection");
        },
        ActionId::NewFromProject => {
            reveal_strlit("new-from-project");
        },
        ActionId::AttachTerminal => {
            reveal_strlit("attach-terminal");
        },
        ActionId::ToggleView => {
            reveal_strlit("toggle-view");
        },
        ActionId::SendMessage => {
            reveal_strlit("send-message");
        },
        ActionId::Stop => {
            reveal_strlit("stop");
        },
        ActionId::Delete => {
            reveal_strlit("delete");
        },
        ActionId::Rename => {
            reveal_strlit("rename");
        },
        ActionId::SetWorktreeName => {
            reveal_strlit("set-worktree-name");
        },
        ActionId::Diff => {
            reveal_strlit("diff");
        },
        ActionId::Serve => {
            reveal_strlit("serve");
        },
        ActionId::Settings => {
            reveal_strlit("settings");
        },
        ActionId::Profiles => {
            reveal_strlit("profiles");
        },
        ActionId::Projects => {
            reveal_strlit("projects");
        },
        ActionId::Restart => {
            reveal_strlit("restart");
        },
        ActionId::ToggleArchive => {
            reveal_strlit("archive");
        },
        ActionId::ToggleFavorite => {
            reveal_strlit("favorite");
        },
        ActionId::ToggleSnooze => {
            reveal_strlit("snooze");
        },
        ActionId::ToggleUnread => {
            reveal_strlit("toggle-unread");
        },
        ActionId::TogglePreviewInfo => {
            reveal_strlit("toggle-preview-info");
        },
        ActionId::SortPicker => {
            reveal_strlit("pick-sort");
        },
        ActionId::GroupBy => {
            reveal_strlit("pick-group-by");
        },
        ActionId::Help => {
            reveal_strlit("help");
        },
        ActionId::NextWaiting => {
            reveal_strlit("next-waiting");
        },
        ActionId::Quit => {
            reveal_strlit("quit");
        },
        ActionId::ToolPicker => {
            reveal_strlit("tool-picker");
        },
        ActionId::SearchStart => {
            reveal_strlit("search");
        },
        ActionId::SearchNext => {
            reveal_strlit("search-next");
        },
        ActionId::SearchPrev => {
            reveal_strlit("search-prev");
        },
        ActionId::Update => {
            reveal_strlit("update");
        },
        ActionId::ToggleContainer => {
            reveal_strlit("toggle-container");
        },
        ActionId::ToggleProjectPin => {
            reveal_strlit("toggle-project-pin");
        },
        ActionId::Tips => {
            reveal_strlit("tips");
        },
        ActionId::Plugins => {
            reveal_strlit("plugins");
        },
        ActionId::Fork => {
            reveal_strlit("fork");
        },
    }
}

/// Palette ids are kebab-case, and no two actions share one.
pub proof fn law_palette_ids_distinct(a: ActionId, b: ActionId)
    ensures
        kebab_case(palette_name(a)@),
        a != b ==> palette_name(a)@ != palette_name(b)@,
{
    lemma_palette_name_facts(a);
    lemma_palette_name_facts(b);
}

} // verus!
