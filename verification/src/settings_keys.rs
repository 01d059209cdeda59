//! Key decisions of the settings view: closing with or without unsaved
//! changes, moving focus, the profiles to cycle through, what Enter does on
//! a field and in the text editor, and what stops a save.
use vstd::prelude::*;
use crate::settings::{SettingsAction, SettingsFocus};
use crate::themes::{names_sorted, sort_names};
use crate::text::{str_eq, push_all, contains_name, names_of, chars_of, is_digit, lemma_decimal_string_reads_back, decimal_string, decimal_text, owned, parse_unsigned, parse_unsigned_chars, seq_eq};

verus! {

/// What `q` does: warn about unsaved changes, else close.
pub fn quit_action(has_changes: bool) -> (r: SettingsAction)
    ensures
        (r is UnsavedChangesWarning) == has_changes,
        (r is Close) == !has_changes,
{
    if has_changes {
        SettingsAction::UnsavedChangesWarning
    } else {
        SettingsAction::Close
    }
}

/// What Esc does: from the fields, step back to the categories; from the
/// categories, close as `q` does.
pub fn escape_action(focus: SettingsFocus, has_changes: bool) -> (r: (SettingsFocus, SettingsAction))
    ensures
        focus == SettingsFocus::Fields ==> r.0 == SettingsFocus::Categories && r.1 is Continue,
        focus == SettingsFocus::Categories ==> r.0 == SettingsFocus::Categories && (r.1 is UnsavedChangesWarning)
            == has_changes && (r.1 is Close) == !has_changes,
{
    match focus {
        SettingsFocus::Fields => (SettingsFocus::Categories, SettingsAction::Continue),
        SettingsFocus::Categories => (SettingsFocus::Categories, quit_action(has_changes)),
    }
}

// ---------------------------------------------------------------------------
// Profile cycling
// ---------------------------------------------------------------------------
/// Index of the first profile named `name`, or 0 when none is.
pub open spec fn profile_index(profiles: Seq<Seq<char>>, name: Seq<char>, j: nat) -> nat
    decreases profiles.len() - j,
{
    if j >= profiles.len() {
        0
    } else if profiles[j as int] == name {
        j
    } else {
        profile_index(profiles, name, j + 1)
    }
}

/// The index `}` (forward) or `{` moves to from `i` among `n` profiles,
/// wrapping around.
pub open spec fn cycled(i: nat, n: nat, forward: bool) -> nat {
    if forward {
        (((i + 1) as int) % (n as int)) as nat
    } else if i == 0 {
        (n - 1) as nat
    } else {
        (i - 1) as nat
    }
}

pub open spec fn profile_names(profiles: Seq<String>) -> Seq<Seq<char>> {
    profiles.map_values(|p: String| p@)
}

/// The profile `}` (forward) or `{` switches to: the next or previous one
/// after the current profile (the first when the current one is not
/// listed), wrapping around; `None` when there are no profiles.
pub fn cycle_profile(profiles: &[String], current: &str, forward: bool) -> (r: Option<usize>)
    ensures
        profiles@.len() == 0 ==> r is None,
        profiles@.len() > 0 ==> r == Some(
            cycled(profile_index(profile_names(profiles@), current@, 0), profiles@.len(), forward) as usize,
        ),
{
    let n = profiles.len();
    if n == 0 {
        return None;
    }
    let cur = chars_of(current);
    let ghost pn = profile_names(profiles@);
    let mut i: usize = 0;
    let mut found = false;
    while i < n && !found
        invariant
            n == profiles@.len(),
            pn == profile_names(profiles@),
            cur@ == current@,
            i <= n,
            found ==> i < n && pn[i as int] == current@,
            found ==> profile_index(pn, current@, 0) == i,
            !found ==> profile_index(pn, current@, 0) == profile_index(pn, current@, i as nat),
        decreases n - i, if found { 0int } else { 1int },
    {
        let p = chars_of(profiles[i].as_str());
        assert(pn[i as int] == profiles@[i as int]@);
        if seq_eq(&p, &cur) {
            found = true;
        } else {
            i = i + 1;
        }
    }
    let idx: usize = if found { i } else { 0 };
    proof {
        lemma_profile_index_bound(pn, current@, 0);
    }
    let next: usize = if forward {
        (idx + 1) % n
    } else if idx == 0 {
        n - 1
    } else {
        idx - 1
    };
    Some(next)
}

proof fn lemma_profile_index_bound(profiles: Seq<Seq<char>>, name: Seq<char>, j: nat)
    ensures
        profile_index(profiles, name, j) == 0 || profile_index(profiles, name, j) < profiles.len(),
    decreases profiles.len() - j,
{
    if j < profiles.len() && profiles[j as int] != name {
        lemma_profile_index_bound(profiles, name, j + 1);
    }
}

/// `{` undoes `}` and `}` undoes `{`.
pub proof fn law_profile_cycle_undo(i: nat, n: nat)
    requires
        i < n,
    ensures
        cycled(cycled(i, n, true), n, false) == i,
        cycled(cycled(i, n, false), n, true) == i,
{
    if i + 1 < n {
        vstd::arithmetic::div_mod::lemma_small_mod((i + 1) as nat, n);
    } else {
        assert(((i + 1) as int) % (n as int) == 0) by {
            assert(i + 1 == n);
        }
    }
    if i > 0 {
        vstd::arithmetic::div_mod::lemma_small_mod(i, n);
    } else {
        assert((n as int) % (n as int) == 0);
    }
}

/// The profiles `{` and `}` cycle through: the listed ones, and, when the
/// current profile is not among them, the current one too, all in name
/// order.
pub fn profile_choices(listed: Vec<String>, current: &str) -> (r: Vec<String>)
    ensures
        names_of(listed@).contains(current@) ==> names_of(r@) == names_of(listed@),
        !names_of(listed@).contains(current@) ==> names_sorted(names_of(r@)) && names_of(r@).to_multiset()
            == names_of(listed@).push(current@).to_multiset(),
        names_of(r@).contains(current@),
{
    let cur = chars_of(current);
    if contains_name(listed.as_slice(), &cur) {
        return listed;
    }
    let mut all = listed;
    let ghost before = all@;
    all.push(owned(current));
    assert(names_of(all@) =~= names_of(before).push(current@));
    let r = sort_names(all);
    proof {
        assert(names_of(before).push(current@).to_multiset().count(current@) > 0) by {
            vstd::seq_lib::to_multiset_build(names_of(before), current@);
        }
        vstd::seq_lib::to_multiset_contains(names_of(r@), current@);
    }
    r
}

/// The first field from `j` on whose value is refused, or -1.
pub open spec fn first_refused(checks: Seq<(String, Result<(), String>)>, j: nat) -> int
    decreases checks.len() - j,
{
    if j >= checks.len() {
        -1
    } else if checks[j as int].1 is Err {
        j as int
    } else {
        first_refused(checks, j + 1)
    }
}

/// The message for a refused field: its label, a colon, a space, the
/// reason.
pub open spec fn refusal_message(label: Seq<char>, reason: Seq<char>) -> Seq<char> {
    label + seq![':', ' '] + reason
}

/// What stops a save: for the fields' checks `(label, verdict)` in order,
/// the message of the first refused one; `None` when every field passes.
pub fn save_error(checks: &[(String, Result<(), String>)]) -> (r: Option<String>)
    ensures
        first_refused(checks@, 0) == -1 ==> r is None,
        first_refused(checks@, 0) != -1 ==> 0 <= first_refused(checks@, 0) < checks@.len() && match checks@[first_refused(
            checks@,
            0,
        )].1 {
            Err(e) => r matches Some(m) && m@ == refusal_message(checks@[first_refused(checks@, 0)].0@, e@),
            Ok(_) => false,
        },
{
    let mut i: usize = 0;
    while i < checks.len()
        invariant
            i <= checks@.len(),
            first_refused(checks@, 0) == first_refused(checks@, i as nat),
        decreases checks@.len() - i,
    {
        match &checks[i].1 {
            Err(e) => {
                let mut m = owned(checks[i].0.as_str());
                m.push(':');
                m.push(' ');
                push_all(&mut m, e.as_str());
                return Some(m);
            },
            Ok(_) => {},
        }
        i = i + 1;
    }
    None
}

// ---------------------------------------------------------------------------
// Enter on a field
// ---------------------------------------------------------------------------
/// The value of a settings field.
pub enum FieldValue {
    Bool(bool),
    Text(String),
    OptionalText(Option<String>),
    /// A numeric field.
    Number(u64),
    Select { selected: usize, options: Vec<String> },
    List(Vec<String>),
    /// A non-interactive section divider.
    SectionHeader,
}

/// What Enter on a field leads to.
#[derive(Debug, Clone, PartialEq, Eq)]
pub enum EnterEffect {
    /// The field's value changed: write it back to the config.
    Apply,
    /// The theme selection changed: write it back and preview this theme.
    ApplyAndPreviewTheme(String),
    /// Open the text editor on this text.
    EditText(String),
    /// Open the custom-instruction dialog.
    OpenInstructionDialog,
    /// Open the list editor.
    OpenListEditor,
    /// Nothing happens.
    Nothing,
}

/// Enter on a field: a switch flips, a selection moves to its next option
/// (wrapping; a theme selection previews the new theme), text and numbers
/// open the editor on their current text, a custom instruction opens its
/// dialog, a list opens the list editor; a section divider does nothing.
pub fn enter_field(value: &mut FieldValue, is_custom_instruction: bool, is_theme_name: bool) -> (r: EnterEffect)
    requires
        match *old(value) {
            FieldValue::Select { selected, options } => options@.len() > 0 && selected < usize::MAX,
            _ => true,
        },
    ensures
        match *old(value) {
            FieldValue::Bool(b) => r == EnterEffect::Apply && *final(value) == FieldValue::Bool(!b),
            FieldValue::Text(t) => r matches EnterEffect::EditText(e) && e@ == t@ && *final(value) == *old(value),
            FieldValue::OptionalText(t) => *final(value) == *old(value) && if is_custom_instruction {
                r == EnterEffect::OpenInstructionDialog
            } else {
                r matches EnterEffect::EditText(e) && e@ == match t {
                    Some(s) => s@,
                    None => Seq::<char>::empty(),
                }
            },
            FieldValue::Number(n) => r matches EnterEffect::EditText(e) && e@ == decimal_string(n as nat) && *final(value) == *old(value),
            FieldValue::Select { selected, options } => {
                let next = ((selected + 1) % (options@.len() as int)) as usize;
                &&& *final(value) matches FieldValue::Select { selected: s2, options: o2 } && s2 == next && o2@ == options@
                &&& if is_theme_name {
                    r matches EnterEffect::ApplyAndPreviewTheme(n) && n@ == options@[next as int]@
                } else {
                    r == EnterEffect::Apply
                }
            },
            FieldValue::List(_) => r == EnterEffect::OpenListEditor && *final(value) == *old(value),
            FieldValue::SectionHeader => r == EnterEffect::Nothing && *final(value) == *old(value),
        },
{
    match value {
        FieldValue::Bool(b) => {
            *b = !*b;
            EnterEffect::Apply
        },
        FieldValue::Text(t) => EnterEffect::EditText(owned(t.as_str())),
        FieldValue::OptionalText(t) => {
            if is_custom_instruction {
                EnterEffect::OpenInstructionDialog
            } else {
                match t {
                    Some(s) => EnterEffect::EditText(owned(s.as_str())),
                    None => EnterEffect::EditText(String::new()),
                }
            }
        },
        FieldValue::Number(n) => EnterEffect::EditText(decimal_text(*n)),
        FieldValue::Select { selected, options } => {
            let next = (*selected + 1) % options.len();
            *selected = next;
            if is_theme_name {
                EnterEffect::ApplyAndPreviewTheme(owned(options[next].as_str()))
            } else {
                EnterEffect::Apply
            }
        },
        FieldValue::List(_) => EnterEffect::OpenListEditor,
        FieldValue::SectionHeader => EnterEffect::Nothing,
    }
}

// ---------------------------------------------------------------------------
// Committing the text editor
// ---------------------------------------------------------------------------
/// The text the editor shows for a field: a text as it is, an absent
/// optional text as nothing, a number in decimal; `None` for the fields
/// that are not edited as text.
pub open spec fn edit_text(value: FieldValue) -> Option<Seq<char>> {
    match value {
        FieldValue::Text(t) => Some(t@),
        FieldValue::OptionalText(Some(t)) => Some(t@),
        FieldValue::OptionalText(None) => Some(Seq::empty()),
        FieldValue::Number(n) => Some(decimal_string(n as nat)),
        _ => None,
    }
}

/// The text the editor reopens with after a value was refused.
pub fn edit_text_of(value: &FieldValue) -> (r: Option<String>)
    ensures
        match r {
            Some(t) => edit_text(*value) == Some(t@),
            None => edit_text(*value) is None,
        },
{
    match value {
        FieldValue::Text(t) => Some(owned(t.as_str())),
        FieldValue::OptionalText(Some(t)) => Some(owned(t.as_str())),
        FieldValue::OptionalText(None) => Some(String::new()),
        FieldValue::Number(n) => Some(decimal_text(*n)),
        _ => None,
    }
}

/// What Enter in the text editor did to the field.
#[derive(Debug, Clone, Copy, PartialEq, Eq, Structural)]
pub enum TextCommit {
    /// The edited text became the field's value.
    Stored,
    /// The text is not a number: the field keeps its value and the editor
    /// stays open on the text.
    InvalidNumber,
}

/// Enter in the text editor: a text field takes the text, an optional text
/// takes it or becomes absent when it is empty, a number field takes the
/// number the text denotes (as `str::parse` reads it) or keeps its value
/// when the text is not one; other fields are left as they are.
pub fn commit_text_edit(value: &mut FieldValue, text: String) -> (r: TextCommit)
    ensures
        match *old(value) {
            FieldValue::Text(_) => r == TextCommit::Stored && (*final(value) matches FieldValue::Text(t) && t@ == text@),
            FieldValue::OptionalText(_) => r == TextCommit::Stored && if text@.len() == 0 {
                *final(value) == FieldValue::OptionalText(None)
            } else {
                *final(value) matches FieldValue::OptionalText(Some(t)) && t@ == text@
            },
            FieldValue::Number(_) => match parse_unsigned(text@, u64::MAX as nat) {
                Some(n) => r == TextCommit::Stored && *final(value) == FieldValue::Number(n as u64),
                None => r == TextCommit::InvalidNumber && *final(value) == *old(value),
            },
            _ => r == TextCommit::Stored && *final(value) == *old(value),
        },
{
    match value {
        FieldValue::Text(v) => {
            *v = text;
            TextCommit::Stored
        },
        FieldValue::OptionalText(v) => {
            let cs = chars_of(text.as_str());
            if cs.len() == 0 {
                *v = None;
            } else {
                *v = Some(text);
            }
            TextCommit::Stored
        },
        FieldValue::Number(v) => {
            let cs = chars_of(text.as_str());
            match parse_unsigned_chars(&cs, u64::MAX) {
                Some(n) => {
                    *v = n;
                    TextCommit::Stored
                },
                None => TextCommit::InvalidNumber,
            }
        },
        _ => TextCommit::Stored,
    }
}

/// A number field round-trips through the editor: Enter opens the editor on
/// the number's text, and Enter on that text stores the same number back.
pub proof fn law_number_edit_round_trip(n: u64)
    ensures
        parse_unsigned(decimal_string(n as nat), u64::MAX as nat) == Some(n as nat),
{
    lemma_decimal_string_reads_back(n as nat);
    let s = decimal_string(n as nat);
    assert(is_digit(s[0]));
}

// ---------------------------------------------------------------------------
// Key dispatch
// ---------------------------------------------------------------------------
/// A key of the settings view.
#[derive(Debug, Clone, Copy, PartialEq, Eq, Structural)]
pub enum SettingsKey {
    Char(char),
    Esc,
    Enter,
    Tab,
    BackTab,
    Left,
    Right,
    Up,
    Down,
    /// Any other key.
    Other,
}

/// What is open over the settings view when a key arrives.
#[derive(Debug, Clone, Copy, PartialEq, Eq, Structural)]
pub struct SettingsLayers {
    /// The custom-instruction dialog.
    pub instruction_dialog: bool,
    /// The help overlay.
    pub help: bool,
    /// The text editor.
    pub text_edit: bool,
    /// The list editor.
    pub list_edit: bool,
    /// The settings-wide search.
    pub search: bool,
    /// The Plugins category with the fields focused.
    pub plugins_focused: bool,
    /// A plugin's own settings are drilled into.
    pub plugin_settings: bool,
}

/// Who handles a key, and what it asks for.
#[derive(Debug, Clone, Copy, PartialEq, Eq, Structural)]
pub enum SettingsRoute {
    /// The custom-instruction dialog takes it.
    InstructionDialog,
    /// Close the help overlay.
    CloseHelp,
    /// The text editor takes it.
    TextEditor,
    /// The list editor takes it.
    ListEditor,
    /// The search overlay takes it.
    Search,
    /// The plugin manager takes it.
    PluginManager,
    /// Step back from a plugin's settings to the manager.
    ExitPluginSettings,
    /// Save (Ctrl+S).
    Save,
    /// Close (`q`).
    Quit,
    /// Step back (Esc).
    Escape,
    /// Next scope (`]`).
    ScopeNext,
    /// Previous scope (`[`).
    ScopePrev,
    /// Next (`}`) or previous (`{`) profile.
    CycleProfile { forward: bool },
    /// Focus the fields (Tab, Right, `l`).
    FocusFields,
    /// Focus the categories (BackTab, Left, `h`).
    FocusCategories,
    /// Move up (Up, `k`).
    MoveUp,
    /// Move down (Down, `j`).
    MoveDown,
    /// Flip a switch (Space).
    Toggle,
    /// Enter on the focused row.
    Enter,
    /// Open the help overlay (`?`).
    OpenHelp,
    /// Open the search (`/`).
    OpenSearch,
    /// Reset the field to its inherited value (`r`).
    ResetField,
    /// Nothing happens.
    Nothing,
}

/// The route of a key in the view with nothing open over it; `ctrl` is
/// whether Control alone was held.
pub open spec fn normal_route(key: SettingsKey, ctrl: bool) -> SettingsRoute {
    match key {
        SettingsKey::Char('s') if ctrl => SettingsRoute::Save,
        SettingsKey::Char('q') => SettingsRoute::Quit,
        SettingsKey::Esc => SettingsRoute::Escape,
        SettingsKey::Char(']') => SettingsRoute::ScopeNext,
        SettingsKey::Char('[') => SettingsRoute::ScopePrev,
        SettingsKey::Char('}') => SettingsRoute::CycleProfile { forward: true },
        SettingsKey::Char('{') => SettingsRoute::CycleProfile { forward: false },
        SettingsKey::Tab | SettingsKey::Right | SettingsKey::Char('l') => SettingsRoute::FocusFields,
        SettingsKey::BackTab | SettingsKey::Left | SettingsKey::Char('h') => SettingsRoute::FocusCategories,
        SettingsKey::Up | SettingsKey::Char('k') => SettingsRoute::MoveUp,
        SettingsKey::Down | SettingsKey::Char('j') => SettingsRoute::MoveDown,
        SettingsKey::Char(' ') => SettingsRoute::Toggle,
        SettingsKey::Enter => SettingsRoute::Enter,
        SettingsKey::Char('?') => SettingsRoute::OpenHelp,
        SettingsKey::Char('/') => SettingsRoute::OpenSearch,
        SettingsKey::Char('r') => SettingsRoute::ResetField,
        _ => SettingsRoute::Nothing,
    }
}

/// The route of a key: the innermost open layer takes it (the instruction
/// dialog, then help, which only closes on Esc, `?` and `q`, then the text
/// editor, the list editor and the search); on the Plugins category with
/// the fields focused the manager takes it, or, inside a plugin's settings,
/// Esc steps back and other keys go on as normal.
pub open spec fn settings_route(layers: SettingsLayers, key: SettingsKey, ctrl: bool) -> SettingsRoute {
    if layers.instruction_dialog {
        SettingsRoute::InstructionDialog
    } else if layers.help {
        if key == SettingsKey::Esc || key == SettingsKey::Char('?') || key == SettingsKey::Char('q') {
            SettingsRoute::CloseHelp
        } else {
            SettingsRoute::Nothing
        }
    } else if layers.text_edit {
        SettingsRoute::TextEditor
    } else if layers.list_edit {
        SettingsRoute::ListEditor
    } else if layers.search {
        SettingsRoute::Search
    } else if layers.plugins_focused && !layers.plugin_settings {
        SettingsRoute::PluginManager
    } else if layers.plugins_focused && key == SettingsKey::Esc {
        SettingsRoute::ExitPluginSettings
    } else {
        normal_route(key, ctrl)
    }
}

fn normal_route_exec(key: SettingsKey, ctrl: bool) -> (r: SettingsRoute)
    ensures
        r == normal_route(key, ctrl),
{
    match key {
        SettingsKey::Char('s') if ctrl => SettingsRoute::Save,
        SettingsKey::Char('q') => SettingsRoute::Quit,
        SettingsKey::Esc => SettingsRoute::Escape,
        SettingsKey::Char(']') => SettingsRoute::ScopeNext,
        SettingsKey::Char('[') => SettingsRoute::ScopePrev,
        SettingsKey::Char('}') => SettingsRoute::CycleProfile { forward: true },
        SettingsKey::Char('{') => SettingsRoute::CycleProfile { forward: false },
        SettingsKey::Tab | SettingsKey::Right | SettingsKey::Char('l') => SettingsRoute::FocusFields,
        SettingsKey::BackTab | SettingsKey::Left | SettingsKey::Char('h') => SettingsRoute::FocusCategories,
        SettingsKey::Up | SettingsKey::Char('k') => SettingsRoute::MoveUp,
        SettingsKey::Down | SettingsKey::Char('j') => SettingsRoute::MoveDown,
        SettingsKey::Char(' ') => SettingsRoute::Toggle,
        SettingsKey::Enter => SettingsRoute::Enter,
        SettingsKey::Char('?') => SettingsRoute::OpenHelp,
        SettingsKey::Char('/') => SettingsRoute::OpenSearch,
        SettingsKey::Char('r') => SettingsRoute::ResetField,
        _ => SettingsRoute::Nothing,
    }
}

/// Routes a key of the settings view (see `settings_route`).
pub fn route_settings_key(layers: SettingsLayers, key: SettingsKey, ctrl: bool) -> (r: SettingsRoute)
    ensures
        r == settings_route(layers, key, ctrl),
{
    if layers.instruction_dialog {
        SettingsRoute::InstructionDialog
    } else if layers.help {
        match key {
            SettingsKey::Esc | SettingsKey::Char('?') | SettingsKey::Char('q') => SettingsRoute::CloseHelp,
            _ => SettingsRoute::Nothing,
        }
    } else if layers.text_edit {
        SettingsRoute::TextEditor
    } else if layers.list_edit {
        SettingsRoute::ListEditor
    } else if layers.search {
        SettingsRoute::Search
    } else if layers.plugins_focused && !layers.plugin_settings {
        SettingsRoute::PluginManager
    } else if layers.plugins_focused && matches!(key, SettingsKey::Esc) {
        SettingsRoute::ExitPluginSettings
    } else {
        normal_route_exec(key, ctrl)
    }
}

/// What the settings view shows only until the next key: the mouse hover
/// and the success message with its expiry.
pub struct SettingsTransient {
    pub mouse_pos: Option<(u16, u16)>,
    pub success_message: Option<String>,
    pub success_expires_ms: Option<u64>,
}

impl SettingsTransient {
    /// Any key drops the hover highlight and the success message.
    pub fn on_key(&mut self)
        ensures
            final(self).mouse_pos is None,
            final(self).success_message is None,
            final(self).success_expires_ms is None,
    {
        self.mouse_pos = None;
        self.success_message = None;
        self.success_expires_ms = None;
    }
}

/// While the search is open (and no dialog, help or editor over it), every
/// key goes to the search: nothing else in the view is driven.
pub proof fn law_search_takes_every_key(layers: SettingsLayers, key: SettingsKey, ctrl: bool)
    requires
        layers.search,
        !layers.instruction_dialog,
        !layers.help,
        !layers.text_edit,
        !layers.list_edit,
    ensures
        settings_route(layers, key, ctrl) == SettingsRoute::Search,
{
}

// ---------------------------------------------------------------------------
// Unsaved changes
// ---------------------------------------------------------------------------
/// The configs as last saved or loaded, serialized: what "unsaved changes"
/// is measured against.
pub struct DirtyBaseline {
    pub global: String,
    pub profile: String,
    pub repo: String,
}

impl DirtyBaseline {
    /// Adopt the live configs (serialized) as the clean state, as loading
    /// the view and saving do.
    pub fn snapshot(global: &str, profile: &str, repo: &str) -> (r: Self)
        ensures
            r.global@ == global@,
            r.profile@ == profile@,
            r.repo@ == repo@,
    {
        DirtyBaseline { global: owned(global), profile: owned(profile), repo: owned(repo) }
    }

    /// Whether the live configs (serialized) differ from the clean state.
    /// The flag follows the diff, so an edit reverted to the saved value
    /// clears it.
    pub fn has_changes(&self, global: &str, profile: &str, repo: &str) -> (r: bool)
        ensures
            r == (global@ != self.global@ || profile@ != self.profile@ || repo@ != self.repo@),
    {
        !str_eq(global, self.global.as_str()) || !str_eq(profile, self.profile.as_str()) || !str_eq(
            repo,
            self.repo.as_str(),
        )
    }
}

} // verus!
