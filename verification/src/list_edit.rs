//! The list editor of the settings view: moving through a list field's
//! items, deleting them, and adding or replacing an item through the item
//! editor, with entries validated before they are stored.
use vstd::prelude::*;
use crate::settings::{
    acp_cmd_verdict, agent_key_value_verdict, custom_agent_verdict, detect_as_verdict,
    result_view, validate_acp_cmd_entry, validate_agent_key_value, validate_custom_agent_entry,
    validate_detect_as_entry,
};
use crate::text::{chars_of, owned};

verus! {

/// How the entries of a list field are checked before they are stored.
#[derive(Debug, Clone, Copy, PartialEq, Eq, Structural)]
pub enum ListItemValidation {
    Plain,
    AgentKeyValue,
    CustomAgent,
    DetectAs,
    AcpCmd,
    /// Environment entries are stored as typed; their variable references
    /// are checked afterwards and only warned about.
    EnvEntry,
}

/// State of the list editor: the selected item, the item editor's text
/// while an item is being edited, and whether that edit adds a new item.
pub struct ListEditState {
    pub selected_index: usize,
    pub editing_item: Option<String>,
    pub adding_new: bool,
}

/// The content of a [`ListEditState`].
pub struct ListEditView {
    pub selected_index: nat,
    pub editing_item: Option<Seq<char>>,
    pub adding_new: bool,
}

impl View for ListEditState {
    type V = ListEditView;

    open spec fn view(&self) -> ListEditView {
        ListEditView {
            selected_index: self.selected_index as nat,
            editing_item: match self.editing_item {
                Some(t) => Some(t@),
                None => None,
            },
            adding_new: self.adding_new,
        }
    }
}

/// The selection points at an item, or the list is empty.
pub open spec fn index_valid(s: ListEditView, items: Seq<String>) -> bool {
    items.len() == 0 || s.selected_index < items.len()
}

/// A key of the list editor while no item is being edited.
#[derive(Debug, Clone, Copy, PartialEq, Eq, Structural)]
pub enum ListKey {
    Esc,
    Up,
    Down,
    Add,
    Delete,
    Edit,
    Other,
}

/// What the list editor asks of the view after a key.
#[derive(Debug, Clone, Copy, PartialEq, Eq, Structural)]
pub enum ListAction {
    /// Nothing more to do.
    Continue,
    /// Close the list editor.
    Close,
    /// The list changed: write the field back to the config.
    Apply,
}

impl ListEditState {
    /// A fresh list editor on the first item.
    pub fn new() -> (r: Self)
        ensures
            r@ == (ListEditView { selected_index: 0, editing_item: None, adding_new: false }),
    {
        ListEditState { selected_index: 0, editing_item: None, adding_new: false }
    }
}

/// The list editor after `key` while no item is being edited: Up and Down
/// move within the list, Add opens an empty item editor for a new item,
/// Delete removes the selected item (moving the selection onto the new last
/// item when it fell off the end), Edit opens the editor on the selected
/// item, Esc closes.
pub open spec fn after_list_key(s: ListEditView, items: Seq<Seq<char>>, key: ListKey) -> (ListEditView, Seq<Seq<char>>, ListAction) {
    match key {
        ListKey::Esc => (s, items, ListAction::Close),
        ListKey::Up => if s.selected_index > 0 {
            (ListEditView { selected_index: (s.selected_index - 1) as nat, ..s }, items, ListAction::Continue)
        } else {
            (s, items, ListAction::Continue)
        },
        ListKey::Down => if s.selected_index + 1 < items.len() {
            (ListEditView { selected_index: s.selected_index + 1, ..s }, items, ListAction::Continue)
        } else {
            (s, items, ListAction::Continue)
        },
        ListKey::Add => (ListEditView { editing_item: Some(seq![]), adding_new: true, ..s }, items, ListAction::Continue),
        ListKey::Delete => if items.len() > 0 && s.selected_index < items.len() {
            let rest = items.remove(s.selected_index as int);
            let sel = if s.selected_index >= rest.len() && rest.len() > 0 {
                (rest.len() - 1) as nat
            } else {
                s.selected_index
            };
            (ListEditView { selected_index: sel, ..s }, rest, ListAction::Apply)
        } else {
            (s, items, ListAction::Apply)
        },
        ListKey::Edit => if items.len() > 0 && s.selected_index < items.len() {
            (ListEditView { editing_item: Some(items[s.selected_index as int]), ..s }, items, ListAction::Continue)
        } else {
            (s, items, ListAction::Continue)
        },
        ListKey::Other => (s, items, ListAction::Continue),
    }
}

pub open spec fn item_views(items: Seq<String>) -> Seq<Seq<char>> {
    items.map_values(|t: String| t@)
}

/// Handle a list-editor key while no item is being edited.
pub fn handle_list_key(state: &mut ListEditState, items: &mut Vec<String>, key: ListKey) -> (r: ListAction)
    requires
        old(state).editing_item is None,
    ensures
        (final(state)@, item_views(final(items)@), r) == after_list_key(old(state)@, item_views(old(items)@), key),
        index_valid(old(state)@, old(items)@) ==> index_valid(final(state)@, final(items)@),
{
    match key {
        ListKey::Esc => ListAction::Close,
        ListKey::Up => {
            if state.selected_index > 0 {
                state.selected_index = state.selected_index - 1;
            }
            ListAction::Continue
        },
        ListKey::Down => {
            if state.selected_index < items.len() && state.selected_index + 1 < items.len() {
                state.selected_index = state.selected_index + 1;
            }
            ListAction::Continue
        },
        ListKey::Add => {
            state.adding_new = true;
            state.editing_item = Some(String::new());
            ListAction::Continue
        },
        ListKey::Delete => {
            let sel = state.selected_index;
            if items.len() > 0 && sel < items.len() {
                let ghost before = items@;
                items.remove(sel);
                assert(item_views(items@) =~= item_views(before).remove(sel as int));
                if sel >= items.len() && items.len() > 0 {
                    state.selected_index = items.len() - 1;
                }
            }
            ListAction::Apply
        },
        ListKey::Edit => {
            if items.len() > 0 && state.selected_index < items.len() {
                state.editing_item = Some(owned(items[state.selected_index].as_str()));
            }
            ListAction::Continue
        },
        ListKey::Other => ListAction::Continue,
    }
}

// ---------------------------------------------------------------------------
// The item editor
// ---------------------------------------------------------------------------
/// What committing an item editor's text leads to.
#[derive(Debug, Clone, PartialEq, Eq)]
pub enum ItemOutcome {
    /// The entry was refused with this message; the editor stays open on the
    /// text.
    Rejected(String),
    /// The entry was stored: write the field back to the config, and check
    /// the entry's environment references (warning only) when `env_check`,
    /// else clear the error message.
    Stored { env_check: bool },
    /// The text was empty: the editor closed and nothing was stored.
    Discarded,
}

/// The verdict of an entry's validation, if its field validates entries.
pub open spec fn entry_verdict(v: ListItemValidation, text: Seq<char>, agents: Seq<String>) -> Option<Result<(), Seq<char>>> {
    match v {
        ListItemValidation::AgentKeyValue => Some(agent_key_value_verdict(text, agents)),
        ListItemValidation::CustomAgent => Some(custom_agent_verdict(text, agents)),
        ListItemValidation::DetectAs => Some(detect_as_verdict(text, agents)),
        ListItemValidation::AcpCmd => Some(acp_cmd_verdict(text, agents)),
        ListItemValidation::Plain | ListItemValidation::EnvEntry => None,
    }
}

fn validate_entry(v: ListItemValidation, text: &str, agents: &[String]) -> (r: Option<Result<(), String>>)
    ensures
        match r {
            Some(res) => entry_verdict(v, text@, agents@) == Some(result_view(res)),
            None => entry_verdict(v, text@, agents@) is None,
        },
{
    match v {
        ListItemValidation::AgentKeyValue => Some(validate_agent_key_value(text, agents)),
        ListItemValidation::CustomAgent => Some(validate_custom_agent_entry(text, agents)),
        ListItemValidation::DetectAs => Some(validate_detect_as_entry(text, agents)),
        ListItemValidation::AcpCmd => Some(validate_acp_cmd_entry(text, agents)),
        ListItemValidation::Plain | ListItemValidation::EnvEntry => None,
    }
}

/// Commit the item editor's `text`: an empty text closes the editor; a text
/// its field's validation refuses reopens the editor on it; any other text
/// is appended (selecting it) when adding, else replaces the selected item.
pub fn commit_list_item(
    state: &mut ListEditState,
    items: &mut Vec<String>,
    text: String,
    validation: ListItemValidation,
    agents: &[String],
) -> (r: ItemOutcome)
    requires
        old(state).editing_item is Some,
    ensures
        index_valid(old(state)@, old(items)@) ==> index_valid(final(state)@, final(items)@),
        text@.len() == 0 ==> {
            &&& r == ItemOutcome::Discarded
            &&& final(state)@ == (ListEditView { editing_item: None, adding_new: false, ..old(state)@ })
            &&& final(items)@ == old(items)@
        },
        text@.len() > 0 ==> match entry_verdict(validation, text@, agents@) {
            Some(Err(msg)) => {
                &&& r matches ItemOutcome::Rejected(m) && m@ == msg
                &&& final(state)@ == (ListEditView { editing_item: Some(text@), ..old(state)@ })
                &&& final(items)@ == old(items)@
            },
            _ => {
                &&& r == (ItemOutcome::Stored { env_check: validation == ListItemValidation::EnvEntry })
                &&& final(state)@.editing_item is None
                &&& !final(state)@.adding_new
                &&& if old(state)@.adding_new {
                    &&& item_views(final(items)@) == item_views(old(items)@).push(text@)
                    &&& final(state)@.selected_index == old(items)@.len()
                } else if old(state)@.selected_index < old(items)@.len() {
                    &&& item_views(final(items)@) == item_views(old(items)@).update(
                        old(state)@.selected_index as int,
                        text@,
                    )
                    &&& final(state)@.selected_index == old(state)@.selected_index
                } else {
                    &&& final(items)@ == old(items)@
                    &&& final(state)@.selected_index == old(state)@.selected_index
                }
            },
        },
{
    let adding_new = state.adding_new;
    state.editing_item = None;
    state.adding_new = false;
    if chars_of(text.as_str()).len() == 0 {
        return ItemOutcome::Discarded;
    }
    if let Some(Err(msg)) = validate_entry(validation, text.as_str(), agents) {
        state.editing_item = Some(text);
        state.adding_new = adding_new;
        return ItemOutcome::Rejected(msg);
    }
    let ghost before = items@;
    if adding_new {
        items.push(text);
        assert(item_views(items@) =~= item_views(before).push(text@));
        state.selected_index = items.len() - 1;
    } else if state.selected_index < items.len() {
        let sel = state.selected_index;
        items.set(sel, text);
        assert(item_views(items@) =~= item_views(before).update(sel as int, text@));
    }
    ItemOutcome::Stored { env_check: validation == ListItemValidation::EnvEntry }
}

/// Close the item editor without storing anything.
pub fn cancel_list_item(state: &mut ListEditState)
    ensures
        final(state)@ == (ListEditView { editing_item: None, adding_new: false, ..old(state)@ }),
{
    state.editing_item = None;
    state.adding_new = false;
}

} // verus!
