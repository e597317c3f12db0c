//! The popup's state and how it reacts to the user and to finished work.
//!
//! A [`Session`] holds the history, the filtered view of it, the selection and
//! the modes. Each reaction updates the session and appends the [`Effect`]s
//! that the user interface and the background work must carry out, in order.
//! Each reaction is specified as a transition of [`SessionView`].
use vstd::prelude::*;
use crate::config::{AppConfig, AppConfigView};
use crate::launch::{KeyCommand, KeyPress, key_command, key_command_spec};
use crate::thumbnails::Thumbnailer;
use crate::model::{
    ClipboardItem, ClipboardKind, ItemView, item_opt_view, items_view, parse_spec,
    search_normal_form,
};
use crate::text::{
    chars_equal, chars_of, contains, contains_chars, extend_chars, lower_chars,
    collapse_whitespace, string_of,
};

verus! {

broadcast use vstd::string::group_string_axioms;

// ---------------------------------------------------------------------------
// Effects
// ---------------------------------------------------------------------------

/// Which key hints the footer shows.
#[derive(Clone, Copy, Debug, PartialEq, Eq, Structural)]
pub enum HintSet {
    /// No hints (key hints are switched off).
    Hidden,
    /// The hints of the search field.
    Search,
    /// All list keys.
    Full,
    /// The most used list keys.
    Brief,
}

/// Something the user interface or the background work must do.
#[derive(Debug)]
pub enum Effect {
    /// Show a status line in place of the key hints.
    ShowStatus(String),
    /// Show key hints in place of the status line.
    ShowKeyHints(HintSet),
    /// Show the insert (`true`) or normal mode indicator.
    SetModeIndicator(bool),
    /// Show the popup.
    Present,
    /// Hide the popup (service mode keeps the process).
    Hide,
    /// Close the popup.
    Close,
    /// Focus the search field.
    FocusSearch,
    /// Focus the entry list.
    FocusList,
    /// Rebuild the rows from the visible entries and select row `selected`.
    Render { selected: usize },
    /// Select row `index`, focusing it when `focus` holds.
    SelectRow { index: usize, focus: bool },
    /// Ask for thumbnails of image entries near the selection.
    RequestThumbnails,
    /// Load the style sheets again.
    ReloadCss,
    /// Apply the window, search and behaviour settings to the popup.
    ApplyConfig,
    /// Start loading the history; the result comes back with `generation`.
    LoadHistory { generation: u64 },
    /// Start copying entry `index` of the history.
    CopyEntry { index: usize },
    /// Start deleting an entry.
    DeleteEntry { id: String, raw_line: String },
    /// Start wiping the history.
    ClearHistory,
    /// Keep the application alive while a copy runs.
    HoldApplication,
    /// Release one such hold.
    ReleaseApplication,
    /// After `millis` milliseconds, report that the status may be restored.
    RestoreStatusAfter { generation: u64, millis: u64 },
    /// Reload the history quietly a few times after a copy.
    RefreshAfterCopy,
    /// Start new thumbnail workers, tagged with `generation`.
    RestartThumbnailer { generation: u64 },
}

/// The content of an [`Effect`].
pub enum EffectView {
    ShowStatus(Seq<char>),
    ShowKeyHints(HintSet),
    SetModeIndicator(bool),
    Present,
    Hide,
    Close,
    FocusSearch,
    FocusList,
    Render { selected: usize },
    SelectRow { index: usize, focus: bool },
    RequestThumbnails,
    ReloadCss,
    ApplyConfig,
    LoadHistory { generation: u64 },
    CopyEntry { index: usize },
    DeleteEntry { id: Seq<char>, raw_line: Seq<char> },
    ClearHistory,
    HoldApplication,
    ReleaseApplication,
    RestoreStatusAfter { generation: u64, millis: u64 },
    RefreshAfterCopy,
    RestartThumbnailer { generation: u64 },
}

impl View for Effect {
    type V = EffectView;

    open spec fn view(&self) -> EffectView {
        match self {
            Effect::ShowStatus(s) => EffectView::ShowStatus(s@),
            Effect::ShowKeyHints(h) => EffectView::ShowKeyHints(*h),
            Effect::SetModeIndicator(b) => EffectView::SetModeIndicator(*b),
            Effect::Present => EffectView::Present,
            Effect::Hide => EffectView::Hide,
            Effect::Close => EffectView::Close,
            Effect::FocusSearch => EffectView::FocusSearch,
            Effect::FocusList => EffectView::FocusList,
            Effect::Render { selected } => EffectView::Render { selected: *selected },
            Effect::SelectRow { index, focus } => EffectView::SelectRow {
                index: *index,
                focus: *focus,
            },
            Effect::RequestThumbnails => EffectView::RequestThumbnails,
            Effect::ReloadCss => EffectView::ReloadCss,
            Effect::ApplyConfig => EffectView::ApplyConfig,
            Effect::LoadHistory { generation } => EffectView::LoadHistory {
                generation: *generation,
            },
            Effect::CopyEntry { index } => EffectView::CopyEntry { index: *index },
            Effect::DeleteEntry { id, raw_line } => EffectView::DeleteEntry {
                id: id@,
                raw_line: raw_line@,
            },
            Effect::ClearHistory => EffectView::ClearHistory,
            Effect::HoldApplication => EffectView::HoldApplication,
            Effect::ReleaseApplication => EffectView::ReleaseApplication,
            Effect::RestoreStatusAfter { generation, millis } => EffectView::RestoreStatusAfter {
                generation: *generation,
                millis: *millis,
            },
            Effect::RefreshAfterCopy => EffectView::RefreshAfterCopy,
            Effect::RestartThumbnailer { generation } => EffectView::RestartThumbnailer {
                generation: *generation,
            },
        }
    }
}

/// The views of a list of effects.
pub open spec fn effects_view(effects: Seq<Effect>) -> Seq<EffectView> {
    effects.map_values(|e: Effect| e@)
}

// ---------------------------------------------------------------------------
// Status texts
// ---------------------------------------------------------------------------

/// The status texts.
pub open spec fn loading_text() -> Seq<char> {
    "Loading clipboard history..."@
}

pub open spec fn no_history_text() -> Seq<char> {
    "No clipboard history"@
}

pub open spec fn no_matches_text() -> Seq<char> {
    "No matching clipboard entries"@
}

fn text(lit: &str) -> (r: String)
    ensures
        r@ == lit@,
{
    string_of(&chars_of(lit))
}

fn text_with(prefix: &str, detail: &str) -> (r: String)
    ensures
        r@ == prefix@ + detail@,
{
    let mut out = chars_of(prefix);
    extend_chars(&mut out, &chars_of(detail));
    string_of(&out)
}

/// The key and action texts of each set of key hints, in the order shown.
pub open spec fn hint_pairs(set: HintSet) -> Seq<(Seq<char>, Seq<char>)> {
    match set {
        HintSet::Hidden => Seq::empty(),
        HintSet::Search => seq![("type"@, "search"@), ("Esc"@, "normal"@)],
        HintSet::Full => seq![
            ("Enter/y"@, "copy"@),
            ("/"@, "search"@),
            ("g/G"@, "first/last"@),
            ("d"@, "delete"@),
            ("D"@, "clear"@),
            ("r/C-r"@, "reload"@),
            ("Esc/q"@, "quit"@),
            ("?"@, "hide"@),
        ],
        HintSet::Brief => seq![
            ("Enter/y"@, "copy"@),
            ("/"@, "search"@),
            ("j/k"@, "move"@),
            ("?"@, "more"@),
            ("q"@, "quit"@),
        ],
    }
}

fn push_hint(out: &mut Vec<(String, String)>, key: &str, action: &str)
    ensures
        pairs_view(final(out)@) == pairs_view(old(out)@).push((key@, action@)),
{
    let ghost before = pairs_view(out@);
    out.push((text(key), text(action)));
    assert(pairs_view(out@) =~= before.push((key@, action@)));
}

/// The key and action texts of a set of key hints.
pub fn key_hints(set: HintSet) -> (r: Vec<(String, String)>)
    ensures
        pairs_view(r@) == hint_pairs(set),
{
    let mut out: Vec<(String, String)> = Vec::new();
    match set {
        HintSet::Hidden => {},
        HintSet::Search => {
            push_hint(&mut out, "type", "search");
            push_hint(&mut out, "Esc", "normal");
        },
        HintSet::Full => {
            push_hint(&mut out, "Enter/y", "copy");
            push_hint(&mut out, "/", "search");
            push_hint(&mut out, "g/G", "first/last");
            push_hint(&mut out, "d", "delete");
            push_hint(&mut out, "D", "clear");
            push_hint(&mut out, "r/C-r", "reload");
            push_hint(&mut out, "Esc/q", "quit");
            push_hint(&mut out, "?", "hide");
        },
        HintSet::Brief => {
            push_hint(&mut out, "Enter/y", "copy");
            push_hint(&mut out, "/", "search");
            push_hint(&mut out, "j/k", "move");
            push_hint(&mut out, "?", "more");
            push_hint(&mut out, "q", "quit");
        },
    }
    assert(pairs_view(out@) =~= hint_pairs(set));
    out
}

// ---------------------------------------------------------------------------
// The session
// ---------------------------------------------------------------------------

/// The state of the popup.
pub struct Session {
    pub config: AppConfig,
    /// The history, newest first, as listed.
    pub items: Vec<ClipboardItem>,
    /// Indices into `items` of the entries that match the search, in order.
    pub visible: Vec<usize>,
    /// Position in `visible` of the selected row.
    pub selected: usize,
    pub reload_generation: u64,
    pub thumbnail_generation: u64,
    /// Thumbnail file of each entry id that has one.
    pub thumbnails: Vec<(String, String)>,
    /// Ids whose thumbnail is being made.
    pub requested_thumbnails: Vec<String>,
    /// Ids whose thumbnail could not be made.
    pub failed_thumbnails: Vec<String>,
    /// `D` was pressed once and waits for confirmation.
    pub pending_clear: bool,
    pub insert_mode: bool,
    pub show_keybind_help: bool,
    pub loading: bool,
    pub reload_updates_status: bool,
    pub status_generation: u64,
    pub close_after_copy_finishes: bool,
    pub service_mode: bool,
}

/// The content of a [`Session`].
#[verifier::ext_equal]
pub struct SessionView {
    pub config: AppConfigView,
    pub items: Seq<ItemView>,
    pub visible: Seq<usize>,
    pub selected: usize,
    pub reload_generation: u64,
    pub thumbnail_generation: u64,
    pub thumbnails: Seq<(Seq<char>, Seq<char>)>,
    pub requested_thumbnails: Seq<Seq<char>>,
    pub failed_thumbnails: Seq<Seq<char>>,
    pub pending_clear: bool,
    pub insert_mode: bool,
    pub show_keybind_help: bool,
    pub loading: bool,
    pub reload_updates_status: bool,
    pub status_generation: u64,
    pub close_after_copy_finishes: bool,
    pub service_mode: bool,
}

/// The views of a list of strings.
pub open spec fn strings_view(v: Seq<String>) -> Seq<Seq<char>> {
    v.map_values(|s: String| s@)
}

/// The views of a list of string pairs.
pub open spec fn pairs_view(v: Seq<(String, String)>) -> Seq<(Seq<char>, Seq<char>)> {
    v.map_values(|p: (String, String)| (p.0@, p.1@))
}

impl View for Session {
    type V = SessionView;

    open spec fn view(&self) -> SessionView {
        SessionView {
            config: self.config@,
            items: items_view(self.items@),
            visible: self.visible@,
            selected: self.selected,
            reload_generation: self.reload_generation,
            thumbnail_generation: self.thumbnail_generation,
            thumbnails: pairs_view(self.thumbnails@),
            requested_thumbnails: strings_view(self.requested_thumbnails@),
            failed_thumbnails: strings_view(self.failed_thumbnails@),
            pending_clear: self.pending_clear,
            insert_mode: self.insert_mode,
            show_keybind_help: self.show_keybind_help,
            loading: self.loading,
            reload_updates_status: self.reload_updates_status,
            status_generation: self.status_generation,
            close_after_copy_finishes: self.close_after_copy_finishes,
            service_mode: self.service_mode,
        }
    }
}

/// The generation after `g`, wrapping around.
pub open spec fn next_generation(g: u64) -> u64 {
    if g == u64::MAX {
        0
    } else {
        (g + 1) as u64
    }
}

fn bump(g: u64) -> (r: u64)
    ensures
        r == next_generation(g),
{
    if g == u64::MAX {
        0
    } else {
        g + 1
    }
}

/// An entry matches a normalised query: the query is empty or occurs in the
/// entry's search text.
pub open spec fn matches_query(item: ItemView, query: Seq<char>) -> bool {
    query.len() == 0 || contains(item.search_text, query)
}

/// The indices of the first `n` entries that match the query, in order.
pub open spec fn matching_upto(items: Seq<ItemView>, query: Seq<char>, n: nat) -> Seq<usize>
    decreases n,
{
    if n == 0 {
        Seq::empty()
    } else {
        let prev = matching_upto(items, query, (n - 1) as nat);
        if matches_query(items[n - 1], query) {
            prev.push((n - 1) as usize)
        } else {
            prev
        }
    }
}

/// The indices of the entries that match the query, in order.
pub open spec fn matching(items: Seq<ItemView>, query: Seq<char>) -> Seq<usize> {
    matching_upto(items, query, items.len())
}

/// The state is consistent: visible indices point into the history in
/// increasing order, and the selection is a visible row when there is one.
pub open spec fn consistent(s: SessionView) -> bool {
    &&& forall|i: int| 0 <= i < s.visible.len() ==> (#[trigger] s.visible[i]) < s.items.len()
    &&& forall|i: int, j: int| 0 <= i < j < s.visible.len() ==> s.visible[i] < s.visible[j]
    &&& s.visible.len() > 0 ==> s.selected < s.visible.len()
}

/// `s` without the strings equal to `x`.
pub open spec fn remove_all(s: Seq<Seq<char>>, x: Seq<char>) -> Seq<Seq<char>>
    decreases s.len(),
{
    if s.len() == 0 {
        s
    } else {
        let p = remove_all(s.drop_last(), x);
        if s.last() == x {
            p
        } else {
            p.push(s.last())
        }
    }
}

/// `s` with `x` added at the end unless it is already there.
pub open spec fn insert_once(s: Seq<Seq<char>>, x: Seq<char>) -> Seq<Seq<char>> {
    if s.contains(x) {
        s
    } else {
        s.push(x)
    }
}

/// The pairs of `m` whose key is not `key`.
pub open spec fn remove_key(m: Seq<(Seq<char>, Seq<char>)>, key: Seq<char>) -> Seq<(Seq<char>, Seq<char>)>
    decreases m.len(),
{
    if m.len() == 0 {
        m
    } else {
        let p = remove_key(m.drop_last(), key);
        if m.last().0 == key {
            p
        } else {
            p.push(m.last())
        }
    }
}

/// Whether some pair of `m` has key `key`.
pub open spec fn has_key(m: Seq<(Seq<char>, Seq<char>)>, key: Seq<char>) -> bool {
    exists|i: int| 0 <= i < m.len() && (#[trigger] m[i]).0 == key
}

// --- transitions -----------------------------------------------------------

/// Showing a status text.
pub open spec fn status_step(s: SessionView, text: Seq<char>) -> (SessionView, Seq<EffectView>) {
    (
        SessionView { status_generation: next_generation(s.status_generation), ..s },
        seq![EffectView::ShowStatus(text)],
    )
}

/// The key hints that fit the current mode.
pub open spec fn hint_set(s: SessionView) -> HintSet {
    if !s.config.behavior.show_keybinds {
        HintSet::Hidden
    } else if s.insert_mode {
        HintSet::Search
    } else if s.show_keybind_help {
        HintSet::Full
    } else {
        HintSet::Brief
    }
}

/// Showing the default status: loading, empty history, no match, or key hints.
pub open spec fn default_status_step(s: SessionView) -> (SessionView, Seq<EffectView>) {
    if s.loading && s.reload_updates_status {
        status_step(s, loading_text())
    } else if s.items.len() == 0 {
        status_step(s, no_history_text())
    } else if s.visible.len() == 0 {
        status_step(s, no_matches_text())
    } else {
        (
            SessionView { status_generation: next_generation(s.status_generation), ..s },
            seq![EffectView::ShowKeyHints(hint_set(s))],
        )
    }
}

/// Rebuilding the rows.
pub open spec fn render_step(s: SessionView) -> (SessionView, Seq<EffectView>) {
    (s, seq![EffectView::Render { selected: s.selected }, EffectView::RequestThumbnails])
}

/// The selection after filtering: the first row when asked for, otherwise
/// kept, or moved to the last row when it fell off the end.
pub open spec fn selection_after_filter(selected: usize, visible_len: nat, reset: bool) -> usize {
    if reset {
        0
    } else if selected >= visible_len {
        if visible_len == 0 {
            0
        } else {
            (visible_len - 1) as usize
        }
    } else {
        selected
    }
}

/// Filtering the history with the search text `query`.
pub open spec fn refresh_step(s: SessionView, query: Seq<char>, reset: bool, update_status: bool) -> (
    SessionView,
    Seq<EffectView>,
) {
    let visible = matching(s.items, search_normal_form(query));
    let s1 = SessionView {
        visible,
        selected: selection_after_filter(s.selected, visible.len(), reset),
        ..s
    };
    let (s2, e2) = render_step(s1);
    if update_status {
        let (s3, e3) = default_status_step(s2);
        (s3, e2 + e3)
    } else {
        (s2, e2)
    }
}

/// Starting to load the history, announcing it when `update_status` holds.
pub open spec fn reload_step(s: SessionView, update_status: bool) -> (SessionView, Seq<EffectView>) {
    let g = next_generation(s.reload_generation);
    let s1 = SessionView {
        pending_clear: false,
        show_keybind_help: false,
        loading: true,
        reload_updates_status: update_status,
        reload_generation: g,
        ..s
    };
    if update_status {
        let (s2, e2) = status_step(s1, loading_text());
        (s2, e2.push(EffectView::LoadHistory { generation: g }))
    } else {
        (s1, seq![EffectView::LoadHistory { generation: g }])
    }
}

/// Closing the popup: hidden in service mode, closed otherwise.
pub open spec fn dismiss_effects(s: SessionView) -> Seq<EffectView> {
    if s.service_mode {
        seq![EffectView::Hide]
    } else {
        seq![EffectView::Close]
    }
}

/// Switching the insert mode on or off.
pub open spec fn insert_mode_step(s: SessionView, insert: bool) -> (SessionView, Seq<EffectView>) {
    let s1 = SessionView { insert_mode: insert, ..s };
    let (s2, e2) = default_status_step(s1);
    (s2, seq![EffectView::SetModeIndicator(insert)] + e2)
}

/// Entering insert mode: the search field takes the focus.
pub open spec fn enter_insert_step(s: SessionView) -> (SessionView, Seq<EffectView>) {
    let s1 = SessionView { pending_clear: false, show_keybind_help: false, ..s };
    let (s2, e2) = insert_mode_step(s1, true);
    (s2, e2 + seq![EffectView::FocusSearch])
}

/// Entering normal mode: the list takes the focus.
pub open spec fn enter_normal_step(s: SessionView) -> (SessionView, Seq<EffectView>) {
    let s1 = SessionView { pending_clear: false, show_keybind_help: false, ..s };
    let (s2, e2) = insert_mode_step(s1, false);
    (s2, e2 + seq![EffectView::FocusList])
}

/// Moving the selection to `target` (a visible row).
pub open spec fn select_step(s: SessionView, target: usize, focus: bool) -> (SessionView, Seq<EffectView>) {
    (
        SessionView { selected: target, pending_clear: false, ..s },
        seq![EffectView::SelectRow { index: target, focus }, EffectView::RequestThumbnails],
    )
}

/// The row `delta` rows away from `selected`, kept within `0..len`.
pub open spec fn moved_selection(selected: usize, delta: int, len: nat) -> usize {
    let t = selected + delta;
    if t < 0 {
        0
    } else if t > len - 1 {
        (len - 1) as usize
    } else {
        t as usize
    }
}

/// Moving the selection by `delta` rows.
pub open spec fn move_step(s: SessionView, delta: int) -> (SessionView, Seq<EffectView>) {
    if s.visible.len() == 0 {
        (s, Seq::empty())
    } else {
        select_step(s, moved_selection(s.selected, delta, s.visible.len()), !s.insert_mode)
    }
}

/// Selecting the first row.
pub open spec fn first_step(s: SessionView) -> (SessionView, Seq<EffectView>) {
    if s.visible.len() == 0 {
        (s, Seq::empty())
    } else {
        select_step(s, 0, true)
    }
}

/// Selecting the last row.
pub open spec fn last_step(s: SessionView) -> (SessionView, Seq<EffectView>) {
    if s.visible.len() == 0 {
        (s, Seq::empty())
    } else {
        select_step(s, (s.visible.len() - 1) as usize, true)
    }
}

/// The history index of the selected entry, if a row is selected.
pub open spec fn selected_index(s: SessionView) -> Option<usize> {
    if s.selected < s.visible.len() && s.visible[s.selected as int] < s.items.len() {
        Some(s.visible[s.selected as int])
    } else {
        None
    }
}

/// Copying the selected entry: with closing on copy configured, the
/// application is held and the popup waits for the copy to finish; otherwise
/// a short confirmation shows.
pub open spec fn copy_step(s: SessionView) -> (SessionView, Seq<EffectView>) {
    let s1 = SessionView { pending_clear: false, show_keybind_help: false, ..s };
    match selected_index(s1) {
        None => status_step(s1, "No clipboard entry selected"@),
        Some(index) => if s1.config.behavior.close_on_copy {
            (
                SessionView { close_after_copy_finishes: true, ..s1 },
                seq![EffectView::HoldApplication, EffectView::CopyEntry { index }],
            )
        } else {
            let g = next_generation(s1.status_generation);
            (
                SessionView { status_generation: g, ..s1 },
                seq![
                    EffectView::ShowStatus("Copied selected entry"@),
                    EffectView::RestoreStatusAfter { generation: g, millis: 900 },
                    EffectView::CopyEntry { index },
                ],
            )
        },
    }
}

/// Asking to clear, or clearing when already asked.
pub open spec fn clear_step(s: SessionView) -> (SessionView, Seq<EffectView>) {
    let s1 = SessionView { show_keybind_help: false, ..s };
    if !s1.pending_clear {
        status_step(
            SessionView { pending_clear: true, ..s1 },
            "Clear all clipboard history? Press D again to confirm, Esc to cancel"@,
        )
    } else {
        let s2 = SessionView {
            pending_clear: false,
            items: Seq::empty(),
            visible: Seq::empty(),
            selected: 0,
            ..s1
        };
        let (s3, e3) = render_step(s2);
        let (s4, e4) = status_step(s3, "Clearing clipboard history..."@);
        (s4, e3 + e4.push(EffectView::ClearHistory))
    }
}

/// Deleting the selected entry from the history at once, then in the
/// background.
pub open spec fn delete_step(s: SessionView, query: Seq<char>) -> (SessionView, Seq<EffectView>) {
    let s1 = SessionView { pending_clear: false, show_keybind_help: false, ..s };
    if s1.visible.len() == 0 {
        status_step(s1, "No clipboard entry selected"@)
    } else {
        let index = s1.visible[s1.selected as int];
        if index >= s1.items.len() {
            let (s2, e2) = status_step(s1, "Selected entry no longer exists"@);
            let (s3, e3) = refresh_step(s2, query, false, false);
            (s3, e2 + e3)
        } else {
            let item = s1.items[index as int];
            let s2 = SessionView { items: s1.items.remove(index as int), ..s1 };
            let (s3, e3) = refresh_step(s2, query, false, false);
            let (s4, e4) = status_step(s3, "Deleting selected entry..."@);
            (s4, e3 + e4.push(EffectView::DeleteEntry { id: item.id, raw_line: item.raw_line }))
        }
    }
}

/// Carrying out a list command.
pub open spec fn command_step(s: SessionView, command: KeyCommand, query: Seq<char>) -> (
    SessionView,
    Seq<EffectView>,
) {
    let quiet = SessionView { show_keybind_help: false, ..s };
    match command {
        KeyCommand::Reload => reload_step(quiet, true),
        KeyCommand::ReloadPlain => reload_step(quiet, true),
        KeyCommand::Escape => if s.pending_clear {
            default_status_step(SessionView { pending_clear: false, ..s })
        } else {
            (s, dismiss_effects(s))
        },
        KeyCommand::MoveDown => move_step(quiet, 1),
        KeyCommand::MoveUp => move_step(quiet, -1),
        KeyCommand::ToggleHelp => default_status_step(
            SessionView { pending_clear: false, show_keybind_help: !s.show_keybind_help, ..s },
        ),
        KeyCommand::Search => enter_insert_step(quiet),
        KeyCommand::SelectFirst => first_step(quiet),
        KeyCommand::SelectLast => last_step(quiet),
        KeyCommand::Quit => (s, dismiss_effects(s)),
        KeyCommand::Copy => copy_step(quiet),
        KeyCommand::Delete => delete_step(quiet, query),
        KeyCommand::Clear => clear_step(quiet),
    }
}

/// Reacting to a key press in the list: whether it was handled, and how.
pub open spec fn key_step(s: SessionView, key: KeyPress, query: Seq<char>) -> (
    bool,
    SessionView,
    Seq<EffectView>,
) {
    match key_command_spec(key) {
        None => (false, s, Seq::empty()),
        Some(command) => (true, command_step(s, command, query).0, command_step(s, command, query).1),
    }
}

/// Showing the popup in answer to an invocation.
pub open spec fn show_step(s: SessionView, query: Seq<char>) -> (SessionView, Seq<EffectView>) {
    let (s1, e1) = if s.config.behavior.reload_on_open && (!s.loading || !s.reload_updates_status) {
        reload_step(s, true)
    } else if !s.config.behavior.reload_on_open {
        refresh_step(s, query, true, true)
    } else {
        (s, Seq::empty())
    };
    let (s2, e2) = if s1.config.behavior.start_in_insert {
        enter_insert_step(s1)
    } else {
        enter_normal_step(s1)
    };
    (s2, e1.push(EffectView::Present) + e2)
}


/// An entry with id `id` is visible.
pub open spec fn is_visible_id(s: SessionView, id: Seq<char>) -> bool {
    exists|k: int|
        0 <= k < s.visible.len() && s.visible[k] < s.items.len() && (#[trigger] s.items[s.visible[k] as int]).id == id
}

/// A history load finished: stale loads are ignored; a new history is shown
/// from the top; a failure is reported when the load was announced.
pub open spec fn history_loaded_step(
    s: SessionView,
    generation: u64,
    result: Result<Seq<ItemView>, Seq<char>>,
    query: Seq<char>,
) -> (SessionView, Seq<EffectView>) {
    if generation != s.reload_generation {
        (s, Seq::empty())
    } else {
        let s1 = SessionView { loading: false, ..s };
        match result {
            Ok(items) => refresh_step(
                SessionView {
                    items,
                    selected: 0,
                    pending_clear: false,
                    show_keybind_help: false,
                    ..s1
                },
                query,
                true,
                s.reload_updates_status,
            ),
            Err(e) => if s1.reload_updates_status {
                status_step(s1, "Failed to load history: "@ + e)
            } else {
                (s1, Seq::empty())
            },
        }
    }
}

/// A copy finished: after a successful copy the history is refreshed (unless
/// the popup closes for good) and a popup waiting for the copy closes (hidden
/// in service mode); a failure is reported and the popup stays. The
/// application hold is released either way.
pub open spec fn copied_step(s: SessionView, result: Result<(), Seq<char>>) -> (SessionView, Seq<EffectView>) {
    let should_close = s.close_after_copy_finishes;
    let s1 = SessionView { close_after_copy_finishes: false, ..s };
    match result {
        Ok(_) => {
            let e2 = if s1.config.behavior.close_on_copy && !s1.service_mode {
                Seq::empty()
            } else {
                seq![EffectView::RefreshAfterCopy]
            };
            let e3 = e2.push(EffectView::ReleaseApplication);
            if should_close {
                (s1, e3 + dismiss_effects(s1))
            } else {
                (s1, e3)
            }
        },
        Err(e) => {
            let (s2, e2) = status_step(s1, "Copy failed: "@ + e);
            (s2, e2.push(EffectView::ReleaseApplication))
        },
    }
}

/// A delete finished.
pub open spec fn deleted_step(s: SessionView, id: Seq<char>, result: Result<(), Seq<char>>) -> (
    SessionView,
    Seq<EffectView>,
) {
    match result {
        Ok(_) => status_step(s, "Deleted selected entry"@),
        Err(e) => status_step(s, "Delete failed for "@ + id + ": "@ + e),
    }
}

/// A wipe finished.
pub open spec fn cleared_step(s: SessionView, result: Result<(), Seq<char>>) -> (SessionView, Seq<EffectView>) {
    match result {
        Ok(_) => status_step(s, "History cleared"@),
        Err(e) => status_step(s, "Clear failed: "@ + e),
    }
}

/// A temporary status may be replaced by the default one, unless another
/// status was shown since.
pub open spec fn restore_status_step(s: SessionView, generation: u64) -> (SessionView, Seq<EffectView>) {
    if s.status_generation == generation {
        default_status_step(s)
    } else {
        (s, Seq::empty())
    }
}

/// A thumbnail was made: stale workers are ignored; the thumbnail is recorded
/// and the rows are rebuilt when the entry is visible.
pub open spec fn thumbnail_ready_step(s: SessionView, generation: u64, id: Seq<char>, path: Seq<char>) -> (
    SessionView,
    Seq<EffectView>,
) {
    if generation != s.thumbnail_generation {
        (s, Seq::empty())
    } else {
        let s1 = SessionView {
            requested_thumbnails: remove_all(s.requested_thumbnails, id),
            failed_thumbnails: remove_all(s.failed_thumbnails, id),
            thumbnails: remove_key(s.thumbnails, id).push((id, path)),
            ..s
        };
        if is_visible_id(s1, id) {
            render_step(s1)
        } else {
            (s1, Seq::empty())
        }
    }
}

/// A thumbnail could not be made: stale workers are ignored; the failure is
/// recorded, and reported when the entry is selected.
pub open spec fn thumbnail_failed_step(s: SessionView, generation: u64, id: Seq<char>, error: Seq<char>) -> (
    SessionView,
    Seq<EffectView>,
) {
    if generation != s.thumbnail_generation {
        (s, Seq::empty())
    } else {
        let s1 = SessionView {
            requested_thumbnails: remove_all(s.requested_thumbnails, id),
            failed_thumbnails: insert_once(s.failed_thumbnails, id),
            ..s
        };
        match selected_index(s1) {
            Some(i) => if s1.items[i as int].id == id {
                status_step(s1, "Image preview failed: "@ + error)
            } else {
                (s1, Seq::empty())
            },
            None => (s1, Seq::empty()),
        }
    }
}

/// An invocation with `--service`: service mode starts; a shown popup is
/// hidden, otherwise the history is loaded in the background when it is
/// empty and loading on open is configured.
pub open spec fn service_invocation_step(s: SessionView, window_visible: bool) -> (SessionView, Seq<EffectView>) {
    let s1 = SessionView { service_mode: true, ..s };
    if window_visible {
        (s1, dismiss_effects(s1))
    } else if s1.config.behavior.reload_on_open && !s1.loading && s1.items.len() == 0 {
        reload_step(s1, true)
    } else {
        (s1, Seq::empty())
    }
}

/// A plain invocation: in service mode a shown popup is hidden; otherwise the
/// popup is shown.
pub open spec fn activation_step(s: SessionView, window_visible: bool, query: Seq<char>) -> (SessionView, Seq<EffectView>) {
    if s.service_mode && window_visible {
        (s, dismiss_effects(s))
    } else {
        show_step(s, query)
    }
}

/// The entries parsed again from their stored lines with a new preview length.
pub open spec fn reparsed(items: Seq<ItemView>, max_chars: nat) -> Seq<ItemView>
    decreases items.len(),
{
    if items.len() == 0 {
        Seq::empty()
    } else {
        let prev = reparsed(items.drop_last(), max_chars);
        match parse_spec(items.last().raw_line, max_chars) {
            Some(item) => prev.push(item),
            None => prev,
        }
    }
}

/// The new settings take effect: style and window settings are applied,
/// entries are parsed again when the list settings changed, and the thumbnail
/// workers restart when the image settings or the cache place changed.
pub open spec fn config_apply_step(
    s: SessionView,
    config: AppConfigView,
    cache_dir_changed: bool,
) -> (SessionView, Seq<EffectView>) {
    let reparse = s.config.list != config.list;
    let restart = s.config.image != config.image || cache_dir_changed;
    let s1 = SessionView { config, pending_clear: false, show_keybind_help: false, ..s };
    let e1 = seq![EffectView::ReloadCss, EffectView::ApplyConfig];
    let s2 = if reparse {
        SessionView { items: reparsed(s1.items, config.list.max_text_chars as nat), ..s1 }
    } else {
        s1
    };
    if restart {
        let g = next_generation(s2.thumbnail_generation);
        (
            SessionView {
                thumbnail_generation: g,
                thumbnails: Seq::empty(),
                requested_thumbnails: Seq::empty(),
                failed_thumbnails: Seq::empty(),
                ..s2
            },
            e1.push(EffectView::RestartThumbnailer { generation: g }),
        )
    } else {
        (s2, e1)
    }
}

/// The settings were loaded again: they take effect, an unfinished load
/// starts again quietly, the rows are filtered again, and a short
/// confirmation shows.
pub open spec fn config_reload_step(
    s: SessionView,
    config: AppConfigView,
    cache_dir_changed: bool,
    query: Seq<char>,
) -> (SessionView, Seq<EffectView>) {
    let (s3, e3) = config_apply_step(s, config, cache_dir_changed);
    let (s4, e4) = if s.loading {
        reload_step(s3, false)
    } else {
        (s3, Seq::empty())
    };
    let (s5, e5) = refresh_step(s4, query, false, false);
    let g = next_generation(s5.status_generation);
    (
        SessionView { status_generation: g, ..s5 },
        e3 + e4 + e5 + seq![
            EffectView::ShowStatus("Configuration reloaded"@),
            EffectView::RestoreStatusAfter { generation: g, millis: 1200 },
        ],
    )
}

/// The first row to ask thumbnails for: 8 rows above the selection.
pub open spec fn window_start(selected: usize) -> usize {
    if selected < 8 {
        0
    } else {
        (selected - 8) as usize
    }
}

/// The row after the last to ask thumbnails for: 40 rows below the selection,
/// at most the number of rows.
pub open spec fn window_end(selected: usize, rows: nat) -> usize {
    if selected + 40 < rows {
        (selected + 40) as usize
    } else {
        rows as usize
    }
}

/// The history index of the entry in row `row` when it still needs a
/// thumbnail: an image without one, not asked for, and not failed.
pub open spec fn wants_thumbnail_spec(s: SessionView, row: int) -> Option<usize> {
    let index = s.visible[row];
    if index >= s.items.len() {
        None
    } else {
        let item = s.items[index as int];
        if item.kind != ClipboardKind::Image || has_key(s.thumbnails, item.id)
            || s.requested_thumbnails.contains(item.id) || s.failed_thumbnails.contains(item.id) {
            None
        } else {
            Some(index)
        }
    }
}

/// Entry id `id` is that of a row in the thumbnail window that still needs a
/// thumbnail.
pub open spec fn wanted_in_window(s: SessionView, id: Seq<char>) -> bool {
    exists|r: int|
        window_start(s.selected) <= r < window_end(s.selected, s.visible.len()) && (
        #[trigger] wants_thumbnail_spec(s, r)) is Some && s.items[wants_thumbnail_spec(
            s,
            r,
        )->0 as int].id == id
}

/// The rows to ask thumbnails for, as `(start, end)`; none without rows.
pub open spec fn thumbnail_window_spec(s: SessionView) -> (usize, usize) {
    if s.visible.len() == 0 {
        (0, 0)
    } else {
        (window_start(s.selected), window_end(s.selected, s.visible.len()))
    }
}

/// Asking for thumbnails of rows `start..row` of `s`, in order, where
/// `answers[k]` tells whether the queue took the `k`-th job offered: the
/// state afterwards (the id of each taken job recorded as requested) and the
/// `(id, raw_line)` of each job offered. A row's entry is offered when it
/// still needs a thumbnail at that point.
pub open spec fn thumbnail_requests(s: SessionView, start: int, row: int, answers: Seq<bool>) -> (
    SessionView,
    Seq<(Seq<char>, Seq<char>)>,
)
    decreases row - start,
{
    if row <= start {
        (s, Seq::empty())
    } else {
        let (p, jobs) = thumbnail_requests(s, start, row - 1, answers);
        match wants_thumbnail_spec(p, row - 1) {
            None => (p, jobs),
            Some(i) => {
                let item = p.items[i as int];
                let n = jobs.len();
                let jobs1 = jobs.push((item.id, item.raw_line));
                if n < answers.len() && answers[n as int] {
                    (
                        SessionView {
                            requested_thumbnails: insert_once(p.requested_thumbnails, item.id),
                            ..p
                        },
                        jobs1,
                    )
                } else {
                    (p, jobs1)
                }
            },
        }
    }
}

/// The outcome of asking for rows `start..row` depends only on the answers to
/// the jobs that were offered.
proof fn lemma_requests_use_asked_answers(
    s: SessionView,
    start: int,
    row: int,
    a: Seq<bool>,
    b: Seq<bool>,
)
    requires
        thumbnail_requests(s, start, row, a).1.len() <= a.len(),
        a.is_prefix_of(b),
    ensures
        thumbnail_requests(s, start, row, a) == thumbnail_requests(s, start, row, b),
    decreases row - start,
{
    if row > start {
        let (p, jobs) = thumbnail_requests(s, start, row - 1, a);
        assert(jobs.len() <= thumbnail_requests(s, start, row, a).1.len());
        lemma_requests_use_asked_answers(s, start, row - 1, a, b);
        if wants_thumbnail_spec(p, row - 1) is Some {
            assert(jobs.len() < a.len());
            assert(a[jobs.len() as int] == b[jobs.len() as int]);
        }
    }
}

// --- implementation --------------------------------------------------------

fn emit(effects: &mut Vec<Effect>, e: Effect)
    ensures
        effects_view(final(effects)@) == effects_view(old(effects)@).push(e@),
{
    let ghost v = e@;
    effects.push(e);
    assert(effects_view(effects@) =~= effects_view(old(effects)@).push(v));
}

fn reparse_items(items: &Vec<ClipboardItem>, max_chars: usize) -> (r: Vec<ClipboardItem>)
    ensures
        items_view(r@) == reparsed(items_view(items@), max_chars as nat),
{
    let ghost iv = items_view(items@);
    let mut out: Vec<ClipboardItem> = Vec::new();
    let mut i: usize = 0;
    while i < items.len()
        invariant
            i <= items.len(),
            iv == items_view(items@),
            items_view(out@) == reparsed(iv.take(i as int), max_chars as nat),
        decreases items.len() - i,
    {
        proof {
            assert(iv.take(i + 1).drop_last() =~= iv.take(i as int));
            assert(iv.take(i + 1).last() == items@[i as int]@);
        }
        let parsed = ClipboardItem::parse(items[i].raw_line.as_str(), max_chars);
        let ghost before = items_view(out@);
        match parsed {
            Some(item) => {
                out.push(item);
                assert(items_view(out@) =~= before.push(item_opt_view(parsed)->0));
            },
            None => {},
        }
        i = i + 1;
    }
    assert(iv.take(i as int) =~= iv);
    out
}

fn string_list_contains(list: &Vec<String>, x: &Vec<char>) -> (r: bool)
    ensures
        r == strings_view(list@).contains(x@),
{
    let ghost v = strings_view(list@);
    let mut i: usize = 0;
    while i < list.len()
        invariant
            i <= list.len(),
            v == strings_view(list@),
            forall|k: int| 0 <= k < i ==> v[k] != x@,
        decreases list.len() - i,
    {
        let c = chars_of(list[i].as_str());
        assert(c@ == v[i as int]);
        if chars_equal(&c, x) {
            return true;
        }
        i = i + 1;
    }
    false
}

fn string_list_remove(list: &Vec<String>, x: &Vec<char>) -> (r: Vec<String>)
    ensures
        strings_view(r@) == remove_all(strings_view(list@), x@),
{
    let ghost v = strings_view(list@);
    let mut out: Vec<String> = Vec::new();
    let mut i: usize = 0;
    while i < list.len()
        invariant
            i <= list.len(),
            v == strings_view(list@),
            strings_view(out@) == remove_all(v.take(i as int), x@),
        decreases list.len() - i,
    {
        let c = chars_of(list[i].as_str());
        proof {
            assert(v.take(i + 1).drop_last() =~= v.take(i as int));
        }
        if !chars_equal(&c, x) {
            out.push(list[i].clone());
        }
        i = i + 1;
        assert(strings_view(out@) =~= remove_all(v.take(i as int), x@));
    }
    assert(v.take(i as int) =~= v);
    out
}

fn pairs_remove_key(list: &Vec<(String, String)>, key: &Vec<char>) -> (r: Vec<(String, String)>)
    ensures
        pairs_view(r@) == remove_key(pairs_view(list@), key@),
{
    let ghost v = pairs_view(list@);
    let mut out: Vec<(String, String)> = Vec::new();
    let mut i: usize = 0;
    while i < list.len()
        invariant
            i <= list.len(),
            v == pairs_view(list@),
            pairs_view(out@) == remove_key(v.take(i as int), key@),
        decreases list.len() - i,
    {
        let c = chars_of(list[i].0.as_str());
        proof {
            assert(v.take(i + 1).drop_last() =~= v.take(i as int));
        }
        if !chars_equal(&c, key) {
            out.push((list[i].0.clone(), list[i].1.clone()));
        }
        i = i + 1;
        assert(pairs_view(out@) =~= remove_key(v.take(i as int), key@));
    }
    assert(v.take(i as int) =~= v);
    out
}

fn filter_matching(items: &Vec<ClipboardItem>, query: &Vec<char>) -> (r: Vec<usize>)
    ensures
        r@ == matching(items_view(items@), query@),
{
    let ghost iv = items_view(items@);
    let mut out: Vec<usize> = Vec::new();
    let mut i: usize = 0;
    while i < items.len()
        invariant
            i <= items.len(),
            iv == items_view(items@),
            out@ == matching_upto(iv, query@, i as nat),
        decreases items.len() - i,
    {
        let keep = if query.len() == 0 {
            true
        } else {
            let t = chars_of(items[i].search_text.as_str());
            contains_chars(&t, query)
        };
        assert(iv[i as int] == items@[i as int]@);
        if keep {
            out.push(i);
        }
        i = i + 1;
    }
    out
}

pub(crate) proof fn lemma_matching_shape(items: Seq<ItemView>, query: Seq<char>, n: nat)
    requires
        n <= items.len(),
        n <= usize::MAX,
    ensures
        forall|i: int|
            0 <= i < matching_upto(items, query, n).len() ==> (#[trigger] matching_upto(
                items,
                query,
                n,
            )[i]) < n,
        forall|i: int, j: int|
            0 <= i < j < matching_upto(items, query, n).len() ==> matching_upto(items, query, n)[i]
                < matching_upto(items, query, n)[j],
    decreases n,
{
    if n > 0 {
        lemma_matching_shape(items, query, (n - 1) as nat);
        let p = matching_upto(items, query, (n - 1) as nat);
        let m = matching_upto(items, query, n);
        if matches_query(items[n - 1], query) {
            assert(m == p.push((n - 1) as usize));
            assert forall|i: int| 0 <= i < m.len() implies (#[trigger] m[i]) < n by {
                if i < p.len() {
                    assert(m[i] == p[i]);
                }
            }
            assert forall|i: int, j: int| 0 <= i < j < m.len() implies m[i] < m[j] by {
                assert(i < p.len());
                assert(m[i] == p[i]);
                assert(p[i] < n - 1);
                if j < p.len() {
                    assert(m[j] == p[j]);
                    assert(p[i] < p[j]);
                } else {
                    assert(m[j] == n - 1);
                }
            }
        }
    }
}

impl Session {
    /// A fresh session with `config`; the popup shows that the history is
    /// empty and the mode that the settings start in.
    pub fn new(config: AppConfig, effects: &mut Vec<Effect>) -> (r: Session)
        ensures
            consistent(r@),
            r@.config == config@,
            r@.items.len() == 0,
            r@.visible.len() == 0,
            r@.selected == 0,
            r@.reload_generation == 0,
            r@.thumbnail_generation == 0,
            r@.thumbnails.len() == 0,
            r@.requested_thumbnails.len() == 0,
            r@.failed_thumbnails.len() == 0,
            !r@.pending_clear,
            r@.insert_mode == config@.behavior.start_in_insert,
            !r@.show_keybind_help,
            !r@.loading,
            !r@.reload_updates_status,
            r@.status_generation == 0,
            !r@.close_after_copy_finishes,
            !r@.service_mode,
            effects_view(final(effects)@) == effects_view(old(effects)@) + seq![
                EffectView::ShowStatus(no_history_text()),
                EffectView::SetModeIndicator(config@.behavior.start_in_insert),
            ],
    {
        let insert_mode = config.behavior.start_in_insert;
        emit(effects, Effect::ShowStatus(text("No clipboard history")));
        emit(effects, Effect::SetModeIndicator(insert_mode));
        assert(effects_view(effects@) =~= effects_view(old(effects)@) + seq![
            EffectView::ShowStatus(no_history_text()),
            EffectView::SetModeIndicator(config@.behavior.start_in_insert),
        ]);
        Session {
            config,
            items: Vec::new(),
            visible: Vec::new(),
            selected: 0,
            reload_generation: 0,
            thumbnail_generation: 0,
            thumbnails: Vec::new(),
            requested_thumbnails: Vec::new(),
            failed_thumbnails: Vec::new(),
            pending_clear: false,
            insert_mode,
            show_keybind_help: false,
            loading: false,
            reload_updates_status: false,
            status_generation: 0,
            close_after_copy_finishes: false,
            service_mode: false,
        }
    }

    /// Shows a status text.
    pub fn set_status(&mut self, message: String, effects: &mut Vec<Effect>)
        ensures
            final(self)@ == status_step(old(self)@, message@).0,
            effects_view(final(effects)@) == effects_view(old(effects)@) + status_step(
                old(self)@,
                message@,
            ).1,
    {
        self.status_generation = bump(self.status_generation);
        emit(effects, Effect::ShowStatus(message));
        assert(effects_view(effects@) =~= effects_view(old(effects)@) + status_step(
            old(self)@,
            message@,
        ).1);
    }

    /// Shows the default status for the current state.
    pub fn set_default_status(&mut self, effects: &mut Vec<Effect>)
        ensures
            final(self)@ == default_status_step(old(self)@).0,
            effects_view(final(effects)@) == effects_view(old(effects)@) + default_status_step(
                old(self)@,
            ).1,
    {
        if self.loading && self.reload_updates_status {
            self.set_status(text("Loading clipboard history..."), effects);
        } else if self.items.len() == 0 {
            self.set_status(text("No clipboard history"), effects);
        } else if self.visible.len() == 0 {
            self.set_status(text("No matching clipboard entries"), effects);
        } else {
            let hints = if !self.config.behavior.show_keybinds {
                HintSet::Hidden
            } else if self.insert_mode {
                HintSet::Search
            } else if self.show_keybind_help {
                HintSet::Full
            } else {
                HintSet::Brief
            };
            self.status_generation = bump(self.status_generation);
            emit(effects, Effect::ShowKeyHints(hints));
            assert(effects_view(effects@) =~= effects_view(old(effects)@) + default_status_step(
                old(self)@,
            ).1);
        }
    }

    /// Rebuilds the rows from the visible entries.
    pub fn render_visible(&self, effects: &mut Vec<Effect>)
        ensures
            effects_view(final(effects)@) == effects_view(old(effects)@) + render_step(self@).1,
    {
        emit(effects, Effect::Render { selected: self.selected });
        emit(effects, Effect::RequestThumbnails);
        assert(effects_view(effects@) =~= effects_view(old(effects)@) + render_step(self@).1);
    }

    fn apply_filter(&mut self, query: &str, reset_selection: bool)
        ensures
            consistent(final(self)@),
            final(self)@ == ({
                let visible = matching(old(self)@.items, search_normal_form(query@));
                SessionView {
                    visible,
                    selected: selection_after_filter(
                        old(self)@.selected,
                        visible.len(),
                        reset_selection,
                    ),
                    ..old(self)@
                }
            }),
    {
        let ghost s0 = self@;
        let q = chars_of(query);
        let normal = lower_chars(&collapse_whitespace(&q));
        let visible = filter_matching(&self.items, &normal);
        let count = self.items.len();
        proof {
            lemma_matching_shape(s0.items, normal@, s0.items.len());
        }
        self.visible = visible;
        if reset_selection {
            self.selected = 0;
        } else if self.selected >= self.visible.len() {
            self.selected = if self.visible.len() == 0 {
                0
            } else {
                self.visible.len() - 1
            };
        }
        assert(self@ =~= SessionView {
            visible: self.visible@,
            selected: selection_after_filter(s0.selected, self.visible@.len(), reset_selection),
            ..s0
        });
    }

    /// Filters the history with the search text `query` (normalised first).
    pub fn refresh_filter(
        &mut self,
        query: &str,
        reset_selection: bool,
        update_status: bool,
        effects: &mut Vec<Effect>,
    )
        ensures
            consistent(final(self)@),
            final(self)@ == refresh_step(old(self)@, query@, reset_selection, update_status).0,
            effects_view(final(effects)@) == effects_view(old(effects)@) + refresh_step(
                old(self)@,
                query@,
                reset_selection,
                update_status,
            ).1,
    {
        self.apply_filter(query, reset_selection);
        self.render_visible(effects);
        if update_status {
            self.set_default_status(effects);
            assert(effects_view(effects@) =~= effects_view(old(effects)@) + refresh_step(
                old(self)@,
                query@,
                reset_selection,
                update_status,
            ).1);
        }
    }

    /// Starts loading the history, announcing it when `update_status` holds.
    pub fn reload_with_status(&mut self, update_status: bool, effects: &mut Vec<Effect>)
        ensures
            final(self)@ == reload_step(old(self)@, update_status).0,
            effects_view(final(effects)@) == effects_view(old(effects)@) + reload_step(
                old(self)@,
                update_status,
            ).1,
    {
        self.pending_clear = false;
        self.show_keybind_help = false;
        self.loading = true;
        self.reload_updates_status = update_status;
        self.reload_generation = bump(self.reload_generation);
        if update_status {
            self.set_status(text("Loading clipboard history..."), effects);
        }
        emit(effects, Effect::LoadHistory { generation: self.reload_generation });
        assert(effects_view(effects@) =~= effects_view(old(effects)@) + reload_step(
            old(self)@,
            update_status,
        ).1);
    }

    /// Closes the popup: hides it in service mode, closes it otherwise.
    pub fn dismiss(&self, effects: &mut Vec<Effect>)
        ensures
            effects_view(final(effects)@) == effects_view(old(effects)@) + dismiss_effects(self@),
    {
        if self.service_mode {
            emit(effects, Effect::Hide);
        } else {
            emit(effects, Effect::Close);
        }
        assert(effects_view(effects@) =~= effects_view(old(effects)@) + dismiss_effects(self@));
    }

    /// Switches insert mode on or off and shows the matching status.
    pub fn set_insert_mode(&mut self, insert: bool, effects: &mut Vec<Effect>)
        ensures
            final(self)@ == insert_mode_step(old(self)@, insert).0,
            effects_view(final(effects)@) == effects_view(old(effects)@) + insert_mode_step(
                old(self)@,
                insert,
            ).1,
    {
        self.insert_mode = insert;
        emit(effects, Effect::SetModeIndicator(insert));
        self.set_default_status(effects);
        assert(effects_view(effects@) =~= effects_view(old(effects)@) + insert_mode_step(
            old(self)@,
            insert,
        ).1);
    }

    /// Enters insert mode: the search field takes the focus.
    pub fn enter_insert_mode(&mut self, effects: &mut Vec<Effect>)
        ensures
            final(self)@ == enter_insert_step(old(self)@).0,
            effects_view(final(effects)@) == effects_view(old(effects)@) + enter_insert_step(
                old(self)@,
            ).1,
    {
        self.pending_clear = false;
        self.show_keybind_help = false;
        let ghost s1 = SessionView { pending_clear: false, show_keybind_help: false, ..old(self)@ };
        assert(self@ =~= s1);
        let ghost e0 = effects_view(effects@);
        self.set_insert_mode(true, effects);
        let ghost e1 = effects_view(effects@);
        assert(e1 == e0 + insert_mode_step(s1, true).1);
        emit(effects, Effect::FocusSearch);
        assert(effects_view(effects@) =~= e1.push(EffectView::FocusSearch));
        assert(effects_view(effects@) =~= effects_view(old(effects)@) + enter_insert_step(
            old(self)@,
        ).1);
    }

    /// Enters normal mode: the list takes the focus.
    pub fn enter_normal_mode(&mut self, effects: &mut Vec<Effect>)
        ensures
            final(self)@ == enter_normal_step(old(self)@).0,
            effects_view(final(effects)@) == effects_view(old(effects)@) + enter_normal_step(
                old(self)@,
            ).1,
    {
        self.pending_clear = false;
        self.show_keybind_help = false;
        self.set_insert_mode(false, effects);
        emit(effects, Effect::FocusList);
        assert(effects_view(effects@) =~= effects_view(old(effects)@) + enter_normal_step(
            old(self)@,
        ).1);
    }

    fn select_row(&mut self, target: usize, focus: bool, effects: &mut Vec<Effect>)
        requires
            consistent(old(self)@),
            target < old(self)@.visible.len(),
        ensures
            consistent(final(self)@),
            final(self)@ == select_step(old(self)@, target, focus).0,
            effects_view(final(effects)@) == effects_view(old(effects)@) + select_step(
                old(self)@,
                target,
                focus,
            ).1,
    {
        self.selected = target;
        emit(effects, Effect::SelectRow { index: target, focus });
        self.pending_clear = false;
        emit(effects, Effect::RequestThumbnails);
        assert(effects_view(effects@) =~= effects_view(old(effects)@) + select_step(
            old(self)@,
            target,
            focus,
        ).1);
    }

    /// Moves the selection by `delta` rows, staying within the visible rows.
    pub fn move_selection(&mut self, delta: isize, effects: &mut Vec<Effect>)
        requires
            consistent(old(self)@),
        ensures
            consistent(final(self)@),
            final(self)@ == move_step(old(self)@, delta as int).0,
            effects_view(final(effects)@) == effects_view(old(effects)@) + move_step(
                old(self)@,
                delta as int,
            ).1,
    {
        if self.visible.len() == 0 {
            assert(effects_view(effects@) =~= effects_view(old(effects)@) + move_step(
                old(self)@,
                delta as int,
            ).1);
            return;
        }
        let last = self.visible.len() - 1;
        let target: usize = if delta < 0 {
            let back: usize = (0 - (delta as i128)) as usize;
            if back > self.selected {
                0
            } else {
                self.selected - back
            }
        } else {
            let forward: usize = delta as usize;
            if forward > last - self.selected {
                last
            } else {
                self.selected + forward
            }
        };
        let focus = !self.insert_mode;
        self.select_row(target, focus, effects);
    }

    /// Selects the first row.
    pub fn select_first(&mut self, effects: &mut Vec<Effect>)
        requires
            consistent(old(self)@),
        ensures
            consistent(final(self)@),
            final(self)@ == first_step(old(self)@).0,
            effects_view(final(effects)@) == effects_view(old(effects)@) + first_step(
                old(self)@,
            ).1,
    {
        if self.visible.len() == 0 {
            assert(effects_view(effects@) =~= effects_view(old(effects)@) + first_step(
                old(self)@,
            ).1);
            return;
        }
        self.select_row(0, true, effects);
    }

    /// Selects the last row.
    pub fn select_last(&mut self, effects: &mut Vec<Effect>)
        requires
            consistent(old(self)@),
        ensures
            consistent(final(self)@),
            final(self)@ == last_step(old(self)@).0,
            effects_view(final(effects)@) == effects_view(old(effects)@) + last_step(old(self)@).1,
    {
        if self.visible.len() == 0 {
            assert(effects_view(effects@) =~= effects_view(old(effects)@) + last_step(
                old(self)@,
            ).1);
            return;
        }
        let last = self.visible.len() - 1;
        self.select_row(last, true, effects);
    }

    /// The history index of the selected entry, if a row is selected.
    pub fn selected_item(&self) -> (r: Option<usize>)
        ensures
            r == selected_index(self@),
    {
        if self.selected < self.visible.len() && self.visible[self.selected] < self.items.len() {
            Some(self.visible[self.selected])
        } else {
            None
        }
    }

    /// Copies the selected entry; closes or hides the popup when configured.
    pub fn copy_selected(&mut self, effects: &mut Vec<Effect>)
        requires
            consistent(old(self)@),
        ensures
            consistent(final(self)@),
            final(self)@ == copy_step(old(self)@).0,
            effects_view(final(effects)@) == effects_view(old(effects)@) + copy_step(
                old(self)@,
            ).1,
    {
        self.pending_clear = false;
        self.show_keybind_help = false;
        let index = match self.selected_item() {
            Some(index) => index,
            None => {
                self.set_status(text("No clipboard entry selected"), effects);
                return;
            },
        };
        if self.config.behavior.close_on_copy {
            emit(effects, Effect::HoldApplication);
            emit(effects, Effect::CopyEntry { index });
            self.close_after_copy_finishes = true;
        } else {
            self.status_generation = bump(self.status_generation);
            emit(effects, Effect::ShowStatus(text("Copied selected entry")));
            emit(effects, 
                Effect::RestoreStatusAfter { generation: self.status_generation, millis: 900 },
            );
            emit(effects, Effect::CopyEntry { index });
        }
        assert(effects_view(effects@) =~= effects_view(old(effects)@) + copy_step(old(self)@).1);
    }

    /// Asks to clear the history, or clears it when already asked.
    pub fn confirm_or_clear_all(&mut self, effects: &mut Vec<Effect>)
        requires
            consistent(old(self)@),
        ensures
            consistent(final(self)@),
            final(self)@ == clear_step(old(self)@).0,
            effects_view(final(effects)@) == effects_view(old(effects)@) + clear_step(
                old(self)@,
            ).1,
    {
        self.show_keybind_help = false;
        if !self.pending_clear {
            self.pending_clear = true;
            self.set_status(
                text("Clear all clipboard history? Press D again to confirm, Esc to cancel"),
                effects,
            );
            return;
        }
        self.pending_clear = false;
        self.items = Vec::new();
        self.visible = Vec::new();
        self.selected = 0;
        self.render_visible(effects);
        self.set_status(text("Clearing clipboard history..."), effects);
        emit(effects, Effect::ClearHistory);
        assert(effects_view(effects@) =~= effects_view(old(effects)@) + clear_step(old(self)@).1);
    }

    /// Deletes the selected entry from the history at once and starts deleting
    /// it in the background.
    pub fn delete_selected(&mut self, query: &str, effects: &mut Vec<Effect>)
        requires
            consistent(old(self)@),
        ensures
            consistent(final(self)@),
            final(self)@ == delete_step(old(self)@, query@).0,
            effects_view(final(effects)@) == effects_view(old(effects)@) + delete_step(
                old(self)@,
                query@,
            ).1,
    {
        self.pending_clear = false;
        self.show_keybind_help = false;
        if self.visible.len() == 0 {
            self.set_status(text("No clipboard entry selected"), effects);
            return;
        }
        let index = self.visible[self.selected];
        if index >= self.items.len() {
            self.set_status(text("Selected entry no longer exists"), effects);
            self.refresh_filter(query, false, false, effects);
            assert(effects_view(effects@) =~= effects_view(old(effects)@) + delete_step(
                old(self)@,
                query@,
            ).1);
            return;
        }
        let ghost before = self@;
        let item = self.items.remove(index);
        assert(items_view(self.items@) =~= before.items.remove(index as int));
        self.refresh_filter(query, false, false, effects);
        self.set_status(text("Deleting selected entry..."), effects);
        emit(effects, Effect::DeleteEntry { id: item.id, raw_line: item.raw_line });
        assert(effects_view(effects@) =~= effects_view(old(effects)@) + delete_step(
            old(self)@,
            query@,
        ).1);
    }

    /// Whether an entry with id `id` is visible.
    pub fn is_visible_id(&self, id: &Vec<char>) -> (r: bool)
        ensures
            r == is_visible_id(self@, id@),
    {
        let mut k: usize = 0;
        while k < self.visible.len()
            invariant
                k <= self.visible.len(),
                forall|j: int|
                    0 <= j < k ==> !(self@.visible[j] < self@.items.len() && (#[trigger] self@.items[self@.visible[j] as int]).id == id@),
            decreases self.visible.len() - k,
        {
            let index = self.visible[k];
            if index < self.items.len() {
                let item_id = chars_of(self.items[index].id.as_str());
                if chars_equal(&item_id, id) {
                    assert(self@.items[index as int].id == id@);
                    return true;
                }
            }
            k = k + 1;
        }
        false
    }

    /// A history load finished.
    pub fn history_loaded(
        &mut self,
        generation: u64,
        result: Result<Vec<ClipboardItem>, String>,
        query: &str,
        effects: &mut Vec<Effect>,
    )
        requires
            consistent(old(self)@),
        ensures
            consistent(final(self)@),
            ({
                let r = match result {
                    Ok(items) => Ok(items_view(items@)),
                    Err(e) => Err(e@),
                };
                &&& final(self)@ == history_loaded_step(old(self)@, generation, r, query@).0
                &&& effects_view(final(effects)@) == effects_view(old(effects)@)
                    + history_loaded_step(old(self)@, generation, r, query@).1
            }),
    {
        if generation != self.reload_generation {
            assert(effects_view(effects@) =~= effects_view(old(effects)@) + Seq::<EffectView>::empty());
            return;
        }
        let ghost s0 = self@;
        self.loading = false;
        match result {
            Ok(items) => {
                let update_status = self.reload_updates_status;
                self.items = items;
                self.selected = 0;
                self.pending_clear = false;
                self.show_keybind_help = false;
                self.refresh_filter(query, true, update_status, effects);
            },
            Err(err) => {
                if self.reload_updates_status {
                    self.set_status(text_with("Failed to load history: ", err.as_str()), effects);
                } else {
                    assert(effects_view(effects@) =~= effects_view(old(effects)@) + Seq::<EffectView>::empty());
                }
            },
        }
    }

    /// A copy finished.
    pub fn copied(&mut self, result: Result<(), String>, effects: &mut Vec<Effect>)
        ensures
            ({
                let r = match result {
                    Ok(u) => Ok(u),
                    Err(e) => Err(e@),
                };
                &&& final(self)@ == copied_step(old(self)@, r).0
                &&& effects_view(final(effects)@) == effects_view(old(effects)@) + copied_step(
                    old(self)@,
                    r,
                ).1
            }),
    {
        let ghost r: Result<(), Seq<char>> = match &result {
            Ok(_) => Ok(()),
            Err(e) => Err(e@),
        };
        let should_close = self.close_after_copy_finishes;
        self.close_after_copy_finishes = false;
        match result {
            Ok(()) => {
                if !(self.config.behavior.close_on_copy && !self.service_mode) {
                    emit(effects, Effect::RefreshAfterCopy);
                }
                emit(effects, Effect::ReleaseApplication);
                if should_close {
                    self.dismiss(effects);
                }
            },
            Err(err) => {
                self.set_status(text_with("Copy failed: ", err.as_str()), effects);
                emit(effects, Effect::ReleaseApplication);
            },
        }
        assert(effects_view(effects@) =~= effects_view(old(effects)@) + copied_step(old(self)@, r).1);
    }

    /// A delete finished.
    pub fn deleted(&mut self, id: &str, result: Result<(), String>, effects: &mut Vec<Effect>)
        ensures
            ({
                let r = match result {
                    Ok(u) => Ok(u),
                    Err(e) => Err(e@),
                };
                &&& final(self)@ == deleted_step(old(self)@, id@, r).0
                &&& effects_view(final(effects)@) == effects_view(old(effects)@) + deleted_step(
                    old(self)@,
                    id@,
                    r,
                ).1
            }),
    {
        match result {
            Ok(()) => self.set_status(text("Deleted selected entry"), effects),
            Err(err) => {
                let mut m = chars_of("Delete failed for ");
                extend_chars(&mut m, &chars_of(id));
                extend_chars(&mut m, &chars_of(": "));
                extend_chars(&mut m, &chars_of(err.as_str()));
                self.set_status(string_of(&m), effects);
            },
        }
    }

    /// A wipe finished.
    pub fn cleared(&mut self, result: Result<(), String>, effects: &mut Vec<Effect>)
        ensures
            ({
                let r = match result {
                    Ok(u) => Ok(u),
                    Err(e) => Err(e@),
                };
                &&& final(self)@ == cleared_step(old(self)@, r).0
                &&& effects_view(final(effects)@) == effects_view(old(effects)@) + cleared_step(
                    old(self)@,
                    r,
                ).1
            }),
    {
        match result {
            Ok(()) => self.set_status(text("History cleared"), effects),
            Err(err) => self.set_status(text_with("Clear failed: ", err.as_str()), effects),
        }
    }

    /// The time after a copy came to reload the history quietly.
    pub fn refresh_after_copy(&mut self, effects: &mut Vec<Effect>)
        ensures
            final(self)@ == reload_step(old(self)@, false).0,
            effects_view(final(effects)@) == effects_view(old(effects)@) + reload_step(
                old(self)@,
                false,
            ).1,
    {
        self.reload_with_status(false, effects);
    }

    /// The time of a temporary status ran out.
    pub fn restore_status(&mut self, generation: u64, effects: &mut Vec<Effect>)
        ensures
            final(self)@ == restore_status_step(old(self)@, generation).0,
            effects_view(final(effects)@) == effects_view(old(effects)@) + restore_status_step(
                old(self)@,
                generation,
            ).1,
    {
        if self.status_generation == generation {
            self.set_default_status(effects);
        } else {
            assert(effects_view(effects@) =~= effects_view(old(effects)@) + Seq::<EffectView>::empty());
        }
    }

    /// A thumbnail was made.
    pub fn thumbnail_ready(&mut self, generation: u64, id: String, path: String, effects: &mut Vec<Effect>)
        ensures
            final(self)@ == thumbnail_ready_step(old(self)@, generation, id@, path@).0,
            effects_view(final(effects)@) == effects_view(old(effects)@) + thumbnail_ready_step(
                old(self)@,
                generation,
                id@,
                path@,
            ).1,
    {
        if generation != self.thumbnail_generation {
            assert(effects_view(effects@) =~= effects_view(old(effects)@) + Seq::<EffectView>::empty());
            return;
        }
        let key = chars_of(id.as_str());
        self.requested_thumbnails = string_list_remove(&self.requested_thumbnails, &key);
        self.failed_thumbnails = string_list_remove(&self.failed_thumbnails, &key);
        let mut kept = pairs_remove_key(&self.thumbnails, &key);
        let ghost pv = pairs_view(kept@);
        kept.push((id, path));
        assert(pairs_view(kept@) =~= pv.push((key@, path@)));
        self.thumbnails = kept;
        if self.is_visible_id(&key) {
            self.render_visible(effects);
        } else {
            assert(effects_view(effects@) =~= effects_view(old(effects)@) + Seq::<EffectView>::empty());
        }
    }

    /// A thumbnail could not be made.
    pub fn thumbnail_failed(&mut self, generation: u64, id: &str, error: &str, effects: &mut Vec<Effect>)
        requires
            consistent(old(self)@),
        ensures
            consistent(final(self)@),
            final(self)@ == thumbnail_failed_step(old(self)@, generation, id@, error@).0,
            effects_view(final(effects)@) == effects_view(old(effects)@) + thumbnail_failed_step(
                old(self)@,
                generation,
                id@,
                error@,
            ).1,
    {
        if generation != self.thumbnail_generation {
            assert(effects_view(effects@) =~= effects_view(old(effects)@) + Seq::<EffectView>::empty());
            return;
        }
        let key = chars_of(id);
        self.requested_thumbnails = string_list_remove(&self.requested_thumbnails, &key);
        if !string_list_contains(&self.failed_thumbnails, &key) {
            let ghost fv = strings_view(self.failed_thumbnails@);
            self.failed_thumbnails.push(string_of(&key));
            assert(strings_view(self.failed_thumbnails@) =~= fv.push(key@));
        }
        match self.selected_item() {
            Some(i) => {
                let item_id = chars_of(self.items[i].id.as_str());
                if chars_equal(&item_id, &key) {
                    self.set_status(text_with("Image preview failed: ", error), effects);
                } else {
                    assert(effects_view(effects@) =~= effects_view(old(effects)@) + Seq::<EffectView>::empty());
                }
            },
            None => {
                assert(effects_view(effects@) =~= effects_view(old(effects)@) + Seq::<EffectView>::empty());
            },
        }
    }

    /// An invocation with `--service`.
    pub fn handle_service_invocation(&mut self, window_visible: bool, effects: &mut Vec<Effect>)
        ensures
            final(self)@ == service_invocation_step(old(self)@, window_visible).0,
            effects_view(final(effects)@) == effects_view(old(effects)@) + service_invocation_step(
                old(self)@,
                window_visible,
            ).1,
    {
        self.service_mode = true;
        if window_visible {
            self.dismiss(effects);
        } else if self.config.behavior.reload_on_open && !self.loading && self.items.len() == 0 {
            self.reload_with_status(true, effects);
        } else {
            assert(effects_view(effects@) =~= effects_view(old(effects)@) + Seq::<EffectView>::empty());
        }
    }

    /// Shows the popup in answer to an invocation.
    #[verifier::rlimit(30)]
    pub fn show_from_activation(&mut self, query: &str, effects: &mut Vec<Effect>)
        requires
            consistent(old(self)@),
        ensures
            consistent(final(self)@),
            final(self)@ == show_step(old(self)@, query@).0,
            effects_view(final(effects)@) == effects_view(old(effects)@) + show_step(
                old(self)@,
                query@,
            ).1,
    {
        let ghost s0 = self@;
        let ghost e0 = effects_view(effects@);
        if self.config.behavior.reload_on_open && (!self.loading || !self.reload_updates_status) {
            self.reload_with_status(true, effects);
        } else if !self.config.behavior.reload_on_open {
            self.refresh_filter(query, true, true, effects);
        } else {
            assert(effects_view(effects@) =~= e0 + Seq::<EffectView>::empty());
        }
        let ghost s1 = self@;
        let ghost e1 = effects_view(effects@);
        assert(s1.config == s0.config);
        emit(effects, Effect::Present);
        let ghost e2 = effects_view(effects@);
        if self.config.behavior.start_in_insert {
            self.enter_insert_mode(effects);
            assert(effects_view(effects@) == e2 + enter_insert_step(s1).1);
        } else {
            self.enter_normal_mode(effects);
            assert(effects_view(effects@) == e2 + enter_normal_step(s1).1);
        }
        assert(effects_view(effects@) =~= e0 + show_step(s0, query@).1);
    }

    /// A plain invocation: toggles the popup in service mode, shows it otherwise.
    pub fn show_or_toggle_from_activation(&mut self, window_visible: bool, query: &str, effects: &mut Vec<Effect>)
        requires
            consistent(old(self)@),
        ensures
            consistent(final(self)@),
            final(self)@ == activation_step(old(self)@, window_visible, query@).0,
            effects_view(final(effects)@) == effects_view(old(effects)@) + activation_step(
                old(self)@,
                window_visible,
                query@,
            ).1,
    {
        if self.service_mode && window_visible {
            self.dismiss(effects);
        } else {
            self.show_from_activation(query, effects);
        }
    }

    /// The window asks to close; returns whether closing is stopped (the
    /// popup is hidden instead in service mode).
    pub fn close_request(&self, effects: &mut Vec<Effect>) -> (stop: bool)
        ensures
            stop == self@.service_mode,
            effects_view(final(effects)@) == effects_view(old(effects)@) + if self@.service_mode {
                dismiss_effects(self@)
            } else {
                Seq::empty()
            },
    {
        if self.service_mode {
            self.dismiss(effects);
            true
        } else {
            assert(effects_view(effects@) =~= effects_view(old(effects)@) + Seq::<EffectView>::empty());
            false
        }
    }

    /// The search text changed.
    pub fn search_changed(&mut self, query: &str, effects: &mut Vec<Effect>)
        ensures
            consistent(final(self)@),
            final(self)@ == refresh_step(
                SessionView { pending_clear: false, show_keybind_help: false, ..old(self)@ },
                query@,
                true,
                true,
            ).0,
            effects_view(final(effects)@) == effects_view(old(effects)@) + refresh_step(
                SessionView { pending_clear: false, show_keybind_help: false, ..old(self)@ },
                query@,
                true,
                true,
            ).1,
    {
        self.pending_clear = false;
        self.show_keybind_help = false;
        assert(self@ =~= SessionView { pending_clear: false, show_keybind_help: false, ..old(self)@ });
        self.refresh_filter(query, true, true, effects);
    }

    /// The search field took the focus.
    pub fn search_focus_entered(&mut self, effects: &mut Vec<Effect>)
        ensures
            final(self)@ == insert_mode_step(
                SessionView { pending_clear: false, show_keybind_help: false, ..old(self)@ },
                true,
            ).0,
            effects_view(final(effects)@) == effects_view(old(effects)@) + insert_mode_step(
                SessionView { pending_clear: false, show_keybind_help: false, ..old(self)@ },
                true,
            ).1,
    {
        self.pending_clear = false;
        self.show_keybind_help = false;
        assert(self@ =~= SessionView { pending_clear: false, show_keybind_help: false, ..old(self)@ });
        self.set_insert_mode(true, effects);
    }

    /// The search field lost the focus.
    pub fn search_focus_left(&mut self, effects: &mut Vec<Effect>)
        ensures
            final(self)@ == insert_mode_step(old(self)@, false).0,
            effects_view(final(effects)@) == effects_view(old(effects)@) + insert_mode_step(
                old(self)@,
                false,
            ).1,
    {
        self.set_insert_mode(false, effects);
    }

    /// A click in the popup; a click outside the search field leaves it.
    pub fn clicked(&mut self, inside_search: bool, effects: &mut Vec<Effect>)
        ensures
            inside_search ==> final(self)@ == old(self)@ && final(effects)@ == old(effects)@,
            !inside_search ==> final(self)@ == enter_normal_step(old(self)@).0
                && effects_view(final(effects)@) == effects_view(old(effects)@) + enter_normal_step(
                old(self)@,
            ).1,
    {
        if inside_search {
            return;
        }
        self.enter_normal_mode(effects);
    }

    /// Leaves insert mode (Escape in the search field).
    pub fn exit_insert_mode(&mut self, effects: &mut Vec<Effect>)
        ensures
            final(self)@ == enter_normal_step(old(self)@).0,
            effects_view(final(effects)@) == effects_view(old(effects)@) + enter_normal_step(
                old(self)@,
            ).1,
    {
        self.enter_normal_mode(effects);
    }

    /// The user selected row `row`.
    pub fn row_selected(&mut self, row: usize, effects: &mut Vec<Effect>)
        requires
            consistent(old(self)@),
            row < old(self)@.visible.len(),
        ensures
            consistent(final(self)@),
            final(self)@ == (SessionView { selected: row, pending_clear: false, ..old(self)@ }),
            effects_view(final(effects)@) == effects_view(old(effects)@).push(EffectView::RequestThumbnails),
    {
        self.selected = row;
        self.pending_clear = false;
        emit(effects, Effect::RequestThumbnails);
    }

    /// The user activated row `row`: it is selected and copied.
    pub fn row_activated(&mut self, row: usize, effects: &mut Vec<Effect>)
        requires
            consistent(old(self)@),
            row < old(self)@.visible.len(),
        ensures
            consistent(final(self)@),
            final(self)@ == copy_step(SessionView { selected: row, ..old(self)@ }).0,
            effects_view(final(effects)@) == effects_view(old(effects)@) + copy_step(
                SessionView { selected: row, ..old(self)@ },
            ).1,
    {
        self.selected = row;
        assert(self@ =~= SessionView { selected: row, ..old(self)@ });
        self.copy_selected(effects);
    }

    /// The rows to ask thumbnails for, as `(start, end)`: from 8 rows above the
    /// selection to 40 rows below it.
    pub fn thumbnail_window(&self) -> (r: (usize, usize))
        requires
            consistent(self@),
        ensures
            self@.visible.len() == 0 ==> r == (0usize, 0usize),
            self@.visible.len() > 0 ==> r == (window_start(self@.selected), window_end(self@.selected, self@.visible.len())),
    {
        if self.visible.len() == 0 {
            return (0, 0);
        }
        let start = if self.selected < 8 {
            0
        } else {
            self.selected - 8
        };
        let end = if self.visible.len() > 40 && self.selected < self.visible.len() - 40 {
            self.selected + 40
        } else {
            self.visible.len()
        };
        (start, end)
    }

    /// The history index of the entry in row `row` when it still needs a thumbnail.
    pub fn wants_thumbnail(&self, row: usize) -> (r: Option<usize>)
        requires
            row < self@.visible.len(),
        ensures
            r == wants_thumbnail_spec(self@, row as int),
    {
        let index = self.visible[row];
        if index >= self.items.len() {
            return None;
        }
        let item = &self.items[index];
        let key = chars_of(item.id.as_str());
        if item.kind != ClipboardKind::Image {
            return None;
        }
        let ghost tv = self@.thumbnails;
        assert(self@.items[index as int].id == key@);
        let mut k: usize = 0;
        while k < self.thumbnails.len()
            invariant
                k <= self.thumbnails.len(),
                tv == pairs_view(self.thumbnails@),
                row < self@.visible.len(),
                index == self@.visible[row as int],
                index < self@.items.len(),
                self@.items[index as int].id == key@,
                self@.items[index as int].kind == ClipboardKind::Image,
                forall|j: int| 0 <= j < k ==> (#[trigger] tv[j]).0 != key@,
            decreases self.thumbnails.len() - k,
        {
            let other = chars_of(self.thumbnails[k].0.as_str());
            assert(tv[k as int].0 == other@);
            if chars_equal(&other, &key) {
                assert(has_key(tv, key@));
                return None;
            }
            k = k + 1;
        }
        if string_list_contains(&self.requested_thumbnails, &key) || string_list_contains(
            &self.failed_thumbnails,
            &key,
        ) {
            return None;
        }
        Some(index)
    }

    /// Records that a thumbnail of entry `index` was asked for.
    pub fn mark_thumbnail_requested(&mut self, index: usize)
        requires
            index < old(self)@.items.len(),
        ensures
            final(self)@ == (SessionView {
                requested_thumbnails: insert_once(
                    old(self)@.requested_thumbnails,
                    old(self)@.items[index as int].id,
                ),
                ..old(self)@
            }),
    {
        let key = chars_of(self.items[index].id.as_str());
        if !string_list_contains(&self.requested_thumbnails, &key) {
            let ghost rv = strings_view(self.requested_thumbnails@);
            self.requested_thumbnails.push(string_of(&key));
            assert(strings_view(self.requested_thumbnails@) =~= rv.push(key@));
        }
        assert(self@ =~= SessionView {
            requested_thumbnails: insert_once(
                old(self)@.requested_thumbnails,
                old(self)@.items[index as int].id,
            ),
            ..old(self)@
        });
    }

    /// Asks for thumbnails of the image entries near the selection that still
    /// need one, row by row, and records the ids of those whose job the queue
    /// took. Returns, job by job, whether the queue took it. Only ids of such
    /// entries are added, after the ids already waiting.
    pub fn request_nearby_thumbnails(&mut self, thumbnailer: &mut Thumbnailer) -> (answers: Vec<bool>)
        requires
            consistent(old(self)@),
        ensures
            ({
                let (start, end) = thumbnail_window_spec(old(self)@);
                let (s1, jobs) = thumbnail_requests(old(self)@, start as int, end as int, answers@);
                &&& final(self)@ == s1
                &&& answers@.len() == jobs.len()
                &&& final(thumbnailer).offered() == old(thumbnailer).offered() + jobs
                &&& final(thumbnailer).queue() == old(thumbnailer).queue()
            }),
            final(self)@ == (SessionView {
                requested_thumbnails: final(self)@.requested_thumbnails,
                ..old(self)@
            }),
            old(self)@.requested_thumbnails.is_prefix_of(final(self)@.requested_thumbnails),
            forall|k: int|
                old(self)@.requested_thumbnails.len() <= k < final(self)@.requested_thumbnails.len()
                    ==> wanted_in_window(old(self)@, #[trigger] final(self)@.requested_thumbnails[k]),
    {
        let ghost s0 = self@;
        let ghost t0 = *thumbnailer;
        let rows = self.visible.len();
        let (start, end) = self.thumbnail_window();
        assert(rows == s0.visible.len());
        assert((start, end) == thumbnail_window_spec(s0));
        assert(start <= end) by {
            if s0.visible.len() > 0 {
                assert(start <= s0.selected);
                assert(s0.selected < end);
            }
        }
        let mut answers: Vec<bool> = Vec::new();
        let mut row = start;
        while row < end
            invariant
                consistent(s0),
                start <= row <= end,
                (start, end) == thumbnail_window_spec(s0),
                start == window_start(s0.selected) || s0.visible.len() == 0,
                end == window_end(s0.selected, s0.visible.len()) || s0.visible.len() == 0,
                s0.visible.len() == 0 ==> end == 0,
                end <= s0.visible.len(),
                self@ == thumbnail_requests(s0, start as int, row as int, answers@).0,
                answers@.len() == thumbnail_requests(s0, start as int, row as int, answers@).1.len(),
                thumbnailer.offered() == t0.offered() + thumbnail_requests(
                    s0,
                    start as int,
                    row as int,
                    answers@,
                ).1,
                thumbnailer.queue() == t0.queue(),
                self@ == (SessionView { requested_thumbnails: self@.requested_thumbnails, ..s0 }),
                s0.requested_thumbnails.is_prefix_of(self@.requested_thumbnails),
                forall|k: int|
                    s0.requested_thumbnails.len() <= k < self@.requested_thumbnails.len()
                        ==> wanted_in_window(s0, #[trigger] self@.requested_thumbnails[k]),
            decreases end - row,
        {
            let ghost before = answers@;
            let ghost cur = self@;
            proof {
                assert(cur == thumbnail_requests(s0, start as int, row as int, before).0);
            }
            if let Some(index) = self.wants_thumbnail(row) {
                let ghost id = cur.items[index as int].id;
                proof {
                    assert(!cur.requested_thumbnails.contains(id));
                    assert(!s0.requested_thumbnails.contains(id)) by {
                        if s0.requested_thumbnails.contains(id) {
                            let j = choose|j: int|
                                0 <= j < s0.requested_thumbnails.len()
                                    && s0.requested_thumbnails[j] == id;
                            assert(cur.requested_thumbnails[j] == id);
                        }
                    }
                    assert(wants_thumbnail_spec(s0, row as int) == Some(index));
                    assert(wanted_in_window(s0, id));
                }
                let taken = thumbnailer.request(&self.items[index]);
                answers.push(taken);
                proof {
                    lemma_requests_use_asked_answers(s0, start as int, row as int, before, answers@);
                    assert(answers@[before.len() as int] == taken);
                }
                if taken {
                    self.mark_thumbnail_requested(index);
                    proof {
                        let after = self@.requested_thumbnails;
                        assert(after == cur.requested_thumbnails.push(id));
                        assert forall|k: int|
                            s0.requested_thumbnails.len() <= k < after.len() implies wanted_in_window(
                            s0,
                            #[trigger] after[k],
                        ) by {
                            if k < cur.requested_thumbnails.len() {
                                assert(after[k] == cur.requested_thumbnails[k]);
                            }
                        }
                        assert(s0.requested_thumbnails.is_prefix_of(after)) by {
                            assert forall|j: int| 0 <= j < s0.requested_thumbnails.len() implies
                                s0.requested_thumbnails[j] == after[j] by {
                                assert(after[j] == cur.requested_thumbnails[j]);
                            }
                        }
                        assert(self@ =~= SessionView { requested_thumbnails: after, ..s0 });
                    }
                }
                proof {
                    assert(self@ == thumbnail_requests(s0, start as int, row + 1, answers@).0);
                    assert(thumbnailer.offered() =~= t0.offered() + thumbnail_requests(
                        s0,
                        start as int,
                        row + 1,
                        answers@,
                    ).1);
                }
            } else {
                proof {
                    assert(self@ == thumbnail_requests(s0, start as int, row + 1, answers@).0);
                }
            }
            row = row + 1;
        }
        answers
    }

    /// The thumbnail file recorded for entry id `id`, if any.
    pub fn thumbnail_for(&self, id: &str) -> (r: Option<String>)
        ensures
            r is Some ==> has_key(self@.thumbnails, id@),
            r is None ==> !has_key(self@.thumbnails, id@),
            r matches Some(p) ==> exists|j: int|
                0 <= j < self@.thumbnails.len() && self@.thumbnails[j] == (id@, p@) && forall|i: int|
                    0 <= i < j ==> (#[trigger] self@.thumbnails[i]).0 != id@,
    {
        let key = chars_of(id);
        let ghost tv = self@.thumbnails;
        let mut k: usize = 0;
        while k < self.thumbnails.len()
            invariant
                k <= self.thumbnails.len(),
                tv == pairs_view(self.thumbnails@),
                key@ == id@,
                forall|j: int| 0 <= j < k ==> (#[trigger] tv[j]).0 != key@,
            decreases self.thumbnails.len() - k,
        {
            let other = chars_of(self.thumbnails[k].0.as_str());
            assert(tv[k as int].0 == other@);
            if chars_equal(&other, &key) {
                let p = self.thumbnails[k].1.clone();
                assert(tv[k as int] == (id@, p@));
                assert(forall|i: int| 0 <= i < k ==> (#[trigger] tv[i]).0 != id@);
                return Some(p);
            }
            k = k + 1;
        }
        None
    }

    fn apply_config(&mut self, config: AppConfig, cache_dir_changed: bool, effects: &mut Vec<Effect>)
        ensures
            final(self)@ == config_apply_step(old(self)@, config@, cache_dir_changed).0,
            effects_view(final(effects)@) == effects_view(old(effects)@) + config_apply_step(
                old(self)@,
                config@,
                cache_dir_changed,
            ).1,
    {
        let ghost s0 = self@;
        let ghost e0 = effects_view(effects@);
        let reparse = self.config.list != config.list;
        let restart = self.config.image != config.image || cache_dir_changed;
        self.config = config;
        self.pending_clear = false;
        self.show_keybind_help = false;
        emit(effects, Effect::ReloadCss);
        emit(effects, Effect::ApplyConfig);
        if reparse {
            let items = reparse_items(&self.items, self.config.list.max_text_chars);
            self.items = items;
        }
        if restart {
            self.thumbnail_generation = bump(self.thumbnail_generation);
            self.thumbnails = Vec::new();
            self.requested_thumbnails = Vec::new();
            self.failed_thumbnails = Vec::new();
            emit(effects, Effect::RestartThumbnailer { generation: self.thumbnail_generation });
        }
        proof {
            let spec_s = config_apply_step(s0, config@, cache_dir_changed);
            assert(self@.thumbnails =~= spec_s.0.thumbnails);
            assert(self@.requested_thumbnails =~= spec_s.0.requested_thumbnails);
            assert(self@.failed_thumbnails =~= spec_s.0.failed_thumbnails);
            assert(self@ =~= spec_s.0);
            assert(effects_view(effects@) =~= e0 + spec_s.1);
        }
    }

    /// Whether a request to load the settings again (`SIGUSR1`) is honoured:
    /// only a resident service reloads them; otherwise the request is ignored.
    pub fn reloads_config_on_signal(&self) -> (r: bool)
        ensures
            r == self@.service_mode,
    {
        self.service_mode
    }

    /// The settings were loaded again (see `config_reload_step`).
    pub fn reload_config(
        &mut self,
        config: AppConfig,
        cache_dir_changed: bool,
        query: &str,
        effects: &mut Vec<Effect>,
    )
        ensures
            consistent(final(self)@),
            final(self)@ == config_reload_step(old(self)@, config@, cache_dir_changed, query@).0,
            effects_view(final(effects)@) == effects_view(old(effects)@) + config_reload_step(
                old(self)@,
                config@,
                cache_dir_changed,
                query@,
            ).1,
    {
        let ghost s0 = self@;
        let ghost e0 = effects_view(effects@);
        let restart_loading = self.loading;
        self.apply_config(config, cache_dir_changed, effects);
        let ghost e3 = effects_view(effects@);
        if restart_loading {
            self.reload_with_status(false, effects);
        }
        let ghost e4 = effects_view(effects@);
        self.refresh_filter(query, false, false, effects);
        let ghost e5 = effects_view(effects@);
        self.status_generation = bump(self.status_generation);
        emit(effects, Effect::ShowStatus(text("Configuration reloaded")));
        emit(
            effects,
            Effect::RestoreStatusAfter { generation: self.status_generation, millis: 1200 },
        );
        proof {
            assert(effects_view(effects@) =~= e0 + config_reload_step(
                s0,
                config@,
                cache_dir_changed,
                query@,
            ).1);
        }
    }

    /// Carries out a list command.
    #[verifier::rlimit(40)]
    pub fn run_command(&mut self, command: KeyCommand, query: &str, effects: &mut Vec<Effect>)
        requires
            consistent(old(self)@),
        ensures
            consistent(final(self)@),
            final(self)@ == command_step(old(self)@, command, query@).0,
            effects_view(final(effects)@) == effects_view(old(effects)@) + command_step(
                old(self)@,
                command,
                query@,
            ).1,
    {
        let ghost s0 = self@;
        let ghost quiet = SessionView { show_keybind_help: false, ..s0 };
        match command {
            KeyCommand::Reload | KeyCommand::ReloadPlain => {
                self.show_keybind_help = false;
                assert(self@ =~= quiet);
                self.reload_with_status(true, effects);
            },
            KeyCommand::Escape => {
                if self.pending_clear {
                    self.pending_clear = false;
                    assert(self@ =~= SessionView { pending_clear: false, ..s0 });
                    self.set_default_status(effects);
                } else {
                    self.dismiss(effects);
                }
            },
            KeyCommand::MoveDown => {
                self.show_keybind_help = false;
                assert(self@ =~= quiet);
                self.move_selection(1, effects);
            },
            KeyCommand::MoveUp => {
                self.show_keybind_help = false;
                assert(self@ =~= quiet);
                self.move_selection(-1, effects);
            },
            KeyCommand::ToggleHelp => {
                self.pending_clear = false;
                self.show_keybind_help = !self.show_keybind_help;
                assert(self@ =~= SessionView {
                    pending_clear: false,
                    show_keybind_help: !s0.show_keybind_help,
                    ..s0
                });
                self.set_default_status(effects);
            },
            KeyCommand::Search => {
                self.show_keybind_help = false;
                assert(self@ =~= quiet);
                self.enter_insert_mode(effects);
            },
            KeyCommand::SelectFirst => {
                self.show_keybind_help = false;
                assert(self@ =~= quiet);
                self.select_first(effects);
            },
            KeyCommand::SelectLast => {
                self.show_keybind_help = false;
                assert(self@ =~= quiet);
                self.select_last(effects);
            },
            KeyCommand::Quit => {
                self.dismiss(effects);
                assert(effects_view(effects@) =~= effects_view(old(effects)@) + command_step(
                    s0,
                    command,
                    query@,
                ).1);
            },
            KeyCommand::Copy => {
                self.show_keybind_help = false;
                assert(self@ =~= quiet);
                self.copy_selected(effects);
            },
            KeyCommand::Delete => {
                self.show_keybind_help = false;
                assert(self@ =~= quiet);
                self.delete_selected(query, effects);
            },
            KeyCommand::Clear => {
                self.show_keybind_help = false;
                assert(self@ =~= quiet);
                self.confirm_or_clear_all(effects);
            },
        }
    }

    /// Reacts to a key press in the list; returns whether it was handled.
    pub fn handle_normal_key(&mut self, key: &KeyPress, query: &str, effects: &mut Vec<Effect>) -> (handled: bool)
        requires
            consistent(old(self)@),
        ensures
            consistent(final(self)@),
            handled == key_step(old(self)@, *key, query@).0,
            final(self)@ == key_step(old(self)@, *key, query@).1,
            effects_view(final(effects)@) == effects_view(old(effects)@) + key_step(
                old(self)@,
                *key,
                query@,
            ).2,
    {
        match key_command(key) {
            Some(command) => {
                self.run_command(command, query, effects);
                true
            },
            None => {
                assert(effects_view(effects@) =~= effects_view(old(effects)@) + key_step(
                    old(self)@,
                    *key,
                    query@,
                ).2);
                false
            },
        }
    }
}

} // verus!
