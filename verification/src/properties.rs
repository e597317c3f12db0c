//! Properties of the popup that span several reactions.
use vstd::prelude::*;
use crate::config::AppConfigView;
use crate::launch::KeyCommand;
use crate::model::{ItemView, search_normal_form};
use crate::text::{contains, occurs_at};
use crate::session::{
    EffectView, SessionView, command_step, consistent, has_key, history_loaded_step,
    moved_selection, select_step,
    lemma_matching_shape, matches_query, matching, matching_upto, reload_step, remove_all,
    remove_key, refresh_step, restore_status_step, copy_step, copied_step, delete_step, clear_step,
    default_status_step, enter_insert_step, insert_mode_step, render_step, status_step,
    selected_index, selection_after_filter, next_generation, dismiss_effects, activation_step,
    enter_normal_step, window_end, window_start, config_apply_step, config_reload_step, thumbnail_failed_step, thumbnail_ready_step,
};

verus! {

/// Clearing the history takes two presses of `D`: the first only asks and
/// leaves the history and the background work alone; the second empties the
/// history and starts the wipe.
pub proof fn lemma_clear_takes_two_presses(s: SessionView, query: Seq<char>)
    requires
        !s.pending_clear,
    ensures
        ({
            let (s1, e1) = command_step(s, KeyCommand::Clear, query);
            let (s2, e2) = command_step(s1, KeyCommand::Clear, query);
            &&& s1.pending_clear
            &&& s1.items == s.items
            &&& !e1.contains(EffectView::ClearHistory)
            &&& !s2.pending_clear
            &&& s2.items.len() == 0
            &&& s2.visible.len() == 0
            &&& e2.last() == EffectView::ClearHistory
        }),
{
    let (s1, e1) = command_step(s, KeyCommand::Clear, query);
    assert(e1.len() == 1 && e1[0] is ShowStatus);
    assert(!e1.contains(EffectView::ClearHistory)) by {
        if e1.contains(EffectView::ClearHistory) {
            let i = choose|i: int| 0 <= i < e1.len() && e1[i] == EffectView::ClearHistory;
            assert(i == 0);
        }
    }
}

/// `Esc` while a clear waits for confirmation cancels it: the history stays,
/// nothing is wiped and the popup stays open.
pub proof fn lemma_escape_cancels_clear(s: SessionView, query: Seq<char>)
    requires
        s.pending_clear,
    ensures
        ({
            let (s1, e1) = command_step(s, KeyCommand::Escape, query);
            &&& !s1.pending_clear
            &&& s1.items == s.items
            &&& s1.visible == s.visible
            &&& e1.len() == 1
            &&& (e1[0] is ShowStatus || e1[0] is ShowKeyHints)
        }),
{
}

/// Moving down and then up comes back to the same row, away from the last row.
pub proof fn lemma_down_then_up_returns(s: SessionView, query: Seq<char>)
    requires
        consistent(s),
        s.selected + 1 < s.visible.len(),
        s.visible.len() <= usize::MAX,
    ensures
        ({
            let s1 = command_step(s, KeyCommand::MoveDown, query).0;
            let s2 = command_step(s1, KeyCommand::MoveUp, query).0;
            &&& s1.selected == s.selected + 1
            &&& s2.selected == s.selected
            &&& s2.visible == s.visible
        }),
{
    let quiet = SessionView { show_keybind_help: false, ..s };
    assert(moved_selection(s.selected, 1, s.visible.len()) == s.selected + 1);
    let s1 = command_step(s, KeyCommand::MoveDown, query).0;
    assert(s1 == select_step(quiet, (s.selected + 1) as usize, !quiet.insert_mode).0);
    assert(s1.visible == s.visible);
    assert(s1.selected == s.selected + 1);
    assert(moved_selection(s1.selected, -1, s1.visible.len()) == s.selected);
}

/// Moving the selection by any number of rows keeps it on a row.
pub proof fn lemma_moves_stay_on_rows(s: SessionView, query: Seq<char>, down: bool)
    requires
        s.visible.len() > 0,
    ensures
        ({
            let c = if down { KeyCommand::MoveDown } else { KeyCommand::MoveUp };
            command_step(s, c, query).0.selected < s.visible.len()
        }),
{
}

/// Deleting removes exactly the selected entry from the history at once,
/// keeps the others in order, and hands that entry to the background work.
pub proof fn lemma_delete_removes_selected_entry(s: SessionView, query: Seq<char>)
    requires
        consistent(s),
        s.visible.len() > 0,
    ensures
        ({
            let index = s.visible[s.selected as int];
            let (s1, e1) = command_step(s, KeyCommand::Delete, query);
            &&& s1.items == s.items.remove(index as int)
            &&& e1.last() == (EffectView::DeleteEntry {
                id: s.items[index as int].id,
                raw_line: s.items[index as int].raw_line,
            })
        }),
{
}

/// Results of work that a later reload, a later thumbnail restart or a later
/// status replaced change nothing.
pub proof fn lemma_stale_results_change_nothing(
    s: SessionView,
    generation: u64,
    history: Result<Seq<ItemView>, Seq<char>>,
    id: Seq<char>,
    path: Seq<char>,
    error: Seq<char>,
    query: Seq<char>,
)
    ensures
        generation != s.reload_generation ==> history_loaded_step(s, generation, history, query)
            == (s, Seq::<EffectView>::empty()),
        generation != s.thumbnail_generation ==> thumbnail_ready_step(s, generation, id, path)
            == (s, Seq::<EffectView>::empty()),
        generation != s.thumbnail_generation ==> thumbnail_failed_step(s, generation, id, error)
            == (s, Seq::<EffectView>::empty()),
        generation != s.status_generation ==> restore_status_step(s, generation) == (
            s,
            Seq::<EffectView>::empty(),
        ),
{
}

/// Entry `i` (of the first `n`) is among the matching indices exactly when it
/// matches the query.
proof fn lemma_matching_members(items: Seq<ItemView>, query: Seq<char>, n: nat)
    requires
        n <= items.len(),
        n <= usize::MAX,
    ensures
        forall|i: int|
            0 <= i < n ==> (#[trigger] matching_upto(items, query, n).contains(i as usize)
                <==> matches_query(items[i], query)),
    decreases n,
{
    if n > 0 {
        lemma_matching_members(items, query, (n - 1) as nat);
        lemma_matching_shape(items, query, (n - 1) as nat);
        let p = matching_upto(items, query, (n - 1) as nat);
        let m = matching_upto(items, query, n);
        assert forall|i: int| 0 <= i < n implies (#[trigger] m.contains(i as usize)
            <==> matches_query(items[i], query)) by {
            if matches_query(items[n - 1], query) {
                assert(m == p.push((n - 1) as usize));
                if i < n - 1 {
                    if m.contains(i as usize) {
                        let k = choose|k: int| 0 <= k < m.len() && m[k] == i as usize;
                        if k < p.len() {
                            assert(p[k] == i as usize);
                        }
                    }
                    if p.contains(i as usize) {
                        let k = choose|k: int| 0 <= k < p.len() && p[k] == i as usize;
                        assert(m[k] == i as usize);
                    }
                } else {
                    assert(m[m.len() - 1] == i as usize);
                }
            } else {
                assert(m == p);
                if i == n - 1 && m.contains(i as usize) {
                    let k = choose|k: int| 0 <= k < p.len() && p[k] == i as usize;
                    assert(p[k] < n - 1);
                }
            }
        }
    }
}

/// After filtering, the rows are exactly the entries that match the
/// normalised search text (every entry when it is empty), in history order,
/// and the history itself is unchanged.
pub proof fn lemma_filter_shows_exactly_matches(
    s: SessionView,
    query: Seq<char>,
    reset: bool,
    update_status: bool,
)
    requires
        s.items.len() <= usize::MAX,
    ensures
        ({
            let s1 = refresh_step(s, query, reset, update_status).0;
            let q = search_normal_form(query);
            &&& s1.items == s.items
            &&& forall|i: int|
                0 <= i < s.items.len() ==> (#[trigger] s1.visible.contains(i as usize)
                    <==> matches_query(s.items[i], q))
            &&& forall|k: int| 0 <= k < s1.visible.len() ==> (#[trigger] s1.visible[k]) < s.items.len()
            &&& forall|j: int, k: int| 0 <= j < k < s1.visible.len() ==> s1.visible[j] < s1.visible[k]
        }),
{
    let q = search_normal_form(query);
    lemma_matching_members(s.items, q, s.items.len());
    lemma_matching_shape(s.items, q, s.items.len());
    assert(refresh_step(s, query, reset, update_status).0.visible == matching(s.items, q));
}

/// A reload followed by its own result shows exactly that history, filtered
/// by the search text, from the first row, and the load is over.
pub proof fn lemma_reload_result_is_shown(
    s: SessionView,
    update_status: bool,
    items: Seq<ItemView>,
    query: Seq<char>,
)
    ensures
        ({
            let (s1, e1) = reload_step(s, update_status);
            let s2 = history_loaded_step(s1, s1.reload_generation, Ok(items), query).0;
            &&& s1.loading
            &&& e1.last() == (EffectView::LoadHistory { generation: s1.reload_generation })
            &&& s2.items == items
            &&& !s2.loading
            &&& s2.selected == 0
            &&& s2.visible == matching(items, search_normal_form(query))
        }),
{
}

/// No effect in `e` closes the popup for good.
pub open spec fn keeps_open(e: Seq<EffectView>) -> bool {
    forall|i: int| 0 <= i < e.len() ==> !(#[trigger] e[i] is Close)
}

proof fn lemma_keeps_open_concat(a: Seq<EffectView>, b: Seq<EffectView>)
    requires
        keeps_open(a),
        keeps_open(b),
    ensures
        keeps_open(a + b),
{
    assert forall|i: int| 0 <= i < (a + b).len() implies !(#[trigger] (a + b)[i] is Close) by {
        if i < a.len() {
            assert((a + b)[i] == a[i]);
        } else {
            assert((a + b)[i] == b[i - a.len()]);
        }
    }
}

proof fn lemma_default_status_keeps_open(s: SessionView)
    ensures
        keeps_open(default_status_step(s).1),
{
}

proof fn lemma_refresh_keeps_open(s: SessionView, query: Seq<char>, reset: bool, update_status: bool)
    ensures
        keeps_open(refresh_step(s, query, reset, update_status).1),
{
    let visible = matching(s.items, search_normal_form(query));
    let s1 = SessionView {
        visible,
        selected: selection_after_filter(s.selected, visible.len(), reset),
        ..s
    };
    let (s2, e2) = render_step(s1);
    lemma_default_status_keeps_open(s2);
    lemma_keeps_open_concat(e2, default_status_step(s2).1);
}

proof fn lemma_copy_keeps_open(s: SessionView)
    ensures
        keeps_open(copy_step(s).1),
{
}

proof fn lemma_delete_keeps_open(s: SessionView, query: Seq<char>)
    ensures
        keeps_open(delete_step(s, query).1),
{
    let s1 = SessionView { pending_clear: false, show_keybind_help: false, ..s };
    if s1.visible.len() > 0 {
        let index = s1.visible[s1.selected as int];
        if index >= s1.items.len() {
            let (s2, e2) = status_step(s1, "Selected entry no longer exists"@);
            lemma_refresh_keeps_open(s2, query, false, false);
            lemma_keeps_open_concat(e2, refresh_step(s2, query, false, false).1);
        } else {
            let item = s1.items[index as int];
            let s2 = SessionView { items: s1.items.remove(index as int), ..s1 };
            let (s3, e3) = refresh_step(s2, query, false, false);
            let (s4, e4) = status_step(s3, "Deleting selected entry..."@);
            lemma_refresh_keeps_open(s2, query, false, false);
            let e5 = e4.push(EffectView::DeleteEntry { id: item.id, raw_line: item.raw_line });
            assert(keeps_open(e5));
            lemma_keeps_open_concat(e3, e5);
        }
    }
}

proof fn lemma_clear_keeps_open(s: SessionView)
    ensures
        keeps_open(clear_step(s).1),
{
    let s1 = SessionView { show_keybind_help: false, ..s };
    if s1.pending_clear {
        let s2 = SessionView {
            pending_clear: false,
            items: Seq::empty(),
            visible: Seq::empty(),
            selected: 0,
            ..s1
        };
        let (s3, e3) = render_step(s2);
        let (s4, e4) = status_step(s3, "Clearing clipboard history..."@);
        let e5 = e4.push(EffectView::ClearHistory);
        assert(keeps_open(e5));
        lemma_keeps_open_concat(e3, e5);
    }
}

proof fn lemma_enter_insert_keeps_open(s: SessionView)
    ensures
        keeps_open(enter_insert_step(s).1),
{
    let s1 = SessionView { pending_clear: false, show_keybind_help: false, ..s };
    let s2 = SessionView { insert_mode: true, ..s1 };
    lemma_default_status_keeps_open(s2);
    let e = seq![EffectView::SetModeIndicator(true)];
    lemma_keeps_open_concat(e, default_status_step(s2).1);
    lemma_keeps_open_concat(insert_mode_step(s1, true).1, seq![EffectView::FocusSearch]);
}

/// In service mode no list command closes the popup for good: quitting,
/// closing and copying hide it, and the process stays.
pub proof fn lemma_service_mode_hides_instead_of_closing(
    s: SessionView,
    command: KeyCommand,
    query: Seq<char>,
)
    requires
        s.service_mode,
    ensures
        !command_step(s, command, query).1.contains(EffectView::Close),
{
    let quiet = SessionView { show_keybind_help: false, ..s };
    match command {
        KeyCommand::Escape => {
            lemma_default_status_keeps_open(SessionView { pending_clear: false, ..s });
        },
        KeyCommand::ToggleHelp => {
            lemma_default_status_keeps_open(
                SessionView { pending_clear: false, show_keybind_help: !s.show_keybind_help, ..s },
            );
        },
        KeyCommand::Search => lemma_enter_insert_keeps_open(quiet),
        KeyCommand::Copy => lemma_copy_keeps_open(quiet),
        KeyCommand::Delete => lemma_delete_keeps_open(quiet, query),
        KeyCommand::Clear => lemma_clear_keeps_open(quiet),
        _ => {},
    }
    let e = command_step(s, command, query).1;
    assert(keeps_open(e));
    if e.contains(EffectView::Close) {
        let i = choose|i: int| 0 <= i < e.len() && e[i] == EffectView::Close;
        assert(e[i] is Close);
    }
}

/// `s` without the strings equal to `x` holds no such string.
proof fn lemma_remove_all_removes(s: Seq<Seq<char>>, x: Seq<char>)
    ensures
        !remove_all(s, x).contains(x),
    decreases s.len(),
{
    if s.len() > 0 {
        lemma_remove_all_removes(s.drop_last(), x);
        let p = remove_all(s.drop_last(), x);
        if s.last() != x {
            assert(!p.push(s.last()).contains(x)) by {
                if p.push(s.last()).contains(x) {
                    let k = choose|k: int| 0 <= k < p.len() + 1 && p.push(s.last())[k] == x;
                    if k < p.len() {
                        assert(p[k] == x);
                    }
                }
            }
        }
    }
}

/// The pairs of `m` whose key is not `key` hold no pair with that key.
proof fn lemma_remove_key_removes(m: Seq<(Seq<char>, Seq<char>)>, key: Seq<char>)
    ensures
        forall|j: int| 0 <= j < remove_key(m, key).len() ==> (#[trigger] remove_key(m, key)[j]).0 != key,
    decreases m.len(),
{
    if m.len() > 0 {
        lemma_remove_key_removes(m.drop_last(), key);
        let p = remove_key(m.drop_last(), key);
        if m.last().0 != key {
            let r = p.push(m.last());
            assert forall|j: int| 0 <= j < r.len() implies (#[trigger] r[j]).0 != key by {
                if j < p.len() {
                    assert(r[j] == p[j]);
                }
            }
        }
    }
}

/// A finished thumbnail is recorded as the only file of its entry, and the
/// entry is no longer waiting or marked failed.
pub proof fn lemma_ready_thumbnail_is_recorded(s: SessionView, id: Seq<char>, path: Seq<char>)
    ensures
        ({
            let s1 = thumbnail_ready_step(s, s.thumbnail_generation, id, path).0;
            &&& has_key(s1.thumbnails, id)
            &&& forall|j: int|
                0 <= j < s1.thumbnails.len() && (#[trigger] s1.thumbnails[j]).0 == id
                    ==> s1.thumbnails[j].1 == path
            &&& !s1.requested_thumbnails.contains(id)
            &&& !s1.failed_thumbnails.contains(id)
            &&& s1.items == s.items
            &&& s1.visible == s.visible
        }),
{
    lemma_remove_all_removes(s.requested_thumbnails, id);
    lemma_remove_all_removes(s.failed_thumbnails, id);
    lemma_remove_key_removes(s.thumbnails, id);
    let t = remove_key(s.thumbnails, id).push((id, path));
    assert(t[t.len() - 1].0 == id);
    let s1 = thumbnail_ready_step(s, s.thumbnail_generation, id, path).0;
    assert(s1.thumbnails == t);
}

/// Leaving the search field (`Esc` there, or a click outside it) keeps the
/// history, the filtered rows and the selection, switches to normal mode and
/// gives the list the focus; nothing touches the search text.
pub proof fn lemma_leaving_search_keeps_rows(s: SessionView)
    ensures
        ({
            let (s1, e1) = enter_normal_step(s);
            &&& s1.items == s.items
            &&& s1.visible == s.visible
            &&& s1.selected == s.selected
            &&& !s1.insert_mode
            &&& e1[0] == EffectView::SetModeIndicator(false)
            &&& e1.last() == EffectView::FocusList
        }),
{
}

/// In service mode a plain invocation toggles the popup: a shown popup is
/// hidden, a hidden one is shown.
pub proof fn lemma_service_invocations_toggle(s: SessionView, query: Seq<char>)
    requires
        s.service_mode,
    ensures
        activation_step(s, true, query).1 == seq![EffectView::Hide],
        activation_step(s, true, query).0 == s,
        activation_step(s, false, query).1.contains(EffectView::Present),
{
    let (s1, e1) = if s.config.behavior.reload_on_open && (!s.loading || !s.reload_updates_status) {
        reload_step(s, true)
    } else if !s.config.behavior.reload_on_open {
        refresh_step(s, query, true, true)
    } else {
        (s, Seq::empty())
    };
    let (s2, e2) = if s1.config.behavior.start_in_insert {
        enter_insert_step(s1)
    } else {
        enter_normal_step(s1)
    };
    let e = e1.push(EffectView::Present) + e2;
    assert(e[e1.len() as int] == EffectView::Present);
    assert(activation_step(s, false, query).1 == e);
}

/// Thumbnails are asked for around the selection only: the rows from 8 above
/// it to 40 below it, within the rows that exist, the selected row included.
pub proof fn lemma_thumbnail_window_around_selection(s: SessionView)
    requires
        consistent(s),
        s.visible.len() > 0,
        s.visible.len() <= usize::MAX,
    ensures
        ({
            let start = window_start(s.selected);
            let end = window_end(s.selected, s.visible.len());
            &&& start <= s.selected < end <= s.visible.len()
            &&& s.selected - start <= 8
            &&& end - s.selected <= 40
        }),
{
}

/// Loading the settings again (on `SIGUSR1`) never closes the popup, keeps
/// the history when the list settings did not change, and ends with a short
/// confirmation.
pub proof fn lemma_config_reload_keeps_running(
    s: SessionView,
    config: AppConfigView,
    cache_dir_changed: bool,
    query: Seq<char>,
)
    ensures
        ({
            let (s1, e1) = config_reload_step(s, config, cache_dir_changed, query);
            &&& !e1.contains(EffectView::Close)
            &&& s.config.list == config.list ==> s1.items == s.items
            &&& s1.config == config
            &&& e1.last() == (EffectView::RestoreStatusAfter {
                generation: s1.status_generation,
                millis: 1200,
            })
        }),
{
    let (s3, e3) = config_apply_step(s, config, cache_dir_changed);
    assert(keeps_open(e3));
    let (s4, e4) = if s.loading {
        reload_step(s3, false)
    } else {
        (s3, Seq::empty())
    };
    assert(keeps_open(e4));
    let (s5, e5) = refresh_step(s4, query, false, false);
    lemma_refresh_keeps_open(s4, query, false, false);
    let g = next_generation(s5.status_generation);
    let tail = seq![
        EffectView::ShowStatus("Configuration reloaded"@),
        EffectView::RestoreStatusAfter { generation: g, millis: 1200 },
    ];
    assert(keeps_open(tail));
    lemma_keeps_open_concat(e3, e4);
    lemma_keeps_open_concat(e3 + e4, e5);
    lemma_keeps_open_concat(e3 + e4 + e5, tail);
    let e1 = config_reload_step(s, config, cache_dir_changed, query).1;
    assert(e1 == e3 + e4 + e5 + tail);
    if e1.contains(EffectView::Close) {
        let i = choose|i: int| 0 <= i < e1.len() && e1[i] == EffectView::Close;
        assert(e1[i] is Close);
    }
}

/// The popup closes only after a successful copy: starting a copy neither
/// hides nor closes it, a failed copy leaves it open with the failure shown,
/// and a successful copy that the popup waits for closes it (hides it in
/// service mode).
pub proof fn lemma_popup_closes_only_after_successful_copy(s: SessionView, error: Seq<char>)
    ensures
        ({
            let e = copy_step(s).1;
            forall|i: int| 0 <= i < e.len() ==> !(#[trigger] e[i] is Close) && !(e[i] is Hide)
        }),
        copy_step(s).0.close_after_copy_finishes == (s.close_after_copy_finishes || (
        selected_index(s) is Some && s.config.behavior.close_on_copy)),
        ({
            let e = copied_step(s, Err(error)).1;
            &&& forall|i: int| 0 <= i < e.len() ==> !(#[trigger] e[i] is Close) && !(e[i] is Hide)
            &&& e[0] == EffectView::ShowStatus("Copy failed: "@ + error)
            &&& !copied_step(s, Err(error)).0.close_after_copy_finishes
        }),
        s.close_after_copy_finishes ==> copied_step(s, Ok(())).1.last() == (if s.service_mode {
            EffectView::Hide
        } else {
            EffectView::Close
        }),
        !s.close_after_copy_finishes ==> ({
            let e = copied_step(s, Ok(())).1;
            forall|i: int| 0 <= i < e.len() ==> !(#[trigger] e[i] is Close) && !(e[i] is Hide)
        }),
{
    let s1 = SessionView { pending_clear: false, show_keybind_help: false, ..s };
    assert(selected_index(s1) == selected_index(s));
}

/// The search text `text` holds `query` as a run of consecutive characters.
pub open spec fn holds_run(text: Seq<char>, query: Seq<char>) -> bool {
    exists|j: int| 0 <= j && j + query.len() <= text.len() && #[trigger] text.subrange(j, j + query.len()) == query
}

/// Copying copies the entry shown in the selected row: the one copy job that
/// is started is for the history entry that the selected row shows, whatever
/// the search hides.
pub proof fn lemma_copy_takes_the_selected_row(s: SessionView)
    requires
        consistent(s),
        s.visible.len() > 0,
    ensures
        ({
            let e = copy_step(s).1;
            &&& e.last() == (EffectView::CopyEntry { index: s.visible[s.selected as int] })
            &&& forall|k: int|
                0 <= k < e.len() && (#[trigger] e[k]) is CopyEntry ==> e[k] == (EffectView::CopyEntry {
                    index: s.visible[s.selected as int],
                })
        }),
{
}

/// Filtering shows an entry exactly when its search text holds the whole
/// normalised query as a run of consecutive characters (every entry when the
/// query is empty), and leaves the history alone.
pub proof fn lemma_search_keeps_entries_holding_the_query(
    s: SessionView,
    query: Seq<char>,
    reset: bool,
    update_status: bool,
)
    requires
        s.items.len() <= usize::MAX,
    ensures
        ({
            let s1 = refresh_step(s, query, reset, update_status).0;
            let q = search_normal_form(query);
            &&& s1.items == s.items
            &&& forall|i: int|
                0 <= i < s.items.len() ==> (#[trigger] s1.visible.contains(i as usize) <==> (q.len() == 0
                    || holds_run(s.items[i].search_text, q)))
        }),
{
    lemma_filter_shows_exactly_matches(s, query, reset, update_status);
    let q = search_normal_form(query);
    assert forall|i: int| 0 <= i < s.items.len() implies matches_query(s.items[i], q) == (q.len()
        == 0 || holds_run(s.items[i].search_text, q)) by {
        let t = s.items[i].search_text;
        if contains(t, q) {
            let j = choose|j: int| occurs_at(t, q, j);
            assert(t.subrange(j, j + q.len()) == q);
        }
        if holds_run(t, q) {
            let j = choose|j: int|
                0 <= j && j + q.len() <= t.len() && #[trigger] t.subrange(j, j + q.len()) == q;
            assert(occurs_at(t, q, j));
        }
    }
}

/// Deleting removes the selected row's entry and keeps the search: the rows
/// shown afterwards are exactly the remaining entries whose search text holds
/// the normalised search text.
pub proof fn lemma_delete_keeps_the_search(s: SessionView, query: Seq<char>)
    requires
        consistent(s),
        s.visible.len() > 0,
        s.items.len() <= usize::MAX,
    ensures
        ({
            let s1 = command_step(s, KeyCommand::Delete, query).0;
            let q = search_normal_form(query);
            &&& s1.items == s.items.remove(s.visible[s.selected as int] as int)
            &&& forall|i: int|
                0 <= i < s1.items.len() ==> (#[trigger] s1.visible.contains(i as usize) <==> (q.len()
                    == 0 || holds_run(s1.items[i].search_text, q)))
        }),
{
    let quiet = SessionView { show_keybind_help: false, ..s };
    let s1 = SessionView { pending_clear: false, show_keybind_help: false, ..quiet };
    let index = s1.visible[s1.selected as int];
    let s2 = SessionView { items: s1.items.remove(index as int), ..s1 };
    lemma_search_keeps_entries_holding_the_query(s2, query, false, false);
    let (s3, e3) = refresh_step(s2, query, false, false);
    assert(command_step(s, KeyCommand::Delete, query).0 == status_step(s3, "Deleting selected entry..."@).0);
}

} // verus!
