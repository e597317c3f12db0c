use cliphist_ui::config::AppConfig;
use cliphist_ui::launch::{KeyPress, NamedKey};
use cliphist_ui::model::parse_list;
use cliphist_ui::session::{key_hints, Effect, HintSet, Session};

const HISTORY: &str = "5\tHello world\n4\t[[ binary data 12 KiB png 64x32 ]]\n3\tfoo bar\n2\tanother Foo\n1\tlast";

fn key(c: char) -> KeyPress {
    KeyPress { key: NamedKey::Other, character: Some(c), ctrl: false }
}

fn loaded(config: AppConfig) -> (Session, Vec<Effect>) {
    let mut effects = Vec::new();
    let mut session = Session::new(config, &mut effects);
    session.reload_with_status(true, &mut effects);
    let generation = session.reload_generation;
    session.history_loaded(generation, Ok(parse_list(HISTORY, 180)), "", &mut effects);
    (session, effects)
}

fn statuses(effects: &[Effect]) -> Vec<String> {
    effects
        .iter()
        .filter_map(|e| match e {
            Effect::ShowStatus(s) => Some(s.clone()),
            _ => None,
        })
        .collect()
}

#[test]
fn a_new_session_reports_an_empty_history() {
    let mut effects = Vec::new();
    let session = Session::new(AppConfig::default(), &mut effects);
    assert!(session.items.is_empty());
    assert!(!session.insert_mode);
    assert_eq!(statuses(&effects), vec!["No clipboard history".to_string()]);
    assert!(matches!(effects[1], Effect::SetModeIndicator(false)));
}

#[test]
fn a_reload_announces_itself_and_shows_its_result() {
    let mut effects = Vec::new();
    let mut session = Session::new(AppConfig::default(), &mut effects);
    effects.clear();
    session.reload_with_status(true, &mut effects);
    assert!(session.loading);
    assert_eq!(statuses(&effects), vec!["Loading clipboard history...".to_string()]);
    assert!(matches!(effects.last(), Some(Effect::LoadHistory { generation: 1 })));
    effects.clear();
    session.history_loaded(1, Ok(parse_list(HISTORY, 180)), "", &mut effects);
    assert!(!session.loading);
    assert_eq!(session.items.len(), 5);
    assert_eq!(session.visible, vec![0, 1, 2, 3, 4]);
    assert_eq!(session.selected, 0);
    assert!(matches!(effects[0], Effect::Render { selected: 0 }));
    assert!(matches!(effects.last(), Some(Effect::ShowKeyHints(HintSet::Brief))));
}

#[test]
fn results_of_an_older_reload_are_ignored() {
    let (mut session, _) = loaded(AppConfig::default());
    let mut effects = Vec::new();
    session.history_loaded(0, Ok(Vec::new()), "", &mut effects);
    assert_eq!(session.items.len(), 5);
    assert!(effects.is_empty());
}

#[test]
fn a_failed_announced_load_is_reported() {
    let mut effects = Vec::new();
    let mut session = Session::new(AppConfig::default(), &mut effects);
    session.reload_with_status(true, &mut effects);
    effects.clear();
    session.history_loaded(1, Err("boom".to_string()), "", &mut effects);
    assert!(!session.loading);
    assert_eq!(statuses(&effects), vec!["Failed to load history: boom".to_string()]);
}

#[test]
fn searching_keeps_only_matching_entries() {
    let (mut session, _) = loaded(AppConfig::default());
    let mut effects = Vec::new();
    session.search_changed("  FOO ", &mut effects);
    assert_eq!(session.visible, vec![2, 3]);
    assert_eq!(session.selected, 0);
    session.search_changed("image 64x32", &mut effects);
    assert_eq!(session.visible, vec![1]);
    effects.clear();
    session.search_changed("nothing like this", &mut effects);
    assert!(session.visible.is_empty());
    assert_eq!(statuses(&effects), vec!["No matching clipboard entries".to_string()]);
    session.search_changed("", &mut effects);
    assert_eq!(session.visible.len(), 5);
}

#[test]
fn moving_stays_on_the_rows() {
    let (mut session, _) = loaded(AppConfig::default());
    let mut effects = Vec::new();
    assert!(session.handle_normal_key(&key('k'), "", &mut effects));
    assert_eq!(session.selected, 0);
    session.handle_normal_key(&key('j'), "", &mut effects);
    session.handle_normal_key(&KeyPress { key: NamedKey::Down, character: None, ctrl: false }, "", &mut effects);
    assert_eq!(session.selected, 2);
    session.handle_normal_key(&key('k'), "", &mut effects);
    assert_eq!(session.selected, 1);
    session.handle_normal_key(&key('G'), "", &mut effects);
    assert_eq!(session.selected, 4);
    session.handle_normal_key(&key('j'), "", &mut effects);
    assert_eq!(session.selected, 4);
    session.handle_normal_key(&key('g'), "", &mut effects);
    assert_eq!(session.selected, 0);
    assert!(!session.handle_normal_key(&key('x'), "", &mut effects));
}

#[test]
fn clearing_needs_a_second_press() {
    let (mut session, _) = loaded(AppConfig::default());
    let mut effects = Vec::new();
    session.handle_normal_key(&key('D'), "", &mut effects);
    assert!(session.pending_clear);
    assert_eq!(session.items.len(), 5);
    assert!(!effects.iter().any(|e| matches!(e, Effect::ClearHistory)));
    assert_eq!(
        statuses(&effects),
        vec!["Clear all clipboard history? Press D again to confirm, Esc to cancel".to_string()]
    );
    effects.clear();
    session.handle_normal_key(&key('D'), "", &mut effects);
    assert!(!session.pending_clear);
    assert!(session.items.is_empty());
    assert!(session.visible.is_empty());
    assert!(matches!(effects.last(), Some(Effect::ClearHistory)));
    effects.clear();
    session.cleared(Ok(()), &mut effects);
    assert_eq!(statuses(&effects), vec!["History cleared".to_string()]);
}

#[test]
fn escape_cancels_a_pending_clear() {
    let (mut session, _) = loaded(AppConfig::default());
    let mut effects = Vec::new();
    session.handle_normal_key(&key('D'), "", &mut effects);
    effects.clear();
    session.handle_normal_key(&KeyPress { key: NamedKey::Escape, character: None, ctrl: false }, "", &mut effects);
    assert!(!session.pending_clear);
    assert_eq!(session.items.len(), 5);
    assert!(!effects.iter().any(|e| matches!(e, Effect::Close | Effect::Hide | Effect::ClearHistory)));
    effects.clear();
    session.handle_normal_key(&KeyPress { key: NamedKey::Escape, character: None, ctrl: false }, "", &mut effects);
    assert!(matches!(effects.as_slice(), [Effect::Close]));
}

#[test]
fn deleting_removes_the_selected_entry_at_once() {
    let (mut session, _) = loaded(AppConfig::default());
    let mut effects = Vec::new();
    session.handle_normal_key(&key('j'), "", &mut effects);
    effects.clear();
    session.handle_normal_key(&key('d'), "", &mut effects);
    let ids: Vec<&str> = session.items.iter().map(|i| i.id.as_str()).collect();
    assert_eq!(ids, vec!["5", "3", "2", "1"]);
    assert_eq!(session.visible, vec![0, 1, 2, 3]);
    assert_eq!(session.selected, 1);
    match effects.last() {
        Some(Effect::DeleteEntry { id, raw_line }) => {
            assert_eq!(id, "4");
            assert_eq!(raw_line, "4\t[[ binary data 12 KiB png 64x32 ]]");
        }
        other => panic!("unexpected {other:?}"),
    }
    assert!(statuses(&effects).contains(&"Deleting selected entry...".to_string()));
    effects.clear();
    session.deleted("4", Err("gone".to_string()), &mut effects);
    assert_eq!(statuses(&effects), vec!["Delete failed for 4: gone".to_string()]);
}

#[test]
fn deleting_the_last_row_selects_the_new_last_row() {
    let (mut session, _) = loaded(AppConfig::default());
    let mut effects = Vec::new();
    session.handle_normal_key(&key('G'), "", &mut effects);
    session.handle_normal_key(&key('d'), "", &mut effects);
    assert_eq!(session.items.len(), 4);
    assert_eq!(session.selected, 3);
}

#[test]
fn nothing_to_delete_or_copy_is_reported() {
    let mut effects = Vec::new();
    let mut session = Session::new(AppConfig::default(), &mut effects);
    effects.clear();
    session.handle_normal_key(&key('d'), "", &mut effects);
    session.handle_normal_key(&key('y'), "", &mut effects);
    assert_eq!(
        statuses(&effects),
        vec!["No clipboard entry selected".to_string(), "No clipboard entry selected".to_string()]
    );
}

#[test]
fn copying_closes_the_popup_once_the_copy_finished() {
    let (mut session, _) = loaded(AppConfig::default());
    let mut effects = Vec::new();
    session.handle_normal_key(&key('j'), "", &mut effects);
    effects.clear();
    session.handle_normal_key(&key('y'), "", &mut effects);
    assert!(matches!(effects.as_slice(), [Effect::HoldApplication, Effect::CopyEntry { index: 1 }]));
    assert!(session.close_after_copy_finishes);
    effects.clear();
    session.copied(Ok(()), &mut effects);
    assert!(matches!(effects.as_slice(), [Effect::ReleaseApplication, Effect::Close]));
    assert!(!session.close_after_copy_finishes);
}

#[test]
fn a_failed_copy_keeps_the_popup_open() {
    let (mut session, _) = loaded(AppConfig::default());
    let mut effects = Vec::new();
    session.handle_normal_key(&key('y'), "", &mut effects);
    effects.clear();
    session.copied(Err("wl-copy failed: no display".to_string()), &mut effects);
    assert_eq!(statuses(&effects), vec!["Copy failed: wl-copy failed: no display".to_string()]);
    assert!(matches!(effects.last(), Some(Effect::ReleaseApplication)));
    assert!(!effects.iter().any(|e| matches!(e, Effect::Close | Effect::Hide)));
    assert!(!session.close_after_copy_finishes);
}

#[test]
fn copying_without_closing_confirms_and_refreshes() {
    let mut config = AppConfig::default();
    config.behavior.close_on_copy = false;
    let (mut session, _) = loaded(config);
    let mut effects = Vec::new();
    session.handle_normal_key(&KeyPress { key: NamedKey::Return, character: None, ctrl: false }, "", &mut effects);
    assert_eq!(statuses(&effects), vec!["Copied selected entry".to_string()]);
    assert!(matches!(effects.last(), Some(Effect::CopyEntry { index: 0 })));
    let generation = session.status_generation;
    assert!(effects.iter().any(|e| matches!(e, Effect::RestoreStatusAfter { generation: g, millis: 900 } if *g == generation)));
    effects.clear();
    session.copied(Ok(()), &mut effects);
    assert!(matches!(effects.as_slice(), [Effect::RefreshAfterCopy, Effect::ReleaseApplication]));
    effects.clear();
    session.copied(Err("no wl-copy".to_string()), &mut effects);
    assert_eq!(statuses(&effects), vec!["Copy failed: no wl-copy".to_string()]);
}

#[test]
fn an_old_temporary_status_is_not_restored_over_a_newer_one() {
    let (mut session, _) = loaded(AppConfig::default());
    let mut effects = Vec::new();
    let old = session.status_generation;
    session.set_status("newer".to_string(), &mut effects);
    effects.clear();
    session.restore_status(old, &mut effects);
    assert!(effects.is_empty());
    let current = session.status_generation;
    session.restore_status(current, &mut effects);
    assert!(matches!(effects.as_slice(), [Effect::ShowKeyHints(HintSet::Brief)]));
}

#[test]
fn service_mode_hides_instead_of_closing() {
    let mut effects = Vec::new();
    let mut session = Session::new(AppConfig::default(), &mut effects);
    effects.clear();
    session.handle_service_invocation(false, &mut effects);
    assert!(session.service_mode);
    assert!(matches!(effects.last(), Some(Effect::LoadHistory { generation: 1 })));
    session.history_loaded(1, Ok(parse_list(HISTORY, 180)), "", &mut effects);
    effects.clear();
    session.handle_normal_key(&key('y'), "", &mut effects);
    assert!(matches!(effects.as_slice(), [Effect::HoldApplication, Effect::CopyEntry { index: 0 }]));
    assert!(session.close_after_copy_finishes);
    effects.clear();
    session.copied(Ok(()), &mut effects);
    assert!(matches!(
        effects.as_slice(),
        [Effect::RefreshAfterCopy, Effect::ReleaseApplication, Effect::Hide]
    ));
    effects.clear();
    session.handle_normal_key(&key('q'), "", &mut effects);
    assert!(matches!(effects.as_slice(), [Effect::Hide]));
    effects.clear();
    assert!(session.close_request(&mut effects));
    assert!(matches!(effects.as_slice(), [Effect::Hide]));
    effects.clear();
    session.show_or_toggle_from_activation(true, "", &mut effects);
    assert!(matches!(effects.as_slice(), [Effect::Hide]));
}

#[test]
fn showing_the_popup_reloads_and_presents_it() {
    let (mut session, _) = loaded(AppConfig::default());
    let mut effects = Vec::new();
    session.show_or_toggle_from_activation(false, "", &mut effects);
    assert!(session.loading);
    assert!(effects.iter().any(|e| matches!(e, Effect::Present)));
    assert!(effects.iter().any(|e| matches!(e, Effect::LoadHistory { .. })));
    assert!(matches!(effects.last(), Some(Effect::FocusList)));
}

#[test]
fn the_popup_can_start_in_insert_mode() {
    let mut config = AppConfig::default();
    config.behavior.start_in_insert = true;
    config.behavior.reload_on_open = false;
    let (mut session, _) = loaded(config);
    let mut effects = Vec::new();
    session.show_from_activation("", &mut effects);
    assert!(session.insert_mode);
    assert!(matches!(effects.last(), Some(Effect::FocusSearch)));
    assert!(effects.iter().any(|e| matches!(e, Effect::ShowKeyHints(HintSet::Search))));
    assert!(!effects.iter().any(|e| matches!(e, Effect::LoadHistory { .. })));
}

#[test]
fn help_toggles_the_full_hints() {
    let (mut session, _) = loaded(AppConfig::default());
    let mut effects = Vec::new();
    session.handle_normal_key(&key('?'), "", &mut effects);
    assert!(session.show_keybind_help);
    assert!(matches!(effects.last(), Some(Effect::ShowKeyHints(HintSet::Full))));
    session.handle_normal_key(&key('?'), "", &mut effects);
    assert!(matches!(effects.last(), Some(Effect::ShowKeyHints(HintSet::Brief))));
}

#[test]
fn hidden_hints_when_switched_off() {
    let mut config = AppConfig::default();
    config.behavior.show_keybinds = false;
    let (session, effects) = loaded(config);
    assert!(!session.loading);
    assert!(matches!(effects.last(), Some(Effect::ShowKeyHints(HintSet::Hidden))));
}

#[test]
fn key_hint_texts() {
    assert!(key_hints(HintSet::Hidden).is_empty());
    let pairs: Vec<(String, String)> = vec![
        ("type".into(), "search".into()),
        ("Esc".into(), "normal".into()),
    ];
    assert_eq!(key_hints(HintSet::Search), pairs);
    let brief = key_hints(HintSet::Brief);
    assert_eq!(brief.len(), 5);
    assert_eq!(brief[2], ("j/k".to_string(), "move".to_string()));
    let full = key_hints(HintSet::Full);
    assert_eq!(full.len(), 8);
    assert_eq!(full[7], ("?".to_string(), "hide".to_string()));
}

#[test]
fn thumbnails_are_asked_for_once_and_recorded() {
    let (mut session, _) = loaded(AppConfig::default());
    assert_eq!(session.thumbnail_window(), (0, 5));
    assert_eq!(session.wants_thumbnail(0), None);
    assert_eq!(session.wants_thumbnail(1), Some(1));
    session.mark_thumbnail_requested(1);
    assert_eq!(session.wants_thumbnail(1), None);
    let mut effects = Vec::new();
    let generation = session.thumbnail_generation;
    session.thumbnail_ready(generation + 1, "4".to_string(), "/stale.png".to_string(), &mut effects);
    assert!(effects.is_empty());
    assert_eq!(session.thumbnail_for("4"), None);
    session.thumbnail_ready(generation, "4".to_string(), "/cache/4.png".to_string(), &mut effects);
    assert_eq!(session.thumbnail_for("4"), Some("/cache/4.png".to_string()));
    assert!(session.requested_thumbnails.is_empty());
    assert!(matches!(effects.as_slice(), [Effect::Render { .. }, Effect::RequestThumbnails]));
}

#[test]
fn a_failed_thumbnail_of_the_selected_entry_is_reported() {
    let (mut session, _) = loaded(AppConfig::default());
    let mut effects = Vec::new();
    session.handle_normal_key(&key('j'), "", &mut effects);
    effects.clear();
    let generation = session.thumbnail_generation;
    session.thumbnail_failed(generation, "4", "bad data", &mut effects);
    assert_eq!(statuses(&effects), vec!["Image preview failed: bad data".to_string()]);
    assert_eq!(session.failed_thumbnails, vec!["4".to_string()]);
    assert_eq!(session.wants_thumbnail(1), None);
}

#[test]
fn reloading_settings_applies_them() {
    let (mut session, _) = loaded(AppConfig::default());
    let mut config = AppConfig::default();
    config.list.max_text_chars = 5;
    config.image.width = 100;
    let before = session.thumbnail_generation;
    let mut effects = Vec::new();
    session.reload_config(config, false, "", &mut effects);
    assert_eq!(session.items[0].visible_preview, "He...");
    assert_eq!(session.thumbnail_generation, before + 1);
    assert!(matches!(effects[0], Effect::ReloadCss));
    assert!(matches!(effects[1], Effect::ApplyConfig));
    assert!(matches!(effects[2], Effect::RestartThumbnailer { .. }));
    assert!(statuses(&effects).contains(&"Configuration reloaded".to_string()));
}

#[test]
fn leaving_the_search_keeps_the_rows() {
    let (mut session, _) = loaded(AppConfig::default());
    let mut effects = Vec::new();
    session.search_focus_entered(&mut effects);
    session.search_changed("foo", &mut effects);
    session.row_selected(1, &mut effects);
    effects.clear();
    session.exit_insert_mode(&mut effects);
    assert!(!session.insert_mode);
    assert_eq!(session.visible, vec![2, 3]);
    assert_eq!(session.selected, 1);
    assert!(matches!(effects.first(), Some(Effect::SetModeIndicator(false))));
    assert!(matches!(effects.last(), Some(Effect::FocusList)));
    effects.clear();
    session.clicked(true, &mut effects);
    assert!(effects.is_empty());
}

#[test]
fn service_invocations_toggle_the_popup() {
    let mut effects = Vec::new();
    let mut session = Session::new(AppConfig::default(), &mut effects);
    session.handle_service_invocation(false, &mut effects);
    effects.clear();
    session.show_or_toggle_from_activation(false, "", &mut effects);
    assert!(effects.iter().any(|e| matches!(e, Effect::Present)));
    effects.clear();
    session.show_or_toggle_from_activation(true, "", &mut effects);
    assert!(matches!(effects.as_slice(), [Effect::Hide]));
    effects.clear();
    session.handle_service_invocation(true, &mut effects);
    assert!(matches!(effects.as_slice(), [Effect::Hide]));
}

#[test]
fn thumbnail_window_follows_the_selection() {
    let lines: Vec<String> = (0..100).rev().map(|i| format!("{i}\t[[ binary data 1 KiB png 2x2 ]]")).collect();
    let mut effects = Vec::new();
    let mut session = Session::new(AppConfig::default(), &mut effects);
    session.reload_with_status(false, &mut effects);
    session.history_loaded(1, Ok(parse_list(&lines.join("\n"), 40)), "", &mut effects);
    assert_eq!(session.thumbnail_window(), (0, 40));
    for _ in 0..50 {
        session.move_selection(1, &mut effects);
    }
    assert_eq!(session.selected, 50);
    assert_eq!(session.thumbnail_window(), (42, 90));
    session.select_last(&mut effects);
    assert_eq!(session.thumbnail_window(), (91, 100));
}

#[test]
fn only_queued_thumbnail_requests_are_recorded() {
    let (mut session, _) = loaded(AppConfig::default());
    let (sender, receiver) = async_channel::bounded(1);
    let mut thumbnailer = cliphist_ui::thumbnails::Thumbnailer::with_sender(sender);
    assert_eq!(session.request_nearby_thumbnails(&mut thumbnailer), vec![true]);
    assert_eq!(session.requested_thumbnails, vec!["4".to_string()]);
    assert_eq!(receiver.try_recv().unwrap().id, "4");
    assert!(session.request_nearby_thumbnails(&mut thumbnailer).is_empty());
    assert_eq!(session.requested_thumbnails, vec!["4".to_string()]);
    assert!(receiver.try_recv().is_err());
}

#[test]
fn reloading_unchanged_settings_keeps_the_history() {
    let (mut session, _) = loaded(AppConfig::default());
    let before = session.items.clone();
    let generation = session.thumbnail_generation;
    let mut effects = Vec::new();
    session.reload_config(AppConfig::default(), false, "", &mut effects);
    assert_eq!(session.items, before);
    assert_eq!(session.thumbnail_generation, generation);
    assert!(!effects.iter().any(|e| matches!(e, Effect::Close | Effect::RestartThumbnailer { .. })));
    assert!(matches!(effects.last(), Some(Effect::RestoreStatusAfter { millis: 1200, .. })));
}

#[test]
fn refused_thumbnail_requests_are_asked_again_later() {
    let (mut session, _) = loaded(AppConfig::default());
    let (sender, receiver) = async_channel::bounded(1);
    let mut thumbnailer = cliphist_ui::thumbnails::Thumbnailer::with_sender(sender);
    let (other, _unused) = async_channel::bounded::<cliphist_ui::thumbnails::ThumbnailJob>(1);
    let mut busy = cliphist_ui::thumbnails::Thumbnailer::with_sender(other);
    let first = cliphist_ui::model::ClipboardItem::parse("9\tfill", 10).unwrap();
    assert!(busy.request(&first));
    assert_eq!(session.request_nearby_thumbnails(&mut busy), vec![false]);
    assert!(session.requested_thumbnails.is_empty());
    assert_eq!(session.request_nearby_thumbnails(&mut thumbnailer), vec![true]);
    assert_eq!(receiver.try_recv().unwrap().raw_line, "4\t[[ binary data 12 KiB png 64x32 ]]");
}

#[test]
fn only_the_service_reloads_settings_on_signal() {
    let mut effects = Vec::new();
    let mut session = Session::new(AppConfig::default(), &mut effects);
    assert!(!session.reloads_config_on_signal());
    session.handle_service_invocation(false, &mut effects);
    assert!(session.reloads_config_on_signal());
}
