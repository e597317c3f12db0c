use cliphist_ui::clipboard::{
    copy_arguments, entry_input, find_fresh_entry, plan_copy_retry, retry_failed_message,
};
use cliphist_ui::model::{normalize_search, parse_list, ClipboardItem, ClipboardKind};

#[test]
fn parses_tab_separated_text() {
    let item = ClipboardItem::parse("8108\tfoo\nbar", 32).unwrap();
    assert_eq!(item.id, "8108");
    assert_eq!(item.visible_preview, "foo bar");
    assert_eq!(item.kind, ClipboardKind::Text);
}

#[test]
fn classifies_image_binary() {
    let item = ClipboardItem::parse("8107    [[ binary data 303 KiB png 542x422 ]]", 32).unwrap();
    assert_eq!(item.kind, ClipboardKind::Image);
    assert_eq!(item.visible_preview, "Image 542x422");
    assert_eq!(item.mime_type(), Some("image/png"));
}

#[test]
fn clamps_text_preview() {
    let item = ClipboardItem::parse("1\tabcdef", 4).unwrap();
    assert_eq!(item.visible_preview, "a...");
}

#[test]
fn blank_lines_are_not_entries() {
    assert!(ClipboardItem::parse("", 10).is_none());
    assert!(ClipboardItem::parse("   \t  ", 10).is_none());
    assert!(ClipboardItem::parse("\r\n", 10).is_none());
}

#[test]
fn line_breaks_at_the_end_are_dropped_from_the_stored_line() {
    let item = ClipboardItem::parse("12\thello\r\n", 10).unwrap();
    assert_eq!(item.raw_line, "12\thello");
    assert_eq!(item.preview, "hello");
}

#[test]
fn id_and_preview_split_on_whitespace_without_a_tab() {
    let item = ClipboardItem::parse("42   some   text  ", 50).unwrap();
    assert_eq!(item.id, "42");
    assert_eq!(item.preview, "some   text");
    assert_eq!(item.visible_preview, "some text");
    assert_eq!(item.search_text, "text some text");
}

#[test]
fn leading_whitespace_gives_an_empty_id() {
    let item = ClipboardItem::parse("  42 x", 50).unwrap();
    assert_eq!(item.id, "");
    assert_eq!(item.preview, "42 x");
}

#[test]
fn a_line_with_only_an_id_has_an_empty_preview() {
    let item = ClipboardItem::parse("77", 10).unwrap();
    assert_eq!(item.id, "77");
    assert_eq!(item.preview, "");
    assert_eq!(item.visible_preview, "");
    assert_eq!(item.kind, ClipboardKind::Text);
}

#[test]
fn previews_never_exceed_the_maximum() {
    let item = ClipboardItem::parse("1\tabcdef", 0).unwrap();
    assert_eq!(item.visible_preview, "");
    let item = ClipboardItem::parse("1\tabcdef", 3).unwrap();
    assert_eq!(item.visible_preview, "abc");
    let item = ClipboardItem::parse("1\tabcdef", 6).unwrap();
    assert_eq!(item.visible_preview, "abcdef");
    let item = ClipboardItem::parse("1\tabcdefg", 6).unwrap();
    assert_eq!(item.visible_preview, "abc...");
}

#[test]
fn binary_entries_show_their_size() {
    let item = ClipboardItem::parse("5\t[[ binary data 1.5 MiB zip ]]", 40).unwrap();
    assert_eq!(item.kind, ClipboardKind::Binary);
    assert_eq!(item.visible_preview, "Binary 1.5 MiB");
    assert_eq!(item.mime_type(), None);
    assert_eq!(item.search_text, "binary binary 1.5 mib");
}

#[test]
fn binary_entries_without_a_size_say_binary_data() {
    let item = ClipboardItem::parse("5\t[[ binary data ]]", 40).unwrap();
    assert_eq!(item.kind, ClipboardKind::Binary);
    assert_eq!(item.visible_preview, "Binary data");
}

#[test]
fn images_without_dimensions_say_image() {
    let item = ClipboardItem::parse("9\t[[ binary data 2 KiB gif ]]", 40).unwrap();
    assert_eq!(item.kind, ClipboardKind::Image);
    assert_eq!(item.visible_preview, "Image");
    assert_eq!(item.mime_type(), Some("image/gif"));
}

#[test]
fn mime_types_follow_the_format_word() {
    let cases = [
        ("[[ binary data 1 KiB JPEG 2x2 ]]", Some("image/jpeg")),
        ("[[ binary data 1 KiB jpg 2x2 ]]", Some("image/jpeg")),
        ("[[ binary data 1 KiB webp 2x2 ]]", Some("image/webp")),
        ("[[ binary data 1 KiB bmp 2x2 ]]", Some("image/bmp")),
        ("[[ binary data 1 KiB tiff 2x2 ]]", Some("image/tiff")),
        ("[[ binary data 1 KiB tif 2x2 ]]", Some("image/tiff")),
        ("png but not binary", None),
    ];
    for (preview, expected) in cases {
        let item = ClipboardItem::parse(&format!("3\t{preview}"), 80).unwrap();
        assert_eq!(item.mime_type(), expected, "{preview}");
    }
}

#[test]
fn kind_labels() {
    assert_eq!(ClipboardKind::Text.label(), "Text");
    assert_eq!(ClipboardKind::Image.label(), "Image");
    assert_eq!(ClipboardKind::Binary.label(), "Binary");
}

#[test]
fn parse_list_skips_blank_lines_and_keeps_order() {
    let items = parse_list("3\tthird\n\n2\tsecond\r\n   \n1\tfirst", 20);
    let ids: Vec<&str> = items.iter().map(|item| item.id.as_str()).collect();
    assert_eq!(ids, vec!["3", "2", "1"]);
    assert_eq!(items[1].raw_line, "2\tsecond");
}

#[test]
fn parse_list_of_nothing_is_empty() {
    assert!(parse_list("", 20).is_empty());
    assert!(parse_list("\n\n", 20).is_empty());
}

#[test]
fn normalize_search_collapses_and_lowers() {
    assert_eq!(normalize_search("  Hello\t\tWORLD \n"), "hello world");
    assert_eq!(normalize_search(""), "");
    assert_eq!(normalize_search("ÄB"), "Äb");
}

#[test]
fn normalize_search_is_idempotent() {
    let once = normalize_search("  A  b\tC ");
    assert_eq!(normalize_search(&once), once);
}

#[test]
fn parsing_a_stored_line_again_gives_the_same_entry() {
    let item = ClipboardItem::parse("8107\t[[ binary data 303 KiB png 542x422 ]]", 12).unwrap();
    let again = ClipboardItem::parse(&item.raw_line, 12).unwrap();
    assert_eq!(again, item);
    let longer = ClipboardItem::parse(&item.raw_line, 400).unwrap();
    assert_eq!(longer.id, item.id);
    assert_eq!(longer.raw_line, item.raw_line);
    assert_eq!(longer.kind, item.kind);
}

#[test]
fn copy_arguments_name_the_type_when_known() {
    assert_eq!(copy_arguments(Some("image/png")), vec!["--type".to_string(), "image/png".to_string()]);
    assert!(copy_arguments(None).is_empty());
}

#[test]
fn entry_input_ends_with_a_line_break() {
    assert_eq!(entry_input("12\thello"), "12\thello\n");
    assert_eq!(entry_input(""), "\n");
}

#[test]
fn fresh_entry_is_the_first_with_same_kind_and_preview() {
    let old = ClipboardItem::parse("10\tsame text", 40).unwrap();
    let entries = parse_list("21\tother\n20\tsame text\n19\tsame text", 40);
    assert_eq!(find_fresh_entry(&entries, &old), Some(1));
    let image = ClipboardItem::parse("4\t[[ binary data 1 KiB png 2x2 ]]", 40).unwrap();
    assert_eq!(find_fresh_entry(&entries, &image), None);
    assert_eq!(find_fresh_entry(&Vec::new(), &old), None);
}

#[test]
fn a_stale_copy_is_retried_with_the_fresh_entry() {
    let old = ClipboardItem::parse("10\tsame text", 40).unwrap();
    let listed = Ok(parse_list("21\tother\n20\tsame text", 40));
    assert_eq!(plan_copy_retry("gone", &listed, &old), Ok(1));
    let listed = Ok(parse_list("21\tother", 40));
    assert_eq!(
        plan_copy_retry("gone", &listed, &old),
        Err("copy failed: gone; refreshed history did not contain a matching entry".to_string())
    );
    let listed = Err("cliphist list failed: boom".to_string());
    assert_eq!(
        plan_copy_retry("gone", &listed, &old),
        Err("copy failed and failed to refresh history; original error: gone: cliphist list failed: boom".to_string())
    );
    assert_eq!(
        retry_failed_message("gone", "wl-copy failed"),
        "copy failed after refreshing stale history entry; original error: gone: wl-copy failed"
    );
}
