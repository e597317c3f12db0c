//! What the clipboard tools are handed: the arguments of `wl-copy`, the line
//! that `cliphist decode` and `cliphist delete` read, and the entry to copy
//! instead when a listed entry went stale.
use vstd::prelude::*;
use crate::model::{ClipboardItem, ItemView};
use crate::text::{chars_equal, chars_of, extend_chars, string_of};

verus! {

broadcast use vstd::string::group_string_axioms;

/// The views of a list of strings.
pub open spec fn texts_view(v: Seq<String>) -> Seq<Seq<char>> {
    v.map_values(|s: String| s@)
}

/// The arguments of `wl-copy` for data of type `mime_type`: `--type` and the
/// type when it is known, none otherwise.
pub open spec fn copy_arguments_spec(mime_type: Option<Seq<char>>) -> Seq<Seq<char>> {
    match mime_type {
        Some(m) => seq!["--type"@, m],
        None => Seq::empty(),
    }
}

/// The arguments of `wl-copy` for data of type `mime_type`.
pub fn copy_arguments(mime_type: Option<&str>) -> (r: Vec<String>)
    ensures
        texts_view(r@) == copy_arguments_spec(
            match mime_type {
                Some(m) => Some(m@),
                None => None,
            },
        ),
{
    let mut r: Vec<String> = Vec::new();
    if let Some(m) = mime_type {
        r.push(string_of(&chars_of("--type")));
        r.push(string_of(&chars_of(m)));
        assert(texts_view(r@) =~= seq!["--type"@, m@]);
    } else {
        assert(texts_view(r@) =~= Seq::<Seq<char>>::empty());
    }
    r
}

/// What `cliphist decode` and `cliphist delete` read: the listed line and a
/// line break.
pub fn entry_input(raw_line: &str) -> (r: String)
    ensures
        r@ == raw_line@.push('\n'),
{
    let mut chars = chars_of(raw_line);
    chars.push('\n');
    string_of(&chars)
}

/// An entry of a fresh listing stands for `item`: same kind and same preview.
pub open spec fn same_entry(candidate: ItemView, item: ItemView) -> bool {
    candidate.kind == item.kind && candidate.preview == item.preview
}

/// The position of the first entry of a fresh listing that stands for `item`
/// (same kind and preview), to copy in its place when copying `item` failed.
pub fn find_fresh_entry(entries: &Vec<ClipboardItem>, item: &ClipboardItem) -> (r: Option<usize>)
    ensures
        match r {
            Some(k) => {
                &&& k < entries.len()
                &&& same_entry(entries@[k as int]@, item@)
                &&& forall|j: int| 0 <= j < k ==> !same_entry(#[trigger] entries@[j]@, item@)
            },
            None => forall|j: int| 0 <= j < entries.len() ==> !same_entry(#[trigger] entries@[j]@, item@),
        },
{
    let preview = chars_of(item.preview.as_str());
    let mut k: usize = 0;
    while k < entries.len()
        invariant
            k <= entries.len(),
            preview@ == item@.preview,
            forall|j: int| 0 <= j < k ==> !same_entry(#[trigger] entries@[j]@, item@),
        decreases entries.len() - k,
    {
        let candidate = &entries[k];
        if candidate.kind == item.kind {
            let other = chars_of(candidate.preview.as_str());
            if chars_equal(&other, &preview) {
                return Some(k);
            }
        }
        k = k + 1;
    }
    None
}

/// `parts` joined, as a `String`.
fn joined(parts: &[&str]) -> (r: String)
    ensures
        r@ == joined_spec(parts@.map_values(|p: &str| p@)),
{
    let mut out: Vec<char> = Vec::new();
    let ghost views = parts@.map_values(|p: &str| p@);
    let mut i: usize = 0;
    while i < parts.len()
        invariant
            i <= parts.len(),
            views == parts@.map_values(|p: &str| p@),
            out@ == joined_spec(views.take(i as int)),
        decreases parts.len() - i,
    {
        extend_chars(&mut out, &chars_of(parts[i]));
        proof {
            assert(views.take(i + 1).drop_last() =~= views.take(i as int));
        }
        i = i + 1;
    }
    assert(views.take(i as int) =~= views);
    string_of(&out)
}

/// The texts of `parts` one after the other.
pub open spec fn joined_spec(parts: Seq<Seq<char>>) -> Seq<char>
    decreases parts.len(),
{
    if parts.len() == 0 {
        Seq::empty()
    } else {
        joined_spec(parts.drop_last()) + parts.last()
    }
}

/// The message when copying failed with `first_error` and listing the
/// history again failed with `error`.
pub open spec fn refresh_failed_text(first_error: Seq<char>, error: Seq<char>) -> Seq<char> {
    "copy failed and failed to refresh history; original error: "@ + first_error + ": "@ + error
}

/// The message when copying failed with `first_error` and the new listing
/// holds no entry that stands for the one copied.
pub open spec fn no_match_text(first_error: Seq<char>) -> Seq<char> {
    "copy failed: "@ + first_error + "; refreshed history did not contain a matching entry"@
}

/// The message when copying failed with `first_error` and copying the fresh
/// entry in its place failed with `error`.
pub open spec fn retry_failed_text(first_error: Seq<char>, error: Seq<char>) -> Seq<char> {
    "copy failed after refreshing stale history entry; original error: "@ + first_error + ": "@
        + error
}

/// What to do after copying `item` failed with `first_error` and the history
/// was listed again (`listed`): copy entry `k` of the new listing, the first
/// that stands for `item`, or fail with a message when the listing failed or
/// holds no such entry.
pub fn plan_copy_retry(
    first_error: &str,
    listed: &Result<Vec<ClipboardItem>, String>,
    item: &ClipboardItem,
) -> (r: Result<usize, String>)
    ensures
        match listed {
            Err(e) => r matches Err(m) && m@ == refresh_failed_text(first_error@, e@),
            Ok(entries) => match r {
                Ok(k) => {
                    &&& k < entries.len()
                    &&& same_entry(entries@[k as int]@, item@)
                    &&& forall|j: int| 0 <= j < k ==> !same_entry(#[trigger] entries@[j]@, item@)
                },
                Err(m) => {
                    &&& forall|j: int|
                        0 <= j < entries.len() ==> !same_entry(#[trigger] entries@[j]@, item@)
                    &&& m@ == no_match_text(first_error@)
                },
            },
        },
{
    match listed {
        Err(e) => {
            let m = joined(&[
                "copy failed and failed to refresh history; original error: ",
                first_error,
                ": ",
                e.as_str(),
            ]);
            proof {
                reveal_with_fuel(joined_spec, 5);
            }
            Err(m)
        },
        Ok(entries) => match find_fresh_entry(entries, item) {
            Some(k) => Ok(k),
            None => {
                let m = joined(
                    &[
                        "copy failed: ",
                        first_error,
                        "; refreshed history did not contain a matching entry",
                    ],
                );
                proof {
                    reveal_with_fuel(joined_spec, 4);
                }
                Err(m)
            },
        },
    }
}

/// The message when copying failed with `first_error` and copying the fresh
/// entry in its place failed with `error`.
pub fn retry_failed_message(first_error: &str, error: &str) -> (r: String)
    ensures
        r@ == retry_failed_text(first_error@, error@),
{
    let m = joined(
        &["copy failed after refreshing stale history entry; original error: ", first_error, ": ", error],
    );
    proof {
        reveal_with_fuel(joined_spec, 5);
    }
    m
}

} // verus!
