//! Clipboard history entries as listed by `cliphist list`, and the search
//! normalisation used to filter them.
use vstd::prelude::*;
use crate::text::{
    chars_equal_str, chars_of, collapse_whitespace, collapse_ws, contains, contains_str, ends_with,
    ends_with_str, extend_chars, find_char, find_whitespace, first_at, first_index_of,
    first_ws_at, first_ws_index, is_ascii_digit, is_blank, is_digit, is_ws, join_words,
    lemma_trim_line_breaks_idempotent, lemma_words_shape, lower, lower_char, lower_chars,
    slice_chars, split_words, string_of, trim, trim_chars, trim_line_break_chars,
    trim_line_breaks, words,
};

verus! {

broadcast use vstd::string::group_string_axioms;

/// What kind of data a history entry holds.
#[derive(Clone, Copy, Debug, PartialEq, Eq, Structural)]
pub enum ClipboardKind {
    Text,
    Image,
    Binary,
}

/// One parsed line of `cliphist list`.
#[derive(Clone, Debug, PartialEq, Eq)]
pub struct ClipboardItem {
    pub id: String,
    pub raw_line: String,
    pub preview: String,
    pub visible_preview: String,
    pub search_text: String,
    pub kind: ClipboardKind,
}

/// The mathematical content of a [`ClipboardItem`].
pub struct ItemView {
    pub id: Seq<char>,
    pub raw_line: Seq<char>,
    pub preview: Seq<char>,
    pub visible_preview: Seq<char>,
    pub search_text: Seq<char>,
    pub kind: ClipboardKind,
}

impl View for ClipboardItem {
    type V = ItemView;

    open spec fn view(&self) -> ItemView {
        ItemView {
            id: self.id@,
            raw_line: self.raw_line@,
            preview: self.preview@,
            visible_preview: self.visible_preview@,
            search_text: self.search_text@,
            kind: self.kind,
        }
    }
}

/// The views of a sequence of items.
pub open spec fn items_view(items: Seq<ClipboardItem>) -> Seq<ItemView> {
    items.map_values(|it: ClipboardItem| it@)
}

/// The view of an optional item.
pub open spec fn item_opt_view(item: Option<ClipboardItem>) -> Option<ItemView> {
    match item {
        Some(it) => Some(it@),
        None => None,
    }
}

// ---------------------------------------------------------------------------
// Specification
// ---------------------------------------------------------------------------

/// The label shown for a kind.
pub open spec fn kind_label(kind: ClipboardKind) -> Seq<char> {
    match kind {
        ClipboardKind::Text => "Text"@,
        ClipboardKind::Image => "Image"@,
        ClipboardKind::Binary => "Binary"@,
    }
}

/// The lower-cased preview mentions one of the image formats that mark an image.
pub open spec fn names_image_format(lower_preview: Seq<char>) -> bool {
    ||| contains(lower_preview, " png"@)
    ||| contains(lower_preview, " jpg"@)
    ||| contains(lower_preview, " jpeg"@)
    ||| contains(lower_preview, " gif"@)
    ||| contains(lower_preview, " webp"@)
    ||| contains(lower_preview, " bmp"@)
    ||| contains(lower_preview, " tiff"@)
    ||| contains(lower_preview, " tif"@)
}

/// The marker that `cliphist` puts in the preview of non-text entries.
pub open spec fn is_binary_preview(lower_preview: Seq<char>) -> bool {
    contains(lower_preview, "[[ binary data"@)
}

/// The kind of an entry, read off its preview.
pub open spec fn classify(preview: Seq<char>) -> ClipboardKind {
    let l = lower(preview);
    if is_binary_preview(l) {
        if names_image_format(l) {
            ClipboardKind::Image
        } else {
            ClipboardKind::Binary
        }
    } else {
        ClipboardKind::Text
    }
}

/// Splits a history line into id and preview: at the first tab if there is
/// one, otherwise at the first white-space character; both parts trimmed.
pub open spec fn split_line(line: Seq<char>) -> (Seq<char>, Seq<char>) {
    if exists|i: int| first_at(line, '\t', i) {
        let i = first_index_of(line, '\t');
        (trim(line.take(i)), trim(line.skip(i + 1)))
    } else if exists|i: int| first_ws_at(line, i) {
        let i = first_ws_index(line);
        (trim(line.take(i)), trim(line.skip(i + 1)))
    } else {
        (trim(line), Seq::empty())
    }
}

/// A preview cut to at most `max_chars` characters: a too long preview keeps
/// its first `max_chars - 3` characters followed by `...`, or, when the
/// maximum is below 4 and leaves no room for the ellipsis, its first
/// `max_chars` characters.
pub open spec fn clamp(preview: Seq<char>, max_chars: nat) -> Seq<char> {
    if preview.len() <= max_chars {
        preview
    } else if max_chars >= 4 {
        preview.take(max_chars - 3) + "..."@
    } else {
        preview.take(max_chars as int)
    }
}

/// A word made of digits and `x` that holds at least one `x`, such as `542x422`.
pub open spec fn is_dimensions_word(w: Seq<char>) -> bool {
    &&& exists|i: int| 0 <= i < w.len() && w[i] == 'x'
    &&& forall|i: int| 0 <= i < w.len() ==> is_digit(#[trigger] w[i]) || w[i] == 'x'
}

/// `ws[k]` is the first dimensions word of `ws`.
pub open spec fn first_dimensions_at(ws: Seq<Seq<char>>, k: int) -> bool {
    &&& 0 <= k < ws.len()
    &&& is_dimensions_word(ws[k])
    &&& forall|j: int| 0 <= j < k ==> !is_dimensions_word(#[trigger] ws[j])
}

/// The first dimensions word of the preview, if any.
pub open spec fn image_dimensions(preview: Seq<char>) -> Option<Seq<char>> {
    let ws = words(preview);
    if exists|k: int| first_dimensions_at(ws, k) {
        Some(ws[choose|k: int| first_dimensions_at(ws, k)])
    } else {
        None
    }
}

/// The label of an image entry.
pub open spec fn image_label(preview: Seq<char>) -> Seq<char> {
    match image_dimensions(preview) {
        Some(d) => "Image "@ + d,
        None => "Image"@,
    }
}

/// A size unit as `cliphist` prints it.
pub open spec fn is_size_unit(w: Seq<char>) -> bool {
    ||| w == "B"@
    ||| w == "KiB"@
    ||| w == "MiB"@
    ||| w == "GiB"@
    ||| w == "KB"@
    ||| w == "MB"@
    ||| w == "GB"@
}

/// A word made of digits and dots.
pub open spec fn is_size_number(w: Seq<char>) -> bool {
    forall|i: int| 0 <= i < w.len() ==> is_digit(#[trigger] w[i]) || w[i] == '.'
}

/// `ws[k]` is a number and `ws[k + 1]` a size unit.
pub open spec fn size_at(ws: Seq<Seq<char>>, k: int) -> bool {
    &&& 0 <= k && k + 1 < ws.len()
    &&& is_size_unit(ws[k + 1])
    &&& is_size_number(ws[k])
}

/// `ws[k]`, `ws[k + 1]` is the first size of `ws`.
pub open spec fn first_size_at(ws: Seq<Seq<char>>, k: int) -> bool {
    &&& size_at(ws, k)
    &&& forall|j: int| 0 <= j < k ==> !#[trigger] size_at(ws, j)
}

/// The first size (number, space, unit) in the preview, if any.
pub open spec fn binary_size(preview: Seq<char>) -> Option<Seq<char>> {
    let ws = words(preview);
    if exists|k: int| first_size_at(ws, k) {
        let k = choose|k: int| first_size_at(ws, k);
        Some(ws[k] + seq![' '] + ws[k + 1])
    } else {
        None
    }
}

/// The label of a binary entry.
pub open spec fn binary_label(preview: Seq<char>) -> Seq<char> {
    match binary_size(preview) {
        Some(size) => "Binary "@ + size,
        None => "Binary data"@,
    }
}

/// The text that search queries are compared with: white space collapsed,
/// ASCII lower case.
pub open spec fn search_normal_form(s: Seq<char>) -> Seq<char> {
    lower(collapse_ws(s))
}

/// The row text of an entry of the given kind.
pub open spec fn visible_text(kind: ClipboardKind, preview: Seq<char>, max_chars: nat) -> Seq<
    char,
> {
    match kind {
        ClipboardKind::Text => clamp(collapse_ws(preview), max_chars),
        ClipboardKind::Image => image_label(preview),
        ClipboardKind::Binary => binary_label(preview),
    }
}

/// The entry that a line of `cliphist list` stands for; `None` for a blank line.
pub open spec fn parse_spec(raw: Seq<char>, max_chars: nat) -> Option<ItemView> {
    let line = trim_line_breaks(raw);
    if trim(line).len() == 0 {
        None
    } else {
        let (id, preview) = split_line(line);
        let kind = classify(preview);
        let visible = visible_text(kind, preview, max_chars);
        Some(
            ItemView {
                id,
                raw_line: line,
                preview,
                visible_preview: visible,
                search_text: search_normal_form(kind_label(kind) + seq![' '] + visible),
                kind,
            },
        )
    }
}

/// The MIME type that an entry's preview announces, if any.
pub open spec fn mime_spec(preview: Seq<char>) -> Option<Seq<char>> {
    let l = lower(preview);
    if !is_binary_preview(l) {
        None
    } else if contains(l, " png"@) || contains(l, "png "@) || ends_with(l, "png ]]"@) {
        Some("image/png"@)
    } else if contains(l, " jpeg"@) || contains(l, " jpg"@) || ends_with(l, "jpg ]]"@) {
        Some("image/jpeg"@)
    } else if contains(l, " gif"@) {
        Some("image/gif"@)
    } else if contains(l, " webp"@) {
        Some("image/webp"@)
    } else if contains(l, " bmp"@) {
        Some("image/bmp"@)
    } else if contains(l, " tiff"@) || contains(l, " tif"@) {
        Some("image/tiff"@)
    } else {
        None
    }
}

/// The pieces of `s` between line feeds (one more piece than line feeds).
pub open spec fn line_pieces(s: Seq<char>) -> Seq<Seq<char>>
    decreases s.len(),
{
    if s.len() == 0 {
        seq![Seq::empty()]
    } else {
        let p = line_pieces(s.drop_last());
        if s.last() == '\n' {
            p.push(Seq::empty())
        } else {
            p.update(p.len() - 1, p.last().push(s.last()))
        }
    }
}

/// A line without the carriage return that may end it.
pub open spec fn strip_cr(line: Seq<char>) -> Seq<char> {
    if line.len() > 0 && line.last() == '\r' {
        line.drop_last()
    } else {
        line
    }
}

/// The lines of `s` as `str::lines` yields them: split at line feeds, a
/// carriage return before a line feed dropped, no empty line after a final
/// line feed.
pub open spec fn lines(s: Seq<char>) -> Seq<Seq<char>> {
    let p = line_pieces(s);
    let done = p.drop_last().map_values(|l: Seq<char>| strip_cr(l));
    if p.last().len() > 0 {
        done.push(p.last())
    } else {
        done
    }
}

/// The entries of the given lines, in order, blank lines skipped.
pub open spec fn parse_lines(ls: Seq<Seq<char>>, max_chars: nat) -> Seq<ItemView>
    decreases ls.len(),
{
    if ls.len() == 0 {
        Seq::empty()
    } else {
        let prev = parse_lines(ls.drop_last(), max_chars);
        match parse_spec(ls.last(), max_chars) {
            Some(item) => prev.push(item),
            None => prev,
        }
    }
}

proof fn lemma_line_pieces_nonempty(s: Seq<char>)
    ensures
        line_pieces(s).len() >= 1,
    decreases s.len(),
{
    if s.len() > 0 {
        lemma_line_pieces_nonempty(s.drop_last());
    }
}

// ---------------------------------------------------------------------------
// Implementation
// ---------------------------------------------------------------------------

impl ClipboardKind {
    /// The label shown for this kind.
    pub fn label(&self) -> (r: &'static str)
        ensures
            r@ == kind_label(*self),
    {
        match self {
            ClipboardKind::Text => "Text",
            ClipboardKind::Image => "Image",
            ClipboardKind::Binary => "Binary",
        }
    }
}

fn classify_preview(preview: &Vec<char>) -> (kind: ClipboardKind)
    ensures
        kind == classify(preview@),
{
    let lower = lower_chars(preview);
    if contains_str(&lower, "[[ binary data") {
        if contains_str(&lower, " png") || contains_str(&lower, " jpg") || contains_str(
            &lower,
            " jpeg",
        ) || contains_str(&lower, " gif") || contains_str(&lower, " webp") || contains_str(
            &lower,
            " bmp",
        ) || contains_str(&lower, " tiff") || contains_str(&lower, " tif") {
            ClipboardKind::Image
        } else {
            ClipboardKind::Binary
        }
    } else {
        ClipboardKind::Text
    }
}

fn split_id_preview(line: &Vec<char>) -> (parts: (Vec<char>, Vec<char>))
    ensures
        (parts.0@, parts.1@) == split_line(line@),
{
    match find_char(line, '\t') {
        Some(i) => {
            let id = slice_chars(line, 0, i);
            let rest = slice_chars(line, i + 1, line.len());
            proof {
                assert(id@ =~= line@.take(i as int));
                assert(rest@ =~= line@.skip(i + 1));
            }
            (trim_chars(&id), trim_chars(&rest))
        },
        None => {
            assert(!exists|i: int| first_at(line@, '\t', i));
            match find_whitespace(line) {
                Some(i) => {
                    let id = slice_chars(line, 0, i);
                    let rest = slice_chars(line, i + 1, line.len());
                    proof {
                        assert(id@ =~= line@.take(i as int));
                        assert(rest@ =~= line@.skip(i + 1));
                    }
                    (trim_chars(&id), trim_chars(&rest))
                },
                None => {
                    assert(!exists|i: int| first_ws_at(line@, i));
                    (trim_chars(line), Vec::new())
                },
            }
        },
    }
}

fn clamp_preview(preview: &Vec<char>, max_chars: usize) -> (out: Vec<char>)
    ensures
        out@ == clamp(preview@, max_chars as nat),
{
    if preview.len() <= max_chars {
        return slice_chars(preview, 0, preview.len());
    }
    if max_chars < 4 {
        let out = slice_chars(preview, 0, max_chars);
        proof {
            assert(preview@.subrange(0, max_chars as int) =~= preview@.take(max_chars as int));
        }
        return out;
    }
    let keep: usize = max_chars - 3;
    let mut out = slice_chars(preview, 0, keep);
    let dots = chars_of("...");
    extend_chars(&mut out, &dots);
    proof {
        assert(preview@.subrange(0, keep as int) =~= preview@.take(keep as int));
    }
    out
}

fn is_dimensions_chars(w: &Vec<char>) -> (r: bool)
    ensures
        r == is_dimensions_word(w@),
{
    let mut has_x = false;
    let mut i: usize = 0;
    while i < w.len()
        invariant
            i <= w.len(),
            forall|k: int| 0 <= k < i ==> is_digit(#[trigger] w@[k]) || w@[k] == 'x',
            has_x == exists|k: int| 0 <= k < i && w@[k] == 'x',
        decreases w.len() - i,
    {
        let c = w[i];
        if !(is_ascii_digit(c) || c == 'x') {
            return false;
        }
        if c == 'x' {
            has_x = true;
        }
        i = i + 1;
    }
    has_x
}

fn find_image_dimensions(preview: &Vec<char>) -> (r: Option<Vec<char>>)
    ensures
        match r {
            Some(d) => image_dimensions(preview@) == Some(d@),
            None => image_dimensions(preview@) is None,
        },
{
    let ws = split_words(preview);
    let ghost w = words(preview@);
    let mut k: usize = 0;
    while k < ws.len()
        invariant
            k <= ws.len(),
            w == words(preview@),
            ws@.len() == w.len(),
            forall|j: int| 0 <= j < ws@.len() ==> (#[trigger] ws@[j])@ == w[j],
            forall|j: int| 0 <= j < k ==> !is_dimensions_word(#[trigger] w[j]),
        decreases ws.len() - k,
    {
        if is_dimensions_chars(&ws[k]) {
            proof {
                assert(first_dimensions_at(w, k as int));
                let c = choose|c: int| first_dimensions_at(w, c);
                if c < k {
                } else if c > k {
                    assert(!is_dimensions_word(w[k as int]));
                }
            }
            let d = slice_chars(&ws[k], 0, ws[k].len());
            assert(d@ =~= w[k as int]);
            return Some(d);
        }
        k = k + 1;
    }
    None
}

fn image_label_chars(preview: &Vec<char>) -> (out: Vec<char>)
    ensures
        out@ == image_label(preview@),
{
    match find_image_dimensions(preview) {
        Some(d) => {
            let mut out = chars_of("Image ");
            extend_chars(&mut out, &d);
            out
        },
        None => chars_of("Image"),
    }
}

fn is_size_unit_chars(w: &Vec<char>) -> (r: bool)
    ensures
        r == is_size_unit(w@),
{
    chars_equal_str(w, "B") || chars_equal_str(w, "KiB") || chars_equal_str(w, "MiB")
        || chars_equal_str(w, "GiB") || chars_equal_str(w, "KB") || chars_equal_str(w, "MB")
        || chars_equal_str(w, "GB")
}

fn is_size_number_chars(w: &Vec<char>) -> (r: bool)
    ensures
        r == is_size_number(w@),
{
    let mut i: usize = 0;
    while i < w.len()
        invariant
            i <= w.len(),
            forall|k: int| 0 <= k < i ==> is_digit(#[trigger] w@[k]) || w@[k] == '.',
        decreases w.len() - i,
    {
        let c = w[i];
        if !(is_ascii_digit(c) || c == '.') {
            return false;
        }
        i = i + 1;
    }
    true
}

fn find_binary_size(preview: &Vec<char>) -> (r: Option<Vec<char>>)
    ensures
        match r {
            Some(s) => binary_size(preview@) == Some(s@),
            None => binary_size(preview@) is None,
        },
{
    let ws = split_words(preview);
    let ghost w = words(preview@);
    if ws.len() < 2 {
        return None;
    }
    let mut k: usize = 0;
    while k + 1 < ws.len()
        invariant
            k + 1 <= ws.len(),
            w == words(preview@),
            ws@.len() == w.len(),
            forall|j: int| 0 <= j < ws@.len() ==> (#[trigger] ws@[j])@ == w[j],
            forall|j: int| 0 <= j < k ==> !#[trigger] size_at(w, j),
        decreases ws.len() - k,
    {
        if is_size_unit_chars(&ws[k + 1]) && is_size_number_chars(&ws[k]) {
            proof {
                assert(size_at(w, k as int));
                assert(first_size_at(w, k as int));
                let c = choose|c: int| first_size_at(w, c);
                if c < k {
                } else if c > k {
                    assert(!size_at(w, k as int));
                }
            }
            let mut out = slice_chars(&ws[k], 0, ws[k].len());
            out.push(' ');
            extend_chars(&mut out, &ws[k + 1]);
            assert(out@ =~= w[k as int] + seq![' '] + w[k + 1]);
            return Some(out);
        }
        k = k + 1;
    }
    proof {
        assert forall|c: int| !first_size_at(w, c) by {
            if 0 <= c < k {
            } else if c >= k {
                assert(!size_at(w, c));
            }
        }
    }
    None
}

fn binary_label_chars(preview: &Vec<char>) -> (out: Vec<char>)
    ensures
        out@ == binary_label(preview@),
{
    match find_binary_size(preview) {
        Some(s) => {
            let mut out = chars_of("Binary ");
            extend_chars(&mut out, &s);
            out
        },
        None => chars_of("Binary data"),
    }
}

fn search_form_chars(s: &Vec<char>) -> (out: Vec<char>)
    ensures
        out@ == search_normal_form(s@),
{
    let collapsed = collapse_whitespace(s);
    lower_chars(&collapsed)
}

fn parse_chars(raw: &Vec<char>, max_preview_chars: usize) -> (res: Option<ClipboardItem>)
    ensures
        item_opt_view(res) == parse_spec(raw@, max_preview_chars as nat),
{
    let line = trim_line_break_chars(raw);
    if is_blank(&line) {
        return None;
    }
    let (id, preview) = split_id_preview(&line);
    let kind = classify_preview(&preview);
    let visible = match kind {
        ClipboardKind::Text => {
            let collapsed = collapse_whitespace(&preview);
            clamp_preview(&collapsed, max_preview_chars)
        },
        ClipboardKind::Image => image_label_chars(&preview),
        ClipboardKind::Binary => binary_label_chars(&preview),
    };
    assert(visible@ == visible_text(kind, preview@, max_preview_chars as nat));
    let mut labelled = chars_of(kind.label());
    labelled.push(' ');
    extend_chars(&mut labelled, &visible);
    assert(labelled@ =~= kind_label(kind) + seq![' '] + visible@);
    let search = search_form_chars(&labelled);
    Some(
        ClipboardItem {
            id: string_of(&id),
            raw_line: string_of(&line),
            preview: string_of(&preview),
            visible_preview: string_of(&visible),
            search_text: string_of(&search),
            kind,
        },
    )
}

impl ClipboardItem {
    /// Parses one line of `cliphist list`; `None` for a blank line.
    pub fn parse(raw_line: &str, max_preview_chars: usize) -> (res: Option<Self>)
        ensures
            item_opt_view(res) == parse_spec(raw_line@, max_preview_chars as nat),
    {
        let raw = chars_of(raw_line);
        parse_chars(&raw, max_preview_chars)
    }

    /// The MIME type announced by the preview of a binary entry, if any.
    pub fn mime_type(&self) -> (r: Option<&'static str>)
        ensures
            match r {
                Some(m) => mime_spec(self.preview@) == Some(m@),
                None => mime_spec(self.preview@) is None,
            },
    {
        let p = chars_of(self.preview.as_str());
        let l = lower_chars(&p);
        if !contains_str(&l, "[[ binary data") {
            return None;
        }
        if contains_str(&l, " png") || contains_str(&l, "png ") || ends_with_str(&l, "png ]]") {
            Some("image/png")
        } else if contains_str(&l, " jpeg") || contains_str(&l, " jpg") || ends_with_str(
            &l,
            "jpg ]]",
        ) {
            Some("image/jpeg")
        } else if contains_str(&l, " gif") {
            Some("image/gif")
        } else if contains_str(&l, " webp") {
            Some("image/webp")
        } else if contains_str(&l, " bmp") {
            Some("image/bmp")
        } else if contains_str(&l, " tiff") || contains_str(&l, " tif") {
            Some("image/tiff")
        } else {
            None
        }
    }
}

/// Parses the whole output of `cliphist list`, one entry per non-blank line.
pub fn parse_list(output: &str, max_preview_chars: usize) -> (items: Vec<ClipboardItem>)
    ensures
        items_view(items@) == parse_lines(lines(output@), max_preview_chars as nat),
{
    let s = chars_of(output);
    let ghost max = max_preview_chars as nat;
    let mut items: Vec<ClipboardItem> = Vec::new();
    let mut cur: Vec<char> = Vec::new();
    let mut i: usize = 0;
    while i < s.len()
        invariant
            i <= s.len(),
            s@ == output@,
            max == max_preview_chars as nat,
            ({
                let p = line_pieces(s@.take(i as int));
                &&& p.len() >= 1
                &&& cur@ == p.last()
                &&& items_view(items@) == parse_lines(
                    p.drop_last().map_values(|l: Seq<char>| strip_cr(l)),
                    max,
                )
            }),
        decreases s.len() - i,
    {
        let c = s[i];
        let ghost p = line_pieces(s@.take(i as int));
        let ghost done = p.drop_last().map_values(|l: Seq<char>| strip_cr(l));
        proof {
            assert(s@.take(i + 1).drop_last() =~= s@.take(i as int));
            assert(s@.take(i + 1).last() == c);
        }
        if c == '\n' {
            let mut line = slice_chars(&cur, 0, cur.len());
            if line.len() > 0 && line[line.len() - 1] == '\r' {
                line.pop();
            }
            proof {
                assert(line@ =~= strip_cr(cur@));
            }
            let parsed = parse_chars(&line, max_preview_chars);
            proof {
                let np = p.push(Seq::<char>::empty());
                assert(np.drop_last() =~= p);
                let ndone = np.drop_last().map_values(|l: Seq<char>| strip_cr(l));
                assert(ndone.drop_last() =~= done);
                assert(ndone.last() == strip_cr(cur@));
            }
            match parsed {
                Some(item) => {
                    items.push(item);
                },
                None => {},
            }
            proof {
                let np = p.push(Seq::<char>::empty());
                let ndone = np.drop_last().map_values(|l: Seq<char>| strip_cr(l));
                assert(items_view(items@) =~= parse_lines(ndone, max));
            }
            cur = Vec::new();
        } else {
            cur.push(c);
            proof {
                let np = p.update(p.len() - 1, p.last().push(c));
                assert(np.drop_last() =~= p.drop_last());
            }
        }
        i = i + 1;
    }
    proof {
        assert(s@.take(i as int) =~= output@);
        let p = line_pieces(output@);
        let done = p.drop_last().map_values(|l: Seq<char>| strip_cr(l));
        if p.last().len() > 0 {
            assert(lines(output@).drop_last() =~= done);
        }
    }
    if cur.len() > 0 {
        let parsed = parse_chars(&cur, max_preview_chars);
        match parsed {
            Some(item) => {
                items.push(item);
            },
            None => {},
        }
        proof {
            assert(items_view(items@) =~= parse_lines(lines(output@), max));
        }
    }
    items
}

/// The search form of `input`: white space collapsed, ASCII lower case.
pub fn normalize_search(input: &str) -> (out: String)
    ensures
        out@ == search_normal_form(input@),
{
    let s = chars_of(input);
    let form = search_form_chars(&s);
    string_of(&form)
}

// ---------------------------------------------------------------------------
// Properties
// ---------------------------------------------------------------------------

/// Parsing the stored line of a parsed entry gives the same entry back: the
/// entries can be rebuilt from their `raw_line` alone.
pub proof fn lemma_reparse_is_stable(raw: Seq<char>, max_chars: nat)
    requires
        parse_spec(raw, max_chars) is Some,
    ensures
        parse_spec(parse_spec(raw, max_chars)->0.raw_line, max_chars) == parse_spec(raw, max_chars),
{
    lemma_trim_line_breaks_idempotent(raw);
}

/// Parsing the stored line again with another preview length keeps the
/// entry's id, line, preview and kind; only the shown text and the search
/// text may change.
pub proof fn lemma_reparse_keeps_identity(raw: Seq<char>, max_chars: nat, new_max_chars: nat)
    requires
        parse_spec(raw, max_chars) is Some,
    ensures
        ({
            let old_item = parse_spec(raw, max_chars)->0;
            let new_item = parse_spec(old_item.raw_line, new_max_chars);
            &&& new_item is Some
            &&& new_item->0.id == old_item.id
            &&& new_item->0.raw_line == old_item.raw_line
            &&& new_item->0.preview == old_item.preview
            &&& new_item->0.kind == old_item.kind
        }),
{
    lemma_trim_line_breaks_idempotent(raw);
}

/// An image entry always announces a MIME type; a text entry never does.
pub proof fn lemma_kind_and_mime_type(raw: Seq<char>, max_chars: nat)
    requires
        parse_spec(raw, max_chars) is Some,
    ensures
        parse_spec(raw, max_chars)->0.kind == ClipboardKind::Image ==> mime_spec(
            parse_spec(raw, max_chars)->0.preview,
        ) is Some,
        parse_spec(raw, max_chars)->0.kind == ClipboardKind::Text ==> mime_spec(
            parse_spec(raw, max_chars)->0.preview,
        ) is None,
{
}

/// The text shown for a text entry has at most `max_chars` characters.
pub proof fn lemma_text_preview_length(raw: Seq<char>, max_chars: nat)
    requires
        parse_spec(raw, max_chars) is Some,
        parse_spec(raw, max_chars)->0.kind == ClipboardKind::Text,
    ensures
        parse_spec(raw, max_chars)->0.visible_preview.len() <= max_chars,
{
    reveal_strlit("...");
}

proof fn lemma_lower_char_ws(c: char)
    ensures
        is_ws(lower_char(c)) == is_ws(c),
        lower_char(lower_char(c)) == lower_char(c),
{
}

proof fn lemma_words_lower(s: Seq<char>)
    ensures
        words(lower(s)) == words(s).map_values(|w: Seq<char>| lower(w)),
    decreases s.len(),
{
    if s.len() > 0 {
        lemma_words_lower(s.drop_last());
        lemma_words_shape(s.drop_last());
        assert(lower(s).drop_last() =~= lower(s.drop_last()));
        let c = s.last();
        lemma_lower_char_ws(c);
        if s.len() >= 2 {
            lemma_lower_char_ws(s[s.len() - 2]);
            assert(lower(s)[s.len() - 2] == lower_char(s[s.len() - 2]));
        }
        let w = words(s.drop_last());
        let lw = w.map_values(|x: Seq<char>| lower(x));
        if is_ws(c) {
        } else if s.len() >= 2 && !is_ws(s[s.len() - 2]) {
            assert(s.drop_last().last() == s[s.len() - 2]);
            let nw = w.update(w.len() - 1, w.last().push(c));
            assert(lower(w.last().push(c)) =~= lower(w.last()).push(lower_char(c)));
            assert(nw.map_values(|x: Seq<char>| lower(x)) =~= lw.update(
                lw.len() - 1,
                lw.last().push(lower_char(c)),
            ));
        } else {
            assert(lower(seq![c]) =~= seq![lower_char(c)]);
            assert(w.push(seq![c]).map_values(|x: Seq<char>| lower(x)) =~= lw.push(
                seq![lower_char(c)],
            ));
        }
    }
}

proof fn lemma_join_lower(ws: Seq<Seq<char>>)
    ensures
        join_words(ws.map_values(|w: Seq<char>| lower(w))) == lower(join_words(ws)),
    decreases ws.len(),
{
    let lw = ws.map_values(|w: Seq<char>| lower(w));
    if ws.len() > 1 {
        lemma_join_lower(ws.drop_last());
        assert(lw.drop_last() =~= ws.drop_last().map_values(|w: Seq<char>| lower(w)));
        assert(lower(join_words(ws.drop_last()) + seq![' '] + ws.last()) =~= lower(
            join_words(ws.drop_last()),
        ) + seq![' '] + lower(ws.last()));
    }
}

/// A word is a non-empty text without white space.
pub open spec fn is_word(w: Seq<char>) -> bool {
    w.len() > 0 && forall|m: int| 0 <= m < w.len() ==> !is_ws(#[trigger] w[m])
}

proof fn lemma_words_of_word(w: Seq<char>)
    requires
        is_word(w),
    ensures
        words(w) == seq![w],
    decreases w.len(),
{
    if w.len() == 1 {
        assert(w.drop_last() =~= Seq::<char>::empty());
        assert(words(w.drop_last()) == Seq::<Seq<char>>::empty());
        assert(!is_ws(w.last()));
        assert(seq![w.last()] =~= w);
        assert(Seq::<Seq<char>>::empty().push(seq![w.last()]) =~= seq![w]);
    } else {
        let p = w.drop_last();
        assert(is_word(p));
        lemma_words_of_word(p);
        assert(p.push(w.last()) =~= w);
        assert(!is_ws(w[w.len() - 2]));
        assert(!is_ws(w.last()));
        assert(seq![p].update(0, p.push(w.last())) =~= seq![w]);
    }
}

proof fn lemma_words_append_word(x: Seq<char>, w: Seq<char>)
    requires
        is_word(w),
    ensures
        words(x + seq![' '] + w) == words(x).push(w),
    decreases w.len(),
{
    let t = x + seq![' '] + w;
    assert(t.drop_last() =~= x + seq![' '] + w.drop_last());
    assert(t.last() == w.last());
    assert(!is_ws(w.last()));
    if w.len() == 1 {
        assert(t.drop_last() =~= x.push(' '));
        assert(x.push(' ').drop_last() =~= x);
        assert(x.push(' ').last() == ' ');
        assert(words(x.push(' ')) == words(x));
        assert(t[t.len() - 2] == ' ');
        assert(seq![w.last()] =~= w);
    } else {
        let p = w.drop_last();
        assert(is_word(p));
        lemma_words_append_word(x, p);
        assert(t[t.len() - 2] == p.last());
        assert(!is_ws(p.last()));
        assert(p.push(w.last()) =~= w);
        let wp = words(x).push(p);
        assert(wp.update(wp.len() - 1, wp.last().push(w.last())) =~= words(x).push(w));
    }
}

proof fn lemma_words_of_join(ws: Seq<Seq<char>>)
    requires
        forall|k: int| 0 <= k < ws.len() ==> is_word(#[trigger] ws[k]),
    ensures
        words(join_words(ws)) == ws,
    decreases ws.len(),
{
    if ws.len() == 0 {
    } else if ws.len() == 1 {
        lemma_words_of_word(ws[0]);
        assert(seq![ws[0]] =~= ws);
    } else {
        lemma_words_of_join(ws.drop_last());
        lemma_words_append_word(join_words(ws.drop_last()), ws.last());
        assert(ws.drop_last().push(ws.last()) =~= ws);
    }
}

/// Collapsing white space a second time changes nothing.
pub proof fn lemma_collapse_idempotent(s: Seq<char>)
    ensures
        collapse_ws(collapse_ws(s)) == collapse_ws(s),
{
    lemma_words_shape(s);
    let ws = words(s);
    assert forall|k: int| 0 <= k < ws.len() implies is_word(#[trigger] ws[k]) by {
        assert forall|m: int| 0 <= m < ws[k].len() implies !is_ws(#[trigger] ws[k][m]) by {}
    }
    lemma_words_of_join(ws);
}

/// The search form is a normal form: normalising a search text again gives
/// the same text, so stored search texts and normalised queries compare as
/// they are.
pub proof fn lemma_search_form_idempotent(s: Seq<char>)
    ensures
        search_normal_form(search_normal_form(s)) == search_normal_form(s),
{
    let c = collapse_ws(s);
    lemma_words_lower(c);
    lemma_join_lower(words(c));
    lemma_collapse_idempotent(s);
    assert(lower(lower(c)) =~= lower(c));
}

/// A line holds an entry: something besides whitespace is left once line
/// breaks at its end are dropped.
pub open spec fn holds_entry(line: Seq<char>) -> bool {
    trim(trim_line_breaks(line)).len() > 0
}

/// The entries of a list of lines are, index by index, the entries of its
/// non-blank lines, in order: only blank lines are dropped.
pub proof fn lemma_parse_lines_by_index(ls: Seq<Seq<char>>, max_chars: nat)
    ensures
        ({
            let kept = ls.filter(|l: Seq<char>| holds_entry(l));
            &&& parse_lines(ls, max_chars).len() == kept.len()
            &&& forall|k: int|
                0 <= k < kept.len() ==> parse_spec(kept[k], max_chars) == Some(
                    #[trigger] parse_lines(ls, max_chars)[k],
                )
        }),
    decreases ls.len(),
{
    reveal_with_fuel(Seq::<Seq<char>>::filter, 1);
    if ls.len() > 0 {
        lemma_parse_lines_by_index(ls.drop_last(), max_chars);
        let pred = |l: Seq<char>| holds_entry(l);
        let kept0 = ls.drop_last().filter(pred);
        let kept = ls.filter(pred);
        let prev = parse_lines(ls.drop_last(), max_chars);
        let cur = parse_lines(ls, max_chars);
        if holds_entry(ls.last()) {
            assert(kept == kept0.push(ls.last()));
            assert(parse_spec(ls.last(), max_chars) is Some);
            assert forall|k: int| 0 <= k < kept.len() implies parse_spec(kept[k], max_chars) == Some(
                #[trigger] cur[k],
            ) by {
                if k < kept0.len() {
                    assert(kept[k] == kept0[k]);
                    assert(cur[k] == prev[k]);
                }
            }
        } else {
            assert(kept == kept0);
            assert(parse_spec(ls.last(), max_chars) is None);
            assert(cur == prev);
        }
    }
}

/// What `parse_list` returns for an output: index by index, the entries of
/// the output's non-blank lines, in order.
pub proof fn lemma_parse_list_keeps_nonblank_lines(output: Seq<char>, max_chars: nat)
    ensures
        ({
            let kept = lines(output).filter(|l: Seq<char>| holds_entry(l));
            &&& parse_lines(lines(output), max_chars).len() == kept.len()
            &&& forall|k: int|
                0 <= k < kept.len() ==> parse_spec(kept[k], max_chars) == Some(
                    #[trigger] parse_lines(lines(output), max_chars)[k],
                )
        }),
{
    lemma_parse_lines_by_index(lines(output), max_chars);
}

} // verus!
