//! Application settings: their defaults, how a JSON5 document maps onto them
//! (section by section, with defaults for whatever is missing or invalid),
//! the built-in CSS, and where the settings files live.
use vstd::prelude::*;
use crate::text::{chars_equal_str, chars_of, extend_chars, string_of};

verus! {

broadcast use vstd::string::group_string_axioms;

// ---------------------------------------------------------------------------
// Settings
// ---------------------------------------------------------------------------

/// All settings.
#[derive(Clone, Debug, PartialEq, Eq)]
pub struct AppConfig {
    pub window: WindowConfig,
    pub search: SearchConfig,
    pub list: ListConfig,
    pub image: ImageConfig,
    pub behavior: BehaviorConfig,
}

/// Popup size and placement.
#[derive(Clone, Copy, Debug, PartialEq, Eq, Structural)]
pub struct WindowConfig {
    pub width: i32,
    pub height: i32,
    pub position: WindowPosition,
    pub offset_x: i32,
    pub offset_y: i32,
}

/// Where the popup is anchored on the screen.
#[derive(Clone, Copy, Debug, PartialEq, Eq, Structural)]
pub enum WindowPosition {
    Center,
    Offset,
    Top,
    TopLeft,
    TopRight,
    Bottom,
    BottomLeft,
    BottomRight,
}

/// Search field settings.
#[derive(Clone, Debug, PartialEq, Eq)]
pub struct SearchConfig {
    pub placeholder: String,
}

/// List settings.
#[derive(Clone, Copy, Debug, PartialEq, Eq, Structural)]
pub struct ListConfig {
    pub max_text_chars: usize,
}

/// Thumbnail settings.
#[derive(Clone, Copy, Debug, PartialEq, Eq, Structural)]
pub struct ImageConfig {
    pub width: u32,
    pub height: u32,
    pub show_details: bool,
    pub preserve_aspect_ratio: bool,
    pub rounded_corners: bool,
    pub concurrent_jobs: usize,
}

/// Popup and keyboard behaviour.
#[derive(Clone, Copy, Debug, PartialEq, Eq, Structural)]
pub struct BehaviorConfig {
    pub close_on_copy: bool,
    pub reload_on_open: bool,
    pub start_in_insert: bool,
    pub show_keybinds: bool,
    pub show_vim_mode: bool,
    pub click_to_copy: ClickToCopy,
}

/// Which click on a row copies it.
#[derive(Clone, Copy, Debug, PartialEq, Eq, Structural)]
pub enum ClickToCopy {
    Single,
    Double,
}

/// The content of an [`AppConfig`].
pub struct AppConfigView {
    pub window: WindowConfig,
    pub placeholder: Seq<char>,
    pub list: ListConfig,
    pub image: ImageConfig,
    pub behavior: BehaviorConfig,
}

impl View for AppConfig {
    type V = AppConfigView;

    open spec fn view(&self) -> AppConfigView {
        AppConfigView {
            window: self.window,
            placeholder: self.search.placeholder@,
            list: self.list,
            image: self.image,
            behavior: self.behavior,
        }
    }
}

/// Default window settings: 760 by 620, centred, no offsets.
pub open spec fn window_defaults() -> WindowConfig {
    WindowConfig {
        width: 760,
        height: 620,
        position: WindowPosition::Center,
        offset_x: 0,
        offset_y: 0,
    }
}

/// Default search placeholder.
pub open spec fn placeholder_default() -> Seq<char> {
    "Search clipboard..."@
}

/// Default list settings: previews of at most 180 characters.
pub open spec fn list_defaults() -> ListConfig {
    ListConfig { max_text_chars: 180 }
}

/// Default thumbnail settings.
pub open spec fn image_defaults() -> ImageConfig {
    ImageConfig {
        width: 260,
        height: 140,
        show_details: true,
        preserve_aspect_ratio: true,
        rounded_corners: true,
        concurrent_jobs: 3,
    }
}

/// Default behaviour.
pub open spec fn behavior_defaults() -> BehaviorConfig {
    BehaviorConfig {
        close_on_copy: true,
        reload_on_open: true,
        start_in_insert: false,
        show_keybinds: true,
        show_vim_mode: true,
        click_to_copy: ClickToCopy::Single,
    }
}

/// All defaults.
pub open spec fn config_defaults() -> AppConfigView {
    AppConfigView {
        window: window_defaults(),
        placeholder: placeholder_default(),
        list: list_defaults(),
        image: image_defaults(),
        behavior: behavior_defaults(),
    }
}

impl Default for WindowConfig {
    fn default() -> (r: Self)
        ensures
            r == window_defaults(),
    {
        WindowConfig {
            width: 760,
            height: 620,
            position: WindowPosition::Center,
            offset_x: 0,
            offset_y: 0,
        }
    }
}

impl Default for WindowPosition {
    fn default() -> (r: Self)
        ensures
            r == WindowPosition::Center,
    {
        WindowPosition::Center
    }
}

impl Default for SearchConfig {
    fn default() -> (r: Self)
        ensures
            r.placeholder@ == placeholder_default(),
    {
        SearchConfig { placeholder: string_of(&chars_of("Search clipboard...")) }
    }
}

impl Default for ListConfig {
    fn default() -> (r: Self)
        ensures
            r == list_defaults(),
    {
        ListConfig { max_text_chars: 180 }
    }
}

impl Default for ImageConfig {
    fn default() -> (r: Self)
        ensures
            r == image_defaults(),
    {
        ImageConfig {
            width: 260,
            height: 140,
            show_details: true,
            preserve_aspect_ratio: true,
            rounded_corners: true,
            concurrent_jobs: 3,
        }
    }
}

impl Default for BehaviorConfig {
    fn default() -> (r: Self)
        ensures
            r == behavior_defaults(),
    {
        BehaviorConfig {
            close_on_copy: true,
            reload_on_open: true,
            start_in_insert: false,
            show_keybinds: true,
            show_vim_mode: true,
            click_to_copy: ClickToCopy::Single,
        }
    }
}

impl Default for ClickToCopy {
    fn default() -> (r: Self)
        ensures
            r == ClickToCopy::Single,
    {
        ClickToCopy::Single
    }
}

impl Default for AppConfig {
    fn default() -> (r: Self)
        ensures
            r@ == config_defaults(),
    {
        AppConfig {
            window: WindowConfig::default(),
            search: SearchConfig::default(),
            list: ListConfig::default(),
            image: ImageConfig::default(),
            behavior: BehaviorConfig::default(),
        }
    }
}

// ---------------------------------------------------------------------------
// JSON documents
// ---------------------------------------------------------------------------

/// A JSON number as the settings reader sees it: a non-negative integer, a
/// negative integer, or a number with a fraction or exponent.
#[derive(Clone, Copy, Debug, PartialEq, Eq, Structural)]
pub enum JsonNumber {
    PosInt(u64),
    NegInt(i64),
    Float,
}

/// A JSON value; an object keeps its members in order, each key once.
#[derive(Debug)]
pub enum JsonValue {
    Null,
    Bool(bool),
    Number(JsonNumber),
    String(String),
    Array(Vec<JsonValue>),
    Object(Vec<(String, JsonValue)>),
}

/// The member with key `key` is at `i`, and no member before it has that key.
pub open spec fn first_member_at(members: Seq<(String, JsonValue)>, key: Seq<char>, i: int) -> bool {
    &&& 0 <= i < members.len()
    &&& members[i].0@ == key
    &&& forall|j: int| 0 <= j < i ==> (#[trigger] members[j]).0@ != key
}

/// The value of member `key` of an object, if there is one.
pub open spec fn member(members: Seq<(String, JsonValue)>, key: Seq<char>) -> Option<JsonValue> {
    if exists|i: int| first_member_at(members, key, i) {
        Some(members[choose|i: int| first_member_at(members, key, i)].1)
    } else {
        None
    }
}

/// Names what `json5::from_str::<serde_json::Value>` yields for a text: the
/// document as a [`JsonValue`], or `None` when the text is not JSON5.
pub uninterp spec fn json5_document(text: Seq<char>) -> Option<JsonValue>;

/// `serde_json::Value`, carried through opaquely.
#[verifier::external_type_specification]
#[verifier::external_body]
pub struct ExSerdeJsonValue(serde_json::Value);

/// Converts a `serde_json::Value` into a [`JsonValue`], node by node.
#[verifier::external_body]
fn json_value_from_serde(value: serde_json::Value) -> JsonValue {
    match value {
        serde_json::Value::Null => JsonValue::Null,
        serde_json::Value::Bool(b) => JsonValue::Bool(b),
        serde_json::Value::Number(n) => JsonValue::Number(
            match (n.as_u64(), n.as_i64()) {
                (Some(u), _) => JsonNumber::PosInt(u),
                (None, Some(i)) => JsonNumber::NegInt(i),
                (None, None) => JsonNumber::Float,
            },
        ),
        serde_json::Value::String(s) => JsonValue::String(s),
        serde_json::Value::Array(a) => JsonValue::Array(a.into_iter().map(json_value_from_serde).collect()),
        serde_json::Value::Object(m) => JsonValue::Object(m.into_iter().map(|(k, v)| (k, json_value_from_serde(v))).collect()),
    }
}

/// Parses a JSON5 text with `json5::from_str` into a `serde_json::Value`.
/// The result is the same for the same text; what it is, is left to the
/// name [`json5_document`].
#[verifier::external_body]
fn parse_json5(text: &str) -> (res: Option<JsonValue>)
    ensures
        res == json5_document(text@),
{
    json5::from_str::<serde_json::Value>(text).ok().map(json_value_from_serde)
}

/// The value of member `key`, if `members` has one.
fn find_member<'a>(members: &'a Vec<(String, JsonValue)>, key: &str) -> (r: Option<&'a JsonValue>)
    ensures
        match r {
            Some(v) => member(members@, key@) == Some(*v),
            None => member(members@, key@) is None,
        },
{
    let mut i: usize = 0;
    while i < members.len()
        invariant
            i <= members.len(),
            forall|j: int| 0 <= j < i ==> (#[trigger] members@[j]).0@ != key@,
        decreases members.len() - i,
    {
        let k = chars_of(members[i].0.as_str());
        if chars_equal_str(&k, key) {
            proof {
                assert(first_member_at(members@, key@, i as int));
                let c = choose|c: int| first_member_at(members@, key@, c);
                if c < i {
                } else if c > i {
                    assert(members@[i as int].0@ == key@);
                }
            }
            return Some(&members[i].1);
        }
        i = i + 1;
    }
    None
}

// ---------------------------------------------------------------------------
// Reading settings out of JSON
// ---------------------------------------------------------------------------

/// A JSON value read as an `i32`: an integer in range.
pub open spec fn json_i32(v: JsonValue) -> Option<i32> {
    match v {
        JsonValue::Number(JsonNumber::PosInt(u)) => if u <= i32::MAX {
            Some(u as i32)
        } else {
            None
        },
        JsonValue::Number(JsonNumber::NegInt(i)) => if i32::MIN <= i {
            Some(i as i32)
        } else {
            None
        },
        _ => None,
    }
}

/// A JSON value read as a `u32`: a non-negative integer in range.
pub open spec fn json_u32(v: JsonValue) -> Option<u32> {
    match v {
        JsonValue::Number(JsonNumber::PosInt(u)) => if u <= u32::MAX {
            Some(u as u32)
        } else {
            None
        },
        _ => None,
    }
}

/// A JSON value read as a `usize`: a non-negative integer in range.
pub open spec fn json_usize(v: JsonValue) -> Option<usize> {
    match v {
        JsonValue::Number(JsonNumber::PosInt(u)) => if u <= usize::MAX {
            Some(u as usize)
        } else {
            None
        },
        _ => None,
    }
}

/// A JSON value read as a `bool`.
pub open spec fn json_bool(v: JsonValue) -> Option<bool> {
    match v {
        JsonValue::Bool(b) => Some(b),
        _ => None,
    }
}

/// A JSON value read as a string.
pub open spec fn json_string(v: JsonValue) -> Option<Seq<char>> {
    match v {
        JsonValue::String(s) => Some(s@),
        _ => None,
    }
}

/// The window position named in kebab case.
pub open spec fn position_named(name: Seq<char>) -> Option<WindowPosition> {
    if name == "center"@ {
        Some(WindowPosition::Center)
    } else if name == "offset"@ {
        Some(WindowPosition::Offset)
    } else if name == "top"@ {
        Some(WindowPosition::Top)
    } else if name == "top-left"@ {
        Some(WindowPosition::TopLeft)
    } else if name == "top-right"@ {
        Some(WindowPosition::TopRight)
    } else if name == "bottom"@ {
        Some(WindowPosition::Bottom)
    } else if name == "bottom-left"@ {
        Some(WindowPosition::BottomLeft)
    } else if name == "bottom-right"@ {
        Some(WindowPosition::BottomRight)
    } else {
        None
    }
}

/// The click setting named in kebab case.
pub open spec fn click_named(name: Seq<char>) -> Option<ClickToCopy> {
    if name == "single"@ {
        Some(ClickToCopy::Single)
    } else if name == "double"@ {
        Some(ClickToCopy::Double)
    } else {
        None
    }
}

/// The name that a JSON value gives to a unit variant: a string, or an object
/// with exactly one member whose value is `null`.
pub open spec fn variant_name(v: JsonValue) -> Option<Seq<char>> {
    match v {
        JsonValue::String(s) => Some(s@),
        JsonValue::Object(members) => if members@.len() == 1 && members@[0].1 == JsonValue::Null {
            Some(members@[0].0@)
        } else {
            None
        },
        _ => None,
    }
}

/// A JSON value read as a window position.
pub open spec fn json_position(v: JsonValue) -> Option<WindowPosition> {
    match variant_name(v) {
        Some(name) => position_named(name),
        None => None,
    }
}

/// A JSON value read as a click setting.
pub open spec fn json_click(v: JsonValue) -> Option<ClickToCopy> {
    match variant_name(v) {
        Some(name) => click_named(name),
        None => None,
    }
}

/// A section can stand for a settings group with `fields` fields: an object,
/// or an array of at most `fields` values taken in field order.
pub open spec fn section_shape_ok(v: JsonValue, fields: nat) -> bool {
    match v {
        JsonValue::Object(_) => true,
        JsonValue::Array(items) => items@.len() <= fields,
        _ => false,
    }
}

/// The JSON value given for field number `index` named `name` of a section.
pub open spec fn section_field(v: JsonValue, index: int, name: Seq<char>) -> Option<JsonValue> {
    match v {
        JsonValue::Object(members) => member(members@, name),
        JsonValue::Array(items) => if 0 <= index < items@.len() {
            Some(items@[index])
        } else {
            None
        },
        _ => None,
    }
}

/// A field's value: the default when the field is absent, the read value when
/// it reads, `None` (the whole section is invalid) otherwise.
pub open spec fn field_or<T>(slot: Option<JsonValue>, read: spec_fn(JsonValue) -> Option<T>, default: T) -> Option<T> {
    match slot {
        None => Some(default),
        Some(v) => read(v),
    }
}

/// The window settings that a section stands for, if it is valid.
pub open spec fn window_from_json(v: JsonValue) -> Option<WindowConfig> {
    let d = window_defaults();
    if !section_shape_ok(v, 5) {
        None
    } else {
        match (
            field_or(section_field(v, 0, "width"@), |x| json_i32(x), d.width),
            field_or(section_field(v, 1, "height"@), |x| json_i32(x), d.height),
            field_or(section_field(v, 2, "position"@), |x| json_position(x), d.position),
            field_or(section_field(v, 3, "offset_x"@), |x| json_i32(x), d.offset_x),
            field_or(section_field(v, 4, "offset_y"@), |x| json_i32(x), d.offset_y),
        ) {
            (Some(width), Some(height), Some(position), Some(offset_x), Some(offset_y)) => Some(
                WindowConfig { width, height, position, offset_x, offset_y },
            ),
            _ => None,
        }
    }
}

/// The search placeholder that a section stands for, if it is valid.
pub open spec fn placeholder_from_json(v: JsonValue) -> Option<Seq<char>> {
    if !section_shape_ok(v, 1) {
        None
    } else {
        field_or(section_field(v, 0, "placeholder"@), |x| json_string(x), placeholder_default())
    }
}

/// The list settings that a section stands for, if it is valid.
pub open spec fn list_from_json(v: JsonValue) -> Option<ListConfig> {
    if !section_shape_ok(v, 1) {
        None
    } else {
        match field_or(
            section_field(v, 0, "max_text_chars"@),
            |x| json_usize(x),
            list_defaults().max_text_chars,
        ) {
            Some(max_text_chars) => Some(ListConfig { max_text_chars }),
            None => None,
        }
    }
}

/// The thumbnail settings that a section stands for, if it is valid.
pub open spec fn image_from_json(v: JsonValue) -> Option<ImageConfig> {
    let d = image_defaults();
    if !section_shape_ok(v, 6) {
        None
    } else {
        match (
            field_or(section_field(v, 0, "width"@), |x| json_u32(x), d.width),
            field_or(section_field(v, 1, "height"@), |x| json_u32(x), d.height),
            field_or(section_field(v, 2, "show_details"@), |x| json_bool(x), d.show_details),
            field_or(
                section_field(v, 3, "preserve_aspect_ratio"@),
                |x| json_bool(x),
                d.preserve_aspect_ratio,
            ),
            field_or(section_field(v, 4, "rounded_corners"@), |x| json_bool(x), d.rounded_corners),
            field_or(section_field(v, 5, "concurrent_jobs"@), |x| json_usize(x), d.concurrent_jobs),
        ) {
            (
                Some(width),
                Some(height),
                Some(show_details),
                Some(preserve_aspect_ratio),
                Some(rounded_corners),
                Some(concurrent_jobs),
            ) => Some(
                ImageConfig {
                    width,
                    height,
                    show_details,
                    preserve_aspect_ratio,
                    rounded_corners,
                    concurrent_jobs,
                },
            ),
            _ => None,
        }
    }
}

/// The behaviour settings that a section stands for, if it is valid.
pub open spec fn behavior_from_json(v: JsonValue) -> Option<BehaviorConfig> {
    let d = behavior_defaults();
    if !section_shape_ok(v, 6) {
        None
    } else {
        match (
            field_or(section_field(v, 0, "close_on_copy"@), |x| json_bool(x), d.close_on_copy),
            field_or(section_field(v, 1, "reload_on_open"@), |x| json_bool(x), d.reload_on_open),
            field_or(section_field(v, 2, "start_in_insert"@), |x| json_bool(x), d.start_in_insert),
            field_or(section_field(v, 3, "show_keybinds"@), |x| json_bool(x), d.show_keybinds),
            field_or(section_field(v, 4, "show_vim_mode"@), |x| json_bool(x), d.show_vim_mode),
            field_or(section_field(v, 5, "click_to_copy"@), |x| json_click(x), d.click_to_copy),
        ) {
            (
                Some(close_on_copy),
                Some(reload_on_open),
                Some(start_in_insert),
                Some(show_keybinds),
                Some(show_vim_mode),
                Some(click_to_copy),
            ) => Some(
                BehaviorConfig {
                    close_on_copy,
                    reload_on_open,
                    start_in_insert,
                    show_keybinds,
                    show_vim_mode,
                    click_to_copy,
                },
            ),
            _ => None,
        }
    }
}

/// The section `name` of a document: present only when the document is an
/// object with that member.
pub open spec fn document_section(document: Option<JsonValue>, name: Seq<char>) -> Option<JsonValue> {
    match document {
        Some(JsonValue::Object(members)) => member(members@, name),
        _ => None,
    }
}

/// A section read with `read`, or `default` when it is absent or invalid.
pub open spec fn section_or<T>(section: Option<JsonValue>, read: spec_fn(JsonValue) -> Option<T>, default: T) -> T {
    match section {
        Some(v) => match read(v) {
            Some(x) => x,
            None => default,
        },
        None => default,
    }
}

/// The settings that a parsed document stands for; `None` (no document)
/// gives all defaults.
pub open spec fn config_from_document_spec(document: Option<JsonValue>) -> AppConfigView {
    AppConfigView {
        window: section_or(
            document_section(document, "window"@),
            |v| window_from_json(v),
            window_defaults(),
        ),
        placeholder: section_or(
            document_section(document, "search"@),
            |v| placeholder_from_json(v),
            placeholder_default(),
        ),
        list: section_or(document_section(document, "list"@), |v| list_from_json(v), list_defaults()),
        image: section_or(
            document_section(document, "image"@),
            |v| image_from_json(v),
            image_defaults(),
        ),
        behavior: section_or(
            document_section(document, "behavior"@),
            |v| behavior_from_json(v),
            behavior_defaults(),
        ),
    }
}

fn read_i32(v: &JsonValue) -> (r: Option<i32>)
    ensures
        r == json_i32(*v),
{
    match v {
        JsonValue::Number(JsonNumber::PosInt(u)) => if *u <= 2147483647 {
            Some(*u as i32)
        } else {
            None
        },
        JsonValue::Number(JsonNumber::NegInt(i)) => if -2147483648 <= *i {
            Some(*i as i32)
        } else {
            None
        },
        _ => None,
    }
}

fn read_u32(v: &JsonValue) -> (r: Option<u32>)
    ensures
        r == json_u32(*v),
{
    match v {
        JsonValue::Number(JsonNumber::PosInt(u)) => if *u <= 4294967295 {
            Some(*u as u32)
        } else {
            None
        },
        _ => None,
    }
}

fn read_usize(v: &JsonValue) -> (r: Option<usize>)
    ensures
        r == json_usize(*v),
{
    match v {
        JsonValue::Number(JsonNumber::PosInt(u)) => if *u as u128 <= usize::MAX as u128 {
            Some(*u as usize)
        } else {
            None
        },
        _ => None,
    }
}

fn read_bool(v: &JsonValue) -> (r: Option<bool>)
    ensures
        r == json_bool(*v),
{
    match v {
        JsonValue::Bool(b) => Some(*b),
        _ => None,
    }
}

fn read_string(v: &JsonValue) -> (r: Option<String>)
    ensures
        match r {
            Some(s) => json_string(*v) == Some(s@),
            None => json_string(*v) is None,
        },
{
    match v {
        JsonValue::String(s) => Some(s.clone()),
        _ => None,
    }
}

fn read_variant_name(v: &JsonValue) -> (r: Option<Vec<char>>)
    ensures
        match r {
            Some(s) => variant_name(*v) == Some(s@),
            None => variant_name(*v) is None,
        },
{
    match v {
        JsonValue::String(s) => Some(chars_of(s.as_str())),
        JsonValue::Object(members) => {
            if members.len() == 1 {
                match &members[0].1 {
                    JsonValue::Null => Some(chars_of(members[0].0.as_str())),
                    _ => None,
                }
            } else {
                None
            }
        },
        _ => None,
    }
}

fn read_position(v: &JsonValue) -> (r: Option<WindowPosition>)
    ensures
        r == json_position(*v),
{
    let name = match read_variant_name(v) {
        Some(n) => n,
        None => return None,
    };
    if chars_equal_str(&name, "center") {
        Some(WindowPosition::Center)
    } else if chars_equal_str(&name, "offset") {
        Some(WindowPosition::Offset)
    } else if chars_equal_str(&name, "top") {
        Some(WindowPosition::Top)
    } else if chars_equal_str(&name, "top-left") {
        Some(WindowPosition::TopLeft)
    } else if chars_equal_str(&name, "top-right") {
        Some(WindowPosition::TopRight)
    } else if chars_equal_str(&name, "bottom") {
        Some(WindowPosition::Bottom)
    } else if chars_equal_str(&name, "bottom-left") {
        Some(WindowPosition::BottomLeft)
    } else if chars_equal_str(&name, "bottom-right") {
        Some(WindowPosition::BottomRight)
    } else {
        None
    }
}

fn read_click(v: &JsonValue) -> (r: Option<ClickToCopy>)
    ensures
        r == json_click(*v),
{
    let name = match read_variant_name(v) {
        Some(n) => n,
        None => return None,
    };
    if chars_equal_str(&name, "single") {
        Some(ClickToCopy::Single)
    } else if chars_equal_str(&name, "double") {
        Some(ClickToCopy::Double)
    } else {
        None
    }
}

fn shape_ok(v: &JsonValue, fields: usize) -> (r: bool)
    ensures
        r == section_shape_ok(*v, fields as nat),
{
    match v {
        JsonValue::Object(_) => true,
        JsonValue::Array(items) => items.len() <= fields,
        _ => false,
    }
}

fn field_slot<'a>(v: &'a JsonValue, index: usize, name: &str) -> (r: Option<&'a JsonValue>)
    ensures
        match r {
            Some(x) => section_field(*v, index as int, name@) == Some(*x),
            None => section_field(*v, index as int, name@) is None,
        },
{
    match v {
        JsonValue::Object(members) => find_member(members, name),
        JsonValue::Array(items) => if index < items.len() {
            Some(&items[index])
        } else {
            None
        },
        _ => None,
    }
}

fn window_section(v: &JsonValue) -> (r: Option<WindowConfig>)
    ensures
        r == window_from_json(*v),
{
    if !shape_ok(v, 5) {
        return None;
    }
    let d = WindowConfig::default();
    let width = match field_slot(v, 0, "width") {
        None => d.width,
        Some(x) => match read_i32(x) {
            Some(n) => n,
            None => return None,
        },
    };
    let height = match field_slot(v, 1, "height") {
        None => d.height,
        Some(x) => match read_i32(x) {
            Some(n) => n,
            None => return None,
        },
    };
    let position = match field_slot(v, 2, "position") {
        None => d.position,
        Some(x) => match read_position(x) {
            Some(p) => p,
            None => return None,
        },
    };
    let offset_x = match field_slot(v, 3, "offset_x") {
        None => d.offset_x,
        Some(x) => match read_i32(x) {
            Some(n) => n,
            None => return None,
        },
    };
    let offset_y = match field_slot(v, 4, "offset_y") {
        None => d.offset_y,
        Some(x) => match read_i32(x) {
            Some(n) => n,
            None => return None,
        },
    };
    Some(WindowConfig { width, height, position, offset_x, offset_y })
}

fn search_section(v: &JsonValue) -> (r: Option<String>)
    ensures
        match r {
            Some(s) => placeholder_from_json(*v) == Some(s@),
            None => placeholder_from_json(*v) is None,
        },
{
    if !shape_ok(v, 1) {
        return None;
    }
    match field_slot(v, 0, "placeholder") {
        None => Some(SearchConfig::default().placeholder),
        Some(x) => read_string(x),
    }
}

fn list_section(v: &JsonValue) -> (r: Option<ListConfig>)
    ensures
        r == list_from_json(*v),
{
    if !shape_ok(v, 1) {
        return None;
    }
    let max_text_chars = match field_slot(v, 0, "max_text_chars") {
        None => ListConfig::default().max_text_chars,
        Some(x) => match read_usize(x) {
            Some(n) => n,
            None => return None,
        },
    };
    Some(ListConfig { max_text_chars })
}

fn read_bool_field(v: &JsonValue, index: usize, name: &str, default: bool) -> (r: Option<bool>)
    ensures
        r == field_or(section_field(*v, index as int, name@), |x| json_bool(x), default),
{
    match field_slot(v, index, name) {
        None => Some(default),
        Some(x) => read_bool(x),
    }
}

fn image_section(v: &JsonValue) -> (r: Option<ImageConfig>)
    ensures
        r == image_from_json(*v),
{
    if !shape_ok(v, 6) {
        return None;
    }
    let d = ImageConfig::default();
    let width = match field_slot(v, 0, "width") {
        None => d.width,
        Some(x) => match read_u32(x) {
            Some(n) => n,
            None => return None,
        },
    };
    let height = match field_slot(v, 1, "height") {
        None => d.height,
        Some(x) => match read_u32(x) {
            Some(n) => n,
            None => return None,
        },
    };
    let show_details = match read_bool_field(v, 2, "show_details", d.show_details) {
        Some(b) => b,
        None => return None,
    };
    let preserve_aspect_ratio = match read_bool_field(
        v,
        3,
        "preserve_aspect_ratio",
        d.preserve_aspect_ratio,
    ) {
        Some(b) => b,
        None => return None,
    };
    let rounded_corners = match read_bool_field(v, 4, "rounded_corners", d.rounded_corners) {
        Some(b) => b,
        None => return None,
    };
    let concurrent_jobs = match field_slot(v, 5, "concurrent_jobs") {
        None => d.concurrent_jobs,
        Some(x) => match read_usize(x) {
            Some(n) => n,
            None => return None,
        },
    };
    Some(
        ImageConfig {
            width,
            height,
            show_details,
            preserve_aspect_ratio,
            rounded_corners,
            concurrent_jobs,
        },
    )
}

fn behavior_section(v: &JsonValue) -> (r: Option<BehaviorConfig>)
    ensures
        r == behavior_from_json(*v),
{
    if !shape_ok(v, 6) {
        return None;
    }
    let d = BehaviorConfig::default();
    let close_on_copy = match read_bool_field(v, 0, "close_on_copy", d.close_on_copy) {
        Some(b) => b,
        None => return None,
    };
    let reload_on_open = match read_bool_field(v, 1, "reload_on_open", d.reload_on_open) {
        Some(b) => b,
        None => return None,
    };
    let start_in_insert = match read_bool_field(v, 2, "start_in_insert", d.start_in_insert) {
        Some(b) => b,
        None => return None,
    };
    let show_keybinds = match read_bool_field(v, 3, "show_keybinds", d.show_keybinds) {
        Some(b) => b,
        None => return None,
    };
    let show_vim_mode = match read_bool_field(v, 4, "show_vim_mode", d.show_vim_mode) {
        Some(b) => b,
        None => return None,
    };
    let click_to_copy = match field_slot(v, 5, "click_to_copy") {
        None => d.click_to_copy,
        Some(x) => match read_click(x) {
            Some(c) => c,
            None => return None,
        },
    };
    Some(
        BehaviorConfig {
            close_on_copy,
            reload_on_open,
            start_in_insert,
            show_keybinds,
            show_vim_mode,
            click_to_copy,
        },
    )
}

fn document_section_of<'a>(document: &'a Option<JsonValue>, name: &str) -> (r: Option<&'a JsonValue>)
    ensures
        match r {
            Some(x) => document_section(*document, name@) == Some(*x),
            None => document_section(*document, name@) is None,
        },
{
    match document {
        Some(JsonValue::Object(members)) => find_member(members, name),
        _ => None,
    }
}

/// The settings that a parsed JSON5 document stands for. Each section that is
/// absent or invalid falls back to its defaults on its own; within a valid
/// section, absent fields take their defaults. No document gives all defaults.
pub fn config_from_document(document: &Option<JsonValue>) -> (r: AppConfig)
    ensures
        r@ == config_from_document_spec(*document),
{
    let window = match document_section_of(document, "window") {
        Some(v) => match window_section(v) {
            Some(w) => w,
            None => WindowConfig::default(),
        },
        None => WindowConfig::default(),
    };
    let search = match document_section_of(document, "search") {
        Some(v) => match search_section(v) {
            Some(p) => SearchConfig { placeholder: p },
            None => SearchConfig::default(),
        },
        None => SearchConfig::default(),
    };
    let list = match document_section_of(document, "list") {
        Some(v) => match list_section(v) {
            Some(l) => l,
            None => ListConfig::default(),
        },
        None => ListConfig::default(),
    };
    let image = match document_section_of(document, "image") {
        Some(v) => match image_section(v) {
            Some(i) => i,
            None => ImageConfig::default(),
        },
        None => ImageConfig::default(),
    };
    let behavior = match document_section_of(document, "behavior") {
        Some(v) => match behavior_section(v) {
            Some(b) => b,
            None => BehaviorConfig::default(),
        },
        None => BehaviorConfig::default(),
    };
    AppConfig { window, search, list, image, behavior }
}

/// The settings that a JSON5 settings text stands for. A text that is not
/// JSON5 gives all defaults.
pub fn parse_config(contents: &str) -> (r: AppConfig)
    ensures
        r@ == config_from_document_spec(json5_document(contents@)),
{
    let document = parse_json5(contents);
    config_from_document(&document)
}

/// The settings from what was read of the settings file: all defaults when
/// there was nothing to read (no place for the file, no file, or a read
/// error), otherwise the settings that its text stands for.
pub fn load(contents: Option<&str>) -> (r: AppConfig)
    ensures
        r@ == match contents {
            None => config_defaults(),
            Some(text) => config_from_document_spec(json5_document(text@)),
        },
{
    match contents {
        None => AppConfig::default(),
        Some(text) => parse_config(text),
    }
}

// ---------------------------------------------------------------------------
// Files and styling
// ---------------------------------------------------------------------------

/// `rel` appended to the directory path `base` the way `Path::join` appends a
/// relative path: nothing added to an empty base, one `/` between otherwise.
pub open spec fn join_path(base: Seq<char>, rel: Seq<char>) -> Seq<char> {
    if base.len() == 0 {
        rel
    } else if base.last() == '/' {
        base + rel
    } else {
        base + seq!['/'] + rel
    }
}

fn join_path_chars(base: &str, rel: &str) -> (r: String)
    ensures
        r@ == join_path(base@, rel@),
{
    let mut out = chars_of(base);
    if out.len() > 0 && out[out.len() - 1] != '/' {
        out.push('/');
    }
    let tail = chars_of(rel);
    extend_chars(&mut out, &tail);
    string_of(&out)
}

/// The settings file: under `$XDG_CONFIG_HOME` when that is set, else under
/// `$HOME/.config`, else nowhere.
pub fn config_path_from(xdg_config_home: Option<&str>, home: Option<&str>) -> (r: Option<String>)
    ensures
        match xdg_config_home {
            Some(x) => r is Some && r->0@ == join_path(x@, "cliphist-ui/config.json5"@),
            None => match home {
                Some(h) => r is Some && r->0@ == join_path(h@, ".config/cliphist-ui/config.json5"@),
                None => r is None,
            },
        },
{
    match xdg_config_home {
        Some(x) => Some(join_path_chars(x, "cliphist-ui/config.json5")),
        None => match home {
            Some(h) => Some(join_path_chars(h, ".config/cliphist-ui/config.json5")),
            None => None,
        },
    }
}

/// The user style sheet: under `$XDG_CONFIG_HOME` when that is set, else
/// under `$HOME/.config`, else nowhere.
pub fn style_path_from(xdg_config_home: Option<&str>, home: Option<&str>) -> (r: Option<String>)
    ensures
        match xdg_config_home {
            Some(x) => r is Some && r->0@ == join_path(x@, "cliphist-ui/style.css"@),
            None => match home {
                Some(h) => r is Some && r->0@ == join_path(h@, ".config/cliphist-ui/style.css"@),
                None => r is None,
            },
        },
{
    match xdg_config_home {
        Some(x) => Some(join_path_chars(x, "cliphist-ui/style.css")),
        None => match home {
            Some(h) => Some(join_path_chars(h, ".config/cliphist-ui/style.css")),
            None => None,
        },
    }
}

/// The thumbnail cache: under `$XDG_CACHE_HOME` when that is set, else under
/// `$HOME/.cache`, else under `./.cache`.
pub fn cache_dir_from(xdg_cache_home: Option<&str>, home: Option<&str>) -> (r: String)
    ensures
        r@ == match xdg_cache_home {
            Some(x) => join_path(x@, "cliphist-ui/thumbnails"@),
            None => match home {
                Some(h) => join_path(h@, ".cache/cliphist-ui/thumbnails"@),
                None => join_path("."@, ".cache/cliphist-ui/thumbnails"@),
            },
        },
{
    match xdg_cache_home {
        Some(x) => join_path_chars(x, "cliphist-ui/thumbnails"),
        None => match home {
            Some(h) => join_path_chars(h, ".cache/cliphist-ui/thumbnails"),
            None => join_path_chars(".", ".cache/cliphist-ui/thumbnails"),
        },
    }
}

/// The built-in style sheet, installed before the user's.
pub const BUILTIN_CSS: &'static str = r#"
window.cliphist-ui-window {
  background: transparent;
  color: #dee4e0;
  font-family: Inter, Cantarell, sans-serif;
  font-size: 14px;
}

.cliphist-root {
  background: #0f1512;
  border: 2px solid #27302b;
  border-radius: 10px;
  padding: 10px;
}

.cliphist-header {
  border-radius: 10px;
  margin-bottom: 2px;
}

.cliphist-search {
  background: #141c18;
  color: #dee4e0;
  border: 0;
  border-radius: 10px;
  padding: 9px 12px;
  box-shadow: none;
  caret-color: #dee4e0;
}

.cliphist-search:focus {
  outline: none;
  box-shadow: inset 0 0 0 1px #27302b;
}

.cliphist-list {
  background: #0f1512;
  color: #dee4e0;
  outline: none;
  box-shadow: none;
}

.cliphist-list:focus,
.cliphist-list:focus-visible,
.cliphist-list:focus-within {
  outline: none;
  box-shadow: none;
}

.cliphist-list row {
  background: transparent;
  border-radius: 10px;
  color: #dee4e0;
  margin-bottom: 6px;
  outline: none;
  outline-color: transparent;
  box-shadow: none;
  padding: 8px 10px;
  transition: none;
}

.cliphist-list row:hover,
.cliphist-list row:focus,
.cliphist-list row:focus-visible,
.cliphist-list row:focus-within,
.cliphist-list row:selected:focus,
.cliphist-list row:selected:focus-visible,
.cliphist-list row:selected:focus-within {
  outline: none;
  outline-color: transparent;
  box-shadow: none;
  transition: none;
}

.cliphist-list row:selected {
  background: #a9cbe2;
  color: #0e3446;
  outline: none;
  outline-color: transparent;
  box-shadow: none;
  transition: none;
}

.cliphist-list row:selected label {
  color: #0e3446;
}

.cliphist-kind {
  color: #8f9a95;
  font-size: 12px;
  font-weight: 700;
  letter-spacing: 0.08em;
}

.cliphist-preview {
  color: #dee4e0;
}

.cliphist-muted {
  color: #8f9a95;
}

.cliphist-footer {
  min-height: 24px;
  padding: 4px 2px 0 2px;
}

.cliphist-mode {
  border-radius: 5px;
  min-height: 28px;
  min-width: 6px;
  padding: 0;
}

.cliphist-mode-normal {
  background: #8f9a95;
}

.cliphist-mode-insert {
  background: #a9cbe2;
}

.cliphist-hints {
  color: #8f9a95;
  margin: 0;
}

.cliphist-hints flowboxchild {
  background: transparent;
  padding: 0;
}

.cliphist-hints flowboxchild:selected {
  background: transparent;
}

.cliphist-keyhint {
  background: transparent;
  border-radius: 10px;
  padding: 1px 6px 1px 0;
}

.cliphist-keyhint-key {
  background: #141c18;
  border: 1px solid #27302b;
  border-radius: 10px;
  color: #dee4e0;
  font-family: monospace;
  font-size: 12px;
  font-weight: 800;
  min-width: 18px;
  padding: 1px 5px;
}

.cliphist-keyhint-action {
  color: #8f9a95;
  font-size: 12px;
}

.cliphist-status {
  color: #8f9a95;
  font-size: 12px;
  padding: 2px 0 0 0;
}

.cliphist-thumb-placeholder {
  background: #18201c;
  border-radius: 8px;
}
"#;

/// The built-in style sheet.
pub fn css() -> (r: &'static str)
    ensures
        r@ == BUILTIN_CSS@,
{
    BUILTIN_CSS
}

// ---------------------------------------------------------------------------
// Properties
// ---------------------------------------------------------------------------

/// A settings text that is not JSON5 (no document) gives all defaults.
pub proof fn lemma_no_document_gives_defaults()
    ensures
        config_from_document_spec(None) == config_defaults(),
{
}

/// A section that is absent, or present but invalid, falls back to its own
/// defaults.
pub proof fn lemma_bad_section_gives_section_defaults(document: Option<JsonValue>)
    ensures
        (match document_section(document, "window"@) {
            Some(v) => window_from_json(v) is None,
            None => true,
        }) ==> config_from_document_spec(document).window == window_defaults(),
        (match document_section(document, "search"@) {
            Some(v) => placeholder_from_json(v) is None,
            None => true,
        }) ==> config_from_document_spec(document).placeholder == placeholder_default(),
        (match document_section(document, "list"@) {
            Some(v) => list_from_json(v) is None,
            None => true,
        }) ==> config_from_document_spec(document).list == list_defaults(),
        (match document_section(document, "image"@) {
            Some(v) => image_from_json(v) is None,
            None => true,
        }) ==> config_from_document_spec(document).image == image_defaults(),
        (match document_section(document, "behavior"@) {
            Some(v) => behavior_from_json(v) is None,
            None => true,
        }) ==> config_from_document_spec(document).behavior == behavior_defaults(),
{
}

/// Each section is read on its own: two documents whose section of a given
/// name is the same give the same settings for that section, whatever the
/// other sections hold.
pub proof fn lemma_sections_independent(a: Option<JsonValue>, b: Option<JsonValue>)
    ensures
        document_section(a, "window"@) == document_section(b, "window"@)
            ==> config_from_document_spec(a).window == config_from_document_spec(b).window,
        document_section(a, "search"@) == document_section(b, "search"@)
            ==> config_from_document_spec(a).placeholder == config_from_document_spec(b).placeholder,
        document_section(a, "list"@) == document_section(b, "list"@)
            ==> config_from_document_spec(a).list == config_from_document_spec(b).list,
        document_section(a, "image"@) == document_section(b, "image"@)
            ==> config_from_document_spec(a).image == config_from_document_spec(b).image,
        document_section(a, "behavior"@) == document_section(b, "behavior"@)
            ==> config_from_document_spec(a).behavior == config_from_document_spec(b).behavior,
{
}

/// An empty section object gives the section's defaults: missing fields take
/// their default values.
pub proof fn lemma_empty_section_gives_defaults(members: Vec<(String, JsonValue)>)
    requires
        members@.len() == 0,
    ensures
        window_from_json(JsonValue::Object(members)) == Some(window_defaults()),
        placeholder_from_json(JsonValue::Object(members)) == Some(placeholder_default()),
        list_from_json(JsonValue::Object(members)) == Some(list_defaults()),
        image_from_json(JsonValue::Object(members)) == Some(image_defaults()),
        behavior_from_json(JsonValue::Object(members)) == Some(behavior_defaults()),
{
    assert forall|key: Seq<char>| member(members@, key) is None by {
        assert(!exists|i: int| first_member_at(members@, key, i));
    }
}

/// The documented name of each window position.
pub open spec fn position_word(p: WindowPosition) -> Seq<char> {
    match p {
        WindowPosition::Center => "center"@,
        WindowPosition::Offset => "offset"@,
        WindowPosition::Top => "top"@,
        WindowPosition::TopLeft => "top-left"@,
        WindowPosition::TopRight => "top-right"@,
        WindowPosition::Bottom => "bottom"@,
        WindowPosition::BottomLeft => "bottom-left"@,
        WindowPosition::BottomRight => "bottom-right"@,
    }
}

/// The documented name of each click setting.
pub open spec fn click_word(c: ClickToCopy) -> Seq<char> {
    match c {
        ClickToCopy::Single => "single"@,
        ClickToCopy::Double => "double"@,
    }
}

/// A position setting is read as position `p` exactly when it is written as
/// `p`'s documented kebab-case name (as a string, or as a one-member object
/// with a `null` value): each name gives its own position, and no other text
/// gives one.
pub proof fn lemma_position_names_round_trip(v: JsonValue, p: WindowPosition)
    ensures
        json_position(v) == Some(p) <==> variant_name(v) == Some(position_word(p)),
{
    reveal_strlit("center");
    reveal_strlit("offset");
    reveal_strlit("top");
    reveal_strlit("top-left");
    reveal_strlit("top-right");
    reveal_strlit("bottom");
    reveal_strlit("bottom-left");
    reveal_strlit("bottom-right");
    let words = seq![
        "center"@,
        "offset"@,
        "top"@,
        "top-left"@,
        "top-right"@,
        "bottom"@,
        "bottom-left"@,
        "bottom-right"@,
    ];
    assert forall|i: int, j: int| 0 <= i < j < 8 implies words[i] != words[j] by {
        if words[i].len() == words[j].len() {
            assert(words[i][0] != words[j][0] || words[i][1] != words[j][1]
                || words[i][words[i].len() - 1] != words[j][words[j].len() - 1]);
        }
    }
    assert(words[0] == "center"@ && words[1] == "offset"@ && words[2] == "top"@ && words[3]
        == "top-left"@ && words[4] == "top-right"@ && words[5] == "bottom"@ && words[6]
        == "bottom-left"@ && words[7] == "bottom-right"@);
    match variant_name(v) {
        Some(name) => {
            assert(name == "center"@ || name == "offset"@ || name == "top"@ || name == "top-left"@
                || name == "top-right"@ || name == "bottom"@ || name == "bottom-left"@ || name
                == "bottom-right"@ || position_named(name) is None);
        },
        None => {},
    }
}

/// A click setting is read as `c` exactly when it is written as `c`'s
/// documented name.
pub proof fn lemma_click_names_round_trip(v: JsonValue, c: ClickToCopy)
    ensures
        json_click(v) == Some(c) <==> variant_name(v) == Some(click_word(c)),
{
    reveal_strlit("single");
    reveal_strlit("double");
    assert("single"@[0] != "double"@[0]);
}

} // verus!
