//! What the library reads from a `package.json`.
//!
//! The text is parsed as JSON by serde_json. The library asks it for a member,
//! one or two keys deep, and learns whether the text is JSON at all, and
//! whether the member is `null` (or missing), a string, or something else.
use vstd::prelude::*;
use zed_extension_api::serde_json::{self, Value};

verus! {

/// What a JSON member holds, as far as the library reads it.
pub enum JsonSlotModel {
    /// `null`, or no member by that key (serde_json reads both as `null`).
    Null,
    /// A string.
    Str(Seq<char>),
    /// Any other value: a number, a boolean, an array or an object.
    Other,
}

/// An executable [`JsonSlotModel`].
#[derive(Debug, PartialEq, Eq)]
pub enum JsonSlot {
    Null,
    Str(String),
    Other,
}

impl View for JsonSlot {
    type V = JsonSlotModel;

    open spec fn view(&self) -> JsonSlotModel {
        match self {
            JsonSlot::Null => JsonSlotModel::Null,
            JsonSlot::Str(s) => JsonSlotModel::Str(s@),
            JsonSlot::Other => JsonSlotModel::Other,
        }
    }
}

/// What serde_json makes of `text`: none when `text` is not JSON, else what the
/// member reached from the parsed value by indexing with each of `keys` in turn
/// holds.
pub uninterp spec fn json_member(text: Seq<char>, keys: Seq<Seq<char>>) -> Option<JsonSlotModel>;

/// The keys `key`, then `sub` when there is one.
pub open spec fn key_path(key: Seq<char>, sub: Option<&str>) -> Seq<Seq<char>> {
    match sub {
        Some(s) => seq![key, s@],
        None => seq![key],
    }
}

pub open spec fn view_slot(r: Option<JsonSlot>) -> Option<JsonSlotModel> {
    match r {
        Some(slot) => Some(slot@),
        None => None,
    }
}

/// Parses `text` with `serde_json::from_str::<serde_json::Value>` (none where
/// it fails), indexes the value with `key` and then with `sub`, where given,
/// through serde_json's `Index<&str>` for `Value` (which yields `Null` for a
/// missing key and for a value that is not an object), and tells the variant
/// of what it reached. The contract claims only that the result is a function
/// of the text and the keys, named `json_member`.
#[verifier::external_body]
fn lookup_json_member(text: &str, key: &str, sub: Option<&str>) -> (r: Option<JsonSlot>)
    ensures
        view_slot(r) == json_member(text@, key_path(key@, sub)),
{
    let value: Value = serde_json::from_str(text).ok()?;
    let node = match sub {
        Some(sub) => &value[key][sub],
        None => &value[key],
    };
    Some(
        match node {
            Value::Null => JsonSlot::Null,
            Value::String(s) => JsonSlot::Str(s.clone()),
            _ => JsonSlot::Other,
        },
    )
}

/// Whether a looked-up member is there: the text is JSON and the member is
/// not `null`.
pub open spec fn slot_present(slot: Option<JsonSlotModel>) -> bool {
    match slot {
        Some(JsonSlotModel::Null) => false,
        Some(_) => true,
        None => false,
    }
}

/// Whether a looked-up member is the string `expected`.
pub open spec fn slot_is_string(slot: Option<JsonSlotModel>, expected: Seq<char>) -> bool {
    slot == Some(JsonSlotModel::Str(expected))
}

/// Whether `text` is JSON whose member at `keys` is not `null`.
pub open spec fn member_present(text: Seq<char>, keys: Seq<Seq<char>>) -> bool {
    slot_present(json_member(text, keys))
}

/// Whether `text` is JSON that lists `name` under `dependencies` or
/// `devDependencies` with a value that is not `null`.
pub open spec fn lists_package(text: Seq<char>, name: Seq<char>) -> bool {
    ||| member_present(text, seq!["dependencies"@, name])
    ||| member_present(text, seq!["devDependencies"@, name])
}

/// Whether `text` is JSON with a top-level `workspaces` member that is not
/// `null`.
pub open spec fn has_workspaces_field(text: Seq<char>) -> bool {
    member_present(text, seq!["workspaces"@])
}

/// Whether `text` is JSON whose top-level `name` is the string `vite-plus`.
pub open spec fn names_vite_plus(text: Seq<char>) -> bool {
    slot_is_string(json_member(text, seq!["name"@]), "vite-plus"@)
}

/// Whether a looked-up member is there: `None` (the text is not JSON) and
/// `null` (or a missing key) are not; any other value is.
pub fn is_present(slot: &Option<JsonSlot>) -> (r: bool)
    ensures
        r == slot_present(view_slot(*slot)),
{
    match slot {
        Some(JsonSlot::Null) => false,
        Some(_) => true,
        None => false,
    }
}

/// Whether a looked-up member is the string `expected`.
pub fn is_string(slot: &Option<JsonSlot>, expected: &str) -> (r: bool)
    ensures
        r == slot_is_string(view_slot(*slot), expected@),
{
    match slot {
        Some(JsonSlot::Str(s)) => {
            let want = String::from_str(expected);
            *s == want
        },
        _ => false,
    }
}

fn member_is_present(text: &str, key: &str, sub: Option<&str>) -> (r: bool)
    ensures
        r == member_present(text@, key_path(key@, sub)),
{
    let slot = lookup_json_member(text, key, sub);
    is_present(&slot)
}

/// Whether the `package.json` text `package_json` directly declares the
/// package `package_name`, in `dependencies` or in `devDependencies`.
pub fn package_exists(package_json: &str, package_name: &str) -> (r: bool)
    ensures
        r == lists_package(package_json@, package_name@),
        r <==> (json_member(package_json@, seq!["dependencies"@, package_name@]) matches Some(
            m,
        ) && m != JsonSlotModel::Null) || (json_member(
            package_json@,
            seq!["devDependencies"@, package_name@],
        ) matches Some(m) && m != JsonSlotModel::Null),
{
    member_is_present(package_json, "dependencies", Some(package_name)) || member_is_present(
        package_json,
        "devDependencies",
        Some(package_name),
    )
}

/// Whether the `package.json` text declares `vite-plus` directly.
pub fn declares_vite_plus(package_json: &str) -> (r: bool)
    ensures
        r == lists_package(package_json@, "vite-plus"@),
{
    package_exists(package_json, "vite-plus")
}

/// Whether the `package.json` text has a top-level `workspaces` field.
pub fn has_workspaces(package_json: &str) -> (r: bool)
    ensures
        r == has_workspaces_field(package_json@),
{
    member_is_present(package_json, "workspaces", None)
}

/// Whether the `package.json` text is the manifest of the `vite-plus`
/// package itself (`name` is the string `vite-plus`).
pub fn is_vite_plus_manifest(package_json: &str) -> (r: bool)
    ensures
        r == names_vite_plus(package_json@),
{
    let slot = lookup_json_member(package_json, "name", None);
    is_string(&slot, "vite-plus")
}

/// A package is listed exactly when the JSON text holds it, with a value
/// other than `null`, under `dependencies` or under `devDependencies`; each
/// of the two counts whatever the other holds.
pub proof fn lemma_lists_package(text: Seq<char>, name: Seq<char>)
    ensures
        lists_package(text, name) <==> (json_member(text, seq!["dependencies"@, name]) matches Some(
            m,
        ) && m != JsonSlotModel::Null) || (json_member(text, seq!["devDependencies"@, name])
            matches Some(m) && m != JsonSlotModel::Null),
        (json_member(text, seq!["devDependencies"@, name]) matches Some(m) && m
            != JsonSlotModel::Null) ==> lists_package(text, name),
        (json_member(text, seq!["dependencies"@, name]) matches Some(m) && m
            != JsonSlotModel::Null) ==> lists_package(text, name),
{
}

} // verus!
