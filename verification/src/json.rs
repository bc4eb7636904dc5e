//! The data that templates are rendered with: JSON values built from the
//! library's own data.

use vstd::prelude::*;
use vstd::string::*;
use crate::mirror::lemma_menu_prefix;
use crate::tree::{menu_view, MenuNode, MenuTree, Page, PageSpec};

verus! {

/// `serde_json::Value`, a JSON value.
#[verifier::external_type_specification]
#[verifier::external_body]
pub struct ExValue(serde_json::Value);

/// `serde_json::Map`, the fields of a JSON object.
#[verifier::external_type_specification]
#[verifier::external_body]
#[verifier::reject_recursive_types(K)]
#[verifier::reject_recursive_types(V)]
pub struct ExObject<K, V>(serde_json::Map<K, V>);

/// What a JSON value holds, as far as this library builds one.
pub enum Json {
    Text(Seq<char>),
    List(Seq<Json>),
    Object(Map<Seq<char>, Json>),
    Other,
}

/// What a JSON value holds.
pub uninterp spec fn json_of(value: serde_json::Value) -> Json;

/// What each of a list of JSON values holds.
pub open spec fn items_of(items: Seq<serde_json::Value>) -> Seq<Json> {
    Seq::new(items.len(), |i: int| json_of(items[i]))
}

/// The fields that a JSON object under construction holds.
pub uninterp spec fn object_fields(object: serde_json::Map<String, serde_json::Value>) -> Map<
    Seq<char>,
    Json,
>;

/// `Value::String`: the JSON string that holds `text`.
#[verifier::external_body]
pub(crate) fn json_text(text: String) -> (value: serde_json::Value)
    ensures
        json_of(value) == Json::Text(text@),
{
    serde_json::Value::String(text)
}

/// `Value::Array`: the JSON array that holds `items` in their order.
#[verifier::external_body]
pub(crate) fn json_list(items: Vec<serde_json::Value>) -> (value: serde_json::Value)
    ensures
        json_of(value) == Json::List(items_of(items@)),
{
    serde_json::Value::Array(items)
}

/// The fields of an object that has none.
pub open spec fn no_fields() -> Map<Seq<char>, Json> {
    Map::empty()
}

/// `Map::new`: an object without fields.
#[verifier::external_body]
pub(crate) fn new_object() -> (made: serde_json::Map<String, serde_json::Value>)
    ensures
        object_fields(made) == no_fields(),
{
    serde_json::Map::new()
}

/// `Map::insert`: the object then holds `value` under `name`, in place of
/// what it held under that name, and its other fields as before.
#[verifier::external_body]
pub(crate) fn insert_field(
    object: &mut serde_json::Map<String, serde_json::Value>,
    name: String,
    value: serde_json::Value,
)
    ensures
        object_fields(*final(object)) == object_fields(*old(object)).insert(name@, json_of(value)),
{
    let _ = object.insert(name, value);
}

/// `Value::Object`: the JSON object that holds the fields of `object`.
#[verifier::external_body]
pub(crate) fn json_object(object: serde_json::Map<String, serde_json::Value>) -> (value:
    serde_json::Value)
    ensures
        json_of(value) == Json::Object(object_fields(object)),
{
    serde_json::Value::Object(object)
}

/// The menu entry that a template sees: a file has a name, a path and a
/// type; a directory a name and a menu.
pub open spec fn menu_json(node: MenuTree) -> Json
    decreases node, 0nat,
{
    match node {
        MenuTree::File { name, relative_path, extension } => Json::Object(
            Map::empty().insert("name"@, Json::Text(name)).insert(
                "path"@,
                Json::Text(relative_path),
            ).insert("type"@, Json::Text(extension)),
        ),
        MenuTree::Directory { name, children } => Json::Object(
            Map::empty().insert("name"@, Json::Text(name)).insert(
                "menu"@,
                Json::List(menu_json_among(children, children.len())),
            ),
        ),
    }
}

/// What a template sees of the first `n` entries of a menu.
pub open spec fn menu_json_among(menu: Seq<MenuTree>, n: nat) -> Seq<Json>
    decreases menu, n,
{
    if n == 0 || n > menu.len() {
        Seq::empty()
    } else {
        menu_json_among(menu, (n - 1) as nat).push(menu_json(menu[n - 1]))
    }
}

/// What the index template is given: the menu, under the name `menu`.
pub open spec fn index_json(menu: Seq<MenuTree>) -> Json {
    Json::Object(Map::empty().insert("menu"@, Json::List(menu_json_among(menu, menu.len()))))
}

/// What the page template is given: the file's relative path, its text and
/// its back path.
pub open spec fn page_json(page: PageSpec) -> Json {
    Json::Object(
        Map::empty().insert("path"@, Json::Text(page.relative_path)).insert(
            "code"@,
            Json::Text(page.code),
        ).insert("back_path"@, Json::Text(page.back_path)),
    )
}

proof fn lemma_menu_json_among(menu: Seq<MenuTree>, n: nat)
    requires
        n <= menu.len(),
    ensures
        menu_json_among(menu, n).len() == n,
        forall|i: int| 0 <= i < n ==> menu_json_among(menu, n)[i] == menu_json(menu[i]),
    decreases n,
{
    if n > 0 {
        lemma_menu_json_among(menu, (n - 1) as nat);
    }
}

/// The JSON value of one menu entry.
pub fn menu_node_value(node: &MenuNode) -> (value: serde_json::Value)
    ensures
        json_of(value) == menu_json(node@),
    decreases *node, 0nat,
{
    let mut object = new_object();
    match node {
        MenuNode::FileEntry { name, relative_path, extension } => {
            insert_field(&mut object, String::from_str("name"), json_text(name.clone()));
            insert_field(&mut object, String::from_str("path"), json_text(relative_path.clone()));
            insert_field(&mut object, String::from_str("type"), json_text(extension.clone()));
        },
        MenuNode::DirectoryEntry { name, children } => {
            let list = menu_value(children);
            proof {
                lemma_menu_prefix(*children, children.len() as nat);
            }
            insert_field(&mut object, String::from_str("name"), json_text(name.clone()));
            insert_field(&mut object, String::from_str("menu"), list);
        },
    }
    json_object(object)
}

/// The JSON array of a menu.
pub fn menu_value(menu: &Vec<MenuNode>) -> (value: serde_json::Value)
    ensures
        json_of(value) == Json::List(menu_json_among(menu_view(*menu), menu.len() as nat)),
    decreases *menu, menu.len() + 1,
{
    let mut items: Vec<serde_json::Value> = Vec::new();
    let mut i: usize = 0;
    while i < menu.len()
        invariant
            i <= menu.len(),
            items.len() == i,
            forall|j: int| 0 <= j < i ==> json_of(#[trigger] items[j]) == menu_json(menu[j]@),
        decreases menu.len() - i,
    {
        let item = menu_node_value(&menu[i]);
        items.push(item);
        i = i + 1;
    }
    proof {
        lemma_menu_prefix(*menu, menu.len() as nat);
        lemma_menu_json_among(menu_view(*menu), menu.len() as nat);
        assert(items_of(items@) =~= menu_json_among(menu_view(*menu), menu.len() as nat));
    }
    json_list(items)
}

/// What the index template is given for `menu`.
pub fn index_data(menu: &Vec<MenuNode>) -> (value: serde_json::Value)
    ensures
        json_of(value) == index_json(menu_view(*menu)),
{
    let list = menu_value(menu);
    proof {
        lemma_menu_prefix(*menu, menu.len() as nat);
    }
    let mut object = new_object();
    insert_field(&mut object, String::from_str("menu"), list);
    json_object(object)
}

/// What the page template is given for `page`.
pub fn page_data(page: &Page) -> (value: serde_json::Value)
    ensures
        json_of(value) == page_json(page@),
{
    let mut object = new_object();
    insert_field(&mut object, String::from_str("path"), json_text(page.relative_path.clone()));
    insert_field(&mut object, String::from_str("code"), json_text(page.code.clone()));
    insert_field(&mut object, String::from_str("back_path"), json_text(page.back_path.clone()));
    json_object(object)
}

} // verus!
