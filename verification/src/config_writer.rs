//! Writing a configuration file for a new application: a commented
//! template with the target and the first entries filled in.

use vstd::prelude::*;
use crate::text::texts;

verus! {

/// The configuration file that every new application starts from.
pub const CONFIG_TEMPLATE: &'static str =
    "\n# Additional arguments to prepend or append to the given command line.\n[args]\nprepend = [ ]\nappend = [ ]\n\n# Plain environment variables to set or delete\n[env.set]\n# FOO = 'bar'\n# BAR = ''\n\n# You can prepend or append items to PATH-like environment variables\n# For example: prepend or append to the PATH environment variable itself\n[env.pathlike.PATH]\nprepend = [ ]\nappend = [ ]\n";

/// The key of the target.
pub const TARGET_KEY: &'static str = "target";

/// What stands before each entry of a list: a line break and two spaces.
pub const ENTRY_PREFIX: &'static str = "\n  ";

/// A TOML document that keeps its layout and comments: `toml_edit`'s.
#[verifier::external_type_specification]
#[verifier::external_body]
pub struct ExDocumentMut(toml_edit::DocumentMut);

/// An array of a TOML document: `toml_edit`'s.
#[verifier::external_type_specification]
#[verifier::external_body]
pub struct ExArray(toml_edit::Array);

/// What stands at the end of a path of keys, as far as a configuration
/// holds it: a string, or a list.
pub enum Leaf {
    Text(Seq<char>),
    List(Seq<Option<Seq<char>>>),
}

/// What an array holds: for each value in order its text where the value
/// is a string, and `None` where it is of another kind.
pub uninterp spec fn array_texts(array: toml_edit::Array) -> Seq<Option<Seq<char>>>;

/// What a document holds: each string and each array that `Item::get`
/// reaches from the root, key after key through the tables, under the keys
/// that lead to it.
pub uninterp spec fn document_leaves(doc: toml_edit::DocumentMut) -> Map<Seq<Seq<char>>, Leaf>;

/// The text that a document is written as.
pub uninterp spec fn document_rendering(doc: toml_edit::DocumentMut) -> Seq<char>;

/// What the document holds that a text is parsed into; `None` for a text
/// that is no TOML.
pub uninterp spec fn parsed_leaves(text: Seq<char>) -> Option<Map<Seq<Seq<char>>, Leaf>>;

/// A list stands under the keys.
pub open spec fn has_list(leaves: Map<Seq<Seq<char>>, Leaf>, keys: Seq<Seq<char>>) -> bool {
    leaves.contains_key(keys) && leaves[keys] is List
}

/// The list under the keys.
pub open spec fn list_at(leaves: Map<Seq<Seq<char>>, Leaf>, keys: Seq<Seq<char>>) -> Seq<
    Option<Seq<char>>,
> {
    leaves[keys]->List_0
}

/// What a document holds once a string is put under a key of its root:
/// the string under that key, nothing else under the key or below it, and
/// all the rest as before.
pub open spec fn with_text(leaves: Map<Seq<Seq<char>>, Leaf>, key: Seq<char>, value: Seq<char>) -> Map<
    Seq<Seq<char>>,
    Leaf,
> {
    Map::new(
        |keys: Seq<Seq<char>>|
            keys == seq![key] || (leaves.contains_key(keys) && !(keys.len() > 0 && keys[0] == key)),
        |keys: Seq<Seq<char>>|
            if keys == seq![key] {
                Leaf::Text(value)
            } else {
                leaves[keys]
            },
    )
}

/// `str::parse` for `toml_edit::DocumentMut`: the document that the text
/// holds, or `None` where the text is no TOML. What the document holds
/// depends on the text alone.
#[verifier::external_body]
fn parse_document(text: &str) -> (r: Option<toml_edit::DocumentMut>)
    ensures
        match r {
            Some(doc) => parsed_leaves(text@) == Some(document_leaves(doc)),
            None => parsed_leaves(text@) is None,
        },
{
    text.parse::<toml_edit::DocumentMut>().ok()
}

/// Indexing a `toml_edit::DocumentMut` by a key and assigning
/// `toml_edit::value` of a string: the string takes the place of whatever
/// stood under the key of the root table, and nothing else changes.
#[verifier::external_body]
fn set_document_string(doc: &mut toml_edit::DocumentMut, key: &str, value: &str)
    ensures
        document_leaves(*final(doc)) == with_text(document_leaves(*old(doc)), key@, value@),
{
    doc[key] = toml_edit::value(value);
}

/// `Item::get` key by key from the root of a document, then
/// `Item::as_array`: a copy of the list that stands under the keys, or
/// `None` where no list stands there.
#[verifier::external_body]
fn document_list(doc: &toml_edit::DocumentMut, keys: &Vec<String>) -> (r: Option<toml_edit::Array>)
    ensures
        match r {
            Some(list) => has_list(document_leaves(*doc), texts(keys@)) && list_at(
                document_leaves(*doc),
                texts(keys@),
            ) == array_texts(list),
            None => !has_list(document_leaves(*doc), texts(keys@)),
        },
{
    let mut item = doc.as_item();
    for key in keys {
        item = item.get(key.as_str())?;
    }
    item.as_array().cloned()
}

/// `Item::get_mut` key by key from the root of a document, then
/// `Item::as_array_mut` and an assignment to the array found: the list
/// under the keys is replaced by the given one and nothing else that the
/// document holds changes. Returns whether a list stood under the keys;
/// where none did, the document holds what it held.
#[verifier::external_body]
fn set_document_list(doc: &mut toml_edit::DocumentMut, keys: &Vec<String>, list: toml_edit::Array) -> (r:
    bool)
    ensures
        r == has_list(document_leaves(*old(doc)), texts(keys@)),
        document_leaves(*final(doc)) == if r {
            document_leaves(*old(doc)).insert(texts(keys@), Leaf::List(array_texts(list)))
        } else {
            document_leaves(*old(doc))
        },
{
    let mut item = doc.as_item_mut();
    for key in keys {
        match item.get_mut(key.as_str()) {
            Some(next) => item = next,
            None => return false,
        }
    }
    match item.as_array_mut() {
        Some(found) => {
            *found = list;
            true
        },
        None => false,
    }
}

/// `Array::push_formatted` of a string value whose decoration was given
/// the prefix with `Decor::set_prefix`: the string is the array's last
/// value from then on, and the values before it are untouched.
#[verifier::external_body]
fn array_push_string(array: &mut toml_edit::Array, value: &str, prefix: &str)
    ensures
        array_texts(*final(array)) == array_texts(*old(array)).push(Some(value@)),
{
    let mut entry = toml_edit::Value::from(value);
    entry.decor_mut().set_prefix(prefix);
    array.push_formatted(entry);
}

/// `ToString::to_string` of a `toml_edit::DocumentMut`: the document as
/// text, layout and comments included. The text depends on the document
/// alone.
#[verifier::external_body]
fn document_text(doc: &toml_edit::DocumentMut) -> (r: String)
    ensures
        r@ == document_rendering(*doc),
{
    doc.to_string()
}

/// The strings as values of an array.
pub open spec fn as_values(strings: Seq<Seq<char>>) -> Seq<Option<Seq<char>>> {
    strings.map_values(|s: Seq<char>| Some(s))
}

/// Puts the strings behind the values of the array, in order, each on a
/// line of its own.
pub fn fill_array(array: &mut toml_edit::Array, strings: &Vec<String>)
    ensures
        array_texts(*final(array)) == array_texts(*old(array)) + as_values(texts(strings@)),
{
    let ghost all = as_values(texts(strings@));
    let mut i: usize = 0;
    assert(array_texts(*array) =~= array_texts(*old(array)) + all.take(0));
    while i < strings.len()
        invariant
            i <= strings.len(),
            all == as_values(texts(strings@)),
            array_texts(*array) == array_texts(*old(array)) + all.take(i as int),
        decreases strings.len() - i,
    {
        array_push_string(array, strings[i].as_str(), ENTRY_PREFIX);
        proof {
            assert(all[i as int] == Some(strings@[i as int]@));
            assert(all.take(i + 1) =~= all.take(i as int).push(all[i as int]));
            assert(array_texts(*array) =~= array_texts(*old(array)) + all.take(i + 1));
        }
        i = i + 1;
    }
    assert(all.take(strings.len() as int) =~= all);
}

/// What a document holds once strings are put behind the list under the
/// keys.
pub open spec fn with_entries(
    leaves: Map<Seq<Seq<char>>, Leaf>,
    keys: Seq<Seq<char>>,
    strings: Seq<Seq<char>>,
) -> Map<Seq<Seq<char>>, Leaf> {
    leaves.insert(keys, Leaf::List(list_at(leaves, keys) + as_values(strings)))
}

/// Puts the strings behind the list that stands under the keys, which lead
/// from the root of the document through its tables to the list. Returns
/// whether a list stands there; where none does, the document is left as
/// it is.
fn extend_list(doc: &mut toml_edit::DocumentMut, keys: &Vec<String>, strings: &Vec<String>) -> (r:
    bool)
    ensures
        r == has_list(document_leaves(*old(doc)), texts(keys@)),
        r ==> document_leaves(*final(doc)) == with_entries(
            document_leaves(*old(doc)),
            texts(keys@),
            texts(strings@),
        ),
        !r ==> *final(doc) == *old(doc),
{
    match document_list(doc, keys) {
        Some(list) => {
            let mut list = list;
            fill_array(&mut list, strings);
            set_document_list(doc, keys, list)
        },
        None => false,
    }
}

fn keys_of(first: &str, second: &str) -> (r: Vec<String>)
    ensures
        texts(r@) == seq![first@, second@],
{
    let mut keys: Vec<String> = Vec::new();
    keys.push(first.to_owned());
    keys.push(second.to_owned());
    assert(texts(keys@) =~= seq![first@, second@]);
    keys
}

/// The keys that lead to the list of arguments to prepend.
pub open spec fn args_keys() -> Seq<Seq<char>> {
    seq!["args"@, "prepend"@]
}

/// The keys that lead to the list of segments to prepend to `PATH`.
pub open spec fn path_keys() -> Seq<Seq<char>> {
    seq!["env"@, "pathlike"@, "PATH"@, "prepend"@]
}

/// What the configuration file of a new application holds: what the
/// template holds, with the target under its key, the arguments behind the
/// list of arguments to prepend, and the directories behind the list of
/// segments to prepend to `PATH`. `None` where the template is no TOML or
/// lacks one of the two lists.
pub open spec fn new_config_leaves(
    target: Seq<char>,
    pre_args: Seq<Seq<char>>,
    pre_path: Seq<Seq<char>>,
) -> Option<Map<Seq<Seq<char>>, Leaf>> {
    match parsed_leaves(CONFIG_TEMPLATE@) {
        None => None,
        Some(template) => {
            let named = with_text(template, TARGET_KEY@, target);
            let armed = with_entries(named, args_keys(), pre_args);
            if has_list(named, args_keys()) && has_list(armed, path_keys()) {
                Some(with_entries(armed, path_keys(), pre_path))
            } else {
                None
            }
        },
    }
}

/// The text of the configuration file for a new application: the text
/// that `toml_edit` writes for the document that holds what
/// [`new_config_leaves`] says. `None` where that is `None`.
pub fn config_document(target: &str, pre_args: &Vec<String>, pre_path: &Vec<String>) -> (r: Option<
    String,
>)
    ensures
        match r {
            Some(text) => exists|doc: toml_edit::DocumentMut|
                Some(document_leaves(doc)) == new_config_leaves(
                    target@,
                    texts(pre_args@),
                    texts(pre_path@),
                ) && #[trigger] document_rendering(doc) == text@,
            None => new_config_leaves(target@, texts(pre_args@), texts(pre_path@)) is None,
        },
{
    let mut doc = match parse_document(CONFIG_TEMPLATE) {
        Some(doc) => doc,
        None => {
            return None;
        },
    };
    set_document_string(&mut doc, TARGET_KEY, target);
    let args_keys = keys_of("args", "prepend");
    if !extend_list(&mut doc, &args_keys, pre_args) {
        return None;
    }
    let mut path_keys = keys_of("env", "pathlike");
    let ghost two = path_keys@;
    path_keys.push("PATH".to_owned());
    let ghost three = path_keys@;
    path_keys.push("prepend".to_owned());
    proof {
        assert(texts(three) =~= texts(two).push("PATH"@));
        assert(texts(path_keys@) =~= texts(three).push("prepend"@));
        assert(texts(path_keys@) =~= self::path_keys());
    }
    if !extend_list(&mut doc, &path_keys, pre_path) {
        return None;
    }
    Some(document_text(&doc))
}

} // verus!
