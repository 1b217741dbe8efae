//! The `process_names` setting may be written as a single string or as a list
//! of strings; either way it becomes a list.

use vstd::prelude::*;

verus! {

/// The `process_names` setting as written in the configuration file.
#[derive(Clone, Debug, PartialEq)]
pub enum NameList {
    /// A bare string, such as `"gmod.exe"`.
    One(String),
    /// A list of strings, such as `["hl2_linux", "gmod"]`.
    Many(Vec<String>),
}

/// The names that a `process_names` value stands for: a bare string is a
/// one-element list, a list is taken as it is.
pub open spec fn name_list_names(names: NameList) -> Seq<Seq<char>> {
    match names {
        NameList::One(name) => seq![name@],
        NameList::Many(list) => list@.map_values(|name: String| name@),
    }
}

/// Turns a `process_names` value into the list of names it stands for.
pub fn deserialize(names: NameList) -> (list: Vec<String>)
    ensures
        list@.map_values(|name: String| name@) == name_list_names(names),
        names matches NameList::Many(given) ==> list@ == given@,
        names matches NameList::One(name) ==> list@ == seq![name],
{
    match names {
        NameList::One(name) => {
            let mut list: Vec<String> = Vec::new();
            list.push(name);
            assert(list@.map_values(|name: String| name@) =~= name_list_names(names));
            list
        },
        NameList::Many(list) => list,
    }
}

/// Every name of a list is kept, in its order, and a bare string is a list
/// of that one name.
pub proof fn lemma_names_kept(names: NameList)
    ensures
        names matches NameList::Many(list) ==> name_list_names(names).len() == list@.len()
            && forall|i: int| 0 <= i < list@.len() ==> name_list_names(names)[i] == list@[i]@,
        names matches NameList::One(name) ==> name_list_names(names).len() == 1
            && name_list_names(names)[0] == name@,
{
}

} // verus!
