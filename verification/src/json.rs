//! JSON documents read with `serde_json`.
use vstd::prelude::*;
use crate::text::{str_eq, strings_view};

verus! {

pub open spec fn opt_strings(o: Option<Vec<String>>) -> Option<Seq<Seq<char>>> {
    match o {
        Some(v) => Some(strings_view(v@)),
        None => None,
    }
}

/// A member of a JSON object as this crate reads it: its name, and the names
/// of its own members when its value is an object.
pub open spec fn member_view(m: (String, Option<Vec<String>>)) -> (Seq<char>, Option<Seq<Seq<char>>>) {
    (m.0@, opt_strings(m.1))
}

pub open spec fn members_view(v: Seq<(String, Option<Vec<String>>)>) -> Seq<(Seq<char>, Option<Seq<Seq<char>>>)> {
    v.map_values(|m: (String, Option<Vec<String>>)| member_view(m))
}

/// What `serde_json` makes of a text read as a `Value`: `None` when it is
/// not JSON; otherwise the members of the top-level object (none when the
/// value is not an object), each with the names of its own members when its
/// value is an object.
pub uninterp spec fn json_object_members(text: Seq<char>) -> Option<Seq<(Seq<char>, Option<Seq<Seq<char>>>)>>;

/// `serde_json::from_str` into a `serde_json::Value`, read out through
/// `as_object` and the keys of each member that is itself an object. The
/// contract names the outcome and claims nothing more.
#[verifier::external_body]
fn json_members(text: &str) -> (r: Option<Vec<(String, Option<Vec<String>>)>>)
    ensures
        match r {
            Some(v) => json_object_members(text@) == Some(members_view(v@)),
            None => json_object_members(text@) is None,
        },
{
    let value = serde_json::from_str::<serde_json::Value>(text).ok()?;
    Some(match value.as_object() {
        Some(object) => object
            .iter()
            .map(|(name, member)| (name.clone(), member.as_object().map(|o| o.keys().cloned().collect())))
            .collect(),
        None => Vec::new(),
    })
}

/// The member names of the first member called `name`, from position `from`
/// on, when its value is an object.
pub open spec fn member_keys(ms: Seq<(Seq<char>, Option<Seq<Seq<char>>>)>, name: Seq<char>, from: int) -> Option<Seq<Seq<char>>>
    decreases ms.len() - from,
{
    if from < 0 || from >= ms.len() {
        None
    } else if ms[from].0 == name {
        ms[from].1
    } else {
        member_keys(ms, name, from + 1)
    }
}

/// The script names of a `package.json` text: the members of its `scripts`
/// object, when the text is JSON and `scripts` is an object.
pub open spec fn package_script_names(text: Seq<char>) -> Option<Seq<Seq<char>>> {
    match json_object_members(text) {
        None => None,
        Some(ms) => member_keys(ms, "scripts"@, 0),
    }
}

/// The script names of a `package.json` text (see `package_script_names`).
pub fn package_scripts(text: &str) -> (r: Option<Vec<String>>)
    ensures
        opt_strings(r) == package_script_names(text@),
{
    let members = match json_members(text) {
        None => return None,
        Some(m) => m,
    };
    let ghost ms = members_view(members@);
    let mut i: usize = 0;
    while i < members.len()
        invariant
            i <= members@.len(),
            ms == members_view(members@),
            json_object_members(text@) == Some(ms),
            member_keys(ms, "scripts"@, 0) == member_keys(ms, "scripts"@, i as int),
        decreases members@.len() - i,
    {
        assert(ms[i as int] == member_view(members@[i as int]));
        if str_eq(members[i].0.as_str(), "scripts") {
            return members[i].1.clone();
        }
        i += 1;
    }
    None
}

} // verus!
