//! The command-line dispatch rule: of the four mutually exclusive operation
//! options, the first one set — in the fixed order `only`, `add`, `remove`,
//! `full` — wins; later ones are never inspected. With none set, no
//! operation is requested.

use vstd::prelude::*;

verus! {

/// One requested operation, carrying its folder name where it takes one.
pub enum Request {
    Only(String),
    Add(String),
    Remove(String),
    Full,
}

/// Pick the one operation a command line requests. A string option is "set"
/// when non-empty; the flag when true; the first set option in the fixed
/// order wins, and with none set there is nothing to do.
pub fn select_request(only: String, add: String, remove: String, full: bool) -> (r: Option<
    Request,
>)
    ensures
        (if only@.len() > 0 {
            r matches Some(q) && q matches Request::Only(n) && n@ == only@
        } else if add@.len() > 0 {
            r matches Some(q) && q matches Request::Add(n) && n@ == add@
        } else if remove@.len() > 0 {
            r matches Some(q) && q matches Request::Remove(n) && n@ == remove@
        } else if full {
            r matches Some(q) && q matches Request::Full
        } else {
            r is None
        }),
{
    if !only.as_str().is_empty() {
        Some(Request::Only(only))
    } else if !add.as_str().is_empty() {
        Some(Request::Add(add))
    } else if !remove.as_str().is_empty() {
        Some(Request::Remove(remove))
    } else if full {
        Some(Request::Full)
    } else {
        None
    }
}

} // verus!
