//! What the installer's forms show and collect, apart from the widgets.

use vstd::prelude::*;
use vstd::string::*;

pub mod control;

verus! {

/// The separator between a device's name and its size in a label.
pub open spec fn label_gap() -> Seq<char> {
    "     "@
}

/// The text that lists a device: its name, five spaces, and its size.
#[allow(non_snake_case)]
pub fn getLabel(name: &str, size: &str) -> (label: String)
    ensures
        label@ == name@ + label_gap() + size@,
{
    let mut label = String::from_str(name);
    label.append("     ");
    label.append(size);
    label
}

} // verus!
