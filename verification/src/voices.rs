//! The display names under which voice styles are also known.

use crate::text::views_of;
use vstd::prelude::*;
use vstd::string::StringExecFns;

verus! {

/// The display names, in the order in which they are registered.
pub open spec fn alias_names() -> Seq<Seq<char>> {
    seq![
        "Alex"@,
        "James"@,
        "Robert"@,
        "Sam"@,
        "Daniel"@,
        "Sarah"@,
        "Lily"@,
        "Jessica"@,
        "Olivia"@,
        "Emily"@,
    ]
}

/// The voice style that each display name stands for, in the same order.
pub open spec fn alias_styles() -> Seq<Seq<char>> {
    seq!["M1"@, "M2"@, "M3"@, "M4"@, "M5"@, "F1"@, "F2"@, "F3"@, "F4"@, "F5"@]
}

/// A display name and the voice style it stands for.
#[derive(Debug)]
pub struct VoiceAlias {
    pub name: String,
    pub style: String,
}

fn alias(name: &str, style: &str) -> (a: VoiceAlias)
    ensures
        a.name@ == name@,
        a.style@ == style@,
{
    VoiceAlias { name: String::from_str(name), style: String::from_str(style) }
}

/// The fixed table of display names. A name is registered at startup where
/// the registry holds its style.
pub fn voice_aliases() -> (table: Vec<VoiceAlias>)
    ensures
        table@.len() == alias_names().len(),
        forall|i: int|
            0 <= i < table@.len() ==> (#[trigger] table@[i]).name@ == alias_names()[i]
                && table@[i].style@ == alias_styles()[i],
{
    let mut table: Vec<VoiceAlias> = Vec::new();
    table.push(alias("Alex", "M1"));
    table.push(alias("James", "M2"));
    table.push(alias("Robert", "M3"));
    table.push(alias("Sam", "M4"));
    table.push(alias("Daniel", "M5"));
    table.push(alias("Sarah", "F1"));
    table.push(alias("Lily", "F2"));
    table.push(alias("Jessica", "F3"));
    table.push(alias("Olivia", "F4"));
    table.push(alias("Emily", "F5"));
    table
}

} // verus!
