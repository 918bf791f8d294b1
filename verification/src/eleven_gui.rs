//! The Eleven Rack editor's pure parts: its tab keys and slot labels.

use vstd::prelude::*;

use crate::library::{config_root, located, LibPath};
use crate::text::{dec, digit_char, push_char, push_decimal, str_equal};

verus! {

/// The editor's tabs.
#[derive(Debug, Clone, Copy, PartialEq, Eq, Structural)]
pub enum Tab {
    /// The User bank: browse, audition, rename, copy, write.
    Patches,
    /// The read-only Factory presets.
    Presets,
    /// The on-disk library: device backups, `.tfx` imports, scenes.
    Library,
    /// The whole-bank scene composer.
    Scene,
    /// The read-only patch inspector and MIDI-CC quick controls.
    Inspect,
}

/// The stable key a tab persists under.
pub open spec fn tab_key(t: Tab) -> Seq<char> {
    match t {
        Tab::Patches => "patches"@,
        Tab::Presets => "presets"@,
        Tab::Library => "library"@,
        Tab::Scene => "scene"@,
        Tab::Inspect => "inspect"@,
    }
}

/// The tab a persisted key names.
pub open spec fn tab_of_key(k: Seq<char>) -> Option<Tab> {
    if k == "patches"@ {
        Some(Tab::Patches)
    } else if k == "presets"@ {
        Some(Tab::Presets)
    } else if k == "library"@ {
        Some(Tab::Library)
    } else if k == "scene"@ {
        Some(Tab::Scene)
    } else if k == "inspect"@ {
        Some(Tab::Inspect)
    } else {
        None
    }
}

impl Tab {
    /// Stable key for persistence.
    pub fn as_key(self) -> (r: &'static str)
        ensures
            r@ == tab_key(self),
    {
        match self {
            Tab::Patches => "patches",
            Tab::Presets => "presets",
            Tab::Library => "library",
            Tab::Scene => "scene",
            Tab::Inspect => "inspect",
        }
    }

    /// The tab for a persisted key, or `None` if unknown.
    pub fn from_key(k: &str) -> (r: Option<Tab>)
        ensures
            r == tab_of_key(k@),
    {
        if str_equal(k, "patches") {
            Some(Tab::Patches)
        } else if str_equal(k, "presets") {
            Some(Tab::Presets)
        } else if str_equal(k, "library") {
            Some(Tab::Library)
        } else if str_equal(k, "scene") {
            Some(Tab::Scene)
        } else if str_equal(k, "inspect") {
            Some(Tab::Inspect)
        } else {
            None
        }
    }
}

/// Every tab comes back from its key.
pub proof fn lemma_tab_key_round_trip(t: Tab)
    ensures
        tab_of_key(tab_key(t)) == Some(t),
{
    reveal_strlit("patches");
    reveal_strlit("presets");
    reveal_strlit("library");
    reveal_strlit("scene");
    reveal_strlit("inspect");
    assert("presets"@[1] != "patches"@[1]);
    assert("library"@[0] != "patches"@[0]);
    assert("library"@[0] != "presets"@[0]);
    assert("inspect"@[0] != "patches"@[0]);
    assert("inspect"@[0] != "presets"@[0]);
    assert("inspect"@[0] != "library"@[0]);
    assert("presets"@ != "patches"@);
    assert("library"@ != "patches"@);
    assert("library"@ != "presets"@);
    assert("inspect"@ != "patches"@);
    assert("inspect"@ != "presets"@);
    assert("inspect"@ != "library"@);
    assert("scene"@.len() != "patches"@.len());
}

/// A User slot's display label: banks of four, `A1`..`Z4`, and `U<slot>`
/// beyond them.
pub open spec fn slot_label_spec(slot: u8) -> Seq<char> {
    let bank = slot / 4;
    let pos = slot % 4 + 1;
    if bank < 26 {
        seq![(65 + bank) as char, digit_char(pos as nat)]
    } else {
        seq!['U'] + dec(slot as nat)
    }
}

/// A display label for a User slot.
pub fn slot_label(slot: u8) -> (r: String)
    ensures
        r@ == slot_label_spec(slot),
{
    let bank: u8 = slot / 4;
    let pos: u8 = slot % 4 + 1;
    let mut s = String::new();
    if bank < 26 {
        push_char(&mut s, (65 + bank) as char);
        push_char(&mut s, (48 + pos) as char);
    } else {
        push_char(&mut s, 'U');
        push_decimal(&mut s, slot as u64);
    }
    assert(s@ =~= slot_label_spec(slot));
    s
}

/// The persisted editor settings file (`<config>/rackctl/eleven/gui-config.json`).
pub fn config_path() -> (r: Option<LibPath>)
    ensures
        r matches Some(p) ==> p@ == seq!["eleven"@, "gui-config.json"@],
{
    let r = located(config_root(), vec![String::from_str("eleven"), String::from_str("gui-config.json")]);
    proof {
        if r is Some {
            assert(r->0@ =~= seq!["eleven"@, "gui-config.json"@]);
        }
    }
    r
}

/// The cached User-bank listing (`<config>/rackctl/eleven/bank-cache.json`).
pub fn cache_path() -> (r: Option<LibPath>)
    ensures
        r matches Some(p) ==> p@ == seq!["eleven"@, "bank-cache.json"@],
{
    let r = located(config_root(), vec![String::from_str("eleven"), String::from_str("bank-cache.json")]);
    proof {
        if r is Some {
            assert(r->0@ =~= seq!["eleven"@, "bank-cache.json"@]);
        }
    }
    r
}

} // verus!
