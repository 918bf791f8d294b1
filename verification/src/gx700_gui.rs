//! The GX-700 editor's pure parts: its tab keys, list reordering and the
//! speaker-cabinet descriptions.

use vstd::prelude::*;

use crate::library::{under_root, LibPath};
use crate::text::str_equal;

verus! {

/// The editor's tabs.
#[derive(Debug, Clone, Copy, PartialEq, Eq, Structural)]
pub enum Tab {
    /// The patch librarian / level balancer.
    Patches,
    /// The per-block effect-parameter editor.
    Edit,
    /// The factory-preset browser.
    Presets,
    /// The on-disk library of saved patches and effect blocks.
    Library,
    /// The offline scene composer.
    Scene,
}

/// The stable key a tab persists under; the editor tab is transient and has
/// none.
pub open spec fn tab_key(t: Tab) -> Option<Seq<char>> {
    match t {
        Tab::Patches => Some("patches"@),
        Tab::Presets => Some("presets"@),
        Tab::Library => Some("library"@),
        Tab::Scene => Some("scene"@),
        Tab::Edit => None,
    }
}

/// The tab a persisted key names.
pub open spec fn tab_of_key(k: Seq<char>) -> Option<Tab> {
    if k == "patches"@ {
        Some(Tab::Patches)
    } else if k == "presets"@ {
        Some(Tab::Presets)
    } else if k == "library"@ {
        Some(Tab::Library)
    } else if k == "scene"@ {
        Some(Tab::Scene)
    } else {
        None
    }
}

impl Tab {
    /// Stable key for persistence; `Edit` is a transient screen and has none.
    pub fn as_key(self) -> (r: Option<&'static str>)
        ensures
            match r {
                Some(k) => tab_key(self) == Some(k@),
                None => tab_key(self) is None,
            },
    {
        match self {
            Tab::Patches => Some("patches"),
            Tab::Presets => Some("presets"),
            Tab::Library => Some("library"),
            Tab::Scene => Some("scene"),
            Tab::Edit => None,
        }
    }

    /// The tab for a persisted key, or `None` if unknown.
    pub fn from_key(key: &str) -> (r: Option<Tab>)
        ensures
            r == tab_of_key(key@),
    {
        if str_equal(key, "patches") {
            Some(Tab::Patches)
        } else if str_equal(key, "presets") {
            Some(Tab::Presets)
        } else if str_equal(key, "library") {
            Some(Tab::Library)
        } else if str_equal(key, "scene") {
            Some(Tab::Scene)
        } else {
            None
        }
    }
}

/// The tab the editor opens on: the saved tab; offline, only a saved tab that
/// works without the unit (Scene or Library), else the Scene tab; online, the
/// Patches tab when nothing usable was saved.
pub open spec fn startup_tab_spec(saved: Option<Seq<char>>, offline: bool) -> Tab {
    let t = match saved {
        Some(k) => tab_of_key(k),
        None => None,
    };
    if offline {
        match t {
            Some(Tab::Scene) => Tab::Scene,
            Some(Tab::Library) => Tab::Library,
            _ => Tab::Scene,
        }
    } else {
        match t {
            Some(x) => x,
            None => Tab::Patches,
        }
    }
}

/// The tab the editor opens on, from the saved tab key.
pub fn startup_tab(saved: Option<&str>, offline: bool) -> (r: Tab)
    ensures
        r == startup_tab_spec(
            match saved {
                Some(k) => Some(k@),
                None => None,
            },
            offline,
        ),
{
    let t = match saved {
        Some(k) => Tab::from_key(k),
        None => None,
    };
    if offline {
        match t {
            Some(Tab::Scene) => Tab::Scene,
            Some(Tab::Library) => Tab::Library,
            _ => Tab::Scene,
        }
    } else {
        match t {
            Some(x) => x,
            None => Tab::Patches,
        }
    }
}

/// Every persistable tab comes back from its key.
pub proof fn lemma_tab_key_round_trip(t: Tab)
    ensures
        tab_key(t) matches Some(k) ==> tab_of_key(k) == Some(t),
{
    reveal_strlit("patches");
    reveal_strlit("presets");
    reveal_strlit("library");
    reveal_strlit("scene");
    assert("presets"@[1] != "patches"@[1]);
    assert("library"@[0] != "patches"@[0]);
    assert("library"@[0] != "presets"@[0]);
    assert("presets"@ != "patches"@);
    assert("library"@ != "patches"@);
    assert("library"@ != "presets"@);
    assert("scene"@.len() != "patches"@.len());
}

/// The list after dragging the item at `from` to position `to`; a no-op move
/// or an out-of-range index leaves it unchanged.
pub open spec fn moved<T>(s: Seq<T>, from: int, to: int) -> Seq<T> {
    if from == to || from >= s.len() || to >= s.len() || from < 0 || to < 0 {
        s
    } else {
        s.remove(from).insert(to, s[from])
    }
}

/// Move the item at `from` to `to` (a drag-reorder within one list).
pub fn move_within<T>(items: &mut Vec<T>, from: usize, to: usize)
    ensures
        final(items)@ == moved(old(items)@, from as int, to as int),
{
    if from == to || from >= items.len() || to >= items.len() {
        return;
    }
    let item = items.remove(from);
    items.insert(to, item);
}

/// A move keeps the same items, and the moved one lands where it was dropped.
pub proof fn lemma_move_keeps_items<T>(s: Seq<T>, from: int, to: int)
    ensures
        moved(s, from, to).len() == s.len(),
        moved(s, from, to).to_multiset() == s.to_multiset(),
        0 <= from < s.len() && 0 <= to < s.len() ==> moved(s, from, to)[to] == s[from],
{
    if !(from == to || from >= s.len() || to >= s.len() || from < 0 || to < 0) {
        let r = s.remove(from);
        broadcast use vstd::seq_lib::group_seq_properties;
        vstd::seq_lib::lemma_multiset_commutative(s.take(from), s.skip(from + 1));
        assert(s =~= s.take(from) + seq![s[from]] + s.skip(from + 1));
        assert(r =~= s.take(from) + s.skip(from + 1));
        vstd::seq_lib::lemma_multiset_commutative(s.take(from) + seq![s[from]], s.skip(from + 1));
        vstd::seq_lib::lemma_multiset_commutative(s.take(from), seq![s[from]]);
        let q = r.insert(to, s[from]);
        assert(q =~= r.take(to) + seq![s[from]] + r.skip(to));
        vstd::seq_lib::lemma_multiset_commutative(r.take(to) + seq![s[from]], r.skip(to));
        vstd::seq_lib::lemma_multiset_commutative(r.take(to), seq![s[from]]);
        vstd::seq_lib::lemma_multiset_commutative(r.take(to), r.skip(to));
        assert(r =~= r.take(to) + r.skip(to));
    }
}

/// The description of speaker-cabinet model `index`, or empty for an unknown
/// one.
pub open spec fn cab_desc(index: i32) -> Seq<char> {
    if index == 0 {
        "Small open-back 1×10, dynamic mic"@
    } else if index == 1 {
        "Open-back 1×12, dynamic mic"@
    } else if index == 2 {
        "Open-back 2×12, dynamic mic — Roland JC-120"@
    } else if index == 3 {
        "Open-back 2×12, dynamic mic — pairs with Clean Twin"@
    } else if index == 4 {
        "Open-back 2×12, condenser mic — pairs with Clean Twin"@
    } else if index == 5 {
        "Open-back 2×12, dynamic mic — pairs with Match Drive"@
    } else if index == 6 {
        "Open-back 2×12, condenser mic — pairs with Match Drive"@
    } else if index == 7 {
        "Sealed 2×12 stack, dynamic mic — pairs with BG Lead"@
    } else if index == 8 {
        "Sealed 2×12 stack, condenser mic — pairs with BG Lead"@
    } else if index == 9 {
        "Sealed 4×12 stack, dynamic mic — pairs with MS1959"@
    } else if index == 10 {
        "Sealed 4×12 stack, condenser mic — pairs with MS1959"@
    } else if index == 11 {
        "Large dual 4×12 stack, condenser mic"@
    } else {
        ""@
    }
}

/// A one-line description of a speaker-cabinet model.
pub fn speaker_cab_desc(index: i32) -> (r: &'static str)
    ensures
        r@ == cab_desc(index),
{
    match index {
        0 => "Small open-back 1×10, dynamic mic",
        1 => "Open-back 1×12, dynamic mic",
        2 => "Open-back 2×12, dynamic mic — Roland JC-120",
        3 => "Open-back 2×12, dynamic mic — pairs with Clean Twin",
        4 => "Open-back 2×12, condenser mic — pairs with Clean Twin",
        5 => "Open-back 2×12, dynamic mic — pairs with Match Drive",
        6 => "Open-back 2×12, condenser mic — pairs with Match Drive",
        7 => "Sealed 2×12 stack, dynamic mic — pairs with BG Lead",
        8 => "Sealed 2×12 stack, condenser mic — pairs with BG Lead",
        9 => "Sealed 4×12 stack, dynamic mic — pairs with MS1959",
        10 => "Sealed 4×12 stack, condenser mic — pairs with MS1959",
        11 => "Large dual 4×12 stack, condenser mic",
        _ => "",
    }
}

/// A file or directory in the GX-700 settings (`<config>/rackctl/gx700/<part>`).
fn settings_path(part: &str) -> (r: Option<LibPath>)
    ensures
        r matches Some(p) ==> p@ == seq!["gx700"@, part@],
{
    let parts = vec![String::from_str("gx700"), String::from_str(part)];
    let r = under_root(parts);
    proof {
        if r is Some {
            assert(r->0@ =~= seq!["gx700"@, part@]);
        }
    }
    r
}

/// The persisted editor settings file.
pub fn config_path() -> (r: Option<LibPath>)
    ensures
        r matches Some(p) ==> p@ == seq!["gx700"@, "gui-config.json"@],
{
    settings_path("gui-config.json")
}

/// The cached patch-bank listing.
pub fn cache_path() -> (r: Option<LibPath>)
    ensures
        r matches Some(p) ==> p@ == seq!["gx700"@, "bank-cache.json"@],
{
    settings_path("bank-cache.json")
}

/// The library directory of saved single effect blocks.
pub fn blocks_dir() -> (r: Option<LibPath>)
    ensures
        r matches Some(p) ==> p@ == seq!["gx700"@, "blocks"@],
{
    settings_path("blocks")
}

} // verus!
