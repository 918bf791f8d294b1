//! The device-neutral on-disk library conventions: where a device's libraries
//! live (`<config>/rackctl/<device>/<kind>/<name>.json`), how a user-entered
//! name becomes a safe file stem, and which saved envelopes a device accepts.

use vstd::prelude::*;
use std::path::PathBuf;

use directories::ProjectDirs;

use crate::search::{first_index, is_first, is_last, last_index, lemma_first_at, lemma_last_at};
use crate::text::{dec, not_white, push_char, push_decimal, str_equal, trim, trim_spec};

verus! {

/// An owned filesystem path; opaque here.
#[verifier::external_type_specification]
#[verifier::external_body]
pub struct ExPathBuf(std::path::PathBuf);

// ---- safe file stems ----

/// Whether a character is alphanumeric in the Unicode sense
/// (`char::is_alphanumeric`).
pub uninterp spec fn alphanumeric(c: char) -> bool;

/// An ASCII letter or digit.
pub open spec fn ascii_alnum(c: char) -> bool {
    ('a' <= c && c <= 'z') || ('A' <= c && c <= 'Z') || ('0' <= c && c <= '9')
}

/// `char::is_alphanumeric`: alphabetic or numeric in the Unicode sense. On ASCII
/// this is exactly the letters and digits.
#[verifier::external_body]
pub(crate) fn is_alphanumeric(c: char) -> (r: bool)
    ensures
        r == alphanumeric(c),
        (c as u32) < 128 ==> (r <==> ascii_alnum(c)),
{
    c.is_alphanumeric()
}

/// Whether a character is alphanumeric: an ASCII letter or digit, or beyond
/// ASCII alphanumeric in the Unicode sense.
pub open spec fn alnum(c: char) -> bool {
    if (c as u32) < 128 {
        ascii_alnum(c)
    } else {
        alphanumeric(c)
    }
}

/// Whether a character is alphanumeric (`char::is_alphanumeric`, which on
/// ASCII is exactly the letters and digits).
fn is_alnum(c: char) -> (r: bool)
    ensures
        r == alnum(c),
{
    if (c as u32) < 128 {
        ('a' <= c && c <= 'z') || ('A' <= c && c <= 'Z') || ('0' <= c && c <= '9')
    } else {
        is_alphanumeric(c)
    }
}

/// A character a file stem keeps as it is: alphanumerics and ` -_.`.
pub open spec fn stem_char(c: char) -> bool {
    alnum(c) || c == ' ' || c == '-' || c == '_' || c == '.'
}

/// Each character kept, or replaced by `_`.
pub open spec fn cleaned(name: Seq<char>) -> Seq<char> {
    name.map_values(|c: char| if stem_char(c) { c } else { '_' })
}

/// The safe file stem of a name: unsafe characters replaced by `_`, white space
/// trimmed, and `untitled` when nothing is left.
pub open spec fn sanitize_spec(name: Seq<char>) -> Seq<char> {
    let t = trim_spec(cleaned(name));
    if t.len() == 0 {
        "untitled"@
    } else {
        t
    }
}

/// Each character of `name` kept if `keep` says so, else replaced by `_`.
fn replace_unsafe(name: &str, allow_dot: bool) -> (r: String)
    ensures
        r@ == name@.map_values(
            |c: char|
                if alnum(c) || c == ' ' || c == '-' || c == '_' || (allow_dot && c == '.') {
                    c
                } else {
                    '_'
                },
        ),
{
    let n = name.unicode_len();
    let mut s = String::new();
    let mut i: usize = 0;
    while i < n
        invariant
            i <= n,
            n == name@.len(),
            s@ =~= name@.take(i as int).map_values(
                |c: char|
                    if alnum(c) || c == ' ' || c == '-' || c == '_' || (allow_dot && c
                        == '.') {
                        c
                    } else {
                        '_'
                    },
            ),
        decreases n - i,
    {
        let c = name.get_char(i);
        let keep = is_alnum(c) || c == ' ' || c == '-' || c == '_' || (allow_dot && c
            == '.');
        if keep {
            push_char(&mut s, c);
        } else {
            push_char(&mut s, '_');
        }
        assert(name@.take(i + 1) =~= name@.take(i as int).push(c));
        i += 1;
    }
    assert(name@.take(n as int) =~= name@);
    s
}

/// Turn a user-entered name into a safe `.json` file stem: keep alphanumerics
/// and ` -_.`, replace anything else with `_`, trim, and fall back to
/// `untitled` if nothing is left.
pub fn sanitize(name: &str) -> (r: String)
    ensures
        r@ == sanitize_spec(name@),
{
    let c = replace_unsafe(name, true);
    assert(c@ =~= cleaned(name@));
    let t = trim(c.as_str());
    if t.unicode_len() == 0 {
        String::from_str("untitled")
    } else {
        t
    }
}

/// A trimmed text that is not empty trims to itself.
proof fn lemma_trim_trimmed(s: Seq<char>)
    requires
        trim_spec(s).len() > 0,
    ensures
        trim_spec(trim_spec(s)) == trim_spec(s),
{
    let a = first_index(s, not_white())->0;
    let b = last_index(s, not_white())->0;
    assert(is_first(s, not_white(), a));
    assert(is_last(s, not_white(), b));
    let t = trim_spec(s);
    assert(t =~= s.subrange(a, b + 1));
    assert(is_first(t, not_white(), 0));
    lemma_first_at(t, not_white(), 0);
    assert(is_last(t, not_white(), t.len() - 1));
    lemma_last_at(t, not_white(), t.len() - 1);
    assert(t.subrange(0, t.len() as int) =~= t);
}

/// A text made only of characters a stem keeps cleans to itself.
proof fn lemma_cleaned_stable(t: Seq<char>)
    requires
        forall|i: int| 0 <= i < t.len() ==> stem_char(#[trigger] t[i]),
    ensures
        cleaned(t) == t,
{
    assert(cleaned(t) =~= t);
}

/// The safe stem of a name is never empty, and sanitizing it again changes
/// nothing.
pub proof fn lemma_sanitize_stable(name: Seq<char>)
    ensures
        sanitize_spec(name).len() > 0,
        sanitize_spec(sanitize_spec(name)) == sanitize_spec(name),
{
    reveal_strlit("untitled");
    let c = cleaned(name);
    let t = trim_spec(c);
    if t.len() == 0 {
        let u = "untitled"@;
        assert forall|i: int| 0 <= i < u.len() implies stem_char(#[trigger] u[i]) by {
            assert('a' <= u[i] && u[i] <= 'z');
        }
        lemma_cleaned_stable(u);
        assert(is_first(u, not_white(), 0));
        lemma_first_at(u, not_white(), 0);
        assert(is_last(u, not_white(), 7));
        lemma_last_at(u, not_white(), 7);
        assert(trim_spec(u) =~= u);
    } else {
        let a = first_index(c, not_white())->0;
        let b = last_index(c, not_white())->0;
        assert(is_first(c, not_white(), a));
        assert(is_last(c, not_white(), b));
        assert(t =~= c.subrange(a, b + 1));
        assert forall|i: int| 0 <= i < t.len() implies stem_char(#[trigger] t[i]) by {
            assert(t[i] == c[a + i]);
        }
        lemma_cleaned_stable(t);
        lemma_trim_trimmed(c);
    }
}

/// A file stem that keeps alphanumerics and ` -_` and replaces every other
/// character (`.` included) by `_`, without trimming.
pub open spec fn plain_stem_spec(name: Seq<char>) -> Seq<char> {
    name.map_values(
        |c: char| if alnum(c) || c == ' ' || c == '-' || c == '_' { c } else { '_' },
    )
}

/// Keep a filename safe: alphanumerics, space, dash and underscore pass; any
/// other character becomes an underscore.
pub fn plain_stem(name: &str) -> (r: String)
    ensures
        r@ == plain_stem_spec(name@),
{
    let r = replace_unsafe(name, false);
    assert(r@ =~= plain_stem_spec(name@));
    r
}

/// The file name of item `name`: its safe stem and `.json`.
pub open spec fn item_file_spec(name: Seq<char>) -> Seq<char> {
    sanitize_spec(name) + ".json"@
}

/// The file name of item `name`.
pub fn item_file(name: &str) -> (r: String)
    ensures
        r@ == item_file_spec(name@),
{
    sanitize(name).concat(".json")
}

// ---- library paths ----

/// A location in the per-user library: the suite's config root and the path
/// components below it.
pub struct LibPath {
    /// The suite's per-user config root (`<config>/rackctl`).
    pub root: PathBuf,
    /// The components below the root, in order.
    pub parts: Vec<String>,
}

/// The components of a path below the root.
pub open spec fn parts_view(parts: Seq<String>) -> Seq<Seq<char>> {
    parts.map_values(|s: String| s@)
}

impl View for LibPath {
    type V = Seq<Seq<char>>;

    open spec fn view(&self) -> Seq<Seq<char>> {
        parts_view(self.parts@)
    }
}

/// `directories::ProjectDirs::from(qualifier, organization, application)` and
/// its `config_dir`; `None` if no home directory can be determined. It is
/// asked only for the suite's own project (`""`, `malo-rte`, `rackctl`). The
/// result depends on the environment, so nothing is stated of it.
#[verifier::external_body]
fn project_config_dir(qualifier: &str, organization: &str, application: &str) -> (r: Option<
    PathBuf,
>)
    requires
        qualifier@ == suite_qualifier(),
        organization@ == suite_organization(),
        application@ == suite_application(),
{
    match ProjectDirs::from(qualifier, organization, application) {
        Some(d) => Some(d.config_dir().to_path_buf()),
        None => None,
    }
}

/// The qualifier of the suite's project directories (none).
pub open spec fn suite_qualifier() -> Seq<char> {
    ""@
}

/// The organization of the suite's project directories.
pub open spec fn suite_organization() -> Seq<char> {
    "malo-rte"@
}

/// The application name of the suite's project directories.
pub open spec fn suite_application() -> Seq<char> {
    "rackctl"@
}

/// The suite's per-user config root (`<config>/rackctl`): the config directory
/// of the project `malo-rte`/`rackctl`; `None` if no home directory can be
/// determined. Which project is looked up is fixed by the `requires` of the
/// lookup it makes; whether a directory is found depends on the environment.
pub fn config_root() -> (r: Option<PathBuf>) {
    project_config_dir("", "malo-rte", "rackctl")
}

/// What `Path::join` gives for a base path and one further component: the
/// base with the component adjoined (the component replacing the base where it
/// is itself absolute). It is a function of the two alone.
pub uninterp spec fn path_joined(base: PathBuf, part: Seq<char>) -> PathBuf;

/// `Path::join`: `base` with `part` appended as a further component.
#[verifier::external_body]
fn path_join(base: &PathBuf, part: &str) -> (r: PathBuf)
    ensures
        r == path_joined(*base, part@),
{
    base.join(part)
}

/// `PathBuf::clone`: an equal path.
#[verifier::external_body]
fn path_clone(p: &PathBuf) -> (r: PathBuf)
    ensures
        r == *p,
{
    p.clone()
}

/// The path of `root` joined with each of `parts` in turn.
pub open spec fn path_of(root: PathBuf, parts: Seq<Seq<char>>) -> PathBuf
    decreases parts.len(),
{
    if parts.len() == 0 {
        root
    } else {
        path_joined(path_of(root, parts.drop_last()), parts.last())
    }
}

impl LibPath {
    /// The location as a filesystem path: the root joined with each component.
    pub fn to_path_buf(&self) -> (r: PathBuf)
        ensures
            r == path_of(self.root, self@),
    {
        let mut p = path_clone(&self.root);
        let mut i: usize = 0;
        while i < self.parts.len()
            invariant
                i <= self.parts@.len(),
                p == path_of(self.root, self@.take(i as int)),
            decreases self.parts@.len() - i,
        {
            assert(self@.take(i + 1).drop_last() =~= self@.take(i as int));
            p = path_join(&p, self.parts[i].as_str());
            i += 1;
        }
        assert(self@.take(self@.len() as int) =~= self@);
        p
    }
}

/// The location of `parts` under `root`, where there is a root.
pub fn located(root: Option<PathBuf>, parts: Vec<String>) -> (r: Option<LibPath>)
    ensures
        match (root, r) {
            (Some(d), Some(p)) => p.root == d && p@ == parts_view(parts@),
            (None, None) => true,
            _ => false,
        },
{
    match root {
        Some(root) => Some(LibPath { root, parts }),
        None => None,
    }
}

/// A location under the config root with the given components; `None` where
/// no config root can be determined.
pub fn under_root(parts: Vec<String>) -> (r: Option<LibPath>)
    ensures
        r matches Some(p) ==> p@ == parts_view(parts@),
{
    located(config_root(), parts)
}

/// A device's config directory (`<config>/rackctl/<device>`).
pub fn device_dir(device: &str) -> (r: Option<LibPath>)
    ensures
        r matches Some(p) ==> p@ == seq![device@],
{
    let r = under_root(vec![String::from_str(device)]);
    proof {
        if r is Some {
            assert(r->0@ =~= seq![device@]);
        }
    }
    r
}

/// A device's library directory for items of `kind` (`<device>/<kind>`); `kind`
/// is a relative path such as `patches` or `blocks/distortion`.
pub fn library_dir(device: &str, kind: &str) -> (r: Option<LibPath>)
    ensures
        r matches Some(p) ==> p@ == seq![device@, kind@],
{
    let r = located(config_root(), vec![String::from_str(device), String::from_str(kind)]);
    proof {
        if r is Some {
            assert(r->0@ =~= seq![device@, kind@]);
        }
    }
    r
}

/// The location of item `name` in a device's `kind` library
/// (`<device>/<kind>/<sanitised-name>.json`).
pub fn item_path(device: &str, kind: &str, name: &str) -> (r: Option<LibPath>)
    ensures
        r matches Some(p) ==> p@ == seq![device@, kind@, item_file_spec(name@)],
{
    let parts = vec![String::from_str(device), String::from_str(kind), item_file(name)];
    let r = located(config_root(), parts);
    proof {
        if r is Some {
            assert(r->0@ =~= seq![device@, kind@, item_file_spec(name@)]);
        }
    }
    r
}

// ---- listing a library directory ----

/// The stem of a file name with the `json` extension (`<stem>.json`, the stem
/// not empty); `None` for any other name.
pub open spec fn json_stem_spec(name: Seq<char>) -> Option<Seq<char>> {
    if name.len() > 5 && name.skip(name.len() - 5) == ".json"@ {
        Some(name.take(name.len() - 5))
    } else {
        None
    }
}

/// The stem of a `.json` file name.
pub fn json_stem(name: &str) -> (r: Option<String>)
    ensures
        match r {
            Some(t) => json_stem_spec(name@) == Some(t@),
            None => json_stem_spec(name@) is None,
        },
{
    proof {
        reveal_strlit(".json");
    }
    let n = name.unicode_len();
    if n <= 5 {
        return None;
    }
    let tail = name.substring_char(n - 5, n);
    if !str_equal(tail, ".json") {
        assert(tail@ =~= name@.skip(n - 5));
        return None;
    }
    assert(tail@ =~= name@.skip(n - 5));
    let stem = name.substring_char(0, n - 5);
    assert(stem@ =~= name@.take(n - 5));
    Some(stem.to_string())
}

/// The stems of the `.json` file names, in order.
pub open spec fn stems_of(names: Seq<Seq<char>>) -> Seq<Seq<char>>
    decreases names.len(),
{
    if names.len() == 0 {
        Seq::empty()
    } else {
        let rest = stems_of(names.drop_last());
        match json_stem_spec(names.last()) {
            Some(t) => rest.push(t),
            None => rest,
        }
    }
}

/// Text order: lexicographic by code point (the order of `String`).
pub open spec fn text_le(a: Seq<char>, b: Seq<char>) -> bool
    decreases a.len(),
{
    if a.len() == 0 {
        true
    } else if b.len() == 0 {
        false
    } else if a[0] as u32 != b[0] as u32 {
        (a[0] as u32) < (b[0] as u32)
    } else {
        text_le(a.skip(1), b.skip(1))
    }
}

/// Text order is total.
pub proof fn lemma_text_le_total(a: Seq<char>, b: Seq<char>)
    ensures
        text_le(a, b) || text_le(b, a),
    decreases a.len(),
{
    if a.len() > 0 && b.len() > 0 && a[0] as u32 == b[0] as u32 {
        lemma_text_le_total(a.skip(1), b.skip(1));
    }
}

/// Text order is transitive.
pub proof fn lemma_text_le_trans(a: Seq<char>, b: Seq<char>, c: Seq<char>)
    requires
        text_le(a, b),
        text_le(b, c),
    ensures
        text_le(a, c),
    decreases a.len(),
{
    if a.len() > 0 && b.len() > 0 && c.len() > 0 && a[0] as u32 == b[0] as u32 && b[0] as u32
        == c[0] as u32 {
        lemma_text_le_trans(a.skip(1), b.skip(1), c.skip(1));
    }
}

/// Texts in order.
pub open spec fn texts_sorted(s: Seq<Seq<char>>) -> bool {
    forall|i: int, j: int| 0 <= i < j < s.len() ==> text_le(#[trigger] s[i], #[trigger] s[j])
}

/// The views of strings.
pub open spec fn string_views(v: Seq<String>) -> Seq<Seq<char>> {
    v.map_values(|s: String| s@)
}

/// Whether `a` comes no later than `b` in text order.
fn text_le_exec(a: &str, b: &str) -> (r: bool)
    ensures
        r == text_le(a@, b@),
{
    let n = a.unicode_len();
    let m = b.unicode_len();
    let mut i: usize = 0;
    assert(a@.skip(0) =~= a@);
    assert(b@.skip(0) =~= b@);
    while i < n && i < m
        invariant
            n == a@.len(),
            m == b@.len(),
            i <= n,
            i <= m,
            text_le(a@, b@) == text_le(a@.skip(i as int), b@.skip(i as int)),
        decreases n - i,
    {
        let x = a.get_char(i);
        let y = b.get_char(i);
        assert(a@.skip(i as int)[0] == x);
        assert(b@.skip(i as int)[0] == y);
        if (x as u32) != (y as u32) {
            return (x as u32) < (y as u32);
        }
        assert(a@.skip(i as int).skip(1) =~= a@.skip(i + 1));
        assert(b@.skip(i as int).skip(1) =~= b@.skip(i + 1));
        i += 1;
    }
    i == n
}

/// The stems of the `.json` file names among `names`, sorted (the listing of
/// a library directory).
pub fn sorted_json_stems(names: Vec<String>) -> (r: Vec<String>)
    ensures
        texts_sorted(string_views(r@)),
        string_views(r@).to_multiset() == stems_of(string_views(names@)).to_multiset(),
{
    broadcast use vstd::seq_lib::to_multiset_insert;
    let mut out: Vec<String> = Vec::new();
    let mut i: usize = 0;
    assert(string_views(out@) =~= Seq::<Seq<char>>::empty());
    while i < names.len()
        invariant
            i <= names@.len(),
            texts_sorted(string_views(out@)),
            string_views(out@).to_multiset() == stems_of(string_views(names@).take(i as int)).to_multiset(),
        decreases names@.len() - i,
    {
        let ghost nv = string_views(names@);
        assert(nv.take(i + 1).drop_last() =~= nv.take(i as int));
        assert(nv.take(i + 1).last() == names@[i as int]@);
        match json_stem(names[i].as_str()) {
            Some(t) => {
                let mut pos: usize = 0;
                while pos < out.len() && text_le_exec(out[pos].as_str(), t.as_str())
                    invariant
                        pos <= out@.len(),
                        forall|j: int| 0 <= j < pos ==> text_le(#[trigger] out@[j]@, t@),
                    decreases out@.len() - pos,
                {
                    pos += 1;
                }
                let ghost old_v = string_views(out@);
                let ghost tv = t@;
                proof {
                    if pos < out@.len() {
                        lemma_text_le_total(old_v[pos as int], tv);
                    }
                }
                out.insert(pos, t);
                proof {
                    let nvw = string_views(out@);
                    assert(nvw =~= old_v.insert(pos as int, tv));
                    assert forall|a: int, b: int| 0 <= a < b < nvw.len() implies text_le(
                        #[trigger] nvw[a],
                        #[trigger] nvw[b],
                    ) by {
                        if a < pos && b == pos {
                        } else if a < pos && b > pos {
                            assert(text_le(old_v[a], tv));
                            assert(text_le(tv, old_v[pos as int]));
                            assert(text_le(old_v[pos as int], old_v[b - 1]) || pos as int == b - 1);
                            lemma_text_le_trans(old_v[a], tv, old_v[pos as int]);
                            if pos as int != b - 1 {
                                lemma_text_le_trans(old_v[a], old_v[pos as int], old_v[b - 1]);
                            }
                        } else if a == pos && b > pos {
                            if pos as int != b - 1 {
                                lemma_text_le_trans(tv, old_v[pos as int], old_v[b - 1]);
                            }
                        } else if a > pos {
                            assert(nvw[a] == old_v[a - 1]);
                            assert(nvw[b] == old_v[b - 1]);
                        } else {
                            assert(nvw[a] == old_v[a]);
                            assert(nvw[b] == old_v[b]);
                        }
                    }
                    assert(stems_of(nv.take(i + 1)) == stems_of(nv.take(i as int)).push(tv));
                    vstd::seq_lib::to_multiset_insert(old_v, pos as int, tv);
                    vstd::seq_lib::to_multiset_build(stems_of(nv.take(i as int)), tv);
                }
            },
            None => {
                assert(stems_of(nv.take(i + 1)) == stems_of(nv.take(i as int)));
            },
        }
        i += 1;
    }
    assert(string_views(names@).take(names@.len() as int) =~= string_views(names@));
    out
}

/// The text given when no config directory is available.
pub fn no_dir() -> (r: String)
    ensures
        r@ == "no config directory available"@,
{
    String::from_str("no config directory available")
}

// ---- the saved-item envelope ----

/// What the envelope check reads of a saved item: whether it is an envelope at
/// all (it has `version`, `device` and `payload` fields), its `device` text
/// (empty when not a string) and its `version` (when a number that fits).
pub struct EnvelopeHeader {
    /// The item has the three envelope fields.
    pub is_envelope: bool,
    /// The `device` field's text, or empty.
    pub device: String,
    /// The `version` field, if it is a number that fits in 32 bits.
    pub version: Option<u32>,
}

/// The verdict on a saved item for `device`, reading at most `max_version`:
/// not an envelope (`None`), refused with a reason, or accepted. A version that
/// is missing or out of range counts as newer than any.
pub open spec fn envelope_verdict(
    is_envelope: bool,
    found_device: Seq<char>,
    found_version: Option<u32>,
    device: Seq<char>,
    max_version: u32,
) -> Option<Result<(), Seq<char>>> {
    if !is_envelope {
        None
    } else if found_device != device {
        Some(Err("saved from a different device ("@ + found_device + ")"@))
    } else {
        let v: u32 = match found_version {
            Some(v) => v,
            None => u32::MAX,
        };
        if v > max_version {
            Some(Err("saved by a newer version (v"@ + dec(v as nat) + ")"@))
        } else {
            Some(Ok(()))
        }
    }
}

/// Decide whether a saved item is an envelope `device` can read.
pub fn check_envelope(header: &EnvelopeHeader, device: &str, max_version: u32) -> (r: Option<
    Result<(), String>,
>)
    ensures
        match (r, envelope_verdict(
            header.is_envelope,
            header.device@,
            header.version,
            device@,
            max_version,
        )) {
            (None, None) => true,
            (Some(Ok(())), Some(Ok(()))) => true,
            (Some(Err(m)), Some(Err(t))) => m@ == t,
            _ => false,
        },
{
    if !header.is_envelope {
        return None;
    }
    let wanted = String::from_str(device);
    if !header.device.eq(&wanted) {
        let m = String::from_str("saved from a different device (").concat(
            header.device.as_str(),
        ).concat(")");
        return Some(Err(m));
    }
    let v: u32 = match header.version {
        Some(v) => v,
        None => u32::MAX,
    };
    if v > max_version {
        let mut m = String::from_str("saved by a newer version (v");
        push_decimal(&mut m, v as u64);
        m.append(")");
        return Some(Err(m));
    }
    Some(Ok(()))
}

// ---- reading a saved item's text ----

/// Whether JSON `text` holds an object. It depends on the text alone.
pub uninterp spec fn json_object(text: Seq<char>) -> bool;

/// `serde_json::from_str` into a `serde_json::Value`, then `Value::is_object`;
/// `false` where the text does not parse.
#[verifier::external_body]
fn json_is_object(text: &str) -> (r: bool)
    ensures
        r == json_object(text@),
{
    match serde_json::from_str::<serde_json::Value>(text) {
        Ok(v) => v.is_object(),
        Err(_) => false,
    }
}

/// Whether JSON `text` holds an object with a member `key`. It depends on the
/// two texts alone.
pub uninterp spec fn json_has(text: Seq<char>, key: Seq<char>) -> bool;

/// `serde_json::from_str` into a `serde_json::Value`, then `Value::get(key)`;
/// `false` where the text does not parse.
#[verifier::external_body]
fn json_has_member(text: &str, key: &str) -> (r: bool)
    ensures
        r == json_has(text@, key@),
{
    match serde_json::from_str::<serde_json::Value>(text) {
        Ok(v) => v.get(key).is_some(),
        Err(_) => false,
    }
}

/// Member `key` of the object JSON `text` holds, where it is a string. It
/// depends on the two texts alone.
pub uninterp spec fn json_str(text: Seq<char>, key: Seq<char>) -> Option<Seq<char>>;

/// `serde_json::from_str` into a `serde_json::Value`, `Value::get(key)` and
/// `Value::as_str`; `None` where the text does not parse.
#[verifier::external_body]
fn json_str_member(text: &str, key: &str) -> (r: Option<String>)
    ensures
        match r {
            Some(t) => json_str(text@, key@) == Some(t@),
            None => json_str(text@, key@) is None,
        },
{
    match serde_json::from_str::<serde_json::Value>(text) {
        Ok(v) => v.get(key).and_then(serde_json::Value::as_str).map(str::to_owned),
        Err(_) => None,
    }
}

/// Member `key` of the object JSON `text` holds, where it is a non-negative
/// integer that fits in 64 bits. It depends on the two texts alone.
pub uninterp spec fn json_u64(text: Seq<char>, key: Seq<char>) -> Option<u64>;

/// `serde_json::from_str` into a `serde_json::Value`, `Value::get(key)` and
/// `Value::as_u64`; `None` where the text does not parse.
#[verifier::external_body]
fn json_u64_member(text: &str, key: &str) -> (r: Option<u64>)
    ensures
        r == json_u64(text@, key@),
{
    match serde_json::from_str::<serde_json::Value>(text) {
        Ok(v) => v.get(key).and_then(serde_json::Value::as_u64),
        Err(_) => None,
    }
}

/// The JSON text of member `key` of the object JSON `text` holds, where it
/// holds an object with that member. It depends on the two texts alone.
pub uninterp spec fn json_member(text: Seq<char>, key: Seq<char>) -> Option<Seq<char>>;

/// `serde_json::from_str` into a `serde_json::Value`, `Value::get(key)` and
/// the member's `to_string`. The result is named (`json_member`).
#[verifier::external_body]
fn member_text(text: &str, key: &str) -> (r: Option<String>)
    ensures
        match r {
            Some(t) => json_member(text@, key@) == Some(t@),
            None => json_member(text@, key@) is None,
        },
{
    let value: serde_json::Value = serde_json::from_str(text).ok()?;
    value.get(key).map(|v| v.to_string())
}

/// The envelope header of a saved item's text: an envelope has `version`,
/// `device` and `payload` members; the device is the `device` string (empty
/// otherwise) and the version the `version` number where it fits in 32 bits.
/// `None` where the text is not a JSON object.
pub open spec fn header_of(text: Seq<char>) -> Option<(bool, Seq<char>, Option<u32>)> {
    if !json_object(text) {
        None
    } else {
        Some(
            (
                json_has(text, "version"@) && json_has(text, "device"@) && json_has(
                    text,
                    "payload"@,
                ),
                match json_str(text, "device"@) {
                    Some(s) => s,
                    None => Seq::empty(),
                },
                match json_u64(text, "version"@) {
                    Some(n) => if n <= u32::MAX {
                        Some(n as u32)
                    } else {
                        None
                    },
                    None => None,
                },
            ),
        )
    }
}

/// The envelope header a saved item's text carries, if the text is a JSON
/// object.
pub fn envelope_header(text: &str) -> (r: Option<EnvelopeHeader>)
    ensures
        match (r, header_of(text@)) {
            (Some(h), Some((e, d, v))) => h.is_envelope == e && h.device@ == d && h.version == v,
            (None, None) => true,
            _ => false,
        },
{
    if !json_is_object(text) {
        return None;
    }
    let is_envelope = json_has_member(text, "version") && json_has_member(text, "device")
        && json_has_member(text, "payload");
    let device = match json_str_member(text, "device") {
        Some(s) => s,
        None => String::new(),
    };
    let version = match json_u64_member(text, "version") {
        Some(n) => if n <= u32::MAX as u64 {
            Some(n as u32)
        } else {
            None
        },
        None => None,
    };
    Some(EnvelopeHeader { is_envelope, device, version })
}

/// The verdict on a saved item's text for `device`, reading at most
/// `max_version`: `None` where it is not an envelope (not a JSON object, or
/// one without the three envelope members).
pub open spec fn text_verdict(text: Seq<char>, device: Seq<char>, max_version: u32) -> Option<
    Result<(), Seq<char>>,
> {
    match header_of(text) {
        None => None,
        Some((e, d, v)) => envelope_verdict(e, d, v, device, max_version),
    }
}

/// Decide whether a saved item's text is an envelope `device` can read.
pub fn decode_header(device: &str, max_version: u32, text: &str) -> (r: Option<Result<(), String>>)
    ensures
        match (r, text_verdict(text@, device@, max_version)) {
            (None, None) => true,
            (Some(Ok(())), Some(Ok(()))) => true,
            (Some(Err(m)), Some(Err(t))) => m@ == t,
            _ => false,
        },
{
    match envelope_header(text) {
        None => None,
        Some(h) => check_envelope(&h, device, max_version),
    }
}

/// The JSON text of an envelope's payload (`null` where there is none).
pub open spec fn payload_text(text: Seq<char>) -> Seq<char> {
    match json_member(text, "payload"@) {
        Some(t) => t,
        None => "null"@,
    }
}

/// The payload of a saved item's text, as JSON text, after the device and
/// version checks: `None` if it is not an envelope, `Some(Err(reason))` if it
/// is refused.
pub fn decode_payload(device: &str, max_version: u32, text: &str) -> (r: Option<
    Result<String, String>,
>)
    ensures
        match (r, text_verdict(text@, device@, max_version)) {
            (None, None) => true,
            (Some(Ok(p)), Some(Ok(()))) => p@ == payload_text(text@),
            (Some(Err(m)), Some(Err(t))) => m@ == t,
            _ => false,
        },
{
    match decode_header(device, max_version, text) {
        None => None,
        Some(Err(m)) => Some(Err(m)),
        Some(Ok(())) => match member_text(text, "payload") {
            Some(t) => Some(Ok(t)),
            None => Some(Ok(String::from_str("null"))),
        },
    }
}

} // verus!
