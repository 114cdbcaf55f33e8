//! Context-menu integration bookkeeping: the hooks an install created, what
//! an install or uninstall reports, and the Windows registry layout.

use vstd::prelude::*;

use crate::entries::MenuEntry;
use crate::format::spec_extension;
use crate::text::{chars_eq_str, chars_of, owned, string_of};

verus! {

/// One installed hook. Filesystem paths cover Linux and macOS; registry keys
/// are Windows-only and stored as `HKCU\...` strings.
#[derive(Debug, Clone, PartialEq, Eq)]
pub enum Hook {
    File { path: String },
    RegistryKey { key: String },
}

/// How a hook is shown to the user.
pub open spec fn spec_describe(h: Hook) -> Seq<char> {
    match h {
        Hook::File { path } => path@,
        Hook::RegistryKey { key } => "registry: "@ + key@,
    }
}

impl Hook {
    /// How the hook is shown to the user: its path, or `registry: <key>`.
    pub fn describe(&self) -> (s: String)
        ensures
            s@ == spec_describe(*self),
    {
        match self {
            Hook::File { path } => owned(path.as_str()),
            Hook::RegistryKey { key } => {
                let mut s = owned("registry: ");
                s.append(key.as_str());
                s
            },
        }
    }
}

/// What an install or uninstall run did.
#[derive(Debug, Clone, PartialEq, Eq)]
pub struct Report {
    pub created: Vec<String>,
    pub removed: Vec<String>,
}

/// The report of an install that created `hooks`: each hook described, in
/// order, and nothing removed.
pub fn install_report(hooks: &Vec<Hook>) -> (r: Report)
    ensures
        r.created@.map_values(|s: String| s@) == hooks@.map_values(|h: Hook| spec_describe(h)),
        r.removed@.len() == 0,
{
    let mut created: Vec<String> = Vec::new();
    let n = hooks.len();
    for i in 0..n
        invariant
            n == hooks@.len(),
            created@.map_values(|s: String| s@) == hooks@.take(i as int).map_values(
                |h: Hook| spec_describe(h),
            ),
    {
        let ghost prev = created@;
        created.push(hooks[i].describe());
        assert(created@.map_values(|s: String| s@) =~= prev.map_values(|s: String| s@).push(
            spec_describe(hooks@[i as int]),
        ));
        assert(hooks@.take(i + 1).map_values(|h: Hook| spec_describe(h)) =~= hooks@.take(
            i as int,
        ).map_values(|h: Hook| spec_describe(h)).push(spec_describe(hooks@[i as int])));
    }
    assert(hooks@.take(n as int) == hooks@);
    Report { created, removed: Vec::new() }
}

/// Each manifest entry and whether it is still present, given the presence
/// `present[i]` of `hooks[i]` as observed on this machine.
pub fn status(hooks: &Vec<Hook>, present: &Vec<bool>) -> (rows: Vec<(String, bool)>)
    requires
        hooks@.len() == present@.len(),
    ensures
        rows@.len() == hooks@.len(),
        forall|i: int|
            #![trigger rows@[i]]
            0 <= i < rows@.len() ==> rows@[i].0@ == spec_describe(hooks@[i]) && rows@[i].1
                == present@[i],
{
    let mut rows: Vec<(String, bool)> = Vec::new();
    let n = hooks.len();
    for i in 0..n
        invariant
            n == hooks@.len(),
            n == present@.len(),
            rows@.len() == i,
            forall|j: int|
                #![trigger rows@[j]]
                0 <= j < i ==> rows@[j].0@ == spec_describe(hooks@[j]) && rows@[j].1 == present@[j],
    {
        let d = hooks[i].describe();
        rows.push((d, present[i]));
        assert(rows@[i as int].0@ == spec_describe(hooks@[i as int]));
    }
    rows
}

/// The per-extension registry key under which the Boinc submenu lives.
pub open spec fn spec_menu_base_key(ext: Seq<char>) -> Seq<char> {
    "Software\\Classes\\SystemFileAssociations\\"@ + ext + "\\shell\\Boinc"@
}

/// `Software\Classes\SystemFileAssociations\<ext>\shell\Boinc`.
pub fn menu_base_key(ext: &str) -> (k: String)
    ensures
        k@ == spec_menu_base_key(ext@),
{
    let mut k = owned("Software\\Classes\\SystemFileAssociations\\");
    k.append(ext);
    k.append("\\shell\\Boinc");
    k
}

/// The subkey of one conversion verb under the Boinc submenu.
pub fn verb_subkey(entry: &MenuEntry) -> (k: String)
    ensures
        k@ == "shell\\"@ + spec_extension(entry.from) + "-to-"@ + spec_extension(entry.to),
{
    let mut k = owned("shell\\");
    let id = entry.id();
    k.append(id.as_str());
    k
}

/// The command a verb runs: the CLI queueing the clicked file in the app.
pub open spec fn spec_verb_command(cli: Seq<char>, entry: MenuEntry) -> Seq<char> {
    "\""@ + cli + "\" convert --app \"%1\" --to "@ + spec_extension(entry.to)
}

/// `"<cli>" convert --app "%1" --to <ext>`.
pub fn verb_command(cli: &str, entry: &MenuEntry) -> (c: String)
    ensures
        c@ == spec_verb_command(cli@, *entry),
{
    let mut c = owned("\"");
    c.append(cli);
    c.append("\" convert --app \"%1\" --to ");
    c.append(entry.to.extension());
    c
}

/// The manifest hook recorded for a created base key.
pub fn registry_hook(base: &str) -> (h: Hook)
    ensures
        h matches Hook::RegistryKey { key } && key@ == "HKCU\\"@ + base@,
{
    let mut key = owned("HKCU\\");
    key.append(base);
    Hook::RegistryKey { key }
}

/// The value the autostart `Run` key holds for the app: its quoted path.
pub fn autostart_value(app: &str) -> (v: String)
    ensures
        v@ == "\""@ + app@ + "\""@,
{
    let mut v = owned("\"");
    v.append(app);
    v.append("\"");
    v
}

/// The registry path below `HKEY_CURRENT_USER` of a manifest key written as
/// `HKCU\...`; other roots are not supported.
pub open spec fn spec_hkcu_subkey(key: Seq<char>) -> Option<Seq<char>> {
    if key.len() >= 5 && key.take(5) == "HKCU\\"@ {
        Some(key.skip(5))
    } else {
        None
    }
}

/// The path below `HKEY_CURRENT_USER` of a manifest key `HKCU\...`.
pub fn hkcu_subkey(key: &str) -> (r: Option<String>)
    ensures
        match r {
            Some(s) => spec_hkcu_subkey(key@) == Some(s@),
            None => spec_hkcu_subkey(key@) is None,
        },
{
    let v = chars_of(key);
    if v.len() < 5 {
        return None;
    }
    let mut head: Vec<char> = Vec::new();
    let mut tail: Vec<char> = Vec::new();
    let n = v.len();
    for i in 0..n
        invariant
            n == v@.len(),
            5 <= n,
            head@ == v@.take(if i < 5 { i as int } else { 5 }),
            tail@ == if i <= 5 { Seq::<char>::empty() } else { v@.subrange(5, i as int) },
    {
        if i < 5 {
            head.push(v[i]);
        } else {
            tail.push(v[i]);
        }
    }
    assert(tail@ == v@.skip(5));
    if chars_eq_str(head.as_slice(), "HKCU\\") {
        Some(string_of(tail.as_slice()))
    } else {
        None
    }
}

} // verus!
