//! Release checks: version parsing and ordering, which release asset fits
//! this install, and what the user is told.

use vstd::prelude::*;

use crate::libreoffice::Os;
use crate::text::{
    chars_eq, chars_eq_str, chars_of, decimal, owned, parse_uint, push_decimal, spec_parse_uint,
    trim, trim_chars,
};

verus! {

/// Number of leading `v` characters.
pub open spec fn leading_vs(s: Seq<char>) -> nat
    decreases s.len(),
{
    if s.len() > 0 && s[0] == 'v' {
        1 + leading_vs(s.drop_first())
    } else {
        0
    }
}

/// Position of the first `c` at or after `i`, or the length of `s`.
pub open spec fn find_char(s: Seq<char>, i: int, c: char) -> int
    decreases s.len() - i,
{
    if i < 0 || i >= s.len() || s[i] == c {
        i
    } else {
        find_char(s, i + 1, c)
    }
}

proof fn lemma_find_char(s: Seq<char>, i: int, c: char)
    requires
        0 <= i <= s.len(),
    ensures
        i <= find_char(s, i, c) <= s.len(),
        find_char(s, i, c) < s.len() ==> s[find_char(s, i, c)] == c,
    decreases s.len() - i,
{
    if i < s.len() && s[i] != c {
        lemma_find_char(s, i + 1, c);
    }
}

/// "v1.2.3" or "1.2.3" (surrounding whitespace and any leading `v`s
/// ignored) as three numbers; the third part runs to the end of the text.
pub open spec fn spec_parse_version(text: Seq<char>) -> Option<(u64, u64, u64)> {
    let t = trim(text);
    let u = t.skip(leading_vs(t) as int);
    let a = find_char(u, 0, '.');
    let b = find_char(u, a + 1, '.');
    if a >= u.len() || b >= u.len() {
        None
    } else {
        match (
            spec_parse_uint(u.subrange(0, a), u64::MAX as nat),
            spec_parse_uint(u.subrange(a + 1, b), u64::MAX as nat),
            spec_parse_uint(u.subrange(b + 1, u.len() as int), u64::MAX as nat),
        ) {
            (Some(x), Some(y), Some(z)) => Some((x as u64, y as u64, z as u64)),
            _ => None,
        }
    }
}

fn find_dot(v: &[char], from: usize) -> (r: usize)
    requires
        from <= v@.len(),
    ensures
        r == find_char(v@, from as int, '.'),
{
    let mut i = from;
    while i < v.len() && v[i] != '.'
        invariant
            from <= i <= v@.len(),
            find_char(v@, from as int, '.') == find_char(v@, i as int, '.'),
        decreases v@.len() - i,
    {
        i = i + 1;
    }
    i
}

/// "v1.2.3" or "1.2.3" → (1, 2, 3).
pub fn parse_version(text: &str) -> (r: Option<(u64, u64, u64)>)
    ensures
        r == spec_parse_version(text@),
{
    let t = trim_chars(chars_of(text).as_slice());
    let mut start: usize = 0;
    proof {
        assert(t@.skip(0) == t@);
    }
    while start < t.len() && t[start] == 'v'
        invariant
            start <= t@.len(),
            leading_vs(t@) == start + leading_vs(t@.skip(start as int)),
        decreases t@.len() - start,
    {
        assert(t@.skip(start + 1) == t@.skip(start as int).drop_first());
        start = start + 1;
    }
    let mut u: Vec<char> = Vec::new();
    let mut i = start;
    while i < t.len()
        invariant
            start <= i <= t@.len(),
            u@ == t@.subrange(start as int, i as int),
        decreases t@.len() - i,
    {
        u.push(t[i]);
        i = i + 1;
    }
    assert(u@ == t@.skip(leading_vs(t@) as int));
    let a = find_dot(u.as_slice(), 0);
    if a >= u.len() {
        return None;
    }
    let b = find_dot(u.as_slice(), a + 1);
    if b >= u.len() {
        return None;
    }
    proof {
        lemma_find_char(u@, 0, '.');
        lemma_find_char(u@, a + 1, '.');
    }
    let x = parse_uint(u.as_slice(), 0, a, u64::MAX);
    let y = parse_uint(u.as_slice(), a + 1, b, u64::MAX);
    let z = parse_uint(u.as_slice(), b + 1, u.len(), u64::MAX);
    match (x, y, z) {
        (Some(x), Some(y), Some(z)) => Some((x, y, z)),
        _ => None,
    }
}

/// `a` comes after `b` in version order (numeric triples compared in order).
pub open spec fn spec_newer(a: (u64, u64, u64), b: (u64, u64, u64)) -> bool {
    a.0 > b.0 || (a.0 == b.0 && (a.1 > b.1 || (a.1 == b.1 && a.2 > b.2)))
}

/// Whether version `a` is newer than `b`.
pub fn is_newer(a: (u64, u64, u64), b: (u64, u64, u64)) -> (r: bool)
    ensures
        r == spec_newer(a, b),
{
    a.0 > b.0 || (a.0 == b.0 && (a.1 > b.1 || (a.1 == b.1 && a.2 > b.2)))
}

/// How this copy of Boinc was installed: decides the asset to fetch and the
/// tool that installs it.
#[derive(Debug, Clone, Copy, PartialEq, Eq, Structural)]
pub enum InstallKind {
    Deb,
    Rpm,
    Msi,
    Dmg,
    /// Not a packaged install (a source build): no self-update.
    Unpackaged,
}

/// The install kind: Windows installs are MSI, macOS ones disk images;
/// elsewhere the package manager that knows the `boinc` package decides
/// (`dpkg_has_boinc` is checked first).
pub fn install_kind(os: Os, dpkg_has_boinc: bool, rpm_has_boinc: bool) -> (k: InstallKind)
    ensures
        k == (if os == Os::Windows {
            InstallKind::Msi
        } else if os == Os::MacOs {
            InstallKind::Dmg
        } else if dpkg_has_boinc {
            InstallKind::Deb
        } else if rpm_has_boinc {
            InstallKind::Rpm
        } else {
            InstallKind::Unpackaged
        }),
{
    if os == Os::Windows {
        InstallKind::Msi
    } else if os == Os::MacOs {
        InstallKind::Dmg
    } else if dpkg_has_boinc {
        InstallKind::Deb
    } else if rpm_has_boinc {
        InstallKind::Rpm
    } else {
        InstallKind::Unpackaged
    }
}

/// The release-asset suffix for an install kind on CPU architecture `arch`
/// (as Rust names it), matching the names the release workflow produces.
pub open spec fn spec_asset_suffix(kind: InstallKind, arch: Seq<char>) -> Option<Seq<char>> {
    match kind {
        InstallKind::Deb => Some(
            "_"@ + (if arch == "aarch64"@ {
                "arm64"@
            } else {
                "amd64"@
            }) + ".deb"@,
        ),
        InstallKind::Rpm => Some("."@ + arch + ".rpm"@),
        InstallKind::Msi => Some("-"@ + arch + ".msi"@),
        InstallKind::Dmg => Some(".dmg"@),
        InstallKind::Unpackaged => None,
    }
}

/// Release-asset suffix for this install kind and architecture.
pub fn asset_suffix(kind: InstallKind, arch: &str) -> (r: Option<String>)
    ensures
        match r {
            Some(s) => spec_asset_suffix(kind, arch@) == Some(s@),
            None => spec_asset_suffix(kind, arch@) is None,
        },
{
    match kind {
        InstallKind::Deb => {
            let a = chars_of(arch);
            let deb_arch = if chars_eq_str(a.as_slice(), "aarch64") {
                "arm64"
            } else {
                "amd64"
            };
            let mut s = owned("_");
            s.append(deb_arch);
            s.append(".deb");
            Some(s)
        },
        InstallKind::Rpm => {
            let mut s = owned(".");
            s.append(arch);
            s.append(".rpm");
            Some(s)
        },
        InstallKind::Msi => {
            let mut s = owned("-");
            s.append(arch);
            s.append(".msi");
            Some(s)
        },
        InstallKind::Dmg => Some(owned(".dmg")),
        InstallKind::Unpackaged => None,
    }
}

/// A newer release, as shown in the update banner.
#[derive(Debug, PartialEq, Eq)]
pub struct UpdateInfo {
    /// Bare version, e.g. "0.3.0".
    pub version: String,
    /// Release page for humans (used when no installable asset matches).
    pub release_url: String,
    /// Download URL of the asset matching this platform and install kind.
    pub asset_url: Option<String>,
    /// File name of that asset.
    pub asset_name: Option<String>,
}

/// `s` ends with `suffix`.
pub open spec fn ends_with(s: Seq<char>, suffix: Seq<char>) -> bool {
    s.len() >= suffix.len() && s.skip(s.len() - suffix.len()) == suffix
}

fn has_suffix(s: &str, suffix: &str) -> (r: bool)
    ensures
        r == ends_with(s@, suffix@),
{
    let a = chars_of(s);
    let b = chars_of(suffix);
    if a.len() < b.len() {
        return false;
    }
    let off = a.len() - b.len();
    let mut tail: Vec<char> = Vec::new();
    let mut i = off;
    while i < a.len()
        invariant
            off <= i <= a@.len(),
            tail@ == a@.subrange(off as int, i as int),
        decreases a@.len() - i,
    {
        tail.push(a[i]);
        i = i + 1;
    }
    assert(tail@ == a@.skip(off as int));
    chars_eq(tail.as_slice(), b.as_slice())
}

/// Index of the first asset whose name ends with `suffix`.
pub open spec fn first_asset(assets: Seq<(String, String)>, suffix: Seq<char>) -> Option<int> {
    if exists|i: int| 0 <= i < assets.len() && ends_with(#[trigger] assets[i].0@, suffix) {
        Some(choose|i: int|
            0 <= i < assets.len() && ends_with(assets[i].0@, suffix) && forall|k: int|
                0 <= k < i ==> !ends_with(#[trigger] assets[k].0@, suffix))
    } else {
        None
    }
}

/// Index of the first asset whose name ends with `sfx`.
fn find_asset(assets: &Vec<(String, String)>, sfx: &str) -> (r: Option<usize>)
    ensures
        match r {
            Some(i) => first_asset(assets@, sfx@) == Some(i as int) && i < assets@.len(),
            None => first_asset(assets@, sfx@) is None,
        },
{
    let n = assets.len();
    for i in 0..n
        invariant
            n == assets@.len(),
            forall|k: int| 0 <= k < i ==> !ends_with(#[trigger] assets@[k].0@, sfx@),
    {
        if has_suffix(assets[i].0.as_str(), sfx) {
            proof {
                let j = choose|j: int|
                    0 <= j < assets@.len() && ends_with(assets@[j].0@, sfx@) && forall|k: int|
                        0 <= k < j ==> !ends_with(#[trigger] assets@[k].0@, sfx@);
                if j < i {
                    assert(!ends_with(assets@[j].0@, sfx@));
                } else if j > i {
                    assert(!ends_with(assets@[i as int].0@, sfx@));
                }
            }
            return Some(i);
        }
    }
    None
}

/// The releases page, used when the release names none.
pub open spec fn releases_page() -> Seq<char> {
    "https://github.com/bartbeecoders/boinc/releases/latest"@
}

/// The update offered for release `tag` to a build at version `current`:
/// none unless both versions parse and the release is newer; otherwise its
/// version, its page (`html_url`, or the releases page) and the first asset
/// (name, URL) whose name ends with the install's `suffix`, if any.
pub fn select_update(
    tag: &str,
    current: &str,
    assets: &Vec<(String, String)>,
    html_url: Option<&str>,
    suffix: Option<&str>,
) -> (r: Option<UpdateInfo>)
    ensures
        match (spec_parse_version(tag@), spec_parse_version(current@)) {
            (Some(remote), Some(cur)) => if spec_newer(remote, cur) {
                r matches Some(info) && {
                    &&& info.version@ == decimal(remote.0 as nat) + "."@ + decimal(remote.1 as nat)
                        + "."@ + decimal(remote.2 as nat)
                    &&& info.release_url@ == match html_url {
                        Some(u) => u@,
                        None => releases_page(),
                    }
                    &&& match suffix {
                        Some(sfx) => match first_asset(assets@, sfx@) {
                            Some(i) => {
                                &&& (info.asset_name matches Some(n) && n@ == assets@[i].0@)
                                &&& (info.asset_url matches Some(u) && u@ == assets@[i].1@)
                            },
                            None => info.asset_name is None && info.asset_url is None,
                        },
                        None => info.asset_name is None && info.asset_url is None,
                    }
                }
            } else {
                r is None
            },
            _ => r is None,
        },
{
    let remote = match parse_version(tag) {
        Some(v) => v,
        None => return None,
    };
    let cur = match parse_version(current) {
        Some(v) => v,
        None => return None,
    };
    if !is_newer(remote, cur) {
        return None;
    }
    let mut asset_name: Option<String> = None;
    let mut asset_url: Option<String> = None;
    match suffix {
        Some(sfx) => match find_asset(assets, sfx) {
            Some(i) => {
                asset_name = Some(owned(assets[i].0.as_str()));
                asset_url = Some(owned(assets[i].1.as_str()));
            },
            None => {},
        },
        None => {},
    }
    let mut version = String::new();
    push_decimal(&mut version, remote.0);
    version.append(".");
    push_decimal(&mut version, remote.1);
    version.append(".");
    push_decimal(&mut version, remote.2);
    let release_url = match html_url {
        Some(u) => owned(u),
        None => owned("https://github.com/bartbeecoders/boinc/releases/latest"),
    };
    Some(UpdateInfo { version, release_url, asset_url, asset_name })
}

/// The package-manager command that installs a downloaded RPM: dnf when
/// present, zypper otherwise.
pub fn rpm_install_command(have_dnf: bool) -> (v: Vec<&'static str>)
    ensures
        v@.map_values(|s: &str| s@) == if have_dnf {
            seq!["dnf"@, "install"@, "-y"@]
        } else {
            seq!["zypper"@, "--non-interactive"@, "install"@, "--allow-unsigned-rpm"@]
        },
{
    let v = if have_dnf {
        vec!["dnf", "install", "-y"]
    } else {
        vec!["zypper", "--non-interactive", "install", "--allow-unsigned-rpm"]
    };
    assert(v@.map_values(|s: &str| s@) =~= if have_dnf {
        seq!["dnf"@, "install"@, "-y"@]
    } else {
        seq!["zypper"@, "--non-interactive"@, "install"@, "--allow-unsigned-rpm"@]
    });
    v
}

/// Notification title announcing a release.
pub fn available_title(version: &str) -> (s: String)
    ensures
        s@ == "Boinc v"@ + version@ + " is available"@,
{
    let mut s = owned("Boinc v");
    s.append(version);
    s.append(" is available");
    s
}

/// Banner text after a package-manager update.
pub fn updated_message(version: &str) -> (s: String)
    ensures
        s@ == "Updated to v"@ + version@ + " — restarting…"@,
{
    let mut s = owned("Updated to v");
    s.append(version);
    s.append(" — restarting…");
    s
}

/// Banner text after a failed update.
pub fn update_failed_message(error: &str) -> (s: String)
    ensures
        s@ == "Update failed: "@ + error@,
{
    let mut s = owned("Update failed: ");
    s.append(error);
    s
}

/// The program and arguments that open `url` in the desktop's browser.
pub open spec fn spec_opener(os: Os, url: Seq<char>) -> Seq<Seq<char>> {
    if os == Os::Windows {
        seq!["cmd"@, "/c"@, "start"@, ""@, url]
    } else if os == Os::MacOs {
        seq!["open"@, url]
    } else {
        seq!["xdg-open"@, url]
    }
}

/// The command (program first) that opens `url` in a browser.
pub fn opener_command(os: Os, url: &str) -> (v: Vec<String>)
    ensures
        v@.map_values(|s: String| s@) == spec_opener(os, url@),
{
    let mut v: Vec<String> = Vec::new();
    if os == Os::Windows {
        v.push(owned("cmd"));
        v.push(owned("/c"));
        v.push(owned("start"));
        v.push(owned(""));
    } else if os == Os::MacOs {
        v.push(owned("open"));
    } else {
        v.push(owned("xdg-open"));
    }
    v.push(owned(url));
    assert(v@.map_values(|s: String| s@) =~= spec_opener(os, url@));
    v
}

} // verus!
