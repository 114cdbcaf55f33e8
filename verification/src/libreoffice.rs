//! Headless LibreOffice (`soffice`): where to look for it, and how it is
//! invoked.

use vstd::prelude::*;

use crate::format::{spec_extension, Format};
use crate::error::ConversionError;
use crate::text::{chars_of, owned, push_char, string_of, trim, trim_chars};

verus! {

/// The operating-system family, which decides file names and install paths.
#[derive(Debug, Clone, Copy, PartialEq, Eq, Structural)]
pub enum Os {
    Linux,
    MacOs,
    Windows,
    /// Any other system; treated like Linux where a choice is needed.
    Other,
}

/// A place where `soffice` may be, in the order they are tried.
#[derive(Debug, Clone, PartialEq, Eq)]
pub enum SofficeCandidate {
    /// The `BOINC_SOFFICE` override: the only candidate when set.
    Override { path: String },
    /// A file name in a `PATH` directory.
    InPath { dir: String, name: String },
    /// A standard install location.
    Known { path: String },
}

/// Executable names of `soffice` per system.
pub open spec fn soffice_names(os: Os) -> Seq<Seq<char>> {
    if os == Os::Windows {
        seq!["soffice.exe"@, "soffice.com"@]
    } else {
        seq!["soffice"@]
    }
}

/// Standard LibreOffice install locations per system.
pub open spec fn known_locations(os: Os) -> Seq<Seq<char>> {
    if os == Os::MacOs {
        seq!["/Applications/LibreOffice.app/Contents/MacOS/soffice"@]
    } else if os == Os::Windows {
        seq![
            "C:\\Program Files\\LibreOffice\\program\\soffice.exe"@,
            "C:\\Program Files (x86)\\LibreOffice\\program\\soffice.exe"@,
        ]
    } else {
        seq![
            "/usr/bin/soffice"@,
            "/usr/local/bin/soffice"@,
            "/usr/lib/libreoffice/program/soffice"@,
        ]
    }
}

/// The view of a candidate: its kind (0 override, 1 in `PATH`, 2 known),
/// directory and name (or full path).
pub open spec fn candidate_view(c: SofficeCandidate) -> (int, Seq<char>, Seq<char>) {
    match c {
        SofficeCandidate::Override { path } => (0, seq![], path@),
        SofficeCandidate::InPath { dir, name } => (1, dir@, name@),
        SofficeCandidate::Known { path } => (2, seq![], path@),
    }
}

/// Every `PATH` directory paired with every executable name, directory by
/// directory.
pub open spec fn path_candidates(dirs: Seq<Seq<char>>, names: Seq<Seq<char>>) -> Seq<
    (int, Seq<char>, Seq<char>),
>
    decreases dirs.len(),
{
    if dirs.len() == 0 {
        seq![]
    } else {
        names.map_values(|n: Seq<char>| (1int, dirs[0], n)) + path_candidates(
            dirs.drop_first(),
            names,
        )
    }
}

/// The search order for `soffice`: the override alone when set; otherwise
/// every `PATH` directory with every executable name, then the standard
/// install locations.
pub open spec fn spec_soffice_search(
    override_path: Option<Seq<char>>,
    dirs: Seq<Seq<char>>,
    os: Os,
) -> Seq<(int, Seq<char>, Seq<char>)> {
    match override_path {
        Some(p) => seq![(0int, Seq::<char>::empty(), p)],
        None => path_candidates(dirs, soffice_names(os)) + known_locations(os).map_values(
            |p: Seq<char>| (2int, Seq::<char>::empty(), p),
        ),
    }
}

fn names_for(os: Os) -> (v: Vec<&'static str>)
    ensures
        v@.map_values(|s: &str| s@) == soffice_names(os),
{
    let v = if os == Os::Windows {
        vec!["soffice.exe", "soffice.com"]
    } else {
        vec!["soffice"]
    };
    assert(v@.map_values(|s: &str| s@) =~= soffice_names(os));
    v
}

fn known_for(os: Os) -> (v: Vec<&'static str>)
    ensures
        v@.map_values(|s: &str| s@) == known_locations(os),
{
    let v = if os == Os::MacOs {
        vec!["/Applications/LibreOffice.app/Contents/MacOS/soffice"]
    } else if os == Os::Windows {
        vec![
            "C:\\Program Files\\LibreOffice\\program\\soffice.exe",
            "C:\\Program Files (x86)\\LibreOffice\\program\\soffice.exe",
        ]
    } else {
        vec!["/usr/bin/soffice", "/usr/local/bin/soffice", "/usr/lib/libreoffice/program/soffice"]
    };
    assert(v@.map_values(|s: &str| s@) =~= known_locations(os));
    v
}

proof fn lemma_path_candidates_step(dirs: Seq<Seq<char>>, names: Seq<Seq<char>>, i: int)
    requires
        0 <= i < dirs.len(),
    ensures
        path_candidates(dirs.take(i + 1), names) == path_candidates(dirs.take(i), names)
            + names.map_values(|n: Seq<char>| (1int, dirs[i], n)),
    decreases i,
{
    let a = dirs.take(i + 1);
    let b = dirs.take(i);
    if i == 0 {
        assert(a.drop_first() =~= Seq::<Seq<char>>::empty());
        assert(path_candidates(a.drop_first(), names) =~= seq![]);
        assert(path_candidates(b, names) =~= seq![]);
    } else {
        lemma_path_candidates_step(dirs.drop_first(), names, i - 1);
        assert(dirs.drop_first().take(i) =~= a.drop_first());
        assert(dirs.drop_first().take(i - 1) =~= b.drop_first());
        assert(a[0] == dirs[0] && b[0] == dirs[0]);
        assert(dirs.drop_first()[i - 1] == dirs[i]);
        assert(path_candidates(a, names) =~= names.map_values(|n: Seq<char>| (1int, dirs[0], n))
            + path_candidates(a.drop_first(), names));
        assert(path_candidates(b, names) =~= names.map_values(|n: Seq<char>| (1int, dirs[0], n))
            + path_candidates(b.drop_first(), names));
    }
}

/// The places to look for `soffice`, in order (`BOINC_SOFFICE` override, or
/// the `PATH` directories and then the standard locations of `os`).
pub fn soffice_candidates(override_path: Option<&str>, path_dirs: &Vec<String>, os: Os) -> (v: Vec<
    SofficeCandidate,
>)
    ensures
        v@.map_values(|c: SofficeCandidate| candidate_view(c)) == spec_soffice_search(
            match override_path {
                Some(p) => Some(p@),
                None => None,
            },
            path_dirs@.map_values(|d: String| d@),
            os,
        ),
{
    let mut v: Vec<SofficeCandidate> = Vec::new();
    match override_path {
        Some(p) => {
            v.push(SofficeCandidate::Override { path: owned(p) });
            assert(v@.map_values(|c: SofficeCandidate| candidate_view(c)) =~= seq![
                (0int, Seq::<char>::empty(), p@),
            ]);
            return v;
        },
        None => {},
    }
    let names = names_for(os);
    let ghost dirs = path_dirs@.map_values(|d: String| d@);
    let ghost nv = names@.map_values(|s: &str| s@);
    let nd = path_dirs.len();
    for i in 0..nd
        invariant
            nd == path_dirs@.len(),
            dirs == path_dirs@.map_values(|d: String| d@),
            nv == names@.map_values(|s: &str| s@),
            nv == soffice_names(os),
            v@.map_values(|c: SofficeCandidate| candidate_view(c)) == path_candidates(
                dirs.take(i as int),
                nv,
            ),
    {
        let ghost before = v@.map_values(|c: SofficeCandidate| candidate_view(c));
        let nn = names.len();
        for j in 0..nn
            invariant
                nn == names@.len(),
                i < nd,
                nd == path_dirs@.len(),
                dirs == path_dirs@.map_values(|d: String| d@),
                nv == names@.map_values(|s: &str| s@),
                v@.map_values(|c: SofficeCandidate| candidate_view(c)) == before + nv.take(
                    j as int,
                ).map_values(|n: Seq<char>| (1int, dirs[i as int], n)),
        {
            let ghost prev = v@;
            v.push(SofficeCandidate::InPath { dir: owned(path_dirs[i].as_str()), name: owned(names[j]) });
            assert(nv.take(j + 1) =~= nv.take(j as int).push(nv[j as int]));
            assert(v@.map_values(|c: SofficeCandidate| candidate_view(c)) =~= prev.map_values(
                |c: SofficeCandidate| candidate_view(c),
            ).push((1int, dirs[i as int], nv[j as int])));
            assert(nv.take(j + 1).map_values(|n: Seq<char>| (1int, dirs[i as int], n)) =~= nv.take(
                j as int,
            ).map_values(|n: Seq<char>| (1int, dirs[i as int], n)).push((1int, dirs[i as int], nv[j as int])));
        }
        assert(nv.take(nn as int) == nv);
        proof {
            lemma_path_candidates_step(dirs, nv, i as int);
        }
    }
    assert(dirs.take(nd as int) == dirs);
    let known = known_for(os);
    let ghost kv = known@.map_values(|s: &str| s@);
    let ghost mid = v@.map_values(|c: SofficeCandidate| candidate_view(c));
    let nk = known.len();
    for k in 0..nk
        invariant
            nk == known@.len(),
            kv == known@.map_values(|s: &str| s@),
            v@.map_values(|c: SofficeCandidate| candidate_view(c)) == mid + kv.take(k as int).map_values(
                |p: Seq<char>| (2int, Seq::<char>::empty(), p),
            ),
    {
        let ghost prev = v@;
        v.push(SofficeCandidate::Known { path: owned(known[k]) });
        assert(kv.take(k + 1) =~= kv.take(k as int).push(kv[k as int]));
        assert(v@.map_values(|c: SofficeCandidate| candidate_view(c)) =~= prev.map_values(
            |c: SofficeCandidate| candidate_view(c),
        ).push((2int, Seq::<char>::empty(), kv[k as int])));
        assert(kv.take(k + 1).map_values(|p: Seq<char>| (2int, Seq::<char>::empty(), p)) =~= kv.take(
            k as int,
        ).map_values(|p: Seq<char>| (2int, Seq::<char>::empty(), p)).push(
            (2int, Seq::<char>::empty(), kv[k as int]),
        ));
    }
    assert(kv.take(nk as int) == kv);
    v
}

/// LibreOffice's `--convert-to` target: an extension, with an explicit
/// export filter for DOCX.
pub open spec fn spec_target_filter(to: Format) -> Seq<char> {
    match to {
        Format::Pdf => "pdf"@,
        Format::Docx => "docx:MS Word 2007 XML"@,
        _ => spec_extension(to),
    }
}

/// LibreOffice's `--convert-to` target for `to`.
pub fn target_filter(to: Format) -> (t: &'static str)
    ensures
        t@ == spec_target_filter(to),
{
    match to {
        Format::Pdf => "pdf",
        Format::Docx => "docx:MS Word 2007 XML",
        other => other.extension(),
    }
}

/// The import filter LibreOffice needs for an input format, if any: PDFs
/// open in Writer's PDF import.
pub open spec fn spec_import_filter(from: Format) -> Option<Seq<char>> {
    if from == Format::Pdf {
        Some("writer_pdf_import"@)
    } else {
        None
    }
}

/// The import filter for `from`, if any.
pub fn import_filter(from: Format) -> (f: Option<&'static str>)
    ensures
        match f {
            Some(s) => spec_import_filter(from) == Some(s@),
            None => spec_import_filter(from) is None,
        },
{
    if from == Format::Pdf {
        Some("writer_pdf_import")
    } else {
        None
    }
}

/// `path` with backslashes turned into slashes.
pub open spec fn slashed(path: Seq<char>) -> Seq<char> {
    path.map_values(|c: char| if c == '\\' { '/' } else { c })
}

/// File URL for a local path; forward slashes work on every system.
pub open spec fn spec_file_url(path: Seq<char>) -> Seq<char> {
    let p = slashed(path);
    if p.len() > 0 && p[0] == '/' {
        "file://"@ + p
    } else {
        "file:///"@ + p
    }
}

/// File URL for `-env:UserInstallation=` and HTML `<base>`.
pub fn file_url(path: &str) -> (u: String)
    ensures
        u@ == spec_file_url(path@),
{
    let v = chars_of(path);
    let mut p = String::new();
    let n = v.len();
    for i in 0..n
        invariant
            n == v@.len(),
            p@ == slashed(v@.take(i as int)),
    {
        let c = if v[i] == '\\' {
            '/'
        } else {
            v[i]
        };
        push_char(&mut p, c);
        assert(slashed(v@.take(i + 1)) =~= slashed(v@.take(i as int)).push(c));
    }
    assert(v@.take(n as int) == v@);
    let mut u = String::new();
    if n > 0 && (v[0] == '/' || v[0] == '\\') {
        u.append("file://");
    } else {
        u.append("file:///");
    }
    u.append(p.as_str());
    u
}

/// The arguments of one headless `soffice` run.
pub open spec fn spec_soffice_args(
    profile_url: Seq<char>,
    infilter: Option<Seq<char>>,
    target: Seq<char>,
    outdir: Seq<char>,
    input: Seq<char>,
) -> Seq<Seq<char>> {
    let head = seq!["-env:UserInstallation="@ + profile_url, "--headless"@, "--norestore"@];
    let filter = match infilter {
        Some(f) => seq!["--infilter="@ + f],
        None => seq![],
    };
    head + filter + seq!["--convert-to"@, target, "--outdir"@, outdir, input]
}

/// The arguments for converting `input` into `outdir` with `soffice`: a
/// throwaway profile at `profile_url`, headless, the optional import filter,
/// and the `--convert-to` target.
pub fn soffice_args(
    profile_url: &str,
    infilter: Option<&str>,
    target: &str,
    outdir: &str,
    input: &str,
) -> (v: Vec<String>)
    ensures
        v@.map_values(|s: String| s@) == spec_soffice_args(
            profile_url@,
            match infilter {
                Some(f) => Some(f@),
                None => None,
            },
            target@,
            outdir@,
            input@,
        ),
{
    let mut v: Vec<String> = Vec::new();
    let mut env = owned("-env:UserInstallation=");
    env.append(profile_url);
    v.push(env);
    v.push(owned("--headless"));
    v.push(owned("--norestore"));
    match infilter {
        Some(f) => {
            let mut a = owned("--infilter=");
            a.append(f);
            v.push(a);
        },
        None => {},
    }
    v.push(owned("--convert-to"));
    v.push(owned(target));
    v.push(owned("--outdir"));
    v.push(owned(outdir));
    v.push(owned(input));
    assert(v@.map_values(|s: String| s@) =~= spec_soffice_args(
        profile_url@,
        match infilter {
            Some(f) => Some(f@),
            None => None,
        },
        target@,
        outdir@,
        input@,
    ));
    v
}

/// The error reported when `soffice` is missing.
pub fn soffice_not_found() -> (e: ConversionError)
    ensures
        e matches ConversionError::ToolNotFound { tool, hint } && tool@ == "LibreOffice"@
            && hint@ == "install LibreOffice or point BOINC_SOFFICE at the soffice binary"@,
{
    ConversionError::ToolNotFound {
        tool: owned("LibreOffice"),
        hint: owned("install LibreOffice or point BOINC_SOFFICE at the soffice binary"),
    }
}

/// The error when `soffice` could not be started: the program's path and
/// the operating system's reason.
pub fn soffice_start_failed(program: &str, reason: &str) -> (e: ConversionError)
    ensures
        e matches ConversionError::ToolFailed { tool, message } && tool@ == "LibreOffice"@
            && message@ == "could not run "@ + program@ + ": "@ + reason@,
{
    let mut message = owned("could not run ");
    message.append(program);
    message.append(": ");
    message.append(reason);
    ConversionError::ToolFailed { tool: owned("LibreOffice"), message }
}

/// The error when `soffice` ran but produced no file: its exit status and
/// its trimmed error output.
pub fn soffice_run_failed(status: &str, stderr: &str) -> (e: ConversionError)
    ensures
        e matches ConversionError::ToolFailed { tool, message } && tool@ == "LibreOffice"@
            && message@ == status@ + "; "@ + trim(stderr@),
{
    let mut message = owned(status);
    message.append("; ");
    let t = trim_chars(chars_of(stderr).as_slice());
    let t = string_of(t.as_slice());
    message.append(t.as_str());
    ConversionError::ToolFailed { tool: owned("LibreOffice"), message }
}

} // verus!
