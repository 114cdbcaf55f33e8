//! Decisions at program start and in command-line listings.

use vstd::prelude::*;

use crate::format::{spec_display_name, Format};
use crate::libreoffice::Os;
use crate::text::{chars_of, owned};

verus! {

/// A command-line argument names a file unless it starts with `-`.
pub fn is_file_arg(arg: &str) -> (r: bool)
    ensures
        r == !(arg@.len() > 0 && arg@[0] == '-'),
{
    let v = chars_of(arg);
    !(v.len() > 0 && v[0] == '-')
}

/// The file arguments among `args`, in order.
pub open spec fn file_args_of(args: Seq<Seq<char>>) -> Seq<Seq<char>>
    decreases args.len(),
{
    if args.len() == 0 {
        seq![]
    } else {
        let rest = file_args_of(args.drop_last());
        let a = args.last();
        if a.len() > 0 && a[0] == '-' {
            rest
        } else {
            rest.push(a)
        }
    }
}

/// The arguments that name files (the others are flags), in order.
pub fn file_args(args: &Vec<String>) -> (v: Vec<String>)
    ensures
        v@.map_values(|s: String| s@) == file_args_of(args@.map_values(|s: String| s@)),
{
    let mut v: Vec<String> = Vec::new();
    let n = args.len();
    let ghost views = args@.map_values(|s: String| s@);
    for i in 0..n
        invariant
            n == args@.len(),
            views == args@.map_values(|s: String| s@),
            v@.map_values(|s: String| s@) == file_args_of(views.take(i as int)),
    {
        let ghost prev = v@;
        assert(views.take(i + 1).drop_last() == views.take(i as int));
        if is_file_arg(args[i].as_str()) {
            v.push(owned(args[i].as_str()));
            assert(v@.map_values(|s: String| s@) =~= prev.map_values(|s: String| s@).push(views[i as int]));
        }
    }
    assert(views.take(n as int) == views);
    v
}

/// Run under XWayland when both a Wayland and an X11 display are set
/// (non-empty), so that file drops reach the window.
pub fn should_force_xwayland(wayland_display: Option<&str>, display: Option<&str>) -> (r: bool)
    ensures
        r == ((wayland_display matches Some(w) && w@.len() > 0) && (display matches Some(d)
            && d@.len() > 0)),
{
    let w = match wayland_display {
        Some(w) => chars_of(w).len() > 0,
        None => false,
    };
    let d = match display {
        Some(d) => chars_of(d).len() > 0,
        None => false,
    };
    w && d
}

/// File name of the `boinc` CLI next to the app binary.
pub fn cli_file_name(os: Os) -> (n: &'static str)
    ensures
        n@ == if os == Os::Windows {
            "boinc.exe"@
        } else {
            "boinc"@
        },
{
    if os == Os::Windows {
        "boinc.exe"
    } else {
        "boinc"
    }
}

/// One line of a conversion listing, e.g. "PNG -> JPG".
pub fn conversion_line(from: Format, to: Format) -> (s: String)
    ensures
        s@ == spec_display_name(from) + " -> "@ + spec_display_name(to),
{
    let mut s = owned(from.display_name());
    s.append(" -> ");
    s.append(to.display_name());
    s
}

/// Exit code of a CLI run: 2 for a usage error, 1 when any file failed,
/// else 0.
pub fn exit_code(usage_error: bool, any_failed: bool) -> (c: i32)
    ensures
        c == (if usage_error {
            2int
        } else if any_failed {
            1int
        } else {
            0int
        }),
{
    if usage_error {
        2
    } else if any_failed {
        1
    } else {
        0
    }
}

} // verus!
