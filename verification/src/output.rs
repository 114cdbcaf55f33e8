//! Where converted files are written: never over an existing file.

use vstd::prelude::*;

use crate::format::{spec_extension, Format};
use crate::text::{decimal, owned, push_decimal};

verus! {

/// The `n`-th candidate file name: `stem.ext`, then `stem (1).ext`,
/// `stem (2).ext`, ….
pub open spec fn candidate_name(stem: Seq<char>, ext: Seq<char>, n: nat) -> Seq<char> {
    if n == 0 {
        stem + seq!['.'] + ext
    } else {
        stem + seq![' ', '('] + decimal(n) + seq![')', '.'] + ext
    }
}

/// The view of an optional string slice.
pub open spec fn str_opt_view(o: Option<&str>) -> Option<Seq<char>> {
    match o {
        Some(s) => Some(s@),
        None => None,
    }
}

/// The stem used for the output: the input's, or `converted` when the input
/// has none.
pub open spec fn output_stem(stem: Option<Seq<char>>) -> Seq<char> {
    match stem {
        Some(s) => s,
        None => seq!['c', 'o', 'n', 'v', 'e', 'r', 't', 'e', 'd'],
    }
}

/// Where converted files are written when the caller does not name an output
/// path explicitly.
#[derive(Debug, Clone, PartialEq, Eq)]
pub struct OutputPolicy {
    /// Directory for outputs; `None` means alongside the input file.
    pub dir: Option<String>,
}

impl Default for OutputPolicy {
    fn default() -> (p: Self)
        ensures
            p.dir is None,
    {
        OutputPolicy { dir: None }
    }
}

/// `probe`, asked about the file name `name`, answered `answer` (whether a
/// file of that name already exists in the output directory).
pub open spec fn probed<F: Fn(&str) -> bool>(probe: F, name: Seq<char>, answer: bool) -> bool {
    exists|s: &str| s@ == name && #[trigger] call_ensures(probe, (s,), answer)
}

/// The `n`-th candidate file name.
pub fn candidate(stem: &str, ext: &str, n: u32) -> (s: String)
    ensures
        s@ == candidate_name(stem@, ext@, n as nat),
{
    let mut s = owned(stem);
    if n == 0 {
        s.append(".");
        proof { reveal_strlit("."); }
        s.append(ext);
    } else {
        s.append(" (");
        push_decimal(&mut s, n as u64);
        s.append(").");
        proof {
            reveal_strlit(" (");
            reveal_strlit(").");
        }
        s.append(ext);
    }
    s
}

impl OutputPolicy {
    /// The directory outputs go to: the configured one, or the input's own
    /// directory `input_parent`.
    pub fn output_dir(&self, input_parent: &str) -> (d: String)
        ensures
            d@ == match self.dir {
                Some(dir) => dir@,
                None => input_parent@,
            },
    {
        match &self.dir {
            Some(dir) => owned(dir.as_str()),
            None => owned(input_parent),
        }
    }

    /// Default output for converting an input (whose directory is
    /// `input_parent` and whose file stem is `input_stem`) to `to`: the stem
    /// with the target extension, in the output directory, suffixed with
    /// ` (1)`, ` (2)`, … rather than using a name for which `is_taken` (asked
    /// with the bare file name) says a file is already there. Returns the
    /// directory and the file name; `None` only when every suffix up to
    /// `u32::MAX` is taken.
    pub fn output_path<F: Fn(&str) -> bool>(
        &self,
        input_parent: &str,
        input_stem: Option<&str>,
        to: Format,
        is_taken: F,
    ) -> (r: Option<(String, String)>)
        requires
            forall|s: &str| #[trigger] is_taken.requires((s,)),
        ensures
            match r {
                Some((dir, name)) => {
                    &&& dir@ == match self.dir {
                        Some(d) => d@,
                        None => input_parent@,
                    }
                    &&& exists|n: nat|
                        {
                            &&& n <= u32::MAX
                            &&& name@ == #[trigger] candidate_name(
                                output_stem(str_opt_view(input_stem)),
                                spec_extension(to),
                                n,
                            )
                            &&& probed(is_taken, name@, false)
                            &&& forall|m: nat|
                                m < n ==> probed(
                                    is_taken,
                                    #[trigger] candidate_name(
                                        output_stem(str_opt_view(input_stem)),
                                        spec_extension(to),
                                        m,
                                    ),
                                    true,
                                )
                        }
                },
                None => forall|m: nat|
                    m <= u32::MAX ==> probed(
                        is_taken,
                        #[trigger] candidate_name(
                            output_stem(str_opt_view(input_stem)),
                            spec_extension(to),
                            m,
                        ),
                        true,
                    ),
            },
    {
        let dir = self.output_dir(input_parent);
        let stem: &str = match input_stem {
            Some(s) => s,
            None => {
                proof { reveal_strlit("converted"); }
                assert("converted"@ =~= seq!['c', 'o', 'n', 'v', 'e', 'r', 't', 'e', 'd']);
                "converted"
            },
        };
        assert(stem@ == output_stem(str_opt_view(input_stem)));
        let ext = to.extension();
        let ghost st = stem@;
        let ghost ex = ext@;
        let mut n: u32 = 0;
        loop
            invariant
                st == stem@,
                ex == ext@,
                st == output_stem(str_opt_view(input_stem)),
                ex == spec_extension(to),
                dir@ == match self.dir {
                    Some(d) => d@,
                    None => input_parent@,
                },
                forall|s: &str| #[trigger] is_taken.requires((s,)),
                forall|m: nat| m < n ==> probed(is_taken, #[trigger] candidate_name(st, ex, m), true),
            decreases u32::MAX - n,
        {
            let name = candidate(stem, ext, n);
            let taken = is_taken(name.as_str());
            if !taken {
                assert(name@ == candidate_name(st, ex, n as nat));
                assert(probed(is_taken, name@, false));
                return Some((dir, name));
            }
            assert(probed(is_taken, candidate_name(st, ex, n as nat), true));
            if n == u32::MAX {
                assert forall|m: nat| m <= u32::MAX implies probed(
                    is_taken,
                    #[trigger] candidate_name(st, ex, m),
                    true,
                ) by {
                    if m < n {
                    }
                }
                return None;
            }
            n = n + 1;
        }
    }
}

} // verus!
