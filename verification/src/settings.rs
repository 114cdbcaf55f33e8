//! App settings: defaults, validation of the settings form, and the
//! conversion request they produce.

use vstd::prelude::*;

use crate::converter::ConversionOptions;
use crate::format::Format;
use crate::output::OutputPolicy;
use crate::pipeline::ConversionRequest;
use crate::text::{chars_of, owned, parse_uint, spec_parse_uint, string_of, trim, trim_chars};

verus! {

#[derive(Debug, PartialEq, Eq)]
pub struct Settings {
    /// Where converted files go; `None` means next to each input.
    pub output_dir: Option<String>,
    /// Default JPEG quality, 1–100.
    pub jpeg_quality: u8,
    /// Start the app at login.
    pub launch_at_login: bool,
    /// Look for a newer release at startup.
    pub check_updates: bool,
}

impl Default for Settings {
    fn default() -> (s: Self)
        ensures
            s.output_dir is None,
            s.jpeg_quality == 90,
            !s.launch_at_login,
            s.check_updates,
    {
        Settings { output_dir: None, jpeg_quality: 90, launch_at_login: false, check_updates: true }
    }
}

/// The settings the form yields, or the message shown instead: the quality
/// text (trimmed) must be a whole number, and it must lie in 1–100; an empty
/// (trimmed) directory means "next to the input".
pub open spec fn spec_from_form(
    output_dir: Seq<char>,
    quality: Seq<char>,
    launch_at_login: bool,
    check_updates: bool,
) -> Result<(Option<Seq<char>>, u8, bool, bool), Seq<char>> {
    match spec_parse_uint(trim(quality), 255) {
        None => Err("JPEG quality must be a number 1-100"@),
        Some(q) => if q < 1 || q > 100 {
            Err("JPEG quality must be 1-100"@)
        } else {
            Ok(
                (
                    if trim(output_dir).len() == 0 {
                        None
                    } else {
                        Some(trim(output_dir))
                    },
                    q as u8,
                    launch_at_login,
                    check_updates,
                ),
            )
        },
    }
}

/// The view of settings.
pub open spec fn settings_view(s: Settings) -> (Option<Seq<char>>, u8, bool, bool) {
    (
        match s.output_dir {
            Some(d) => Some(d@),
            None => None,
        },
        s.jpeg_quality,
        s.launch_at_login,
        s.check_updates,
    )
}

impl Settings {
    /// Validate the settings form: output directory text, JPEG quality text
    /// and the two switches.
    pub fn from_form(
        output_dir: &str,
        quality: &str,
        launch_at_login: bool,
        check_updates: bool,
    ) -> (r: Result<Settings, String>)
        ensures
            match (r, spec_from_form(output_dir@, quality@, launch_at_login, check_updates)) {
                (Ok(s), Ok(v)) => settings_view(s) == v,
                (Err(m), Err(v)) => m@ == v,
                _ => false,
            },
    {
        let q = trim_chars(chars_of(quality).as_slice());
        let parsed = parse_uint(q.as_slice(), 0, q.len(), 255);
        assert(q@.subrange(0, q@.len() as int) == q@);
        let value = match parsed {
            None => return Err(owned("JPEG quality must be a number 1-100")),
            Some(v) => v,
        };
        if value < 1 || value > 100 {
            return Err(owned("JPEG quality must be 1-100"));
        }
        let dir = trim_chars(chars_of(output_dir).as_slice());
        let output_dir = if dir.len() == 0 {
            None
        } else {
            Some(string_of(dir.as_slice()))
        };
        Ok(Settings { output_dir, jpeg_quality: value as u8, launch_at_login, check_updates })
    }

    /// The conversion request the worker builds for a queued job under these
    /// settings: outputs go to the configured directory (or next to the
    /// input) at the configured JPEG quality.
    pub fn request_for(&self, input: String, to: Format) -> (r: ConversionRequest)
        ensures
            r.input == input,
            r.to == to,
            r.output is None,
            match (r.policy.dir, self.output_dir) {
                (Some(a), Some(b)) => a@ == b@,
                (None, None) => true,
                _ => false,
            },
            r.options.jpeg_quality == self.jpeg_quality,
            r.options.background@ == seq![255u8, 255u8, 255u8],
    {
        let mut request = ConversionRequest::new(input, to);
        let dir = match &self.output_dir {
            Some(d) => Some(owned(d.as_str())),
            None => None,
        };
        request.policy = OutputPolicy { dir };
        request.options.jpeg_quality = self.jpeg_quality;
        request
    }
}

} // verus!
