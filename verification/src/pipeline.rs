//! A conversion job and the decisions taken before any file is touched:
//! which converter runs, and whether an explicit output may be written.

use vstd::prelude::*;

use crate::converter::{spec_backend_available, Backend, ConversionOptions};
use crate::error::ConversionError;
use crate::format::Format;
use crate::output::OutputPolicy;
use crate::registry::ConverterRegistry;
use crate::text::owned;

verus! {

/// A conversion job: what to convert and where the result should go.
#[derive(Debug)]
pub struct ConversionRequest {
    pub input: String,
    pub to: Format,
    /// Explicit output path; fails if it already exists. `None` derives the
    /// path from `policy` (which renames rather than overwrites).
    pub output: Option<String>,
    pub policy: OutputPolicy,
    pub options: ConversionOptions,
}

impl ConversionRequest {
    /// A request with default output policy and options.
    pub fn new(input: String, to: Format) -> (r: Self)
        ensures
            r.input == input,
            r.to == to,
            r.output is None,
            r.policy.dir is None,
            r.options.jpeg_quality == 90,
            r.options.background@ == seq![255u8, 255u8, 255u8],
    {
        ConversionRequest {
            input,
            to,
            output: None,
            policy: OutputPolicy::default(),
            options: ConversionOptions::default(),
        }
    }
}

/// A completed conversion.
#[derive(Debug, Clone, PartialEq, Eq)]
pub struct ConversionResult {
    pub from: Format,
    pub to: Format,
    pub input: String,
    pub output: String,
}

/// The converter for `from → to` when one is registered and available, else
/// `Unsupported`.
pub fn select_converter(
    registry: &ConverterRegistry,
    from: Format,
    to: Format,
    soffice_found: bool,
) -> (r: Result<Backend, ConversionError>)
    requires
        registry.wf(),
    ensures
        if registry@.contains_key((from, to)) && spec_backend_available(
            registry@[(from, to)],
            soffice_found,
        ) {
            r == Ok::<Backend, ConversionError>(registry@[(from, to)])
        } else {
            r == Err::<Backend, ConversionError>(ConversionError::Unsupported { from, to })
        },
{
    match registry.get(from, to) {
        Some(b) => if b.is_available(soffice_found) {
            Ok(b)
        } else {
            Err(ConversionError::Unsupported { from, to })
        },
        None => Err(ConversionError::Unsupported { from, to }),
    }
}

/// How the output of a conversion is chosen.
#[derive(Debug, Clone, PartialEq, Eq)]
pub enum OutputChoice {
    /// The caller named this path, which does not exist yet.
    Explicit { path: String },
    /// Derive the path from the request's policy.
    FromPolicy,
}

/// The decisions of a conversion, in the order the pipeline takes them:
/// the detected input format (or its detection error), then a registered and
/// available converter (else `Unsupported`), then the output — an explicit
/// path must not exist yet (`explicit_exists`), else `OutputExists`.
pub fn plan_conversion(
    registry: &ConverterRegistry,
    request: &ConversionRequest,
    detected: Result<Format, ConversionError>,
    soffice_found: bool,
    explicit_exists: bool,
) -> (r: Result<(Format, Backend, OutputChoice), ConversionError>)
    requires
        registry.wf(),
    ensures
        match detected {
            Err(e) => r == Err::<(Format, Backend, OutputChoice), ConversionError>(e),
            Ok(from) => if !(registry@.contains_key((from, request.to)) && spec_backend_available(
                registry@[(from, request.to)],
                soffice_found,
            )) {
                r == Err::<(Format, Backend, OutputChoice), ConversionError>(
                    ConversionError::Unsupported { from, to: request.to },
                )
            } else {
                match request.output {
                    Some(path) => if explicit_exists {
                        r matches Err(ConversionError::OutputExists { path: p }) && p@ == path@
                    } else {
                        r matches Ok((f, b, OutputChoice::Explicit { path: p })) && f == from && b
                            == registry@[(from, request.to)] && p@ == path@
                    },
                    None => r == Ok::<(Format, Backend, OutputChoice), ConversionError>(
                        (from, registry@[(from, request.to)], OutputChoice::FromPolicy),
                    ),
                }
            },
        },
{
    let from = match detected {
        Ok(f) => f,
        Err(e) => return Err(e),
    };
    let backend = match select_converter(registry, from, request.to, soffice_found) {
        Ok(b) => b,
        Err(e) => return Err(e),
    };
    match &request.output {
        Some(path) => if explicit_exists {
            Err(ConversionError::OutputExists { path: owned(path.as_str()) })
        } else {
            Ok((from, backend, OutputChoice::Explicit { path: owned(path.as_str()) }))
        },
        None => Ok((from, backend, OutputChoice::FromPolicy)),
    }
}

} // verus!
