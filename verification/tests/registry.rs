use boinc::converter::{Backend, ConverterEntry, RasterConverter};
use boinc::entries::{menu_entries, MenuEntry};
use boinc::format::{Format, RASTERS};
use boinc::pipeline::{plan_conversion, select_converter, ConversionRequest, OutputChoice};
use boinc::registry::ConverterRegistry;
use boinc::error::ConversionError;

fn dummy(from: Format, to: Format, available: bool) -> ConverterEntry {
    ConverterEntry { from, to, backend: Backend::External { available } }
}

#[test]
fn lookup_and_listing() {
    let mut registry = ConverterRegistry::new();
    registry.register(dummy(Format::Png, Format::Jpg, true));
    registry.register(dummy(Format::Png, Format::Pdf, false));

    assert!(registry.get(Format::Png, Format::Jpg).is_some());
    assert!(registry.get(Format::Jpg, Format::Png).is_none());

    // Unavailable converters are hidden from target listings but still
    // count as registered pairs.
    assert_eq!(registry.available_targets(Format::Png, true), vec![Format::Jpg]);
    assert_eq!(
        registry.pairs(),
        vec![(Format::Png, Format::Jpg), (Format::Png, Format::Pdf)]
    );
}

#[test]
fn defaults_cover_planned_pairs() {
    let registry = ConverterRegistry::with_defaults();
    for &from in &RASTERS {
        assert!(
            registry.get(from, Format::Svg).is_some(),
            "{from:?} -> SVG missing"
        );
        for &to in &RASTERS {
            if from != to {
                assert!(
                    registry.get(from, to).is_some(),
                    "{from:?} -> {to:?} missing"
                );
            }
        }
    }
    for (from, to) in [
        (Format::Docx, Format::Pdf),
        (Format::Pdf, Format::Docx),
        (Format::Md, Format::Pdf),
        (Format::Pdf, Format::Md),
    ] {
        assert!(registry.get(from, to).is_some(), "{from:?} -> {to:?} missing");
    }
}

#[test]
fn register_replaces_existing_pair() {
    let mut registry = ConverterRegistry::new();
    registry.register(RasterConverter::png_to_jpg().entry());
    registry.register(dummy(Format::Png, Format::Jpg, false));
    assert_eq!(
        registry.get(Format::Png, Format::Jpg),
        Some(Backend::External { available: false })
    );
    assert_eq!(registry.pairs().len(), 1);
    assert!(registry.available_targets(Format::Png, true).is_empty());
}

#[test]
fn defaults_depend_on_libreoffice() {
    let registry = ConverterRegistry::with_defaults();
    assert_eq!(registry.pairs().len(), 5 * 4 + 5 + 4);
    assert_eq!(registry.available_targets(Format::Pdf, false), vec![Format::Md]);
    assert_eq!(
        registry.available_targets(Format::Pdf, true),
        vec![Format::Docx, Format::Md]
    );
    assert_eq!(
        registry.available_targets(Format::Png, false),
        vec![Format::Jpg, Format::Bmp, Format::Gif, Format::WebP, Format::Svg]
    );
    assert!(registry.available_targets(Format::Svg, true).is_empty());
}

#[test]
fn entries_are_sorted_and_labeled() {
    let registry = ConverterRegistry::with_defaults();
    let entries = menu_entries(&registry, false);
    // PNG<->JPG are always available; document pairs depend on LibreOffice.
    assert!(entries.contains(&MenuEntry {
        from: Format::Png,
        to: Format::Jpg
    }));
    let png_jpg = MenuEntry {
        from: Format::Png,
        to: Format::Jpg,
    };
    assert_eq!(png_jpg.label(), "Convert to JPG");
    assert_eq!(png_jpg.id(), "png-to-jpg");
    let mut sorted = entries.clone();
    sorted.sort_by_key(|e| (e.from, e.to));
    assert_eq!(entries, sorted);
    assert!(!entries.contains(&MenuEntry { from: Format::Docx, to: Format::Pdf }));
    assert!(menu_entries(&registry, true).contains(&MenuEntry { from: Format::Docx, to: Format::Pdf }));
}

#[test]
fn unsupported_pair_is_an_error() {
    let registry = ConverterRegistry::with_defaults();
    let err = select_converter(&registry, Format::Png, Format::Docx, true).unwrap_err();
    assert!(matches!(err, ConversionError::Unsupported { .. }));
    assert_eq!(err.message(), "no converter available for PNG to DOCX");
    // A registered converter whose tool is missing is unsupported too.
    assert!(select_converter(&registry, Format::Docx, Format::Pdf, false).is_err());
    assert_eq!(
        select_converter(&registry, Format::Docx, Format::Pdf, true),
        Ok(Backend::LibreOffice)
    );
}

#[test]
fn plan_checks_in_order() {
    let registry = ConverterRegistry::with_defaults();
    let mut request = ConversionRequest::new("/tmp/pic.png".to_string(), Format::Jpg);
    let detect_err = ConversionError::UnknownFormat { path: "/tmp/pic.png".to_string() };
    assert_eq!(
        plan_conversion(&registry, &request, Err(detect_err), true, true),
        Err(ConversionError::UnknownFormat { path: "/tmp/pic.png".to_string() })
    );
    assert_eq!(
        plan_conversion(&registry, &request, Ok(Format::Png), false, false),
        Ok((Format::Png, Backend::Raster, OutputChoice::FromPolicy))
    );
    request.output = Some("/tmp/out.jpg".to_string());
    let err = plan_conversion(&registry, &request, Ok(Format::Png), false, true).unwrap_err();
    assert!(matches!(err, ConversionError::OutputExists { .. }));
    assert_eq!(err.message(), "output already exists: /tmp/out.jpg");
    assert_eq!(
        plan_conversion(&registry, &request, Ok(Format::Png), false, false),
        Ok((
            Format::Png,
            Backend::Raster,
            OutputChoice::Explicit { path: "/tmp/out.jpg".to_string() }
        ))
    );
    // Unsupported wins over an existing explicit output.
    request.to = Format::Docx;
    assert!(matches!(
        plan_conversion(&registry, &request, Ok(Format::Png), true, true),
        Err(ConversionError::Unsupported { .. })
    ));
}

#[test]
fn menus_match_offered_targets() {
    let registry = ConverterRegistry::with_defaults();
    for soffice_found in [false, true] {
        let entries = boinc::entries::menu_entries(&registry, soffice_found);
        for from in boinc::format::ALL {
            let from_entries: Vec<Format> =
                entries.iter().filter(|e| e.from == from).map(|e| e.to).collect();
            assert_eq!(from_entries, registry.available_targets(from, soffice_found));
        }
    }
}
