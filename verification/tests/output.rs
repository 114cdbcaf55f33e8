use boinc::format::Format;
use boinc::output::{candidate, OutputPolicy};

/// The output for `stem` under `policy`, given the input's directory and the
/// names already in the output directory.
fn resolve(policy: &OutputPolicy, parent: &str, stem: &str, to: Format, taken: &[&str]) -> (String, String) {
    policy.output_path(parent, Some(stem), to, |name: &str| taken.contains(&name)).unwrap()
}

#[test]
fn renames_instead_of_overwriting() {
    let dir = "/tmp/work";
    let policy = OutputPolicy::default();
    assert_eq!(
        resolve(&policy, dir, "photo", Format::Jpg, &["photo.png"]),
        (dir.to_string(), "photo.jpg".to_string())
    );
    assert_eq!(
        resolve(&policy, dir, "photo", Format::Jpg, &["photo.png", "photo.jpg"]),
        (dir.to_string(), "photo (1).jpg".to_string())
    );
    assert_eq!(
        resolve(&policy, dir, "photo", Format::Jpg, &["photo.png", "photo.jpg", "photo (1).jpg"]),
        (dir.to_string(), "photo (2).jpg".to_string())
    );
}

#[test]
fn explicit_directory_overrides_input_location() {
    let policy = OutputPolicy {
        dir: Some("/tmp/dst".to_string()),
    };
    assert_eq!(
        resolve(&policy, "/tmp/src", "doc", Format::Pdf, &[]),
        ("/tmp/dst".to_string(), "doc.pdf".to_string())
    );
    assert_eq!(policy.output_dir("/tmp/src"), "/tmp/dst");
    assert_eq!(OutputPolicy::default().output_dir("/tmp/src"), "/tmp/src");
}

#[test]
fn candidates_and_gaps() {
    assert_eq!(candidate("a", "md", 0), "a.md");
    assert_eq!(candidate("a", "md", 12), "a (12).md");
    let policy = OutputPolicy::default();
    let taken = ["x.png", "x (2).png"];
    // The first free name wins, even when a later one is taken.
    assert_eq!(
        policy.output_path("/d", Some("x"), Format::Png, |name: &str| taken.contains(&name)),
        Some(("/d".to_string(), "x (1).png".to_string()))
    );
    assert_eq!(
        policy.output_path("", None, Format::Svg, |_: &str| false),
        Some(("".to_string(), "converted.svg".to_string()))
    );
}
