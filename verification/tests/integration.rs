use boinc::cli::{conversion_line, exit_code, file_args, is_file_arg, should_force_xwayland};
use boinc::entries::{group_by_source, mime_type, uti, windows_extensions, MenuEntry};
use boinc::error::ConversionError;
use boinc::format::Format;
use boinc::integration::{hkcu_subkey, install_report, menu_base_key, registry_hook, status, verb_command, verb_subkey, Hook};
use boinc::ipc::{dispatch, forward_messages, socket_name, IpcAction, IpcMsg};
use boinc::libreoffice::{file_url, soffice_args, soffice_candidates, target_filter, Os, SofficeCandidate};
use boinc::tray::{menu_action, next_phase, tooltip, MenuAction, TrayState};

#[test]
fn hooks_and_reports() {
    let hooks = vec![
        Hook::File { path: "/home/me/.local/share/kio/servicemenus/boinc-png.desktop".into() },
        Hook::RegistryKey { key: "HKCU\\Software\\Classes".into() },
    ];
    let report = install_report(&hooks);
    assert_eq!(report.created[1], "registry: HKCU\\Software\\Classes");
    assert!(report.removed.is_empty());
    let rows = status(&hooks, &vec![true, false]);
    assert_eq!(rows[0], ("/home/me/.local/share/kio/servicemenus/boinc-png.desktop".to_string(), true));
    assert_eq!(rows[1].1, false);
}

#[test]
fn windows_registry_layout() {
    let entry = MenuEntry { from: Format::Png, to: Format::Jpg };
    assert_eq!(menu_base_key(".png"), "Software\\Classes\\SystemFileAssociations\\.png\\shell\\Boinc");
    assert_eq!(verb_subkey(&entry), "shell\\png-to-jpg");
    assert_eq!(verb_command("C:\\b\\boinc.exe", &entry), "\"C:\\b\\boinc.exe\" convert --app \"%1\" --to jpg");
    assert_eq!(registry_hook("Software\\X"), Hook::RegistryKey { key: "HKCU\\Software\\X".into() });
    assert_eq!(hkcu_subkey("HKCU\\Software\\X").as_deref(), Some("Software\\X"));
    assert_eq!(hkcu_subkey("HKLM\\Software\\X"), None);
    assert_eq!(windows_extensions(Format::Jpg), vec![".jpg", ".jpeg"]);
    assert_eq!(mime_type(Format::Docx), "application/vnd.openxmlformats-officedocument.wordprocessingml.document");
    assert_eq!(uti(Format::Pdf), "com.adobe.pdf");
}

#[test]
fn groups_follow_format_order() {
    let entries = vec![
        MenuEntry { from: Format::Jpg, to: Format::Png },
        MenuEntry { from: Format::Png, to: Format::Jpg },
        MenuEntry { from: Format::Png, to: Format::Svg },
    ];
    let groups = group_by_source(&entries);
    assert_eq!(groups.len(), 2);
    assert_eq!(groups[0].0, Format::Png);
    assert_eq!(groups[0].1, vec![entries[1], entries[2]]);
    assert_eq!(groups[1], (Format::Jpg, vec![entries[0]]));
}

#[test]
fn ipc_dispatch() {
    assert_eq!(dispatch(IpcMsg::Open), IpcAction::OpenWindow);
    assert_eq!(dispatch(IpcMsg::Pick { input: "/f.png".into() }), IpcAction::Pick("/f.png".into()));
    assert_eq!(
        dispatch(IpcMsg::Convert { input: "/f.png".into(), to: "JPEG".into() }),
        IpcAction::Enqueue { input: "/f.png".into(), to: Format::Jpg }
    );
    assert_eq!(
        dispatch(IpcMsg::Convert { input: "/f.png".into(), to: "tiff".into() }),
        IpcAction::UnknownFormat("tiff".into())
    );
    assert_eq!(socket_name(None), "boinc.sock");
    assert_eq!(socket_name(Some("t.sock")), "t.sock");
    let msgs = forward_messages(&vec!["/a".into(), "/b".into()]);
    assert_eq!(msgs, vec![IpcMsg::Open, IpcMsg::Pick { input: "/a".into() }, IpcMsg::Pick { input: "/b".into() }]);
}

#[test]
fn libreoffice_invocation() {
    assert_eq!(target_filter(Format::Docx), "docx:MS Word 2007 XML");
    assert_eq!(target_filter(Format::Pdf), "pdf");
    assert_eq!(target_filter(Format::Md), "md");
    assert_eq!(file_url("/tmp/x"), "file:///tmp/x");
    assert_eq!(file_url("C:\\Temp\\p"), "file:///C:/Temp/p");
    assert_eq!(file_url("\\\\srv\\share"), "file:////srv/share");
    let args = soffice_args("file:///tmp/p", Some("writer_pdf_import"), "docx:MS Word 2007 XML", "/tmp/w", "/in.pdf");
    assert_eq!(
        args,
        vec![
            "-env:UserInstallation=file:///tmp/p",
            "--headless",
            "--norestore",
            "--infilter=writer_pdf_import",
            "--convert-to",
            "docx:MS Word 2007 XML",
            "--outdir",
            "/tmp/w",
            "/in.pdf"
        ]
    );
    assert_eq!(soffice_args("u", None, "pdf", "o", "i").len(), 8);
}

#[test]
fn soffice_search_order() {
    let dirs = vec!["/a".to_string(), "/b".to_string()];
    assert_eq!(
        soffice_candidates(Some("/opt/so"), &dirs, Os::Linux),
        vec![SofficeCandidate::Override { path: "/opt/so".into() }]
    );
    let found = soffice_candidates(None, &dirs, Os::Windows);
    assert_eq!(found.len(), 2 * 2 + 2);
    assert_eq!(found[1], SofficeCandidate::InPath { dir: "/a".into(), name: "soffice.com".into() });
    assert_eq!(found[4], SofficeCandidate::Known { path: "C:\\Program Files\\LibreOffice\\program\\soffice.exe".into() });
    let linux = soffice_candidates(None, &vec![], Os::Linux);
    assert_eq!(linux.len(), 3);
}

#[test]
fn tray_and_startup() {
    assert_eq!(tooltip(false), "Boinc file converter v0.4.1");
    assert_eq!(tooltip(true), "Boinc v0.4.1 — converting…");
    assert_eq!(menu_action("pause"), MenuAction::TogglePause);
    assert_eq!(menu_action("other"), MenuAction::Ignore);
    assert_eq!(next_phase(7), 0);
    let mut state = TrayState::new();
    assert!(state.set_busy(true));
    assert!(!state.set_busy(true));
    assert!(state.set_busy(false));
    assert!(is_file_arg("/a.png") && !is_file_arg("--app"));
    assert_eq!(file_args(&vec!["-x".into(), "a".into(), "b".into()]), vec!["a".to_string(), "b".to_string()]);
    assert!(should_force_xwayland(Some("wayland-0"), Some(":0")));
    assert!(!should_force_xwayland(Some(""), Some(":0")));
    assert_eq!(conversion_line(Format::Png, Format::Jpg), "PNG -> JPG");
    assert_eq!(exit_code(true, true), 2);
    assert_eq!(exit_code(false, true), 1);
    assert_eq!(exit_code(false, false), 0);
}

#[test]
fn error_messages() {
    let cases = vec![
        (ConversionError::Io { message: "disk full".into() }, "disk full"),
        (ConversionError::ToolNotFound { tool: "LibreOffice".into(), hint: "install it".into() },
            "LibreOffice is required for this conversion but was not found; install it"),
        (ConversionError::ToolFailed { tool: "vtracer".into(), message: "oops".into() }, "vtracer failed: oops"),
        (ConversionError::Image { message: "bad header".into() }, "bad header"),
    ];
    for (err, text) in cases {
        assert_eq!(err.message(), text);
    }
}
