use afsim_linker::config::Platform;
use afsim_linker::registration::add_scheme_handler;
use afsim_linker::registration::applications_dir;
use afsim_linker::registration::desktop_entry;
use afsim_linker::registration::desktop_file_path;
use afsim_linker::registration::get_registry_path;
use afsim_linker::registration::icon_value;
use afsim_linker::registration::mime_type_text;
use afsim_linker::registration::mimeapps_path;
use afsim_linker::registration::open_command;
use afsim_linker::registration::protocol_description;
use afsim_linker::registration::registry_key_path;
use afsim_linker::registration::remove_scheme_handler;

const SEP: char = std::path::MAIN_SEPARATOR;

#[test]
fn desktop_entry_runs_the_program_for_links() {
    let e = desktop_entry("/opt/afsim-linker/bin/app");
    assert_eq!(
        e,
        "[Desktop Entry]\nVersion=1.0\nType=Application\nName=AFSim 链接器\nComment=Client Linker Application\nExec=/opt/afsim-linker/bin/app %u\nIcon=/opt/afsim-linker/bin/app\nTerminal=false\nCategories=Utility;\nMimeType=x-scheme-handler/afsim;\nStartupNotify=true\n"
    );
}

#[test]
fn handler_added_to_missing_file() {
    assert_eq!(
        add_scheme_handler(None),
        Some("[Default Applications]\nx-scheme-handler/afsim=afsim.desktop\n".to_string())
    );
}

#[test]
fn handler_added_with_header_and_line_break() {
    assert_eq!(
        add_scheme_handler(Some("[Added Associations]\ntext/plain=a.desktop".to_string())),
        Some(
            "[Added Associations]\ntext/plain=a.desktop\n[Default Applications]\nx-scheme-handler/afsim=afsim.desktop\n"
                .to_string()
        )
    );
    assert_eq!(
        add_scheme_handler(Some("[Default Applications]\ntext/html=b.desktop".to_string())),
        Some("[Default Applications]\ntext/html=b.desktop\nx-scheme-handler/afsim=afsim.desktop\n".to_string())
    );
    assert_eq!(
        add_scheme_handler(Some(String::new())),
        Some("\n[Default Applications]\nx-scheme-handler/afsim=afsim.desktop\n".to_string())
    );
}

#[test]
fn handler_set_once() {
    let first = add_scheme_handler(Some("[Default Applications]\n".to_string())).unwrap();
    assert_eq!(add_scheme_handler(Some(first)), None);
    assert_eq!(add_scheme_handler(Some("x-scheme-handler/afsim=other.desktop\n".to_string())), None);
}

#[test]
fn handler_removed() {
    assert_eq!(
        remove_scheme_handler("[Default Applications]\nx-scheme-handler/afsim=afsim.desktop\n"),
        Some("[Default Applications]\n".to_string())
    );
    assert_eq!(
        remove_scheme_handler("a\r\nx-scheme-handler/afsim=y\r\nb"),
        Some("a\nb\n".to_string())
    );
    assert_eq!(remove_scheme_handler("x-scheme-handler/afsim=afsim.desktop"), Some("\n".to_string()));
}

#[test]
fn removal_without_handler() {
    assert_eq!(remove_scheme_handler("[Default Applications]"), None);
    assert_eq!(remove_scheme_handler(""), None);
    assert_eq!(remove_scheme_handler("a\n\nb"), None);
    assert_eq!(remove_scheme_handler("a\n"), Some("a\n".to_string()));
    assert_eq!(remove_scheme_handler("a\rb"), None);
}

#[test]
fn set_then_removed() {
    let set = add_scheme_handler(Some("[Default Applications]\ntext/html=b.desktop\n".to_string())).unwrap();
    assert_eq!(
        remove_scheme_handler(&set),
        Some("[Default Applications]\ntext/html=b.desktop\n".to_string())
    );
}

#[test]
fn windows_registry_values() {
    assert_eq!(registry_key_path(), "Software\\Classes\\afsim");
    assert_eq!(protocol_description(), "URL:AFSim 链接器 Protocol");
    assert_eq!(icon_value("C:\\app\\linker.exe"), "\"C:\\app\\linker.exe\",0");
    assert_eq!(open_command("C:\\app\\linker.exe"), "\"C:\\app\\linker.exe\" \"%1\"");
    assert_eq!(mime_type_text(), "x-scheme-handler/afsim");
}

#[test]
fn registration_location_per_platform() {
    assert_eq!(get_registry_path(Platform::Windows), "HKEY_CURRENT_USER\\Software\\Classes\\afsim");
    assert_eq!(get_registry_path(Platform::Linux), "~/.local/share/applications/afsim.desktop");
    assert_eq!(get_registry_path(Platform::Other), "不支持的平台");
}

#[test]
fn linux_file_locations() {
    assert_eq!(applications_dir("/home/u"), format!("/home/u{}.local/share/applications", SEP));
    assert_eq!(
        desktop_file_path("/home/u"),
        format!("/home/u{}.local/share/applications{}afsim.desktop", SEP, SEP)
    );
    assert_eq!(
        mimeapps_path("/home/u"),
        format!("/home/u{}.local/share/applications/mimeapps.list", SEP)
    );
}
