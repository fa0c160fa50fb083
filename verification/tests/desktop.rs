use libappimage::desktop_integration::desktop_entry::{DesktopEntry, DesktopEntryExecValue, DesktopEntryStringsValue};
use libappimage::desktop_integration::editor::DesktopEntryEditor;
use libappimage::desktop_integration::integrator::{parse_bool, IconDeployment, Integrator};
use libappimage::desktop_integration::manager::IntegrationManager;
use libappimage::desktop_integration::thumbnailer::Thumbnailer;
use libappimage::error::DesktopIntegrationError;

#[test]
fn test_desktop_entry() {
    let mut entry = DesktopEntry::new();

    entry.set("Desktop Entry/Exec", "test-app");
    assert_eq!(entry.get("Desktop Entry/Exec"), "test-app");

    assert!(entry.key_exists("Desktop Entry/Exec"));
    assert!(!entry.key_exists("Desktop Entry/Icon"));

    let paths = entry.paths();
    assert_eq!(paths.len(), 1);
    assert!(paths.contains(&"Desktop Entry/Exec".to_string()));
}

#[test]
fn desktop_entry_set_then_get_and_overwrite() {
    let mut entry = DesktopEntry::new();
    entry.set("Desktop Entry/Name", "A");
    entry.set("Desktop Action x/Exec", "run");
    entry.set("Desktop Entry/Name", "B");
    assert_eq!(entry.get("Desktop Entry/Name"), "B");
    assert_eq!(entry.get("Desktop Action x/Exec"), "run");
    assert_eq!(entry.get("Desktop Entry/Missing"), "");
    assert_eq!(entry.paths().len(), 2);
}

#[test]
fn test_desktop_entry_exec_value() {
    let exec = DesktopEntryExecValue::parse("test-app --arg1 \"arg 2\"").unwrap();
    assert_eq!(exec.part(0), "test-app");
    assert_eq!(exec.part(1), "--arg1");
    assert_eq!(exec.part(2), "arg 2");
    assert_eq!(exec.to_string(), "test-app --arg1 \"arg 2\"");
}

#[test]
fn test_desktop_entry_strings_value() {
    let strings = DesktopEntryStringsValue::parse("action1;action2;action3").unwrap();
    assert_eq!(strings.iter().iter().count(), 3);
    assert!(strings.iter().iter().any(|s| s == "action1"));
    assert!(strings.iter().iter().any(|s| s == "action2"));
    assert!(strings.iter().iter().any(|s| s == "action3"));
}

#[test]
fn editor_setters_store_values() {
    let mut editor = DesktopEntryEditor::new();
    editor.set_app_image_path("/path/to/app.AppImage");
    editor.set_app_image_version("1.0.0");
    editor.set_identifier("test-id");
    editor.set_vendor_prefix("test-vendor");
    assert_eq!(editor.app_image_path, "/path/to/app.AppImage");
    assert_eq!(editor.app_image_version, "1.0.0");
    assert_eq!(editor.identifier, "test-id");
    assert_eq!(editor.vendor_prefix, "test-vendor");
}

#[test]
fn manager_test_invalid_xdg_data_home() {
    let result = IntegrationManager::with_xdg_data_home("", false);
    assert!(matches!(result, Err(DesktopIntegrationError::InvalidParameter(_))));
}

#[test]
fn test_integration_manager_creation() {
    let manager = IntegrationManager::with_xdg_data_home("/tmp", true).unwrap();
    assert_eq!(manager.xdg_data_home, "/tmp");
}

#[test]
fn manager_registration_rules() {
    let manager = IntegrationManager::with_xdg_data_home("/tmp", true).unwrap();
    let mut entry = DesktopEntry::new();
    entry.set("Desktop Entry/Name", "x");
    assert!(manager.should_register_app_image(&entry).unwrap());
    entry.set("Desktop Entry/Terminal", "true");
    assert!(!manager.should_register_app_image(&entry).unwrap());
    entry.set("Desktop Entry/Terminal", "false");
    entry.set("Desktop Entry/X-AppImage-Integrate", "false");
    assert!(!manager.should_register_app_image(&entry).unwrap());
}

#[test]
fn test_invalid_xdg_cache_home() {
    let result = Thumbnailer::with_xdg_cache_home("");
    assert!(matches!(result, Err(DesktopIntegrationError::InvalidParameter(_))));
}

#[test]
fn test_thumbnailer_creation() {
    let thumbnailer = Thumbnailer::with_xdg_cache_home("/tmp/cache").unwrap();
    assert_eq!(thumbnailer.xdg_cache_home, "/tmp/cache");
}

#[test]
fn test_thumbnail_paths() {
    let thumbnailer = Thumbnailer::with_xdg_cache_home("/tmp/cache").unwrap();
    let canonical_path_md5 = "test123";
    let normal_path = thumbnailer.get_normal_thumbnail_path(canonical_path_md5);
    let large_path = thumbnailer.get_large_thumbnail_path(canonical_path_md5);
    assert!(normal_path.contains("thumbnails/normal"));
    assert!(large_path.contains("thumbnails/large"));
    assert_eq!(normal_path, "/tmp/cache/thumbnails/normal/test123.png");
}

#[test]
fn bool_values() {
    assert_eq!(parse_bool("true"), Some(true));
    assert_eq!(parse_bool("false"), Some(false));
    assert_eq!(parse_bool("maybe"), None);
}

#[test]
fn integrator_checks() {
    assert!(matches!(
        Integrator::new("/a", "", "id", DesktopEntry::new()),
        Err(DesktopIntegrationError::InvalidParameter(_))
    ));
    let mut entry = DesktopEntry::new();
    entry.set("Desktop Entry/Name", "My App");
    entry.set("Desktop Entry/Exec", "app %F");
    entry.set("Desktop Entry/Icon", "app-icon");
    let i = Integrator::new("/opt/My.AppImage", "/data", "abc", entry).unwrap();
    let plan = i.integrate().unwrap();
    assert_eq!(plan.icon_name, "app-icon");
    assert_eq!(plan.desktop_file_path, "/data/applications/appimagekit_abc-My_App.desktop");
    assert!(plan.desktop_file_contents.contains("Exec=/opt/My.AppImage %F\n"));
    assert!(plan.desktop_file_contents.contains("Icon=appimagekit_abc_app-icon\n"));
    assert!(plan.desktop_file_contents.contains("X-AppImage-Identifier=abc\n"));
    assert!(plan.desktop_file_contents.starts_with("[Desktop Entry]\n"));

    let mut no_icon = DesktopEntry::new();
    no_icon.set("Desktop Entry/Name", "x");
    no_icon.set("Desktop Entry/Exec", "x");
    let i = Integrator::new("/a", "/data", "id", no_icon).unwrap();
    assert!(matches!(i.integrate(), Err(DesktopIntegrationError::NotFound(_))));

    let mut no_name = DesktopEntry::new();
    no_name.set("Desktop Entry/Exec", "x");
    let i = Integrator::new("/a", "/data", "id", no_name).unwrap();
    match i.integrate() {
        Err(DesktopIntegrationError::NotFound(m)) => assert_eq!(m, "Desktop file does not contain Name entry"),
        _ => panic!("expected a missing name"),
    }

    let mut no_exec = DesktopEntry::new();
    no_exec.set("Desktop Entry/Name", "x");
    let i = Integrator::new("/a", "/data", "id", no_exec).unwrap();
    match i.integrate() {
        Err(DesktopIntegrationError::DesktopIntegration(m)) => assert_eq!(m, "Invalid data: Missing Desktop Entry"),
        _ => panic!("expected a missing Exec"),
    }

    let mut refused = DesktopEntry::new();
    refused.set("Desktop Entry/X-AppImage-Integrate", "false");
    refused.set("Desktop Entry/Icon", "app-icon");
    let i = Integrator::new("/a", "/data", "id", refused).unwrap();
    assert!(matches!(i.integrate(), Err(DesktopIntegrationError::NotSupported(_))));
}

use libappimage::desktop_integration::editor::sanitize_for_path;
use libappimage::error::AppImageError;

#[test]
fn test_desktop_entry_editor() {
    let mut editor = DesktopEntryEditor::new();
    editor.set_app_image_path("/path/to/app.AppImage");
    editor.set_app_image_version("1.0.0");
    editor.set_identifier("test-id");
    editor.set_vendor_prefix("test-vendor");

    let mut entry = DesktopEntry::new();
    entry.set("Desktop Entry/Exec", "old-exec");
    entry.set("Desktop Entry/TryExec", "old-tryexec");
    entry.set("Desktop Entry/Icon", "old-icon");
    entry.set("Desktop Entry/Name", "Test App");
    entry.set("Desktop Entry/Actions", "action1;action2");
    entry.set("Desktop Action action1/Exec", "old-action1-exec");
    entry.set("Desktop Action action2/Exec", "old-action2-exec");

    editor.edit(&mut entry).unwrap();

    assert_eq!(entry.get("Desktop Entry/Exec"), "/path/to/app.AppImage");
    assert_eq!(entry.get("Desktop Entry/TryExec"), "/path/to/app.AppImage");
    assert_eq!(entry.get("Desktop Entry/Icon"), "test-vendor_test-id_old-icon");
    assert_eq!(entry.get("Desktop Entry/Name"), "Test App (1.0.0)");
    assert_eq!(entry.get("Desktop Action action1/Exec"), "/path/to/app.AppImage");
    assert_eq!(entry.get("Desktop Action action2/Exec"), "/path/to/app.AppImage");
    assert_eq!(entry.get("Desktop Entry/X-AppImage-Identifier"), "test-id");
}

#[test]
fn editor_keeps_old_values_and_refuses() {
    let mut editor = DesktopEntryEditor::new();
    editor.set_app_image_path("/a b/app");
    let mut entry = DesktopEntry::new();
    entry.set("Desktop Entry/Exec", "old --flag %U");
    entry.set("Desktop Entry/Icon", "my icon");
    // without an identifier the commands are set, then the edit stops
    assert!(matches!(editor.edit(&mut entry), Err(AppImageError::InvalidData(_))));
    assert_eq!(entry.get("Desktop Entry/Exec"), "\"/a b/app\" --flag %U");
    assert_eq!(entry.get("Desktop Entry/Icon"), "my icon");

    editor.set_identifier("id");
    let mut entry = DesktopEntry::new();
    entry.set("Desktop Entry/Exec", "x");
    entry.set("Desktop Entry/Icon", "my icon");
    entry.set("Desktop Entry/Name", "Tool");
    entry.set("Desktop Entry/X-AppImage-Version", "2");
    editor.edit(&mut entry).unwrap();
    assert_eq!(entry.get("Desktop Entry/Icon"), "appimagekit_id_my_icon");
    assert_eq!(entry.get("Desktop Entry/X-AppImage-Old-Icon"), "my icon");
    assert_eq!(entry.get("Desktop Entry/Name"), "Tool (2)");
    assert_eq!(entry.get("Desktop Entry/X-AppImage-Old-Name"), "Tool");

    let mut no_exec = DesktopEntry::new();
    no_exec.set("Desktop Entry/Name", "x");
    assert!(matches!(editor.edit(&mut no_exec), Err(AppImageError::InvalidData(_))));
    assert_eq!(no_exec.get("Desktop Entry/Name"), "x");
}

#[test]
fn sanitizing_for_paths() {
    assert_eq!(sanitize_for_path("a b/c.png"), "a_b_c.png");
    assert_eq!(sanitize_for_path("ok-name_1.0"), "ok-name_1.0");
}

#[test]
fn desktop_entry_parse_and_write_back() {
    let text = "# comment\n[Desktop Entry]\nName = App \nExec=app %U\r\n\n[Desktop Action new]\nExec=app --new\nbroken line\n";
    let entry = DesktopEntry::parse(text).unwrap();
    assert_eq!(entry.get("Desktop Entry/Name"), "App");
    assert_eq!(entry.get("Desktop Entry/Exec"), "app %U");
    assert_eq!(entry.get("Desktop Action new/Exec"), "app --new");
    assert_eq!(
        entry.to_string(),
        "[Desktop Entry]\nName=App\nExec=app %U\n\n[Desktop Action new]\nExec=app --new\n\n"
    );
    let again = DesktopEntry::parse(&entry.to_string()).unwrap();
    assert_eq!(again.to_string(), entry.to_string());
}

#[test]
fn thumbnail_icon_choice() {
    let t = Thumbnailer::with_xdg_cache_home("/c").unwrap();
    let icons = vec![
        "usr/share/icons/hicolor/64x64/apps/a.png".to_string(),
        "usr/share/icons/hicolor/128x128/apps/a.png".to_string(),
        "usr/share/icons/hicolor/128x128/apps/b.png".to_string(),
    ];
    assert_eq!(t.get_icon_path(&icons, "128x128").unwrap(), "usr/share/icons/hicolor/128x128/apps/a.png");
    match t.get_icon_path(&icons, "256x256") {
        Err(DesktopIntegrationError::NotFound(m)) => assert_eq!(m, "No icon found with size 256x256"),
        _ => panic!("expected no icon"),
    }
    let mut e = DesktopEntry::new();
    assert!(matches!(t.get_app_icon_name(&e), Err(DesktopIntegrationError::NotFound(_))));
    e.set("Desktop Entry/Icon", "app");
    assert_eq!(t.get_app_icon_name(&e).unwrap(), "app");
    let m = IntegrationManager::with_xdg_data_home("/d", true).unwrap();
    assert_eq!(m.generate_app_image_id("0123abcd"), "appimagekit_0123abcd");
}

#[test]
fn managers_for_the_user_directories() {
    match IntegrationManager::new() {
        Ok(m) => assert!(!m.xdg_data_home.is_empty()),
        Err(DesktopIntegrationError::NotFound(m)) => assert_eq!(m, "XDG_DATA_HOME not found"),
        Err(DesktopIntegrationError::InvalidParameter(m)) => assert!(m.starts_with("Invalid XDG_DATA_HOME: ")),
        Err(_) => panic!("unexpected error"),
    }
    match Thumbnailer::new() {
        Ok(t) => assert!(!t.xdg_cache_home.is_empty()),
        Err(DesktopIntegrationError::NotFound(m)) => assert_eq!(m, "XDG_CACHE_HOME not found"),
        Err(_) => panic!("unexpected error"),
    }
}

#[test]
fn icons_are_deployed_under_the_data_directory() {
    let mut entry = DesktopEntry::new();
    entry.set("Desktop Entry/Name", "My App");
    entry.set("Desktop Entry/Exec", "app");
    entry.set("Desktop Entry/Icon", "app icon");
    let i = Integrator::new("/opt/My.AppImage", "/data", "abc", entry).unwrap();
    assert_eq!(
        i.generate_deploy_path("usr/share/icons/hicolor/48x48/apps/app icon.png").unwrap(),
        "/data/usr/share/icons/hicolor/48x48/apps/appimagekit_abc_app_icon.png"
    );
    match i.generate_deploy_path("..") {
        Err(DesktopIntegrationError::InvalidParameter(m)) => assert_eq!(m, "Invalid file path"),
        _ => panic!("expected an invalid path"),
    }
    assert_eq!(
        i.application_icon_deploy_path("app icon", false, 64),
        "/data/icons/hicolor/64x64/apps/appimagekit_abc_app_icon.png"
    );
    assert_eq!(
        i.application_icon_deploy_path("app", true, 0),
        "/data/icons/hicolor/scalable/apps/appimagekit_abc_app.svg"
    );
    assert!(matches!(i.plan_icon_deployment(&Vec::new()), Ok(IconDeployment::UseDirIcon)));
    match i.plan_icon_deployment(&vec!["a/x.png".to_string(), "b/y.svg".to_string()]) {
        Ok(IconDeployment::Files(v)) => assert_eq!(
            v,
            vec![
                ("a/x.png".to_string(), "/data/a/appimagekit_abc_x.png".to_string()),
                ("b/y.svg".to_string(), "/data/b/appimagekit_abc_y.svg".to_string())
            ]
        ),
        _ => panic!("expected icon files"),
    }
    let mut bad = DesktopEntry::new();
    bad.set("Desktop Entry/Icon", "a/b");
    let i = Integrator::new("/a", "/data", "id", bad).unwrap();
    match i.plan_icon_deployment(&Vec::new()) {
        Err(DesktopIntegrationError::InvalidParameter(m)) => assert_eq!(m, "Icon field contains path"),
        _ => panic!("expected a path icon"),
    }
}

#[test]
fn exec_commands_are_checked_before_editing() {
    let mut editor = DesktopEntryEditor::new();
    editor.set_app_image_path("/opt/app.AppImage");
    let mut e = DesktopEntry::new();
    assert!(!editor.can_set_exec_paths(&e));
    e.set("Desktop Entry/Exec", "app %U");
    assert!(editor.can_set_exec_paths(&e));
    e.set("Desktop Entry/Actions", "new;");
    assert!(!editor.can_set_exec_paths(&e));
    e.set("Desktop Action new/Exec", "app --new");
    assert!(editor.can_set_exec_paths(&e));
}

#[test]
fn white_space_is_what_std_says_it_is() {
    for u in 0..=0x10FFFFu32 {
        if let Some(c) = char::from_u32(u) {
            assert_eq!(libappimage::text::char_is_whitespace(c), c.is_whitespace(), "{:#x}", u);
        }
    }
}
