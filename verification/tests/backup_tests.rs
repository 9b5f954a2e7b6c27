use tweakers::backup::{
    config_terminals, fallback_picker, list_remotes, open_rclone_config, picked_lines, picked_yad,
    remote_destination, upload_file_name, upload_plan, BackupState, FilePicker,
};

#[test]
fn default_state() {
    let s = BackupState::default();
    assert!(s.remote_name.is_none());
    assert!(s.queued_files.is_empty());
    assert!(!s.is_configured);
}

#[test]
fn remotes() {
    assert_eq!(list_remotes("gdrive:\ns3::\n:\n\nlocal\n"), vec!["gdrive", "s3", "local"]);
    assert!(list_remotes("").is_empty());
}

#[test]
fn terminal_choice() {
    assert_eq!(config_terminals().len(), 5);
    let (t, args) = open_rclone_config(&vec![false, true, true, false, false]).unwrap();
    assert_eq!(t, "gnome-terminal");
    assert_eq!(args, vec!["--", "rclone", "config"]);
    let (t, args) = open_rclone_config(&vec![false, false, false, false, true]).unwrap();
    assert_eq!(t, "xterm");
    assert_eq!(args, vec!["-e", "rclone", "config"]);
    assert!(open_rclone_config(&vec![false; 5]).is_none());
}

#[test]
fn picker_choice() {
    assert_eq!(fallback_picker(true, true, true), Some(FilePicker::Zenity));
    assert_eq!(fallback_picker(false, true, true), Some(FilePicker::Kdialog));
    assert_eq!(fallback_picker(false, false, true), Some(FilePicker::Yad));
    assert_eq!(fallback_picker(false, false, false), None);
}

#[test]
fn picked_paths() {
    assert_eq!(picked_lines("/a b/c\n/d\n"), vec!["/a b/c", "/d"]);
    assert_eq!(picked_yad("/a| /b |\n|/c\n"), vec!["/a", "/b", "/c"]);
}

#[test]
fn upload_names_match_std() {
    for p in [
        "/home/u/file.txt", "file.txt", "/", "", ".", "..", "/a/..", "a/b/.", "a/b/", "foo.txt/.//",
        "./x", "/a//b",
    ] {
        let std = std::path::Path::new(p)
            .file_name()
            .map(|s| s.to_string_lossy().to_string())
            .unwrap_or_else(|| "unknown".into());
        assert_eq!(upload_file_name(p), std, "path {:?}", p);
        assert!(!upload_file_name(p).contains('/'));
    }
}

#[test]
fn destination() {
    assert_eq!(remote_destination("gdrive", "notes.txt"), "gdrive:notes.txt");
}

#[test]
fn uploads_in_order() {
    let files = vec!["/home/u/a.txt".to_string(), "/".to_string(), "docs/b".to_string()];
    let plan = upload_plan("gdrive", &files);
    assert_eq!(
        plan,
        vec![
            ("/home/u/a.txt".to_string(), "gdrive:a.txt".to_string()),
            ("/".to_string(), "gdrive:unknown".to_string()),
            ("docs/b".to_string(), "gdrive:b".to_string()),
        ]
    );
    assert!(upload_plan("r", &vec![]).is_empty());
}
