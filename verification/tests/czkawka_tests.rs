use tweakers::czkawka::{
    all_scan_modes, cargo_bin_path, cli_scan_args, detect_tools, find_binary, install_hint,
    join_path, parse_cli_output, parse_scan_mode, CzkawkaAvailability, ScanMode,
};

#[test]
fn availability_and_preference() {
    let none = CzkawkaAvailability::default();
    assert!(!none.is_any_available());
    assert_eq!(none.preferred_tool(), None);
    let cli = CzkawkaAvailability { krokiet_path: None, cli_path: Some("/usr/bin/czkawka_cli".into()) };
    assert!(cli.is_any_available());
    assert_eq!(cli.preferred_tool(), Some("/usr/bin/czkawka_cli"));
    let both = CzkawkaAvailability {
        krokiet_path: Some("/usr/bin/krokiet".into()),
        cli_path: Some("/usr/bin/czkawka_cli".into()),
    };
    assert_eq!(both.preferred_tool(), Some("/usr/bin/krokiet"));
}

#[test]
fn available_exactly_when_preferred() {
    for k in [None, Some("k".to_string())] {
        for c in [None, Some("c".to_string())] {
            let a = CzkawkaAvailability { krokiet_path: k.clone(), cli_path: c.clone() };
            assert_eq!(a.is_any_available(), a.preferred_tool().is_some());
        }
    }
}

#[test]
fn tool_detection() {
    let a = detect_tools(None, None, Some("/bin/czkawka".into()));
    assert_eq!(a.cli_path.as_deref(), Some("/bin/czkawka"));
    let b = detect_tools(Some("/bin/krokiet".into()), Some("/bin/czkawka_cli".into()), Some("/bin/czkawka".into()));
    assert_eq!(b.krokiet_path.as_deref(), Some("/bin/krokiet"));
    assert_eq!(b.cli_path.as_deref(), Some("/bin/czkawka_cli"));
    assert_eq!(find_binary(Some("/usr/bin/krokiet\n"), None), Some("/usr/bin/krokiet".into()));
    assert_eq!(find_binary(Some("  \n"), Some("/h/.cargo/bin/krokiet".into())), Some("/h/.cargo/bin/krokiet".into()));
    assert_eq!(find_binary(None, None), None);
    assert_eq!(cargo_bin_path("/home/u", "krokiet"), "/home/u/.cargo/bin/krokiet");
    assert_eq!(cargo_bin_path("/home/u/", "krokiet"), "/home/u/.cargo/bin/krokiet");
}

#[test]
fn join_matches_std_path() {
    for (base, part) in [("/a", "b"), ("/a/", "b"), ("", "b"), ("/a", "/b"), ("a", "b/c")] {
        let std = std::path::Path::new(base).join(part);
        assert_eq!(join_path(base, part), std.to_string_lossy(), "{} {}", base, part);
    }
}

#[test]
fn mode_texts() {
    assert_eq!(ScanMode::DuplicateFiles.label(), "Duplicate Files");
    assert_eq!(ScanMode::TemporaryFiles.label(), "Temporary Files");
    assert_eq!(ScanMode::SameMusic.icon(), "🎵");
    assert_eq!(ScanMode::EmptyDirectories.cli_subcommand(), "empty-folders");
    assert_eq!(ScanMode::BadExtensions.cli_subcommand(), "ext");
}

#[test]
fn mode_names() {
    assert_eq!(parse_scan_mode("duplicates"), ScanMode::DuplicateFiles);
    assert_eq!(parse_scan_mode("empty-dirs"), ScanMode::EmptyDirectories);
    assert_eq!(parse_scan_mode("similar-images"), ScanMode::SimilarImages);
    assert_eq!(parse_scan_mode("bad-ext"), ScanMode::BadExtensions);
    assert_eq!(parse_scan_mode("whatever"), ScanMode::DuplicateFiles);
}

#[test]
fn subcommand_names_its_mode_except_empty_directories() {
    for m in all_scan_modes() {
        let back = parse_scan_mode(m.cli_subcommand());
        if m == ScanMode::EmptyDirectories {
            assert_eq!(back, ScanMode::DuplicateFiles);
        } else {
            assert_eq!(back, m);
        }
    }
}

#[test]
fn all_modes_once() {
    let modes = all_scan_modes();
    assert_eq!(modes.len(), 11);
    for i in 0..modes.len() {
        for j in i + 1..modes.len() {
            assert_ne!(modes[i], modes[j]);
            assert_ne!(modes[i].cli_subcommand(), modes[j].cli_subcommand());
        }
    }
    assert_eq!(modes[0], ScanMode::DuplicateFiles);
    assert_eq!(modes[10], ScanMode::TemporaryFiles);
}

#[test]
fn scan_arguments() {
    let args = cli_scan_args(ScanMode::BigFiles, &vec!["/home/u".into(), "/data".into()]);
    assert_eq!(args, vec!["big", "-d", "/home/u", "-d", "/data"]);
    assert_eq!(cli_scan_args(ScanMode::DuplicateFiles, &vec![]), vec!["dup"]);
}

#[test]
fn cli_output_groups() {
    let out = "Found 2 groups\n/home/a.txt\n/home/b.txt\n\n  /x/1  \nC:\\dir\\f\nnot a path\n\n\n/y\n";
    let groups = parse_cli_output(out);
    assert_eq!(groups.len(), 3);
    assert_eq!(groups[0].files, vec!["/home/a.txt", "/home/b.txt"]);
    assert_eq!(groups[1].files, vec!["/x/1", "C:\\dir\\f"]);
    assert_eq!(groups[2].files, vec!["/y"]);
    assert!(parse_cli_output("").is_empty());
    assert!(parse_cli_output("no paths\n\n").is_empty());
}

#[test]
fn hint_text() {
    assert_eq!(
        install_hint(),
        "Neither krokiet nor czkawka_cli was found.\nInstall via:\n  cargo install krokiet --locked\nor download from: https://github.com/qarmin/czkawka/releases"
    );
}
