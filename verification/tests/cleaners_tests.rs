use tweakers::cleaners::{
    clean_apt_cache, clean_journal, clean_orphans, clean_temp, clean_thumbnails, find_duplicates,
    scan_orphans,
};

#[test]
fn cleaning_commands() {
    assert_eq!(clean_apt_cache(), vec!["apt-get clean", "apt-get autoremove --purge -y"]);
    assert_eq!(
        clean_temp(),
        vec![
            "find /tmp -mindepth 1 -type f -amin +1440 -mmin +1440 -delete 2>/dev/null || true",
            "find /var/tmp -mindepth 1 -type f -amin +1440 -mmin +1440 -delete 2>/dev/null || true",
        ]
    );
    assert_eq!(clean_journal(100), "journalctl --vacuum-size=100M");
    assert_eq!(clean_journal(0), "journalctl --vacuum-size=0M");
    assert_eq!(clean_orphans(), "dpkg -l | grep ^rc | awk '{print $2}' | xargs -r dpkg --purge");
    assert_eq!(clean_thumbnails(Some("/home/u")), Some("rm -rf /home/u/.cache/thumbnails/*".to_string()));
    assert_eq!(clean_thumbnails(None), None);
}

#[test]
fn orphan_count() {
    let out = "ii  bash 5.1\nrc  oldpkg 1.0\nrc  other 2\nrcx not\n";
    assert_eq!(scan_orphans(out), 2);
    assert_eq!(scan_orphans(""), 0);
}

#[test]
fn duplicate_groups() {
    let out = "/a/1\n/a/2\n\n/b/1\n/b/2\n/b/3\n\n";
    let g = find_duplicates(out);
    assert_eq!(g, vec![vec!["/a/1", "/a/2"], vec!["/b/1", "/b/2", "/b/3"]]);
    let spaced = find_duplicates("/a\n \n/b\n");
    assert_eq!(spaced, vec![vec!["/a", " ", "/b"]]);
    assert!(find_duplicates("\n\n").is_empty());
    for group in find_duplicates("/x\n\n\n/y\n/z") {
        assert!(!group.is_empty());
        assert!(group.iter().all(|p| !p.is_empty()));
    }
}
