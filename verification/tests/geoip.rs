use atlasip::geoip::{
    config_base_dir, db_path, db_status, is_mmdb_entry, mmdb_from_archive, mmdb_from_entries, needs_update, ArchiveError,
    DB_FILENAME, MAX_AGE_SECS,
};

#[test]
fn database_path_under_config_dir() {
    assert_eq!(db_path(Some("/cfg"), Some("/home/u")), "/cfg/atlasip/geoip/GeoLite2-City.mmdb");
    assert_eq!(db_path(None, Some("/home/u")), "/home/u/.config/atlasip/geoip/GeoLite2-City.mmdb");
    assert_eq!(config_base_dir(None, None), ".config");
    assert_eq!(DB_FILENAME, "GeoLite2-City.mmdb");
}

#[test]
fn update_needed_when_missing_or_old() {
    assert!(needs_update(false, Some(0)));
    assert!(needs_update(true, None));
    assert!(!needs_update(true, Some(MAX_AGE_SECS)));
    assert!(needs_update(true, Some(MAX_AGE_SECS + 1)));
    assert_eq!(db_status(false, None), "missing");
    assert_eq!(db_status(true, Some(10)), "ok");
    assert_eq!(db_status(true, Some(90_000)), "outdated");
}

#[test]
fn archive_entry_extension() {
    assert!(is_mmdb_entry("GeoLite2-City_20240101/GeoLite2-City.mmdb"));
    assert!(is_mmdb_entry("a.b.mmdb/"));
    assert!(!is_mmdb_entry("GeoLite2-City_20240101/LICENSE.txt"));
    assert!(!is_mmdb_entry(".mmdb"));
    assert!(!is_mmdb_entry("mmdb"));
}

fn tar_gz(files: &[(&str, &[u8])]) -> Vec<u8> {
    let enc = flate2::write::GzEncoder::new(Vec::new(), flate2::Compression::default());
    let mut builder = tar::Builder::new(enc);
    for (path, data) in files {
        let mut header = tar::Header::new_gnu();
        header.set_path(path).unwrap();
        header.set_size(data.len() as u64);
        header.set_mode(0o644);
        header.set_cksum();
        builder.append(&header, *data).unwrap();
    }
    builder.into_inner().unwrap().finish().unwrap()
}

#[test]
fn archive_gives_first_mmdb_file() {
    let data = tar_gz(&[
        ("GeoLite2-City_20240101/COPYRIGHT.txt", b"c"),
        ("GeoLite2-City_20240101/GeoLite2-City.mmdb", b"first-db"),
        ("GeoLite2-City_20240101/other.mmdb", b"second-db"),
    ]);
    assert_eq!(mmdb_from_archive(&data), Ok(b"first-db".to_vec()));
}

#[test]
fn archive_without_database_is_refused() {
    let data = tar_gz(&[("dir/README.txt", b"hello"), ("dir/LICENSE", b"x")]);
    assert_eq!(mmdb_from_archive(&data), Err(ArchiveError::NoDatabase));
}

#[test]
fn garbage_archive_is_unreadable() {
    assert_eq!(mmdb_from_archive(b"this is not gzip at all"), Err(ArchiveError::Unreadable));
}

#[test]
fn entries_pick_the_first_database() {
    let entries = vec![
        ("a/readme".to_string(), vec![1u8]),
        ("a/.mmdb".to_string(), vec![2u8]),
        ("a/x.mmdb".to_string(), vec![3u8]),
        ("a/y.mmdb".to_string(), vec![4u8]),
    ];
    assert_eq!(mmdb_from_entries(entries, true), Ok(vec![3u8]));
    assert_eq!(mmdb_from_entries(vec![("a.txt".to_string(), vec![])], true), Err(ArchiveError::Unreadable));
    assert_eq!(mmdb_from_entries(vec![], false), Err(ArchiveError::NoDatabase));
}
