use flate2::read::GzDecoder;
use flate2::write::GzEncoder;
use flate2::Compression;
use package_iter::db::{ArchiveEvent, Database, Packages, Stage};
use package_iter::error::Error;
use package_iter::package::Package;
use std::io::Read;

fn archive_of(files: &[(&str, &[u8])]) -> Vec<u8> {
    let mut builder = tar::Builder::new(GzEncoder::new(Vec::new(), Compression::default()));
    for (path, data) in files {
        let mut header = tar::Header::new_gnu();
        header.set_size(data.len() as u64);
        header.set_mode(0o644);
        header.set_cksum();
        builder.append_data(&mut header, path, *data).unwrap();
    }
    builder.into_inner().unwrap().finish().unwrap()
}

/// Walks an in-memory archive the way a reader of the file would, and
/// collects what the package sequence yields.
fn walk(bytes: &[u8], seq: &mut Packages) -> Vec<Result<Package, Error>> {
    let mut out = Vec::new();
    let mut archive = tar::Archive::new(GzDecoder::new(bytes));
    assert_eq!(seq.step(ArchiveEvent::Opened), None);
    for entry in archive.entries().unwrap() {
        let mut entry = entry.unwrap();
        let path = entry.path().unwrap().to_str().unwrap().to_string();
        let mut content = Vec::new();
        if seq.wants(&path) {
            entry.read_to_end(&mut content).unwrap();
        }
        if let Some(item) = seq.step(ArchiveEvent::Entry(path, content)) {
            out.push(item);
        }
    }
    assert_eq!(seq.step(ArchiveEvent::End), None);
    out
}

fn fresh() -> Packages {
    Database::default().packages().unwrap()
}

#[test]
fn two_packages_with_extra_files() {
    let bytes = archive_of(&[
        ("supertux-0.6.2-3/desc", b"%NAME%\nsupertux\n\n%VERSION%\n0.6.2-3\n"),
        ("supertux-0.6.2-3/files", b"%FILES%\nusr/bin/supertux2\n"),
        ("zsh-5.8-1/desc", b"%NAME%\nzsh\n\n%DEPENDS%\npcre\ngdbm\n"),
        ("zsh-5.8-1/files", b"%FILES%\nusr/bin/zsh\n"),
    ]);
    let mut seq = fresh();
    let items = walk(&bytes, &mut seq);
    assert_eq!(
        items,
        vec![
            Ok(Package { name: "supertux".into(), version: "0.6.2-3".into(), ..Default::default() }),
            Ok(Package {
                name: "zsh".into(),
                depends: vec!["pcre".into(), "gdbm".into()],
                ..Default::default()
            }),
        ]
    );
    assert_eq!(seq.stage(), Stage::Exhausted);
}

#[test]
fn exhausted_sequence_yields_nothing_again() {
    let bytes = archive_of(&[("a-1/desc", b"%NAME%\na\n")]);
    let mut seq = fresh();
    assert_eq!(walk(&bytes, &mut seq).len(), 1);
    for _ in 0..3 {
        assert_eq!(seq.step(ArchiveEvent::End), None);
        assert_eq!(seq.step(ArchiveEvent::Entry("b-1/desc".into(), b"%NAME%\nb\n".to_vec())), None);
        assert_eq!(seq.step(ArchiveEvent::OpenFailed), None);
        assert_eq!(seq.stage(), Stage::Exhausted);
    }
}

#[test]
fn record_errors_do_not_stop_the_walk() {
    let bytes = archive_of(&[
        ("bad-1/desc", &[0xff, 0xfe, 0x00]),
        ("odd-1/desc", b"%WHATEVER%\nx\n"),
        ("big-1/desc", b"%CSIZE%\nlots\n"),
        ("ok-1/desc", b"%NAME%\nok\n"),
    ]);
    let mut seq = fresh();
    assert_eq!(
        walk(&bytes, &mut seq),
        vec![
            Err(Error::PackageUtf8Conversion("bad-1".into())),
            Err(Error::PackagePropertyMissing("WHATEVER".into())),
            Err(Error::PackageParseSize),
            Ok(Package { name: "ok".into(), ..Default::default() }),
        ]
    );
}

#[test]
fn open_failure_is_the_only_item() {
    let db = Database::default().with_dir("/nowhere");
    let mut seq = db.packages().unwrap();
    assert_eq!(seq.stage(), Stage::Unopened);
    assert_eq!(
        seq.step(ArchiveEvent::OpenFailed),
        Some(Err(Error::DatabaseLoad("/nowhere/sync/.db".to_string())))
    );
    assert_eq!(seq.step(ArchiveEvent::Opened), None);
    assert_eq!(seq.stage(), Stage::Exhausted);
}

#[test]
fn walk_failure_ends_the_sequence() {
    let mut seq = fresh();
    assert_eq!(seq.step(ArchiveEvent::Opened), None);
    assert_eq!(seq.step(ArchiveEvent::WalkFailed), Some(Err(Error::DatabaseIteration(String::new()))));
    assert_eq!(seq.stage(), Stage::Exhausted);
}

#[test]
fn only_desc_entries_are_wanted() {
    let mut seq = fresh();
    assert!(!seq.wants("a-1/desc"));
    seq.step(ArchiveEvent::Opened);
    assert!(seq.wants("a-1/desc"));
    assert!(!seq.wants("a-1/files"));
    assert!(!seq.wants("a-1/description"));
    assert!(!seq.wants("desc"));
    assert_eq!(seq.step(ArchiveEvent::Entry("a-1/files".into(), b"%NAME%\na\n".to_vec())), None);
}

#[test]
fn load_resolves_lowercased_name() {
    let db = Database::load("Community", |_: &str| true).unwrap();
    assert_eq!(db.name(), "community");
    assert_eq!(db.dir(), "/var/lib/pacman");
    assert_eq!(db.path(), "/var/lib/pacman/sync/community.db");
    let seq = db.packages().unwrap();
    assert_eq!(seq.path(), "/var/lib/pacman/sync/community.db");
}

#[test]
fn load_reports_missing_database() {
    let mut asked = String::new();
    let seen = std::cell::RefCell::new(&mut asked);
    let r = Database::load("Core", |p: &str| {
        seen.borrow_mut().push_str(p);
        false
    });
    assert_eq!(r.err(), Some(Error::DatabaseNotFound("core".to_string())));
    assert_eq!(asked, "/var/lib/pacman/sync/core.db");
}

#[test]
fn with_dir_resolves_path_again() {
    let db = Database::load("extra", |_: &str| true).unwrap().with_dir("/srv/mirror/");
    assert_eq!(db.path(), "/srv/mirror/sync/extra.db");
    assert_eq!(db.dir(), "/srv/mirror/");
    let db = Database::default().with_dir("");
    assert_eq!(db.path(), "sync/.db");
}
