use package_iter::error::Error;

#[test]
fn error_messages() {
    assert_eq!(
        Error::DatabaseIteration("/x.db".into()).message(),
        "failed to construct database iterator: /x.db"
    );
    assert_eq!(Error::DatabaseLoad("/x.db".into()).message(), "failed to load database: /x.db");
    assert_eq!(Error::DatabaseNotFound("core".into()).message(), "failed to find database: core");
    assert_eq!(Error::PackageNotFound("zsh".into()).message(), "failed to find package: zsh");
    assert_eq!(Error::PackageParseSize.message(), "package parse failure while parsing integers");
    assert_eq!(Error::PackagePropertyMissing("FOO".into()).message(), "package property missing: FOO");
    assert_eq!(
        Error::PackageUtf8Conversion("a-1".into()).message(),
        "package utf8 conversion failed after extraction: a-1"
    );
}
