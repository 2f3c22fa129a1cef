use package_iter::error::Error;
use package_iter::package::Package;
use package_iter::parser::{Token, Tokenizer};

fn all_tokens(data: &str) -> Vec<Token> {
    let mut t = Tokenizer::from(data);
    let mut out = Vec::new();
    while let Some(tok) = t.next() {
        out.push(tok);
    }
    out
}

fn token(name: &str, values: &[&str]) -> Token {
    Token {
        name: name.to_string(),
        values: values.iter().map(|v| v.to_string()).collect(),
    }
}

#[test]
fn test_parse_multiple() {
    assert_eq!(
        Package::try_from("%NAME%\nsupertux\n\n%FILENAME%\nsupertux-0.6.2-3-x86_64.pkg.tar.zst\n")
            .unwrap(),
        Package {
            name: "supertux".to_owned(),
            filename: "supertux-0.6.2-3-x86_64.pkg.tar.zst".to_owned(),
            ..Default::default()
        }
    );
}

#[test]
fn test_parse_single() {
    assert_eq!(
        Package::try_from("%FILENAME%\nsupertux-0.6.2-3-x86_64.pkg.tar.zst\n").unwrap(),
        Package { filename: "supertux-0.6.2-3-x86_64.pkg.tar.zst".to_owned(), ..Default::default() }
    );
    assert_eq!(
        Package::try_from("%NAME%\nsupertux\n").unwrap(),
        Package { name: "supertux".to_string(), ..Default::default() }
    );
    assert_eq!(
        Package::try_from("%BASE%\nsupertux\n").unwrap(),
        Package { base: "supertux".to_string(), ..Default::default() }
    );
    assert_eq!(
        Package::try_from("%VERSION%\n0.6.2-3\n").unwrap(),
        Package { version: "0.6.2-3".to_string(), ..Default::default() }
    );
    assert_eq!(
        Package::try_from("%DESC%\nA classic 2D jump'n'run sidescroller\n").unwrap(),
        Package { desc: "A classic 2D jump'n'run sidescroller".to_string(), ..Default::default() }
    );
    assert_eq!(
        Package::try_from("%CSIZE%\n157518488\n").unwrap(),
        Package { size: 157518488u64, ..Default::default() }
    );
    assert_eq!(
        Package::try_from("%ISIZE%\n229551408\n").unwrap(),
        Package { isize: 229551408u64, ..Default::default() }
    );
    assert_eq!(
        Package::try_from("%MD5SUM%\nbc9013783217dff3081d4daa4c222c32\n").unwrap(),
        Package { md5sum: "bc9013783217dff3081d4daa4c222c32".to_string(), ..Default::default() }
    );
    assert_eq!(
        Package::try_from("%SHA256SUM%\nc1d14f744...05a866f40d7967a57db\n").unwrap(),
        Package { sha256sum: "c1d14f744...05a866f40d7967a57db".to_string(), ..Default::default() }
    );
    assert_eq!(
        Package::try_from("%PGPSIG%\niQIzBAABC/rcNxzD9nZZrjEDXSBjbo=\n").unwrap(),
        Package { pgpsig: "iQIzBAABC/rcNxzD9nZZrjEDXSBjbo=".to_string(), ..Default::default() }
    );
    assert_eq!(
        Package::try_from("%URL%\nhttps://github.com/supertux/supertux\n").unwrap(),
        Package { url: "https://github.com/supertux/supertux".to_string(), ..Default::default() }
    );
    assert_eq!(
        Package::try_from("%LICENSE%\nGPL\n").unwrap(),
        Package { licenses: vec!["GPL".to_string()], ..Default::default() }
    );
    assert_eq!(
        Package::try_from("%ARCH%\nx86_64\n").unwrap(),
        Package { arch: "x86_64".to_string(), ..Default::default() }
    );
    assert_eq!(
        Package::try_from("%BUILDDATE%\n1607789295\n").unwrap(),
        Package { build_date: "1607789295".to_string(), ..Default::default() }
    );
    assert_eq!(
        Package::try_from("%PACKAGER%\nFelix Yan <felixonmars@archlinux.org>\n").unwrap(),
        Package { packager: "Felix Yan <felixonmars@archlinux.org>".to_string(), ..Default::default() }
    );
    assert_eq!(
        Package::try_from("%DEPENDS%\ncurl\nopenal\nlibvorbis\n\n").unwrap(),
        Package {
            depends: vec!["curl".to_string(), "openal".to_string(), "libvorbis".to_string()],
            ..Default::default()
        }
    );
    assert_eq!(
        Package::try_from("%MAKEDEPENDS%\ncmake\nboost\n\n").unwrap(),
        Package { make_depends: vec!["cmake".to_string(), "boost".to_string(),], ..Default::default() }
    );
}

#[test]
fn test_multiple_tokens() {
    let mut t = Tokenizer::from("%name1%\nval1\n\n%name2%\nval2\n\n");
    assert_eq!(t.next(), Some(token("name1", &["val1"])));
    assert_eq!(t.next(), Some(token("name2", &["val2"])));
    assert_eq!(t.next(), None);
}

#[test]
fn test_single_token() {
    assert_eq!(all_tokens("%foo%\nfoo\n"), vec![token("foo", &["foo"])]);
    assert_eq!(all_tokens("foo%\nfoo\n"), vec![]);
    assert_eq!(
        all_tokens("%FILENAME%\nsupertux-0.6.2-3-x86_64.pkg.tar.zst\n"),
        vec![token("FILENAME", &["supertux-0.6.2-3-x86_64.pkg.tar.zst"])]
    );
}

#[test]
fn tokenizer_stops_for_good() {
    let mut t = Tokenizer::from("%a%\nx\n\nnot a header\n%b%\ny\n");
    assert_eq!(t.next(), Some(token("a", &["x"])));
    assert_eq!(t.next(), None);
    assert_eq!(t.next(), None);
}

#[test]
fn tokenizer_edge_cases() {
    assert_eq!(all_tokens(""), vec![]);
    assert_eq!(all_tokens("\n \n\t\n"), vec![]);
    assert_eq!(all_tokens("%a%\r\nx\r\ny\r\n"), vec![token("a", &["x", "y"])]);
    assert_eq!(all_tokens("\n\n%a%\nx\n\n\n"), vec![token("a", &["x"])]);
    // a header needs letters or digits only, and at least one
    assert_eq!(all_tokens("%a_b%\nx\n"), vec![]);
    assert_eq!(all_tokens("%%\nx\n"), vec![]);
    // a header with no value, or a value with no line feed, makes no token
    assert_eq!(all_tokens("%a%\n"), vec![]);
    assert_eq!(all_tokens("%a%\nx"), vec![]);
    // a blank line closes the values
    assert_eq!(all_tokens("%a%\nx\n\n%b%\ny\nz\n"), vec![token("a", &["x"]), token("b", &["y", "z"])]);
}

#[test]
fn keys_ignore_case() {
    assert_eq!(
        Package::try_from("%name%\nfoo\n\n%Version%\n1.0\n").unwrap(),
        Package { name: "foo".to_string(), version: "1.0".to_string(), ..Default::default() }
    );
}

#[test]
fn list_values_keep_order_and_repeated_key_replaces() {
    let p = Package::try_from("%PROVIDES%\nb\na\nc\n\n%CHECKDEPENDS%\nx\n\n%PROVIDES%\nz\n").unwrap();
    assert_eq!(p.provides, vec!["z".to_string()]);
    assert_eq!(p.check_depends, vec!["x".to_string()]);
    let p = Package::try_from("%OPTIONALDEPENDS%\nb\na\nc\n").unwrap();
    assert_eq!(p.optional_depends, vec!["b".to_string(), "a".to_string(), "c".to_string()]);
}

#[test]
fn sizes_accept_unsigned_integers_only() {
    assert_eq!(Package::try_from("%CSIZE%\n0\n").unwrap().size, 0);
    assert_eq!(Package::try_from("%CSIZE%\n+7\n").unwrap().size, 7);
    assert_eq!(Package::try_from("%ISIZE%\n18446744073709551615\n").unwrap().isize, u64::MAX);
    for bad in ["abc", "-1", "18446744073709551616", "1.5", "+", "1 2", "12a"] {
        let text = format!("%ISIZE%\n{}\n", bad);
        assert_eq!(Package::try_from(&text), Err(Error::PackageParseSize), "{}", bad);
    }
}

#[test]
fn unknown_key_aborts_with_its_name() {
    assert_eq!(
        Package::try_from("%NAME%\nfoo\n\n%Frobnicate%\nx\n\n%VERSION%\n1\n"),
        Err(Error::PackagePropertyMissing("Frobnicate".to_string()))
    );
    assert_eq!(
        Package::try_from("%FOO%\nx\n"),
        Err(Error::PackagePropertyMissing("FOO".to_string()))
    );
}

#[test]
fn record_without_blocks_is_empty() {
    assert_eq!(Package::try_from("").unwrap(), Package::default());
    assert_eq!(Package::try_from("garbage\n%NAME%\nfoo\n").unwrap(), Package::default());
}
