use aur_tester::domains::DomainSet;
use aur_tester::pkgbuild::{allowed_domains_from_captures, default_allowed_domains, extract_allowed_domains};

const DEFAULTS: [&str; 8] = [
    "aur.archlinux.org",
    "archlinux.org",
    "github.com",
    "codeload.github.com",
    "raw.githubusercontent.com",
    "gitlab.com",
    "bitbucket.org",
    "codeberg.org",
];

#[test]
fn domain_set_insert_and_contains() {
    let mut s = DomainSet::new();
    assert_eq!(s.len(), 0);
    assert!(s.insert("a.org".to_string()));
    assert!(s.insert("b.org".to_string()));
    assert!(!s.insert("a.org".to_string()));
    assert_eq!(s.len(), 2);
    assert!(s.contains(&"a.org".to_string()));
    assert!(!s.contains(&"c.org".to_string()));
    assert_eq!(s.to_vec(), vec!["a.org".to_string(), "b.org".to_string()]);
}

#[test]
fn defaults_are_the_package_hosts() {
    let d = default_allowed_domains();
    assert_eq!(d.len(), 8);
    let v = d.to_vec();
    for (got, want) in v.iter().zip(DEFAULTS.iter()) {
        assert_eq!(got, want);
    }
}

#[test]
fn pkgbuild_urls_extend_the_defaults() {
    let pkgbuild = r#"
pkgname=yay
pkgver=13.0.1
source=("${pkgname}-${pkgver}.tar.gz::https://github.com/Jguer/yay/archive/v${pkgver}.tar.gz")
url="http://example.com:8080/page"
build() {
    curl -s https://www.wikipedia.org > /dev/null && curl http://mirror.test/a https://files.test/b
}
"#;
    let lines: Vec<String> = pkgbuild.lines().map(|l| l.to_string()).collect();
    let d = extract_allowed_domains(&lines).unwrap();
    for want in DEFAULTS.iter() {
        assert!(d.contains(&want.to_string()));
    }
    for want in ["example.com", "www.wikipedia.org", "mirror.test", "files.test"] {
        assert!(d.contains(&want.to_string()), "{} missing", want);
    }
    assert!(!d.contains(&"example.com:8080".to_string()));
    assert_eq!(d.len(), 12);
}

#[test]
fn lines_without_urls_give_the_defaults() {
    let lines = vec!["pkgname=foo".to_string(), "ftp://not.http/x".to_string(), "https://".to_string()];
    let d = extract_allowed_domains(&lines).unwrap();
    assert_eq!(d.len(), 8);
    let empty: Vec<String> = Vec::new();
    assert_eq!(extract_allowed_domains(&empty).unwrap().len(), 8);
}

#[test]
fn captures_are_added_once() {
    let captures = vec![
        vec![Some("x.org".to_string()), None, Some("github.com".to_string())],
        vec![],
        vec![Some("x.org".to_string()), Some("y.org".to_string())],
    ];
    let d = allowed_domains_from_captures(&captures);
    assert_eq!(d.len(), 10);
    assert!(d.contains(&"x.org".to_string()));
    assert!(d.contains(&"y.org".to_string()));
}
