use aur_tester::aur::{aur_git_url, aur_info_url, git_url_from_results, plan_build, AurPackageDetails};
use aur_tester::supervisor::{Action, Event, Supervisor};

#[test]
fn rpc_and_git_urls() {
    assert_eq!(aur_info_url(&"yay".to_string()), "https://aur.archlinux.org/rpc/?v=5&type=info&arg=yay");
    assert_eq!(aur_git_url(&"paru".to_string()), "https://aur.archlinux.org/paru.git");
}

#[test]
fn git_url_comes_from_first_result() {
    let results = vec![
        AurPackageDetails { name: "yay-bin".to_string(), url_path: "/cgit/aur.git/snapshot/yay-bin.tar.gz".to_string() },
        AurPackageDetails { name: "other".to_string(), url_path: String::new() },
    ];
    assert_eq!(git_url_from_results(&"yay".to_string(), &results), Ok("https://aur.archlinux.org/yay-bin.git".to_string()));
}

#[test]
fn missing_package_is_reported() {
    assert_eq!(git_url_from_results(&"nope".to_string(), &vec![]), Err("Package nope not found".to_string()));
}

#[test]
fn build_plan_paths() {
    let p = plan_build(&"yay".to_string()).unwrap();
    assert_eq!(p.host_dir, "/tmp/aur_build_yay");
    assert_eq!(p.host_pkgbuild, "/tmp/aur_build_yay/PKGBUILD");
    assert_eq!(p.container_clone_url, "https://aur.archlinux.org/yay.git");
    assert_eq!(p.container_dir, "/home/builder/yay");
    assert!(plan_build(&String::new()).is_none());
}

#[test]
fn first_signal_stops_build_and_report_collects_domains() {
    let mut s = Supervisor::new();
    assert!(s.listening());
    assert_eq!(s.handle(Event::Signal { domain: "dyna.wikimedia.org".to_string() }), Action::StopBuild);
    assert_eq!(s.handle(Event::Signal { domain: "UNKNOWN DOMAIN".to_string() }), Action::Wait);
    assert_eq!(s.handle(Event::Signal { domain: "dyna.wikimedia.org".to_string() }), Action::Wait);
    assert_eq!(s.handle(Event::SignalsClosed), Action::Wait);
    assert!(!s.listening());
    assert_eq!(s.handle(Event::BuildFinished { succeeded: false }), Action::Finish);
    assert_eq!(
        s.suspicious_domains(),
        vec!["dyna.wikimedia.org".to_string(), "UNKNOWN DOMAIN".to_string()]
    );
}

#[test]
fn clean_build_finishes_with_empty_report() {
    let mut s = Supervisor::new();
    assert_eq!(s.handle(Event::BuildFinished { succeeded: true }), Action::Finish);
    assert!(s.suspicious_domains().is_empty());
    assert_eq!(s.handle(Event::Signal { domain: "late.example".to_string() }), Action::Wait);
    assert!(s.suspicious_domains().is_empty());
}
