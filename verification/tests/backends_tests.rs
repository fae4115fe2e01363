use cpac::backends::aur::{accept_pkgbuild, pkgbuild_url, rpc_url, AurPackage};
use cpac::backends::install::{
    install_args, pacman_invocation, remove_args, select_backend, uid_output_is_root,
};
use cpac::backends::pacman::{
    parse_info_output, parse_installed_output, parse_pacman_field, parse_repo_list_output,
    parse_search_output,
};
use cpac::backends::{classify_repo, is_official_arch_repo, InstallBackend, PackageSource};

fn chars(s: &str) -> Vec<char> {
    s.chars().collect()
}

fn text(v: &[char]) -> String {
    v.iter().collect()
}

#[test]
fn official_repositories_are_recognized() {
    for repo in [
        "core", "extra", "multilib", "testing", "core-testing", "extra-testing",
        "multilib-testing", "community", "community-testing",
    ] {
        assert!(is_official_arch_repo(repo));
    }
    assert!(!is_official_arch_repo("Core"));
    assert!(!is_official_arch_repo("chaotic-aur"));
    match classify_repo("extra") {
        PackageSource::Official { repo } => assert_eq!(repo, "extra"),
        _ => panic!("extra is official"),
    }
}

#[test]
fn backends_and_their_sources() {
    assert_eq!(InstallBackend::Pacman.cmd(), "pacman");
    assert_eq!(InstallBackend::Paru.cmd(), "paru");
    assert_eq!(InstallBackend::Yay.cmd(), "yay");
    assert!(!InstallBackend::Pacman.can_install(&PackageSource::Aur));
    assert!(InstallBackend::Yay.can_install(&PackageSource::Aur));
    assert!(InstallBackend::Pacman.can_install(&PackageSource::ThirdParty));
    assert!(!InstallBackend::Paru.can_install(&PackageSource::Unknown));
    assert_eq!(InstallBackend::from_helper_probes(true, true), Some(InstallBackend::Paru));
    assert_eq!(InstallBackend::from_helper_probes(false, true), Some(InstallBackend::Yay));
    assert_eq!(InstallBackend::from_helper_probes(false, false), None);
    let official = PackageSource::Official { repo: "core".to_string() };
    assert_eq!(select_backend(&official, None), Some(InstallBackend::Pacman));
    assert_eq!(select_backend(&PackageSource::Aur, Some(InstallBackend::Yay)), Some(InstallBackend::Yay));
    assert_eq!(select_backend(&PackageSource::Aur, None), None);
    assert_eq!(select_backend(&PackageSource::Unknown, Some(InstallBackend::Paru)), None);
}

#[test]
fn command_lines() {
    assert_eq!(install_args("vim"), vec!["-S", "--noconfirm", "vim"]);
    assert_eq!(remove_args("vim", true), vec!["-Rs", "--noconfirm", "vim"]);
    assert_eq!(remove_args("vim", false), vec!["-R", "--noconfirm", "vim"]);
    assert!(uid_output_is_root("0\n"));
    assert!(!uid_output_is_root("1000\n"));
    let (prog, pre) = pacman_invocation(true);
    assert_eq!(prog, "pacman");
    assert!(pre.is_empty());
    let (prog, pre) = pacman_invocation(false);
    assert_eq!(prog, "sudo");
    assert_eq!(pre, vec!["pacman".to_string()]);
}

#[test]
fn pacman_fields_split_at_the_first_colon() {
    let (k, v) = parse_pacman_field(&chars("URL             : https://a.example:8080/x")).unwrap();
    assert_eq!(text(&k), "URL");
    assert_eq!(text(&v), "https://a.example:8080/x");
    assert!(parse_pacman_field(&chars("no colon here")).is_none());
    assert!(parse_pacman_field(&chars("   : value")).is_none());
}

#[test]
fn search_output_is_parsed() {
    let out = "core/bash 5.2.026-2 [installed]\n    The GNU Bourne Again shell\nextra/bash-completion 2.14.0-2\n    Programmable completion for the bash shell\nnot a header\n";
    let pkgs = parse_search_output(out);
    assert_eq!(pkgs.len(), 2);
    assert_eq!(pkgs[0].name, "bash");
    assert_eq!(pkgs[0].version, "5.2.026-2");
    assert_eq!(pkgs[0].description, "The GNU Bourne Again shell");
    match &pkgs[1].source {
        PackageSource::Official { repo } => assert_eq!(repo, "extra"),
        _ => panic!("expected official"),
    }
    assert!(pkgs[1].maintainer.is_none());
}

#[test]
fn search_output_header_at_the_end_has_no_description() {
    let pkgs = parse_search_output("core/zsh 5.9-5");
    assert_eq!(pkgs.len(), 1);
    assert_eq!(pkgs[0].description, "");
    assert!(parse_search_output("").is_empty());
}

#[test]
fn info_output_is_parsed() {
    let out = "Repository      : extra\nName            : git\nVersion         : 2.45.2-1\nDescription     : the fast distributed version control system\nURL             : https://git-scm.com/\nLicenses        : GPL-2.0-only\nDepends On      : curl  expat  perl>=5.0 openssl\nPackager        : Christian Hesse <eworm@archlinux.org>\nInstalled Size  : 25.00 MiB\n";
    let p = parse_info_output(out).unwrap();
    assert_eq!(p.name, "git");
    assert_eq!(p.version, "2.45.2-1");
    assert_eq!(p.url.as_deref(), Some("https://git-scm.com/"));
    assert_eq!(p.licenses, vec!["GPL-2.0-only".to_string()]);
    assert_eq!(p.depends, vec!["curl", "expat", "perl>=5.0", "openssl"]);
    assert_eq!(p.maintainer.as_deref(), Some("Christian Hesse <eworm@archlinux.org>"));
    assert_eq!(p.install_size.as_deref(), Some("25.00 MiB"));
    match &p.source {
        PackageSource::Official { repo } => assert_eq!(repo, "extra"),
        _ => panic!("expected official"),
    }
}

#[test]
fn info_output_drops_version_constraints_and_none() {
    let out = "Name : a\nDepends On : >=1.0 b =2 c\n";
    let p = parse_info_output(out).unwrap();
    assert_eq!(p.depends, vec!["b", "c"]);
    let out = "Name : a\nDepends On : None\n";
    assert!(parse_info_output(out).unwrap().depends.is_empty());
    assert!(parse_info_output("Version : 1\n").is_none());
}

#[test]
fn installed_and_repository_lists() {
    let pkgs = parse_installed_output("bash 5.2-1\nvim 9.1-2\n\n");
    assert_eq!(pkgs.len(), 2);
    assert_eq!(pkgs[1].name, "vim");
    assert_eq!(pkgs[1].version, "9.1-2");
    assert!(matches!(pkgs[0].source, PackageSource::Unknown));
    let repos = parse_repo_list_output("core bash 5.2-1 [installed]\nextra vim 9.1-2\n");
    assert_eq!(
        repos,
        vec![("core".to_string(), "bash".to_string()), ("extra".to_string(), "vim".to_string())]
    );
}

#[test]
fn aur_records_become_packages() {
    let rec = AurPackage {
        name: "paru".to_string(),
        version: "2.0.3-1".to_string(),
        description: None,
        maintainer: None,
        num_votes: Some(1500),
        popularity_bits: Some(12.5f64.to_bits()),
        first_submitted: Some(1_600_000_000),
        last_modified: Some(1_700_000_000),
        out_of_date: Some(1_700_000_100),
        url: Some("https://github.com/Morganamilo/paru".to_string()),
        license: None,
        depends: Some(vec!["git".to_string()]),
    };
    let p = rec.into_package_info();
    assert_eq!(p.name, "paru");
    assert_eq!(p.description, "");
    assert!(matches!(p.source, PackageSource::Aur));
    assert!(p.orphan);
    assert!(p.out_of_date);
    assert_eq!(p.votes, Some(1500));
    assert_eq!(p.popularity_bits.map(f64::from_bits), Some(12.5));
    assert_eq!(p.first_submitted, Some(1_600_000_000));
    assert!(p.licenses.is_empty());
    assert_eq!(p.depends, vec!["git".to_string()]);
}

#[test]
fn out_of_range_aur_dates_are_dropped() {
    let rec = AurPackage {
        name: "x".to_string(),
        version: "1".to_string(),
        description: Some("d".to_string()),
        maintainer: Some("m".to_string()),
        num_votes: None,
        popularity_bits: None,
        first_submitted: Some(i64::MAX),
        last_modified: None,
        out_of_date: None,
        url: None,
        license: Some(vec!["MIT".to_string()]),
        depends: None,
    };
    let p = rec.into_package_info();
    assert_eq!(p.first_submitted, None);
    assert!(!p.orphan);
    assert!(!p.out_of_date);
    assert_eq!(p.description, "d");
}

#[test]
fn pkgbuild_fetching() {
    assert_eq!(rpc_url(), "https://aur.archlinux.org/rpc/");
    assert_eq!(pkgbuild_url("yay"), "https://aur.archlinux.org/cgit/aur.git/plain/PKGBUILD?h=yay");
    assert_eq!(accept_pkgbuild("pkgname=yay\n".to_string()), Some("pkgname=yay\n".to_string()));
    assert_eq!(accept_pkgbuild("  \n".to_string()), None);
    assert_eq!(accept_pkgbuild("Error 404 not found".to_string()), None);
}

#[test]
fn info_and_search_classify_the_repository() {
    let p = parse_info_output("Name : yay\nVersion : 12.3.5-1\nRepository : endeavouros").unwrap();
    assert_eq!(p.name, "yay");
    assert_eq!(p.version, "12.3.5-1");
    assert!(matches!(p.source, PackageSource::ThirdParty));
    let pkgs = parse_search_output("chaotic-aur/paru 2.0-1\n    AUR helper\ncore/bash 5.2-1\n    shell");
    assert!(matches!(pkgs[0].source, PackageSource::ThirdParty));
    match &pkgs[1].source {
        PackageSource::Official { repo } => assert_eq!(repo, "core"),
        _ => panic!("expected official"),
    }
}

#[test]
fn timestamps_beyond_chronos_years_are_dropped() {
    let rec = |t: i64| AurPackage {
        name: "x".to_string(),
        version: "1".to_string(),
        description: None,
        maintainer: None,
        num_votes: None,
        popularity_bits: None,
        first_submitted: Some(t),
        last_modified: None,
        out_of_date: None,
        url: None,
        license: None,
        depends: None,
    };
    use_bounds(&rec);
}

fn use_bounds(rec: &dyn Fn(i64) -> AurPackage) {
    let min = cpac::backends::aur::MIN_UTC_SECS;
    let max = cpac::backends::aur::MAX_UTC_SECS;
    assert_eq!(rec(min).into_package_info().first_submitted, Some(min));
    assert_eq!(rec(min - 1).into_package_info().first_submitted, None);
    assert_eq!(rec(max).into_package_info().first_submitted, Some(max));
    assert_eq!(rec(max + 1).into_package_info().first_submitted, None);
    assert_eq!(rec(0).into_package_info().first_submitted, Some(0));
}
