use cpac::cli::{
    agrees_to_contribute, check_legacy_commands, confirms, contribution_hint, shows_details,
    LegacyCommand,
};
use cpac::display::{
    official_repo_label, points_text, recommendation_style, result_limit, score_text,
    score_tier_color, summarize_list, truncate, RecommendationStyle, ScoreColor,
};
use cpac::install::{
    contribution_includes_text, contribution_prompt_default, fallback_hash_input,
    queues_without_pkgbuild, submission_content,
};
use cpac::config::ConsentLevel;

fn args(v: &[&str]) -> Vec<String> {
    v.iter().map(|s| s.to_string()).collect()
}

#[test]
fn score_colors() {
    assert_eq!(score_tier_color(100), ScoreColor::Green);
    assert_eq!(score_tier_color(70), ScoreColor::Green);
    assert_eq!(score_tier_color(69), ScoreColor::Yellow);
    assert_eq!(score_tier_color(40), ScoreColor::Yellow);
    assert_eq!(score_tier_color(39), ScoreColor::Red);
    assert_eq!(score_tier_color(101), ScoreColor::Red);
}

#[test]
fn truncation() {
    assert_eq!(truncate("short", 14), "short");
    assert_eq!(truncate("exactly-14-chr", 14), "exactly-14-chr");
    assert_eq!(truncate("a description that is long", 14), "a description...");
    assert_eq!(truncate("héllo wörld", 5), "héllo...");
}

#[test]
fn list_summaries() {
    let v: Vec<String> = (1..=10).map(|i| format!("dep{}", i)).collect();
    assert_eq!(
        summarize_list(&v, 8),
        "dep1, dep2, dep3, dep4, dep5, dep6, dep7, dep8, ... 2 more"
    );
    assert_eq!(summarize_list(&v[..2].to_vec(), 8), "dep1, dep2");
    assert_eq!(summarize_list(&vec![], 8), "");
}

#[test]
fn labels_and_texts() {
    assert_eq!(official_repo_label("endeavouros"), "EndeavourOS");
    assert_eq!(official_repo_label("cachyos-v3"), "CachyOS");
    assert_eq!(official_repo_label("core"), "core");
    assert_eq!(points_text(12, 15), "+12/15");
    assert_eq!(points_text(0, 0), "+0/0");
    assert_eq!(points_text(-10, 15), "-10");
    assert_eq!(score_text(42), "42/100");
    assert_eq!(result_limit(false, 40), 25);
    assert_eq!(result_limit(false, 3), 3);
    assert_eq!(result_limit(true, 40), 40);
    assert_eq!(recommendation_style("Safe"), RecommendationStyle::Good);
    assert_eq!(recommendation_style("Moderate"), RecommendationStyle::Good);
    assert_eq!(recommendation_style("Caution"), RecommendationStyle::Caution);
    assert_eq!(recommendation_style("Danger"), RecommendationStyle::Bad);
}

#[test]
fn legacy_commands() {
    assert_eq!(check_legacy_commands(&args(&["cpac", "aur", "enable"])), Some(LegacyCommand::AurEnable));
    assert_eq!(check_legacy_commands(&args(&["cpac", "aur", "disable"])), Some(LegacyCommand::AurDisable));
    assert_eq!(check_legacy_commands(&args(&["cpac", "aur", "list"])), Some(LegacyCommand::AurRemoved));
    assert_eq!(check_legacy_commands(&args(&["cpac", "update", "--self"])), Some(LegacyCommand::Renamed));
    assert_eq!(check_legacy_commands(&args(&["cpac", "self-update", "now"])), Some(LegacyCommand::Renamed));
    assert_eq!(check_legacy_commands(&args(&["cpac", "upgrade", "now"])), None);
    assert_eq!(check_legacy_commands(&args(&["cpac", "aur"])), None);
    assert_eq!(check_legacy_commands(&args(&["cpac", "search", "vim"])), None);
}

#[test]
fn prompt_answers() {
    assert!(!confirms(None));
    assert!(confirms(Some("\n")));
    assert!(confirms(Some("Y\n")));
    assert!(confirms(Some("  yEs ")));
    assert!(!confirms(Some("no")));
    assert!(!confirms(Some("yep")));
    assert!(agrees_to_contribute(None, true));
    assert!(!agrees_to_contribute(None, false));
    assert!(!agrees_to_contribute(Some(""), false));
    assert!(agrees_to_contribute(Some("yes"), false));
    assert!(!agrees_to_contribute(Some("n"), true));
    assert!(shows_details(""));
    assert!(shows_details("Y"));
    assert!(!shows_details("No"));
    assert!(!shows_details("maybe"));
    assert_eq!(contribution_hint(true), "Y/n");
    assert_eq!(contribution_hint(false), "y/N");
}

#[test]
fn consent_decisions() {
    assert_eq!(submission_content(ConsentLevel::NoSubmission), None);
    assert_eq!(submission_content(ConsentLevel::Hash), Some(false));
    assert_eq!(submission_content(ConsentLevel::Full), Some(true));
    assert!(!queues_without_pkgbuild(ConsentLevel::NoSubmission));
    assert!(queues_without_pkgbuild(ConsentLevel::Hash));
    assert_eq!(contribution_prompt_default(ConsentLevel::Full), None);
    assert_eq!(contribution_prompt_default(ConsentLevel::Hash), Some(true));
    assert_eq!(contribution_prompt_default(ConsentLevel::NoSubmission), Some(true));
    assert!(contribution_includes_text(ConsentLevel::Hash));
    assert!(!contribution_includes_text(ConsentLevel::NoSubmission));
    assert_eq!(fallback_hash_input("vim", "9.1-1"), "vim-9.1-1");
}

#[test]
fn legacy_messages() {
    let text = |cmd, sub: &str| -> String {
        cpac::cli::legacy_message(cmd, sub).iter().map(|s| s.text.clone()).collect()
    };
    assert_eq!(
        text(LegacyCommand::AurEnable, "aur"),
        "The 'aur' subcommand has been moved.\n  Use: cpac config set aur on instead."
    );
    assert_eq!(
        text(LegacyCommand::Renamed, "self-update"),
        "The 'self-update' command has been renamed.\n  Use: cpac upgrade instead."
    );
    assert!(text(LegacyCommand::AurRemoved, "aur").ends_with("Run cpac --help for all commands."));
    let styled = cpac::cli::legacy_message(LegacyCommand::AurDisable, "aur");
    assert_eq!(styled[1].style, cpac::display::Style::Label);
    assert_eq!(styled[1].text, "cpac config set aur off");
}
