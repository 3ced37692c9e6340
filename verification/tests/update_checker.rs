use llm_proxy_manager::update_checker::{
    brew_upgrade_outcome, brew_upgrade_unsupported, check_for_updates, compare_versions,
    default_check_interval, homebrew_caskroom_paths, is_homebrew_installed, parse_version,
    select_brew_path, BrewRun, UpdateSettings,
};

#[test]
fn test_compare_versions() {
    assert!(compare_versions("3.3.36", "3.3.35"));
    assert!(compare_versions("3.4.0", "3.3.35"));
    assert!(compare_versions("4.0.3", "3.3.35"));
    assert!(!compare_versions("3.3.34", "3.3.35"));
    assert!(!compare_versions("3.3.35", "3.3.35"));
}

#[test]
fn versions_compare_numerically() {
    assert!(compare_versions("3.10.0", "3.9.9"));
    assert!(!compare_versions("3.9.9", "3.10.0"));
}

#[test]
fn missing_components_count_as_zero() {
    assert!(!compare_versions("3.3", "3.3.0"));
    assert!(!compare_versions("3.3.0", "3.3"));
    assert!(compare_versions("3.3.1", "3.3"));
    assert!(!compare_versions("", ""));
}

#[test]
fn unparsable_components_are_dropped() {
    assert_eq!(parse_version("3.x.5"), vec![3, 5]);
    assert_eq!(parse_version("+1.02..7"), vec![1, 2, 7]);
    assert_eq!(parse_version("1.-2.4294967296.4294967295"), vec![1, 4294967295]);
    assert_eq!(parse_version(""), Vec::<u32>::new());
    assert_eq!(parse_version("v1.2"), vec![2]);
    assert!(compare_versions("3.x.5", "3.4"));
}

#[test]
fn newer_is_a_strict_order_on_examples() {
    let vs = ["1", "1.0.1", "1.2", "2", "2.0.0.1", "10"];
    for a in vs {
        assert!(!compare_versions(a, a));
        for b in vs {
            if compare_versions(a, b) {
                assert!(!compare_versions(b, a));
                for c in vs {
                    if compare_versions(b, c) {
                        assert!(compare_versions(a, c));
                    }
                }
            }
        }
    }
}

#[test]
fn check_for_updates_returns_no_update_without_network() {
    let current = "1.4.2";
    let info = check_for_updates(current)
        .expect("disabled updater should return a normal no-update response");

    assert!(!info.has_update);
    assert_eq!(info.current_version, current);
    assert_eq!(info.latest_version, current);
    assert!(info.download_url.is_empty());
    let legacy_manifest = ["updater", ".json"].concat();
    assert_ne!(info.source.as_deref(), Some(legacy_manifest.as_str()));
    assert_eq!(info.source.as_deref(), Some("disabled"));
    assert!(!info.release_notes.contains("github.com/"));
    assert_eq!(info.release_notes, "自动更新检查已禁用。");
}

#[test]
fn default_settings() {
    let s = UpdateSettings::default();
    assert!(!s.auto_check);
    assert_eq!(s.last_check_time, 0);
    assert_eq!(s.check_interval_hours, 24);
    assert_eq!(default_check_interval(), 24);
}

#[test]
fn homebrew_detection() {
    assert_eq!(
        homebrew_caskroom_paths(),
        vec![
            "/opt/homebrew/Caskroom/llm-proxy-manager",
            "/usr/local/Caskroom/llm-proxy-manager"
        ]
    );
    assert!(!is_homebrew_installed(false, &vec![true, true]));
    assert!(is_homebrew_installed(true, &vec![false, true]));
    assert!(!is_homebrew_installed(true, &vec![false, false]));
}

#[test]
fn brew_decisions() {
    assert_eq!(brew_upgrade_unsupported(), Err("brew_not_supported".to_string()));
    assert_eq!(select_brew_path(true, true), Ok("/opt/homebrew/bin/brew"));
    assert_eq!(select_brew_path(false, true), Ok("/usr/local/bin/brew"));
    assert_eq!(select_brew_path(false, false), Err("brew_not_found".to_string()));
    assert_eq!(
        brew_upgrade_outcome(BrewRun::ExecFailed),
        Err("brew_exec_failed".to_string())
    );
    assert_eq!(brew_upgrade_outcome(BrewRun::TimedOut), Err("brew_timeout".to_string()));
    assert_eq!(
        brew_upgrade_outcome(BrewRun::Finished {
            success: true,
            stdout: "upgraded".into(),
            stderr: "".into()
        }),
        Ok("upgraded".to_string())
    );
    assert_eq!(
        brew_upgrade_outcome(BrewRun::Finished {
            success: false,
            stdout: "".into(),
            stderr: "Warning: llm-proxy-manager 1.0 already installed".into()
        }),
        Err("brew_already_latest".to_string())
    );
    assert_eq!(
        brew_upgrade_outcome(BrewRun::Finished {
            success: false,
            stdout: "x".into(),
            stderr: "y".into()
        }),
        Err("brew_upgrade_failed".to_string())
    );
}

#[test]
fn brew_output_is_decoded_lossily() {
    assert_eq!(
        brew_upgrade_outcome(BrewRun::Finished {
            success: true,
            stdout: vec![b'o', b'k', 0xff],
            stderr: vec![]
        }),
        Ok("ok\u{FFFD}".to_string())
    );
    assert_eq!(
        brew_upgrade_outcome(BrewRun::Finished {
            success: false,
            stdout: b"already installed \xfe".to_vec(),
            stderr: vec![]
        }),
        Err("brew_already_latest".to_string())
    );
}
