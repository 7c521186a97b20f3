use daemonctl::profiles::ensure_unique_profile_name;
use daemonctl::profiles::is_missing_secure_entry_error;
use daemonctl::profiles::managed_codex_home_path;
use daemonctl::profiles::normalize_profile_name;
use daemonctl::profiles::profile_secret_account;
use daemonctl::profiles::secret_to_home;
use daemonctl::profiles::AccountProfileMeta;
use daemonctl::time::now_ms;

fn profile(id: &str, name: &str) -> AccountProfileMeta {
    AccountProfileMeta {
        id: id.to_string(),
        name: name.to_string(),
        source: "login".to_string(),
        last_used_at_ms: None,
        created_at_ms: 1,
    }
}

#[test]
fn normalize_profile_name_trims_and_rejects_empty() {
    assert_eq!(normalize_profile_name("  Work  "), Some("Work".to_string()));
    assert_eq!(normalize_profile_name(" "), None);
    assert_eq!(normalize_profile_name(""), None);
}

#[test]
fn ensure_unique_profile_name_detects_case_insensitive_duplicates() {
    let profiles = vec![profile("p1", "Work"), profile("p2", "Personal")];
    let error = ensure_unique_profile_name(&profiles, "work", None).expect_err("duplicate");
    assert!(error.contains("already exists"));
}

#[test]
fn ensure_unique_profile_name_allows_same_profile_rename() {
    let profiles = vec![profile("p1", "Work"), profile("p2", "Personal")];
    let result = ensure_unique_profile_name(&profiles, "Work", Some("p1"));
    assert!(result.is_ok());
}

#[test]
fn now_ms_is_non_negative() {
    assert!(now_ms() >= 0);
}

#[test]
fn missing_secure_entry_phrasings_are_recognized() {
    assert!(is_missing_secure_entry_error("No matching entry found in secure storage"));
    assert!(is_missing_secure_entry_error("NO ENTRY FOUND"));
    assert!(is_missing_secure_entry_error("keychain said: Item Not Found."));
    assert!(!is_missing_secure_entry_error("permission denied"));
}

#[test]
fn managed_home_sits_beside_the_settings_file() {
    assert_eq!(
        managed_codex_home_path("/data/settings.json", "p1").as_deref(),
        Ok("/data/accounts/p1/codex-home")
    );
    assert_eq!(
        managed_codex_home_path("settings.json", "p1").as_deref(),
        Ok("accounts/p1/codex-home")
    );
    assert!(managed_codex_home_path("", "p1").is_err());
    assert!(managed_codex_home_path("/", "p1").is_err());
}

#[test]
fn secret_account_and_home_decision() {
    assert_eq!(profile_secret_account("p1"), "account-profile/p1");
    assert_eq!(secret_to_home(" /home/x/codex ").expect("non-blank"), "/home/x/codex");
    assert_eq!(secret_to_home("   ").expect_err("blank"), "Profile storage is empty.");
}
