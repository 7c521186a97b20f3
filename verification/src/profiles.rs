//! Account-profile bookkeeping: the secure-storage entry per profile,
//! name normalization and uniqueness, and the managed home directory
//! layout.  Only the secure-storage calls themselves are trusted.
use crate::chars::ascii_lowercase;
use crate::chars::contains_str;
use crate::chars::spec_contains;
use crate::chars::spec_lower;
use crate::chars::spec_trim;
use crate::chars::str_concat;
use crate::chars::str_eq_ignore_ascii_case;
use crate::chars::trim_str;
use crate::scan::last_idx_of;
use crate::scan::lemma_last_idx_of;
use crate::scan::rfind_char;
use vstd::prelude::*;
use vstd::string::StrSliceExecFns;
use vstd::string::StringExecFns;

verus! {

#[verifier::external_type_specification]
#[verifier::external_body]
pub struct ExKeyringEntry(keyring::Entry);

/// Relies on `keyring::Entry::new`: a handle on the platform credential
/// store for the service/user pair, or the store's error as text.
#[verifier::external_body]
fn keyring_entry_new(service: &str, account: &str) -> (r: Result<keyring::Entry, String>) {
    keyring::Entry::new(service, account).map_err(|err| err.to_string())
}

/// Relies on `keyring::Entry::set_password`: stores the secret under
/// the entry, or reports the store's error as text.
#[verifier::external_body]
fn keyring_set_password(entry: &keyring::Entry, password: &str) -> (r: Result<(), String>) {
    entry.set_password(password).map_err(|err| err.to_string())
}

/// Relies on `keyring::Entry::get_password`: the stored secret, or the
/// store's error as text.
#[verifier::external_body]
fn keyring_get_password(entry: &keyring::Entry) -> (r: Result<String, String>) {
    entry.get_password().map_err(|err| err.to_string())
}

/// Relies on `keyring::Entry::delete_credential`: removes the entry;
/// the caller treats deletion as best-effort.
#[verifier::external_body]
fn keyring_delete_credential(entry: &keyring::Entry) -> (r: Result<(), String>) {
    entry.delete_credential().map_err(|err| err.to_string())
}

/// The credential-store account under which one profile's secret lives.
pub fn profile_secret_account(profile_id: &str) -> (r: String)
    ensures
        r@ == "account-profile/"@ + profile_id@,
{
    str_concat("account-profile/", profile_id)
}

/// The credential-store entry of one profile: the fixed service name
/// `codex-monitor`, and the account `profile_secret_account` builds.
fn keyring_entry(profile_id: &str) -> (r: Result<keyring::Entry, String>) {
    let account = profile_secret_account(profile_id);
    keyring_entry_new("codex-monitor", account.as_str())
}

/// Stores the profile's home directory in the credential store.
pub fn write_profile_secret(profile_id: &str, codex_home: &str) -> (r: Result<(), String>) {
    let entry = match keyring_entry(profile_id) {
        Ok(e) => e,
        Err(e) => {
            return Err(e);
        },
    };
    keyring_set_password(&entry, codex_home)
}

/// The home-directory decision over whatever the store returned: the
/// secret is trimmed, and a blank secret is rejected with the fixed
/// message.
pub fn secret_to_home(secret: &str) -> (r: Result<String, String>)
    ensures
        (r is Ok) <==> spec_trim(secret@).len() > 0,
        r matches Result::Ok(v) ==> v@ == spec_trim(secret@),
        r matches Result::Err(m) ==> m@ == "Profile storage is empty."@,
{
    let trimmed = trim_str(secret);
    if trimmed.as_str().unicode_len() == 0 {
        return Err(String::from_str("Profile storage is empty."));
    }
    Ok(trimmed)
}

/// Reads the profile's home directory back from the store.  Every
/// decision about the returned secret is `secret_to_home`; the store's
/// own errors pass through as text.
pub fn read_profile_secret(profile_id: &str) -> (r: Result<String, String>)
    ensures
        r matches Result::Ok(v) ==> v@.len() > 0 && v@ == spec_trim(v@),
{
    let entry = match keyring_entry(profile_id) {
        Ok(e) => e,
        Err(e) => {
            return Err(e);
        },
    };
    let secret = match keyring_get_password(&entry) {
        Ok(s) => s,
        Err(e) => {
            return Err(e);
        },
    };
    proof {
        crate::chars::lemma_trim_idempotent(secret@);
    }
    secret_to_home(secret.as_str())
}

/// Removes the profile's entry from the credential store, ignoring any
/// failure: a missing entry is as good as a deleted one.
pub fn delete_profile_secret(profile_id: &str) {
    if let Ok(entry) = keyring_entry(profile_id) {
        let _ = keyring_delete_credential(&entry);
    }
}

/// The store's message means the entry does not exist, in any of the
/// phrasings the platform stores use.
pub open spec fn spec_is_missing_secure_entry(message: Seq<char>) -> bool {
    spec_contains(spec_lower(message), "no matching entry found in secure storage"@)
        || spec_contains(spec_lower(message), "no entry found"@) || spec_contains(
        spec_lower(message),
        "item not found"@,
    )
}

pub fn is_missing_secure_entry_error(message: &str) -> (r: bool)
    ensures
        r == spec_is_missing_secure_entry(message@),
{
    let normalized = ascii_lowercase(message);
    contains_str(normalized.as_str(), "no matching entry found in secure storage") || contains_str(
        normalized.as_str(),
        "no entry found",
    ) || contains_str(normalized.as_str(), "item not found")
}

/// The trimmed profile name, when it is not blank.
pub fn normalize_profile_name(name: &str) -> (r: Option<String>)
    ensures
        (r is Some) == (spec_trim(name@).len() > 0),
        r is Some ==> r->Some_0@ == spec_trim(name@),
{
    let trimmed = trim_str(name);
    if trimmed.as_str().unicode_len() == 0 {
        None
    } else {
        Some(trimmed)
    }
}

/// What one profile carries in the settings snapshot.
#[derive(Clone, Debug, PartialEq, Eq)]
pub struct AccountProfileMeta {
    pub id: String,
    pub name: String,
    pub source: String,
    pub last_used_at_ms: Option<i64>,
    pub created_at_ms: i64,
}

/// Another profile (an id other than `skip_id`) already uses this name,
/// compared without regard to ASCII case.
pub open spec fn spec_profile_name_taken(
    profiles: Seq<AccountProfileMeta>,
    candidate: Seq<char>,
    skip_id: Option<Seq<char>>,
) -> bool {
    exists|i: int|
        0 <= i < profiles.len() && (match skip_id {
            Option::Some(sid) => (#[trigger] profiles[i]).id@ != sid,
            Option::None => true,
        }) && spec_lower(profiles[i].name@) == spec_lower(candidate)
}

pub open spec fn opt_view(o: Option<&str>) -> Option<Seq<char>> {
    match o {
        Option::Some(s) => Some(s@),
        Option::None => None,
    }
}

/// Accepts a candidate profile name only when no other profile already
/// carries it, ASCII case ignored; a profile may keep its own name.
pub fn ensure_unique_profile_name(
    profiles: &Vec<AccountProfileMeta>,
    candidate: &str,
    skip_id: Option<&str>,
) -> (r: Result<(), String>)
    ensures
        (r is Err) == spec_profile_name_taken(profiles@, candidate@, opt_view(skip_id)),
        r matches Result::Err(m) ==> m@ == "An account profile named \""@ + candidate@
            + "\" already exists."@,
{
    let n: usize = profiles.len();
    let mut i: usize = 0;
    while i < n
        invariant
            0 <= i <= n,
            n == profiles@.len(),
            forall|j: int|
                0 <= j < i ==> !((match skip_id {
                    Option::Some(s) => (#[trigger] profiles@[j]).id@ != s@,
                    Option::None => true,
                }) && spec_lower(profiles@[j].name@) == spec_lower(candidate@)),
        decreases n - i,
    {
        let skipped = match skip_id {
            Some(sid) => crate::chars::str_eq(profiles[i].id.as_str(), sid),
            None => false,
        };
        if !skipped && str_eq_ignore_ascii_case(profiles[i].name.as_str(), candidate) {
            let head = str_concat("An account profile named \"", candidate);
            let msg = str_concat(head.as_str(), "\" already exists.");
            return Err(msg);
        }
        i = i + 1;
    }
    Ok(())
}

/// The directory a login profile's home lives in: beside the settings
/// file, under `accounts/<profile>/codex-home`.  A settings path with
/// no containing directory at all has no such place.
pub open spec fn spec_managed_codex_home(
    settings_path: Seq<char>,
    profile_id: Seq<char>,
) -> Option<Seq<char>> {
    if settings_path.len() == 0 || settings_path == "/"@ {
        None
    } else {
        let j = last_idx_of(settings_path, '/');
        let dir = if 0 <= j < settings_path.len() {
            settings_path.subrange(0, j + 1)
        } else {
            Seq::<char>::empty()
        };
        Some(dir + "accounts/"@ + profile_id + "/codex-home"@)
    }
}

pub fn managed_codex_home_path(settings_path: &str, profile_id: &str) -> (r: Result<String, String>)
    ensures
        (r is Ok) == (spec_managed_codex_home(settings_path@, profile_id@) is Some),
        r matches Result::Ok(v) ==> Some(v@) == spec_managed_codex_home(
            settings_path@,
            profile_id@,
        ),
        r matches Result::Err(m) ==> m@ == "Unable to resolve app data directory."@,
{
    let len: usize = settings_path.unicode_len();
    if len == 0 || crate::chars::str_eq(settings_path, "/") {
        proof {
            if len != 0 {
                assert(settings_path@ == "/"@);
            }
        }
        return Err(String::from_str("Unable to resolve app data directory."));
    }
    proof {
        lemma_last_idx_of(settings_path@, '/');
    }
    let dir = match rfind_char(settings_path, '/') {
        Some(j) => settings_path.substring_char(0, j + 1),
        None => settings_path.substring_char(0, 0),
    };
    proof {
        assert(settings_path@.subrange(0, 0) =~= Seq::<char>::empty());
    }
    let a = str_concat(dir, "accounts/");
    let b = str_concat(a.as_str(), profile_id);
    let out = str_concat(b.as_str(), "/codex-home");
    Ok(out)
}

} // verus!
