use telegram_korean_search::commands::{
    api_credentials_from, api_id_text, configured_api_id, get_api_credentials, get_db_stats,
    is_authenticated, mark_authenticated, clear_authenticated, password_hint, save_api_credentials,
    sign_in_response, CommandError, SignInResult,
};
use telegram_korean_search::store::Store;

#[test]
fn credentials_need_both_values() {
    assert!(matches!(api_credentials_from(None, Some("h".to_string())), Ok(None)));
    assert!(matches!(api_credentials_from(Some("1".to_string()), None), Ok(None)));
    assert!(matches!(api_credentials_from(Some("x1".to_string()), Some("h".to_string())), Err(CommandError::InvalidApiId)));
    let c = api_credentials_from(Some("-12".to_string()), Some("hash".to_string())).unwrap().unwrap();
    assert_eq!(c.api_id, -12);
    assert_eq!(c.api_hash, "hash");
}

#[test]
fn credentials_round_trip_through_store() {
    let store = Store::open_in_memory().unwrap();
    assert!(get_api_credentials(&store).unwrap().is_none());
    save_api_credentials(&store, 123456, "abcdef").unwrap();
    let c = get_api_credentials(&store).unwrap().unwrap();
    assert_eq!(c.api_id, 123456);
    assert_eq!(c.api_hash, "abcdef");
    assert_eq!(api_id_text(-2147483648), "-2147483648");
}

#[test]
fn api_id_errors() {
    assert!(matches!(configured_api_id(None), Err(CommandError::NotConfigured)));
    assert!(matches!(configured_api_id(Some("99999999999".to_string())), Err(CommandError::InvalidApiId)));
    assert!(matches!(configured_api_id(Some("42".to_string())), Ok(42)));
}

#[test]
fn authenticated_flag_in_store() {
    let store = Store::open_in_memory().unwrap();
    assert!(!is_authenticated(&store).unwrap());
    mark_authenticated(&store).unwrap();
    assert!(is_authenticated(&store).unwrap());
    clear_authenticated(&store).unwrap();
    assert!(!is_authenticated(&store).unwrap());
}

#[test]
fn sign_in_answers() {
    let ok = sign_in_response(&SignInResult::Success);
    assert!(ok.success && !ok.requires_2fa && ok.hint.is_none());
    let tfa = sign_in_response(&SignInResult::TwoFactorRequired { hint: "pet".to_string() });
    assert!(!tfa.success && tfa.requires_2fa);
    assert_eq!(tfa.hint, Some("pet".to_string()));
    assert_eq!(password_hint(None), "none");
    assert_eq!(password_hint(Some("cat")), "cat");
}

#[test]
fn stats_count_rows() {
    let store = Store::open_in_memory().unwrap();
    let s = get_db_stats(&store).unwrap();
    assert_eq!(s.chats, 0);
    assert_eq!(s.messages, 0);
}
