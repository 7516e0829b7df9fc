use bourso_core::account::{AccountKind, extract_account_ids, filter_accounts, find_account};
use bourso_core::error::{ClientError, ExtractError};
use bourso_core::extract::{extract_challenge_token, extract_data_matrix_keys};

#[test]
fn challenge_token_is_captured() {
    let page = r#"<form><input name="challengeToken" value="tok-123" /></form>"#;
    assert_eq!(extract_challenge_token(page).unwrap(), "tok-123".to_string());
}

#[test]
fn missing_challenge_token_is_not_found() {
    let page = "<form></form>";
    assert_eq!(extract_challenge_token(page).unwrap_err(), ExtractError::NotFound);
}

#[test]
fn matrix_keys_attribute_decodes_as_json_strings() {
    // An empty array is the one string-array payload that fits inside a
    // double-quoted attribute capture.
    let page = r#"<div data-matrix-keys="[]"></div>"#;
    assert_eq!(extract_data_matrix_keys(page).unwrap(), Vec::<String>::new());
}

#[test]
fn missing_matrix_keys_attribute_is_not_found() {
    let page = "<div></div>";
    assert_eq!(extract_data_matrix_keys(page).unwrap_err(), ExtractError::NotFound);
}

#[test]
fn non_string_array_matrix_keys_are_malformed() {
    let page = r#"<div data-matrix-keys="[1,2,3]"></div>"#;
    assert_eq!(extract_data_matrix_keys(page).unwrap_err(), ExtractError::MalformedPayload);
}

#[test]
fn truncated_matrix_keys_are_malformed() {
    let page = r#"<div data-matrix-keys="[">"#;
    assert_eq!(extract_data_matrix_keys(page).unwrap_err(), ExtractError::MalformedPayload);
}

fn overview() -> String {
    [
        r#"<a href="/compte-bancaire/boursorama-banque/gerer/s-1a2b">bank</a>"#,
        r#"<a href="/epargne/assurance-vie/contrat-boursorama-vie/gerer/s-3c4d">sav</a>"#,
        r#"<a href="/compte-titres/pea/gerer/s-5e6f">pea</a>"#,
        r#"<a href="/credit/immobilier/gerer/s-7g8h">loan</a>"#,
    ]
    .concat()
}

#[test]
fn one_anchor_per_kind_yields_one_account_per_kind() {
    let accounts = extract_account_ids(&overview()).unwrap();
    assert_eq!(accounts.len(), 4);
    assert_eq!(accounts[0].id, "1a2b".to_string());
    assert_eq!(accounts[0].kind, AccountKind::Banking);
    assert_eq!(accounts[1].id, "3c4d".to_string());
    assert_eq!(accounts[1].kind, AccountKind::Savings);
    assert_eq!(accounts[2].id, "5e6f".to_string());
    assert_eq!(accounts[2].kind, AccountKind::Trading);
    assert_eq!(accounts[3].id, "7g8h".to_string());
    assert_eq!(accounts[3].kind, AccountKind::Loans);
    for i in 0..accounts.len() {
        for j in 0..i {
            assert_ne!(accounts[i].id, accounts[j].id);
        }
    }
}

#[test]
fn unmatched_paths_fall_back_to_unknown() {
    let page = r#"<a href="/some/other/path/s-99zz">misc</a>"#;
    let accounts = extract_account_ids(page).unwrap();
    assert_eq!(accounts.len(), 1);
    assert_eq!(accounts[0].id, "99zz".to_string());
    assert_eq!(accounts[0].kind, AccountKind::Unknown);
}

#[test]
fn duplicate_ids_are_reported_once() {
    let page = [
        r#"<a href="/compte-titres/pea/gerer/s-dup1">a</a>"#,
        r#"<a href="/compte-titres/pea/gerer/s-dup1">b</a>"#,
    ]
    .concat();
    let accounts = extract_account_ids(&page).unwrap();
    assert_eq!(accounts.len(), 1);
    assert_eq!(accounts[0].id, "dup1".to_string());
}

#[test]
fn anchors_without_account_ids_are_no_discovery() {
    let page = r#"<a href="/aide/contact">help</a>"#;
    assert_eq!(extract_account_ids(page).unwrap_err(), ExtractError::NotFound);
}

#[test]
fn uppercase_ids_do_not_match() {
    let page = r#"<a href="/compte-titres/pea/gerer/s-ABC">x</a>"#;
    assert_eq!(extract_account_ids(page).unwrap_err(), ExtractError::NotFound);
}

#[test]
fn filter_keeps_only_the_requested_kind() {
    let accounts = extract_account_ids(&overview()).unwrap();
    let trading = filter_accounts(accounts, Some(AccountKind::Trading));
    assert_eq!(trading.len(), 1);
    assert_eq!(trading[0].id, "5e6f".to_string());
}

#[test]
fn filter_without_kind_keeps_everything() {
    let accounts = extract_account_ids(&overview()).unwrap();
    let all = filter_accounts(accounts, None);
    assert_eq!(all.len(), 4);
}

#[test]
fn find_account_reports_absence_as_typed_error() {
    let accounts = extract_account_ids(&overview()).unwrap();
    assert_eq!(find_account(&accounts, "5e6f").unwrap(), 2);
    assert_eq!(find_account(&accounts, "nope").unwrap_err(), ClientError::AccountNotFound);
}
