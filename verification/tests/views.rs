use brewlog::account::{self, PasskeyView, TokenView};
use brewlog::admin;
use brewlog::api::LoginQuery;

#[test]
fn ai_usage_hidden_until_first_call() {
    assert!(account::AiUsageView::from_summary(0, 10, "$0.00".to_string()).is_none());
    assert!(admin::AiUsageView::from_summary(-1, 10, "$0.00".to_string()).is_none());
}

#[test]
fn ai_usage_formats_tokens() {
    let view = account::AiUsageView::from_summary(3, 1234567, "$0.0123".to_string()).unwrap();
    assert_eq!(view.total_calls, 3);
    assert_eq!(view.total_tokens, "1,234,567");
    assert_eq!(view.total_cost, "$0.0123");
    let view = admin::AiUsageView::from_summary(1, 999, "$1.50".to_string()).unwrap();
    assert_eq!(view.calls, 1);
    assert_eq!(view.tokens, "999");
    assert_eq!(view.cost, "$1.50");
}

#[test]
fn passkey_and_token_dates() {
    let passkey = PasskeyView::from_record(5, "laptop".to_string(), 1_700_000_000, None);
    assert_eq!(passkey.id, 5);
    assert_eq!(passkey.name, "laptop");
    assert_eq!(passkey.created_at, "2023-11-14");
    assert_eq!(passkey.last_used_at, None);
    let token = TokenView::from_record(8, "cli".to_string(), 0, Some(86_400));
    assert_eq!(token.created_at, "1970-01-01");
    assert_eq!(token.last_used_at, Some("1970-01-02".to_string()));
}

#[test]
fn login_redirects_signed_in_visitors_without_cli_callback() {
    let plain = LoginQuery { cli_callback: None };
    assert!(plain.redirects_home(true));
    assert!(!plain.redirects_home(false));
    let cli = LoginQuery {
        cli_callback: Some("http://127.0.0.1:9/cb".to_string()),
    };
    assert!(!cli.redirects_home(true));
}
