use identity_core::auth::{
    admin_context, interpret_validation, require_api_key, user_context_from_validation,
    AuthRejection, TransportFailure, UserInfo,
};
use identity_core::store::{Role, SubscriptionStatus};
use identity_core::strutil::str_eq;
use identity_core::tickets::TicketState;

fn some_user(role: Role) -> UserInfo {
    UserInfo {
        id: 7,
        email: "person@example.com".to_string(),
        role,
        subscription_status: SubscriptionStatus::Active,
    }
}

#[test]
fn missing_header_is_unauthorized_before_any_remote_call() {
    let r = require_api_key(None);
    assert!(matches!(r, Err(AuthRejection::MissingApiKey)));
    assert_eq!(AuthRejection::MissingApiKey.status_code(), 401);
    assert_eq!(
        AuthRejection::MissingApiKey.message(),
        "Missing X-API-Key header"
    );

    let ok = require_api_key(Some("sk_something".to_string()));
    assert_eq!(ok.unwrap(), "sk_something");
}

#[test]
fn negative_verdict_yields_no_identity() {
    assert!(interpret_validation(false, Some(some_user(Role::Admin))).is_none());
    assert!(interpret_validation(true, None).is_none());
    let u = interpret_validation(true, Some(some_user(Role::Support))).unwrap();
    assert_eq!(u.id, 7);
    assert_eq!(u.role, Role::Support);
}

#[test]
fn transport_failure_stays_distinct_from_a_rejection() {
    let unavailable = user_context_from_validation(Err(TransportFailure));
    let rejection = unavailable.unwrap_err();
    assert_eq!(rejection, AuthRejection::ServiceUnavailable);
    assert_eq!(rejection.status_code(), 503);
    assert_eq!(rejection.message(), "Identity service unavailable");

    let invalid = user_context_from_validation(Ok(None)).unwrap_err();
    assert_eq!(invalid, AuthRejection::InvalidApiKey);
    assert_eq!(invalid.status_code(), 401);
    assert_eq!(invalid.message(), "Invalid API key");
}

#[test]
fn the_admin_tier_requires_the_admin_role() {
    let admin_ctx = user_context_from_validation(Ok(Some(some_user(Role::Admin)))).unwrap();
    assert!(admin_ctx.is_admin);
    let promoted = admin_context(admin_ctx).unwrap();
    assert_eq!(promoted.user_id, 7);
    assert_eq!(promoted.email, "person@example.com");

    let customer_ctx = user_context_from_validation(Ok(Some(some_user(Role::Customer)))).unwrap();
    assert!(!customer_ctx.is_admin);
    assert_eq!(customer_ctx.role, Role::Customer);
    let forbidden = admin_context(customer_ctx).unwrap_err();
    assert_eq!(forbidden, AuthRejection::AdminRequired);
    assert_eq!(forbidden.status_code(), 403);
    assert_eq!(forbidden.message(), "Admin access required");

    let support_ctx = user_context_from_validation(Ok(Some(some_user(Role::Support)))).unwrap();
    assert!(!support_ctx.is_admin);
    assert!(admin_context(support_ctx).is_err());
}

#[test]
fn ticket_state_names_round_trip() {
    for state in [TicketState::New, TicketState::InProgress, TicketState::Done] {
        assert_eq!(TicketState::from_str(state.as_str()), Some(state));
    }
    assert_eq!(TicketState::as_str(&TicketState::New), "new");
    assert_eq!(TicketState::as_str(&TicketState::InProgress), "in_progress");
    assert_eq!(TicketState::as_str(&TicketState::Done), "done");
    assert_eq!(TicketState::from_str("closed"), None);
    assert_eq!(TicketState::from_str(""), None);
}

#[test]
fn ticket_state_labels() {
    assert_eq!(TicketState::New.display_label(), "Neu");
    assert_eq!(TicketState::InProgress.display_label(), "In Bearbeitung");
    assert_eq!(TicketState::Done.display_label(), "Erledigt");
}

#[test]
fn string_equality_is_by_content() {
    assert!(str_eq("", ""));
    assert!(str_eq("abc", "abc"));
    assert!(!str_eq("abc", "abd"));
    assert!(!str_eq("abc", "abcd"));
    assert!(str_eq("ümläut", "ümläut"));
    assert!(!str_eq("ümläut", "umlaut"));
}
