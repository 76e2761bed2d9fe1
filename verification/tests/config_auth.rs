//! Configuration updates, the tool catalogue, saved credentials, and the
//! login and token-validation decisions.

use pdfdk_core::auth::clear_credentials;
use pdfdk_core::auth::clear_token;
use pdfdk_core::auth::load_credentials;
use pdfdk_core::auth::load_token;
use pdfdk_core::auth::login_outcome;
use pdfdk_core::auth::save_credentials;
use pdfdk_core::auth::save_token;
use pdfdk_core::auth::validation_outcome;
use pdfdk_core::auth::ApiUser;
use pdfdk_core::auth::ApiUserFull;
use pdfdk_core::auth::AuthError;
use pdfdk_core::auth::AuthState;
use pdfdk_core::auth::LoginData;
use pdfdk_core::auth::LoginResponse;
use pdfdk_core::auth::UserResponse;
use pdfdk_core::config::get_available_tools;
use pdfdk_core::config::AppConfig;
use pdfdk_core::config::ConfigError;
use pdfdk_core::config::OutputMode;

#[test]
fn the_catalogue_lists_nine_tools_by_identifier() {
    let tools = get_available_tools();
    let ids: Vec<&str> = tools.iter().map(|t| t.id.as_str()).collect();
    assert_eq!(
        ids,
        vec![
            "compress",
            "outline",
            "pdf-to-word",
            "pdf-to-excel",
            "pdf-to-jpg",
            "rotate",
            "unlock",
            "ocr",
            "bleed"
        ]
    );
    for t in &tools {
        assert_eq!(t.id, t.api_endpoint);
        assert!(!t.name.is_empty());
    }
}

#[test]
fn enabling_an_unknown_tool_is_rejected() {
    let mut cfg = AppConfig::default();
    match cfg.enable_tool("shrink-ray", "/w") {
        Err(ConfigError::ToolNotFound(id)) => assert_eq!(id, "shrink-ray"),
        other => panic!("unexpected: {:?}", other),
    }
    assert!(cfg.tools.is_empty());
}

#[test]
fn enabling_a_tool_appends_then_updates() {
    let mut cfg = AppConfig::default();
    cfg.enable_tool("compress", "/w").expect("known tool");
    assert_eq!(cfg.tools.len(), 1);
    assert_eq!(cfg.tools[0].id, "compress");
    assert!(cfg.tools[0].enabled);
    assert_eq!(cfg.tools[0].folder_path, Some("/w".to_string()));
    assert!(matches!(cfg.tools[0].output_mode, OutputMode::Subfolder));

    // Enabling again with a new folder updates in place.
    cfg.enable_tool("compress", "/elsewhere").expect("known tool");
    assert_eq!(cfg.tools.len(), 1);
    assert_eq!(cfg.tools[0].folder_path, Some("/elsewhere".to_string()));
}

#[test]
fn disabling_flips_the_flag_and_tolerates_unknowns() {
    let mut cfg = AppConfig::default();
    cfg.enable_tool("compress", "/w").expect("known tool");
    cfg.enable_tool("ocr", "/o").expect("known tool");
    cfg.disable_tool("compress");
    assert!(!cfg.tools[0].enabled);
    assert!(cfg.tools[1].enabled);
    cfg.disable_tool("never-enabled");
    assert_eq!(cfg.tools.len(), 2);

    let enabled = cfg.get_enabled_tools();
    assert_eq!(enabled.len(), 1);
    assert_eq!(enabled[0].id, "ocr");
}

#[test]
fn updating_tool_options_replaces_the_map() {
    let mut cfg = AppConfig::default();
    cfg.enable_tool("compress", "/w").expect("known tool");
    cfg.update_tool_options(
        "compress",
        vec![pdfdk_core::config::ToolOption {
            key: "level".to_string(),
            value: "high".to_string(),
        }],
    )
        .expect("configured tool");
    assert_eq!(cfg.tools[0].options.len(), 1);
    assert_eq!(cfg.tools[0].options[0].key, "level");
    assert_eq!(cfg.tools[0].options[0].value, "high");
    match cfg.update_tool_options("ocr", Vec::new()) {
        Err(ConfigError::ToolNotFound(id)) => assert_eq!(id, "ocr"),
        other => panic!("unexpected: {:?}", other),
    }
}

#[test]
fn default_configuration_matches_a_fresh_installation() {
    let cfg = AppConfig::default();
    assert_eq!(cfg.version, 1);
    assert!(cfg.general.start_on_login);
    assert!(cfg.general.start_minimized);
    assert!(cfg.general.show_notifications);
    assert_eq!(cfg.general.language, "da");
    assert!(cfg.tools.is_empty());
    assert!(cfg.auth.is_none());
}

#[test]
fn token_round_trip_and_clearing() {
    let mut cfg = AppConfig::default();
    match load_token(&cfg) {
        Err(AuthError::Keyring(m)) => assert_eq!(m, "No saved token"),
        other => panic!("unexpected: {:?}", other),
    }
    save_token(&mut cfg, "tok-123");
    assert_eq!(load_token(&cfg), Ok("tok-123".to_string()));
    clear_token(&mut cfg);
    assert!(load_token(&cfg).is_err());
}

#[test]
fn credentials_round_trip_and_clearing_keep_the_token() {
    let mut cfg = AppConfig::default();
    match load_credentials(&cfg) {
        Err(AuthError::Keyring(m)) => assert_eq!(m, "No saved credentials"),
        other => panic!("unexpected: {:?}", other),
    }
    save_token(&mut cfg, "tok-9");
    match load_credentials(&cfg) {
        Err(AuthError::Keyring(m)) => assert_eq!(m, "No saved email"),
        other => panic!("unexpected: {:?}", other),
    }
    save_credentials(&mut cfg, "a@b.dk", "SECRET-REDACTED");
    assert_eq!(load_credentials(&cfg), Ok(("a@b.dk".to_string(), "SECRET-REDACTED".to_string())));
    // The token survives both saving and clearing credentials.
    assert_eq!(load_token(&cfg), Ok("tok-9".to_string()));
    clear_credentials(&mut cfg);
    assert!(load_credentials(&cfg).is_err());
    assert_eq!(load_token(&cfg), Ok("tok-9".to_string()));
}

fn login_response(success: bool, with_data: bool) -> Option<LoginResponse> {
    Some(LoginResponse {
        success,
        data: if with_data {
            Some(LoginData {
                user: ApiUser {
                    id: 7,
                    email: "a@b.dk".to_string(),
                    name: Some("A".to_string()),
                    is_superadmin: true,
                    role: Some("admin".to_string()),
                },
                token: "tok-1".to_string(),
            })
        } else {
            None
        },
        message: None,
    })
}

#[test]
fn login_success_builds_the_signed_in_state() {
    let state = login_outcome(200, login_response(true, true), "{}").expect("login");
    assert!(state.is_authenticated);
    assert!(state.is_pro);
    assert_eq!(state.token, Some("tok-1".to_string()));
    let user = state.user.expect("a user");
    assert_eq!(user.id, 7);
    assert_eq!(user.email, "a@b.dk");
    assert!(user.is_superadmin);
    assert!(!user.admin_granted_subscription);
    assert_eq!(state.plan, None);
    assert_eq!(state.jobs_limit, None);
}

#[test]
fn login_rejections_mean_invalid_credentials() {
    assert_eq!(login_outcome(401, None, ""), Err(AuthError::InvalidCredentials));
    assert_eq!(login_outcome(200, login_response(false, false), ""), Err(
        AuthError::InvalidCredentials
    ));
    assert_eq!(login_outcome(200, login_response(true, false), ""), Err(
        AuthError::InvalidCredentials
    ));
}

#[test]
fn login_server_failures_carry_status_and_body() {
    assert_eq!(
        login_outcome(500, None, "down"),
        Err(AuthError::ServerError("Server returned 500: down".to_string()))
    );
    assert_eq!(
        login_outcome(200, None, "x"),
        Err(AuthError::ServerError("Failed to parse response".to_string()))
    );
}

fn user_response(success: bool, granted: bool) -> Option<UserResponse> {
    Some(UserResponse {
        success,
        data: if success {
            Some(ApiUserFull {
                id: 9,
                email: "c@d.dk".to_string(),
                name: None,
                is_superadmin: false,
                admin_granted_subscription: granted,
                role: None,
            })
        } else {
            None
        },
        message: None,
    })
}

#[test]
fn validation_success_reads_pro_from_the_granted_subscription() {
    let state = validation_outcome(200, user_response(true, true), "tok-2").expect("valid");
    assert!(state.is_authenticated);
    assert!(state.is_pro);
    assert_eq!(state.token, Some("tok-2".to_string()));
    let user = state.user.expect("a user");
    assert_eq!(user.id, 9);
    assert!(user.admin_granted_subscription);

    let modest = validation_outcome(200, user_response(true, false), "t").expect("valid");
    assert!(!modest.is_pro);
}

#[test]
fn validation_rejections_mean_an_expired_token() {
    assert_eq!(validation_outcome(401, None, "t"), Err(AuthError::TokenExpired));
    assert_eq!(validation_outcome(200, user_response(false, false), "t"), Err(
        AuthError::TokenExpired
    ));
}

#[test]
fn validation_server_failure_reports_the_status_alone() {
    assert_eq!(
        validation_outcome(503, None, "t"),
        Err(AuthError::ServerError("Server returned 503".to_string()))
    );
}

#[test]
fn auth_error_messages_render_exactly() {
    assert_eq!(AuthError::InvalidCredentials.message(), "Invalid credentials");
    assert_eq!(AuthError::TokenExpired.message(), "Token expired");
    assert_eq!(AuthError::ProRequired.message(), "PRO subscription required");
    assert_eq!(AuthError::Keyring("k".to_string()).message(), "Keyring error: k");
    assert_eq!(AuthError::ServerError("s".to_string()).message(), "Server error: s");
    assert_eq!(AuthError::Network("n".to_string()).message(), "Network error: n");
}

#[test]
fn the_default_auth_state_is_signed_out() {
    let state = AuthState::default();
    assert!(!state.is_authenticated);
    assert!(!state.is_pro);
    assert!(state.user.is_none());
    assert!(state.token.is_none());
}
