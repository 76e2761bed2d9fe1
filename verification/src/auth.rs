//! Authentication state and the interpretation of the login and
//! token-validation answers of the remote service. The HTTP calls and the
//! configuration file live outside this crate; here are the decisions on
//! received values and the pure updates of saved credentials.

use crate::api::clone_opt_string;
use crate::config::AppConfig;
use crate::config::AuthConfig;
use vstd::prelude::*;
use vstd::string::StrSliceExecFns;
use vstd::string::StringExecFns;

verus! {

/// What can go wrong while logging in or validating a token.
#[derive(Debug, Clone, PartialEq)]
pub enum AuthError {
    /// Transport-level failure, with the transport's message.
    Network(String),
    /// The server rejected the credentials.
    InvalidCredentials,
    /// The saved token is no longer accepted.
    TokenExpired,
    /// The account lacks the required subscription.
    ProRequired,
    /// Saved-credential storage failed, with its message.
    Keyring(String),
    /// Malformed or unsuccessful server response.
    ServerError(String),
}

/// The signed-in account, as the server reports it.
#[derive(Debug, PartialEq)]
pub struct User {
    pub id: i64,
    pub email: String,
    pub name: Option<String>,
    pub is_superadmin: bool,
    pub admin_granted_subscription: bool,
    pub role: Option<String>,
}

impl Clone for User {
    fn clone(&self) -> (r: Self)
        ensures
            r == *self,
    {
        User {
            id: self.id,
            email: self.email.clone(),
            name: clone_opt_string(&self.name),
            is_superadmin: self.is_superadmin,
            admin_granted_subscription: self.admin_granted_subscription,
            role: clone_opt_string(&self.role),
        }
    }
}

/// The current authentication state, with the plan and quota numbers once
/// they are known.
#[derive(Debug, PartialEq)]
pub struct AuthState {
    pub is_authenticated: bool,
    pub is_pro: bool,
    pub user: Option<User>,
    pub token: Option<String>,
    pub plan: Option<String>,
    pub jobs_limit: Option<i32>,
    pub jobs_used: Option<i32>,
    pub jobs_remaining: Option<i32>,
    pub max_file_size_mb: Option<i32>,
    pub is_unlimited: Option<bool>,
}

impl Clone for AuthState {
    fn clone(&self) -> (r: Self)
        ensures
            r == *self,
    {
        AuthState {
            is_authenticated: self.is_authenticated,
            is_pro: self.is_pro,
            user: match &self.user {
                Some(u) => Some(u.clone()),
                None => None,
            },
            token: clone_opt_string(&self.token),
            plan: clone_opt_string(&self.plan),
            jobs_limit: self.jobs_limit,
            jobs_used: self.jobs_used,
            jobs_remaining: self.jobs_remaining,
            max_file_size_mb: self.max_file_size_mb,
            is_unlimited: self.is_unlimited,
        }
    }
}

impl Default for AuthState {
    /// The signed-out state.
    fn default() -> (r: AuthState)
        ensures
            r.is_authenticated == false,
            r.is_pro == false,
            r.user is None,
            r.token is None,
            r.plan is None,
            r.jobs_limit is None,
            r.jobs_used is None,
            r.jobs_remaining is None,
            r.max_file_size_mb is None,
            r.is_unlimited is None,
    {
        AuthState {
            is_authenticated: false,
            is_pro: false,
            user: None,
            token: None,
            plan: None,
            jobs_limit: None,
            jobs_used: None,
            jobs_remaining: None,
            max_file_size_mb: None,
            is_unlimited: None,
        }
    }
}

/// The account block of a login answer.
#[derive(Debug, PartialEq)]
pub struct ApiUser {
    pub id: i64,
    pub email: String,
    pub name: Option<String>,
    pub is_superadmin: bool,
    pub role: Option<String>,
}

/// Body of a successful login answer.
#[derive(Debug, PartialEq)]
pub struct LoginData {
    pub user: ApiUser,
    pub token: String,
}

/// Answer of the login endpoint.
#[derive(Debug, PartialEq)]
pub struct LoginResponse {
    pub success: bool,
    pub data: Option<LoginData>,
    pub message: Option<String>,
}

/// The account block of a token-validation answer, with the subscription
/// grant included.
#[derive(Debug, PartialEq)]
pub struct ApiUserFull {
    pub id: i64,
    pub email: String,
    pub name: Option<String>,
    pub is_superadmin: bool,
    pub admin_granted_subscription: bool,
    pub role: Option<String>,
}

/// Answer of the account endpoint used to validate a token.
#[derive(Debug, PartialEq)]
pub struct UserResponse {
    pub success: bool,
    pub data: Option<ApiUserFull>,
    pub message: Option<String>,
}

/// The authentication state a successful login answer yields: the account
/// and its token, with pro standing read off the superadmin flag; the plan
/// numbers are not known yet.
pub open spec fn login_success_state(data: LoginData) -> AuthState {
    AuthState {
        is_authenticated: true,
        is_pro: data.user.is_superadmin,
        user: Some(
            User {
                id: data.user.id,
                email: data.user.email,
                name: data.user.name,
                is_superadmin: data.user.is_superadmin,
                admin_granted_subscription: false,
                role: data.user.role,
            },
        ),
        token: Some(data.token),
        plan: None,
        jobs_limit: None,
        jobs_used: None,
        jobs_remaining: None,
        max_file_size_mb: None,
        is_unlimited: None,
    }
}

/// The account a token-validation answer yields.
pub open spec fn validated_user(u: ApiUserFull) -> User {
    User {
        id: u.id,
        email: u.email,
        name: u.name,
        is_superadmin: u.is_superadmin,
        admin_granted_subscription: u.admin_granted_subscription,
        role: u.role,
    }
}

/// Decide the outcome of a login call from its HTTP status and parsed body
/// (`None` when the body did not parse): 401 and every rejected or empty
/// payload mean invalid credentials; any other non-success status or an
/// unparsable body is a server error; a full payload signs the account in.
pub fn login_outcome(status: u16, parsed: Option<LoginResponse>, body: &str) -> (r: Result<
    AuthState,
    AuthError,
>)
    ensures
        status == 401 ==> r == Err::<AuthState, AuthError>(AuthError::InvalidCredentials),
        status != 401 && !crate::api::http_success(status) ==> (r matches Err(e) && e matches
            AuthError::ServerError(m) && m@ == "Server returned "@ + crate::text::dec_str(
            status as int,
        ) + ": "@ + body@),
        status != 401 && crate::api::http_success(status) && parsed is None ==> (r matches Err(e)
            && e matches AuthError::ServerError(m) && m@ == "Failed to parse response"@),
        status != 401 && crate::api::http_success(status) && (parsed matches Some(lr)
            && !lr.success) ==> r == Err::<AuthState, AuthError>(AuthError::InvalidCredentials),
        status != 401 && crate::api::http_success(status) && (parsed matches Some(lr) && lr.success
            && lr.data is None) ==> r == Err::<AuthState, AuthError>(
            AuthError::InvalidCredentials,
        ),
        status != 401 && crate::api::http_success(status) && (parsed matches Some(lr) && lr.success
            && lr.data is Some) ==> r == Ok::<AuthState, AuthError>(
            login_success_state(parsed->Some_0.data->Some_0),
        ),
{
    if status == 401 {
        return Err(AuthError::InvalidCredentials);
    }
    if !(200 <= status && status < 300) {
        let mut m = String::from_str("Server returned ");
        let digits = crate::text::u64_to_string(status as u64);
        m.append(digits.as_str());
        m.append(": ");
        m.append(body);
        return Err(AuthError::ServerError(m));
    }
    match parsed {
        None => Err(AuthError::ServerError(String::from_str("Failed to parse response"))),
        Some(lr) => {
            if !lr.success {
                return Err(AuthError::InvalidCredentials);
            }
            match lr.data {
                None => Err(AuthError::InvalidCredentials),
                Some(data) => Ok(
                    AuthState {
                        is_authenticated: true,
                        is_pro: data.user.is_superadmin,
                        user: Some(
                            User {
                                id: data.user.id,
                                email: data.user.email,
                                name: data.user.name,
                                is_superadmin: data.user.is_superadmin,
                                admin_granted_subscription: false,
                                role: data.user.role,
                            },
                        ),
                        token: Some(data.token),
                        plan: None,
                        jobs_limit: None,
                        jobs_used: None,
                        jobs_remaining: None,
                        max_file_size_mb: None,
                        is_unlimited: None,
                    },
                ),
            }
        },
    }
}

/// Decide the outcome of a token-validation call from its HTTP status, its
/// parsed body (`None` when the body did not parse), and the token that was
/// presented: 401 and every rejected or empty payload mean the token
/// expired; pro standing is the superadmin flag or the granted
/// subscription.
pub fn validation_outcome(status: u16, parsed: Option<UserResponse>, token: &str) -> (r: Result<
    AuthState,
    AuthError,
>)
    ensures
        status == 401 ==> r == Err::<AuthState, AuthError>(AuthError::TokenExpired),
        status != 401 && !crate::api::http_success(status) ==> (r matches Err(e) && e matches
            AuthError::ServerError(m) && m@ == "Server returned "@ + crate::text::dec_str(
            status as int,
        )),
        status != 401 && crate::api::http_success(status) && parsed is None ==> (r matches Err(e)
            && e matches AuthError::ServerError(m) && m@ == "Failed to parse response"@),
        status != 401 && crate::api::http_success(status) && (parsed matches Some(ur)
            && !ur.success) ==> r == Err::<AuthState, AuthError>(AuthError::TokenExpired),
        status != 401 && crate::api::http_success(status) && (parsed matches Some(ur) && ur.success
            && ur.data is None) ==> r == Err::<AuthState, AuthError>(AuthError::TokenExpired),
        status != 401 && crate::api::http_success(status) && (parsed matches Some(ur) && ur.success
            && ur.data is Some) ==> (r matches Ok(st) && {
            let u = parsed->Some_0.data->Some_0;
            &&& st.is_authenticated == true
            &&& st.is_pro == (u.is_superadmin || u.admin_granted_subscription)
            &&& st.user == Some(validated_user(u))
            &&& st.token matches Some(t) && t@ == token@
            &&& st.plan is None
            &&& st.jobs_limit is None
            &&& st.jobs_used is None
            &&& st.jobs_remaining is None
            &&& st.max_file_size_mb is None
            &&& st.is_unlimited is None
        }),
{
    if status == 401 {
        return Err(AuthError::TokenExpired);
    }
    if !(200 <= status && status < 300) {
        let mut m = String::from_str("Server returned ");
        let digits = crate::text::u64_to_string(status as u64);
        m.append(digits.as_str());
        return Err(AuthError::ServerError(m));
    }
    match parsed {
        None => Err(AuthError::ServerError(String::from_str("Failed to parse response"))),
        Some(ur) => {
            if !ur.success {
                return Err(AuthError::TokenExpired);
            }
            match ur.data {
                None => Err(AuthError::TokenExpired),
                Some(u) => {
                    let is_pro = u.is_superadmin || u.admin_granted_subscription;
                    Ok(
                        AuthState {
                            is_authenticated: true,
                            is_pro,
                            user: Some(
                                User {
                                    id: u.id,
                                    email: u.email,
                                    name: u.name,
                                    is_superadmin: u.is_superadmin,
                                    admin_granted_subscription: u.admin_granted_subscription,
                                    role: u.role,
                                },
                            ),
                            token: Some(String::from_str(token)),
                            plan: None,
                            jobs_limit: None,
                            jobs_used: None,
                            jobs_remaining: None,
                            max_file_size_mb: None,
                            is_unlimited: None,
                        },
                    )
                },
            }
        },
    }
}

/// The saved-authentication block of a configuration, or the empty block
/// where none is saved yet.
pub open spec fn auth_or_empty(a: Option<AuthConfig>) -> AuthConfig {
    match a {
        Some(x) => x,
        None => AuthConfig { token: None, email: None, password: None },
    }
}

/// Record a fresh token in the configuration, keeping any saved credentials.
/// (Writing the configuration to disk is the caller's part.)
pub fn save_token(cfg: &mut AppConfig, token: &str)
    ensures
        final(cfg).version == old(cfg).version,
        final(cfg).general == old(cfg).general,
        final(cfg).tools_view() == old(cfg).tools_view(),
        final(cfg).auth matches Some(a) && {
            &&& a.token matches Some(t) && t@ == token@
            &&& a.email == auth_or_empty(old(cfg).auth).email
            &&& a.password == auth_or_empty(old(cfg).auth).password
        },
{
    let fresh = match &cfg.auth {
        Some(a) => AuthConfig {
            token: Some(String::from_str(token)),
            email: clone_opt_string(&a.email),
            password: clone_opt_string(&a.password),
        },
        None => AuthConfig {
            token: Some(String::from_str(token)),
            email: None,
            password: None,
        },
    };
    cfg.auth = Some(fresh);
}

/// The saved token, if there is one.
pub fn load_token(cfg: &AppConfig) -> (r: Result<String, AuthError>)
    ensures
        (cfg.auth matches Some(a) && a.token is Some) ==> r == Ok::<String, AuthError>(
            auth_or_empty(cfg.auth).token->Some_0,
        ),
        !(cfg.auth matches Some(a) && a.token is Some) ==> (r matches Err(AuthError::Keyring(m))
            && m@ == "No saved token"@),
{
    match &cfg.auth {
        Some(a) => match &a.token {
            Some(t) => Ok(t.clone()),
            None => Err(AuthError::Keyring(String::from_str("No saved token"))),
        },
        None => Err(AuthError::Keyring(String::from_str("No saved token"))),
    }
}

/// Forget the saved token, keeping any saved credentials; with nothing
/// saved, nothing changes.
pub fn clear_token(cfg: &mut AppConfig)
    ensures
        final(cfg).version == old(cfg).version,
        final(cfg).general == old(cfg).general,
        final(cfg).tools_view() == old(cfg).tools_view(),
        old(cfg).auth is None ==> final(cfg).auth is None,
        old(cfg).auth matches Some(a) ==> (final(cfg).auth matches Some(b) && {
            &&& b.token is None
            &&& b.email == a.email
            &&& b.password == a.password
        }),
{
    let fresh = match &cfg.auth {
        Some(a) => Some(
            AuthConfig {
                token: None,
                email: clone_opt_string(&a.email),
                password: clone_opt_string(&a.password),
            },
        ),
        None => None,
    };
    cfg.auth = fresh;
}

/// Record credentials in the configuration, keeping any saved token.
/// (Writing the configuration to disk is the caller's part.)
pub fn save_credentials(cfg: &mut AppConfig, email: &str, password: &str)
    ensures
        final(cfg).version == old(cfg).version,
        final(cfg).general == old(cfg).general,
        final(cfg).tools_view() == old(cfg).tools_view(),
        final(cfg).auth matches Some(a) && {
            &&& a.email matches Some(e) && e@ == email@
            &&& a.password matches Some(p) && p@ == password@
            &&& a.token == auth_or_empty(old(cfg).auth).token
        },
{
    let fresh = match &cfg.auth {
        Some(a) => AuthConfig {
            token: clone_opt_string(&a.token),
            email: Some(String::from_str(email)),
            password: Some(String::from_str(password)),
        },
        None => AuthConfig {
            token: None,
            email: Some(String::from_str(email)),
            password: Some(String::from_str(password)),
        },
    };
    cfg.auth = Some(fresh);
}

/// The saved credentials, if both parts are there.
pub fn load_credentials(cfg: &AppConfig) -> (r: Result<(String, String), AuthError>)
    ensures
        cfg.auth is None ==> (r matches Err(AuthError::Keyring(m)) && m@
            == "No saved credentials"@),
        (cfg.auth matches Some(a) && a.email is None) ==> (r matches Err(AuthError::Keyring(m))
            && m@ == "No saved email"@),
        (cfg.auth matches Some(a) && a.email is Some && a.password is None) ==> (r matches Err(
            AuthError::Keyring(m),
        ) && m@ == "No saved password"@),
        (cfg.auth matches Some(a) && a.email is Some && a.password is Some) ==> r == Ok::<
            (String, String),
            AuthError,
        >((auth_or_empty(cfg.auth).email->Some_0, auth_or_empty(cfg.auth).password->Some_0)),
{
    match &cfg.auth {
        None => Err(AuthError::Keyring(String::from_str("No saved credentials"))),
        Some(a) => match &a.email {
            None => Err(AuthError::Keyring(String::from_str("No saved email"))),
            Some(e) => match &a.password {
                None => Err(AuthError::Keyring(String::from_str("No saved password"))),
                Some(p) => Ok((e.clone(), p.clone())),
            },
        },
    }
}

/// Forget the saved credentials, keeping any saved token; with nothing
/// saved, nothing changes.
pub fn clear_credentials(cfg: &mut AppConfig)
    ensures
        final(cfg).version == old(cfg).version,
        final(cfg).general == old(cfg).general,
        final(cfg).tools_view() == old(cfg).tools_view(),
        old(cfg).auth is None ==> final(cfg).auth is None,
        old(cfg).auth matches Some(a) ==> (final(cfg).auth matches Some(b) && {
            &&& b.email is None
            &&& b.password is None
            &&& b.token == a.token
        }),
{
    let fresh = match &cfg.auth {
        Some(a) => Some(
            AuthConfig { token: clone_opt_string(&a.token), email: None, password: None },
        ),
        None => None,
    };
    cfg.auth = fresh;
}

/// The human-readable message of each authentication error.
pub open spec fn auth_error_message(e: AuthError) -> Seq<char> {
    match e {
        AuthError::Network(m) => "Network error: "@ + m@,
        AuthError::InvalidCredentials => "Invalid credentials"@,
        AuthError::TokenExpired => "Token expired"@,
        AuthError::ProRequired => "PRO subscription required"@,
        AuthError::Keyring(m) => "Keyring error: "@ + m@,
        AuthError::ServerError(m) => "Server error: "@ + m@,
    }
}

impl AuthError {
    /// Render the error as its message text.
    pub fn message(&self) -> (r: String)
        ensures
            r@ == auth_error_message(*self),
    {
        match self {
            AuthError::Network(m) => {
                let mut s = String::from_str("Network error: ");
                s.append(m.as_str());
                s
            },
            AuthError::InvalidCredentials => String::from_str("Invalid credentials"),
            AuthError::TokenExpired => String::from_str("Token expired"),
            AuthError::ProRequired => String::from_str("PRO subscription required"),
            AuthError::Keyring(m) => {
                let mut s = String::from_str("Keyring error: ");
                s.append(m.as_str());
                s
            },
            AuthError::ServerError(m) => {
                let mut s = String::from_str("Server error: ");
                s.append(m.as_str());
                s
            },
        }
    }
}

} // verus!
