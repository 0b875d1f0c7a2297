use vstd::prelude::*;

verus! {

/// What an endpoint server reports about itself.
#[derive(Debug, Clone)]
pub struct InfoResponse {
    pub api_version: String,
    pub secure_apis_enabled: bool,
    pub game_version: Option<String>,
    pub game_versions: Option<Vec<String>>,
    pub login_address: String,
    pub email_required: Option<bool>,
    pub custom_loading_screen: Option<bool>,
}

impl InfoResponse {
    /// The version ids the server supports: the declared list when there is
    /// one, else the single declared version, else nothing.
    pub fn get_supported_versions(&self) -> (r: Vec<String>)
        ensures
            match self.game_versions {
                Some(vs) => r@ == vs@,
                None => match self.game_version {
                    Some(v) => r@.len() == 1 && r@[0] == v,
                    None => r@.len() == 0,
                },
            },
    {
        match &self.game_versions {
            Some(vs) => {
                let mut out: Vec<String> = Vec::new();
                let mut i: usize = 0;
                while i < vs.len()
                    invariant
                        i <= vs@.len(),
                        out@ == vs@.take(i as int),
                    decreases vs@.len() - i,
                {
                    proof {
                        assert(vs@.take(i as int + 1) =~= vs@.take(i as int).push(
                            vs@[i as int],
                        ));
                    }
                    out.push(vs[i].clone());
                    i = i + 1;
                }
                proof {
                    assert(vs@.take(vs@.len() as int) =~= vs@);
                }
                out
            },
            None => match &self.game_version {
                Some(v) => {
                    let mut out: Vec<String> = Vec::new();
                    out.push(v.clone());
                    out
                },
                None => Vec::new(),
            },
        }
    }
}

/// A server's live status.
#[derive(Debug, Clone)]
pub struct StatusResponse {
    pub player_count: usize,
}

/// Credentials sent to obtain a refresh token.
#[derive(Debug, Clone)]
pub struct AuthRequest {
    pub username: String,
    pub password: String,
}

/// A logged-in session.
#[derive(Debug, Clone)]
pub struct Session {
    pub username: String,
    pub session_token: String,
}

/// What a registration sends.
#[derive(Debug, Clone)]
pub struct RegisterRequest {
    pub username: String,
    pub password: String,
    pub email: Option<String>,
}

/// What a registration returns to the caller.
#[derive(Debug, Clone)]
pub struct RegisterResponse {
    pub resp: String,
    pub can_login: bool,
}

/// What the cookie API returns.
#[derive(Debug, Clone)]
pub struct CookieResponse {
    pub username: String,
    pub cookie: String,
    pub expires: u64,
}

/// The account fields as the server reports them.
#[derive(Debug, Clone)]
pub struct AccountInfoResponse {
    pub username: String,
    pub email: String,
}

/// The account fields as callers see them: an empty email becomes none.
#[derive(Debug, Clone)]
pub struct AccountInfo {
    pub username: String,
    pub email: Option<String>,
}

/// What the raw account response denotes.
pub open spec fn account_info_of(info: AccountInfoResponse) -> AccountInfo {
    AccountInfo {
        username: info.username,
        email: if info.email@.len() == 0 {
            None
        } else {
            Some(info.email)
        },
    }
}

impl From<AccountInfoResponse> for AccountInfo {
    fn from(info: AccountInfoResponse) -> AccountInfo {
        let has_email = !info.email.as_str().is_empty();
        AccountInfo {
            username: info.username,
            email: if has_email {
                Some(info.email)
            } else {
                None
            },
        }
    }
}

impl vstd::std_specs::convert::FromSpecImpl<AccountInfoResponse> for AccountInfo {
    open spec fn obeys_from_spec() -> bool {
        true
    }

    open spec fn from_spec(info: AccountInfoResponse) -> AccountInfo {
        account_info_of(info)
    }
}

/// A request to change the account's email address.
#[derive(Debug, Clone)]
pub struct EmailUpdateRequest {
    pub new_email: String,
}

/// A request to change the account's password.
#[derive(Debug, Clone)]
pub struct PasswordUpdateRequest {
    pub new_password: String,
}

/// Why an endpoint call failed.
#[derive(Debug, Clone)]
pub enum EndpointError {
    /// The server refused the credentials.
    IncorrectCredentials,
    /// The cookie the server handed out is already expired.
    CookieExpired,
    /// Any other failure; carries the response body.
    Api(String),
}

/// Whether an HTTP status code means success.
pub fn http_status_is_success(status: u16) -> (r: bool)
    ensures
        r == (200 <= status < 300),
{
    200 <= status && status < 300
}

/// What a registration response means: a success body is handed back, and a
/// created (201) status means the account can log in at once; any other
/// status is an API error carrying the body.
pub fn register_outcome(status: u16, body: String) -> (r: Result<
    RegisterResponse,
    EndpointError,
>)
    ensures
        200 <= status < 300 ==> (r matches Ok(resp) && resp.resp == body && resp.can_login == (
        status == 201)),
        !(200 <= status < 300) ==> (r matches Err(EndpointError::Api(b)) && b == body),
{
    if 200 <= status && status < 300 {
        Ok(RegisterResponse { resp: body, can_login: status == 201 })
    } else {
        Err(EndpointError::Api(body))
    }
}

/// What an authentication response means: success hands back the refresh
/// token (the body); an unauthorized (401) status means the credentials are
/// wrong; any other status is an API error carrying the body.
pub fn refresh_token_outcome(status: u16, body: String) -> (r: Result<String, EndpointError>)
    ensures
        200 <= status < 300 ==> (r matches Ok(t) && t == body),
        status == 401 ==> (r matches Err(EndpointError::IncorrectCredentials)),
        !(200 <= status < 300) && status != 401 ==> (r matches Err(EndpointError::Api(b)) && b
            == body),
{
    if 200 <= status && status < 300 {
        Ok(body)
    } else if status == 401 {
        Err(EndpointError::IncorrectCredentials)
    } else {
        Err(EndpointError::Api(body))
    }
}

/// What a cookie response means: a cookie that expires before the current
/// time is rejected; otherwise the user name and cookie are handed back.
pub fn cookie_outcome(cookie: CookieResponse, time_now: u64) -> (r: Result<
    (String, String),
    EndpointError,
>)
    ensures
        cookie.expires >= time_now ==> (r matches Ok(p) && p.0 == cookie.username && p.1
            == cookie.cookie),
        cookie.expires < time_now ==> (r matches Err(EndpointError::CookieExpired)),
{
    if cookie.expires < time_now {
        Err(EndpointError::CookieExpired)
    } else {
        Ok((cookie.username, cookie.cookie))
    }
}

} // verus!
