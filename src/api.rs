//! The client: device identity, endpoint configuration and session, the
//! signed request URLs, and the reading of the service's replies.

use crate::fields::DecodeError;
use crate::json::{
    json_i64, json_member, json_path, json_u64, member, member_at, opt_text, signed_of, text_of,
    unsigned_of, Json,
};
use crate::records::{json_decodes_to, last_data_json_failure, Date, WatchPowerLastData};
use crate::signer::{digest, digest_of};
use crate::text::{decimal_text, padded_text, push_decimal, push_padded, push_signed, signed_text};
use vstd::prelude::*;
use vstd::string::*;

verus! {

/// Why a query did not give a result.
#[derive(Debug)]
pub enum ApiError {
    /// A query was built before a login succeeded: there is no token.
    NotAuthenticated,
    /// The service answered with an error code other than 0 (`None` where
    /// the body holds no integer code), with the whole body.
    ServiceError { code: Option<i64>, body: Json },
    /// A successful login reply lacks its secret, token or expiry.
    MalformedResponse,
    /// The reply's payload could not be decoded.
    Decode(DecodeError),
}

/// The device the queries are about.
#[derive(Clone, Debug)]
pub struct WatchPowerDeviceParams {
    pub serial_number: String,
    pub wifi_pn: String,
    pub dev_code: i32,
    pub dev_addr: i32,
}

/// The client's state: endpoint configuration, device and session.
#[derive(Clone, Debug)]
pub struct WatchPowerAPI {
    base_url: String,
    suffix_context: String,
    company_key: String,
    token: Option<String>,
    secret: String,
    expire: Option<u64>,
    device: WatchPowerDeviceParams,
}

pub struct ApiView {
    pub base_url: Seq<char>,
    pub suffix_context: Seq<char>,
    pub company_key: Seq<char>,
    pub token: Option<Seq<char>>,
    pub secret: Seq<char>,
    pub expire: Option<u64>,
    pub serial_number: Seq<char>,
    pub wifi_pn: Seq<char>,
    pub dev_code: i32,
    pub dev_addr: i32,
}

pub open spec fn opt_view(s: Option<String>) -> Option<Seq<char>> {
    match s {
        Some(t) => Some(t@),
        None => None,
    }
}

impl View for WatchPowerAPI {
    type V = ApiView;

    closed spec fn view(&self) -> ApiView {
        ApiView {
            base_url: self.base_url@,
            suffix_context: self.suffix_context@,
            company_key: self.company_key@,
            token: opt_view(self.token),
            secret: self.secret@,
            expire: self.expire,
            serial_number: self.device.serial_number@,
            wifi_pn: self.device.wifi_pn@,
            dev_code: self.device.dev_code,
            dev_addr: self.device.dev_addr,
        }
    }
}

pub open spec fn default_base_url() -> Seq<char> {
    "http://android.shinemonitor.com/public/"@
}

pub open spec fn default_suffix_context() -> Seq<char> {
    "&i18n=pt_BR&lang=pt_BR&source=1&_app_client_=android&_app_id_=wifiapp.volfw.watchpower&_app_version_=1.0.6.3"@
}

pub open spec fn default_company_key() -> Seq<char> {
    "bnrl_frRFjEz8Mkn"@
}

pub open spec fn default_secret() -> Seq<char> {
    "ems_secret"@
}

/// A client that has not logged in, for the given device and endpoint.
pub open spec fn fresh_client(
    base_url: Seq<char>,
    suffix_context: Seq<char>,
    company_key: Seq<char>,
    serial_number: Seq<char>,
    wifi_pn: Seq<char>,
    dev_code: i32,
    dev_addr: i32,
) -> ApiView {
    ApiView {
        base_url,
        suffix_context,
        company_key,
        token: None,
        secret: default_secret(),
        expire: None,
        serial_number,
        wifi_pn,
        dev_code,
        dev_addr,
    }
}

/// The action part of a login request.
pub open spec fn login_action(api: ApiView, username: Seq<char>) -> Seq<char> {
    "&action=authSource&usr="@ + username + "&company-key="@ + api.company_key
        + api.suffix_context
}

/// The login URL: signed with the salt, the password's digest and the action.
pub open spec fn login_url_of(api: ApiView, username: Seq<char>, password: Seq<char>, salt: nat) -> Seq<
    char,
> {
    let action = login_action(api, username);
    let salt_text = decimal_text(salt);
    let sign = digest_of(seq![salt_text, digest_of(seq![password]), action]);
    api.base_url + "?sign="@ + sign + "&salt="@ + salt_text + action
}

/// The action part of a device query, with its extra parameters.
pub open spec fn query_action(api: ApiView, action: Seq<char>, query: Seq<char>) -> Seq<char> {
    "&action="@ + action + "&pn="@ + api.wifi_pn + "&devcode="@ + signed_text(api.dev_code as int)
        + "&sn="@ + api.serial_number + "&devaddr="@ + signed_text(api.dev_addr as int) + query
        + api.suffix_context
}

/// The URL of a device query, signed with the salt, the session's secret and
/// token and the action; `None` without a token.
pub open spec fn query_url_of(api: ApiView, action: Seq<char>, query: Seq<char>, salt: nat) -> Option<
    Seq<char>,
> {
    match api.token {
        None => None,
        Some(token) => {
            let act = query_action(api, action, query);
            let salt_text = decimal_text(salt);
            let sign = digest_of(seq![salt_text, api.secret, token, act]);
            Some(api.base_url + "?sign="@ + sign + "&salt="@ + salt_text + "&token="@ + token + act)
        },
    }
}

pub open spec fn query_text(query: Option<&str>) -> Seq<char> {
    match query {
        Some(q) => q@,
        None => Seq::empty(),
    }
}

/// The year as four digits (plain signed decimal outside `0..=9999`).
pub open spec fn year_text(year: i32) -> Seq<char> {
    if 0 <= year <= 9999 {
        padded_text(year as nat, 4)
    } else {
        signed_text(year as int)
    }
}

/// The parameter of a daily query: `&date=YYYY-MM-DD`.
pub open spec fn daily_query(day: Date) -> Seq<char> {
    "&date="@ + year_text(day.year) + "-"@ + padded_text(day.month as nat, 2) + "-"@ + padded_text(
        day.day as nat,
        2,
    )
}

/// The same client with a new session.
pub open spec fn with_session(api: ApiView, secret: Seq<char>, token: Seq<char>, expire: u64) -> ApiView {
    ApiView { secret, token: Some(token), expire: Some(expire), ..api }
}

/// The error code of a reply: its `err` member, where that is an integer.
pub open spec fn response_code(response: Json) -> Option<i64> {
    match json_member(response, "err"@) {
        Some(c) => json_i64(c),
        None => None,
    }
}

/// The reply with error code `code` is a success exactly when the code is 0.
pub fn check_status(code: Option<i64>, body: Json) -> (r: Result<Json, ApiError>)
    ensures
        code == Some(0i64) ==> r == Ok::<Json, ApiError>(body),
        code != Some(0i64) ==> r == Err::<Json, ApiError>(ApiError::ServiceError { code, body }),
{
    match code {
        Some(c) => if c == 0 {
            Ok(body)
        } else {
            Err(ApiError::ServiceError { code, body })
        },
        None => Err(ApiError::ServiceError { code, body }),
    }
}

/// Checks the `err` member of a reply, handing the reply back on success.
pub fn check_response(response: Json) -> (r: Result<Json, ApiError>)
    ensures
        response_code(response) == Some(0i64) ==> r == Ok::<Json, ApiError>(response),
        response_code(response) != Some(0i64) ==> r == Err::<Json, ApiError>(
            ApiError::ServiceError { code: response_code(response), body: response },
        ),
{
    let code = match member(&response, "err") {
        Some(v) => signed_of(v),
        None => None,
    };
    check_status(code, response)
}

impl WatchPowerAPI {
    /// A client for the device, on the service's public endpoint, not logged in.
    pub fn new(serial_number: &str, wifi_pn: &str, dev_code: i32, dev_addr: i32) -> (r: Self)
        ensures
            r@ == fresh_client(
                default_base_url(),
                default_suffix_context(),
                default_company_key(),
                serial_number@,
                wifi_pn@,
                dev_code,
                dev_addr,
            ),
    {
        Self::with_endpoint(
            "http://android.shinemonitor.com/public/",
            "&i18n=pt_BR&lang=pt_BR&source=1&_app_client_=android&_app_id_=wifiapp.volfw.watchpower&_app_version_=1.0.6.3",
            "bnrl_frRFjEz8Mkn",
            serial_number,
            wifi_pn,
            dev_code,
            dev_addr,
        )
    }

    /// A client for the device on another deployment: its endpoint, client
    /// parameters and company key.
    pub fn with_endpoint(
        base_url: &str,
        suffix_context: &str,
        company_key: &str,
        serial_number: &str,
        wifi_pn: &str,
        dev_code: i32,
        dev_addr: i32,
    ) -> (r: Self)
        ensures
            r@ == fresh_client(
                base_url@,
                suffix_context@,
                company_key@,
                serial_number@,
                wifi_pn@,
                dev_code,
                dev_addr,
            ),
    {
        WatchPowerAPI {
            base_url: base_url.to_owned(),
            suffix_context: suffix_context.to_owned(),
            company_key: company_key.to_owned(),
            token: None,
            secret: "ems_secret".to_owned(),
            expire: None,
            device: WatchPowerDeviceParams {
                serial_number: serial_number.to_owned(),
                wifi_pn: wifi_pn.to_owned(),
                dev_code,
                dev_addr,
            },
        }
    }

    pub fn is_authenticated(&self) -> (r: bool)
        ensures
            r == self@.token is Some,
    {
        self.token.is_some()
    }

    /// The expiry (epoch seconds) that the last login gave.
    pub fn expire(&self) -> (r: Option<u64>)
        ensures
            r == self@.expire,
    {
        self.expire
    }

    /// The login URL for `username` and `password`, salted with
    /// `salt_millis` (the time in milliseconds).
    pub fn login_url(&self, username: &str, password: &str, salt_millis: u64) -> (r: String)
        ensures
            r@ == login_url_of(self@, username@, password@, salt_millis as nat),
    {
        let mut action = String::new();
        action.append("&action=authSource&usr=");
        action.append(username);
        action.append("&company-key=");
        action.append(self.company_key.as_str());
        action.append(self.suffix_context.as_str());
        assert(action@ =~= login_action(self@, username@));
        let mut salt = String::new();
        push_decimal(&mut salt, salt_millis);
        assert(salt@ =~= decimal_text(salt_millis as nat));
        let password_parts = vec![password];
        assert(crate::signer::texts_of(password_parts@) =~= seq![password@]);
        let password_hash = digest(&password_parts);
        let salt_s = salt.as_str();
        let hash_s = password_hash.as_str();
        let action_s = action.as_str();
        let sign_parts = vec![salt_s, hash_s, action_s];
        assert(crate::signer::texts_of(sign_parts@) =~= seq![salt@, password_hash@, action@]);
        let sign = digest(&sign_parts);
        let mut url = self.base_url.clone();
        url.append("?sign=");
        url.append(sign.as_str());
        url.append("&salt=");
        url.append(salt.as_str());
        url.append(action.as_str());
        url
    }

    /// The signed URL of the query `action` with extra parameters `query`,
    /// salted with `salt_millis`; fails where no login has succeeded.
    pub fn request_url(&self, action: &str, query: Option<&str>, salt_millis: u64) -> (r: Result<
        String,
        ApiError,
    >)
        ensures
            r is Err <==> self@.token is None,
            r matches Err(e) ==> e is NotAuthenticated,
            r matches Ok(u) ==> query_url_of(self@, action@, query_text(query), salt_millis as nat)
                == Some(u@),
    {
        let token = match &self.token {
            Some(t) => t,
            None => {
                return Err(ApiError::NotAuthenticated);
            },
        };
        let mut act = String::new();
        act.append("&action=");
        act.append(action);
        act.append("&pn=");
        act.append(self.device.wifi_pn.as_str());
        act.append("&devcode=");
        push_signed(&mut act, self.device.dev_code as i64);
        act.append("&sn=");
        act.append(self.device.serial_number.as_str());
        act.append("&devaddr=");
        push_signed(&mut act, self.device.dev_addr as i64);
        match query {
            Some(q) => act.append(q),
            None => {},
        }
        act.append(self.suffix_context.as_str());
        assert(act@ =~= query_action(self@, action@, query_text(query)));
        let mut salt = String::new();
        push_decimal(&mut salt, salt_millis);
        assert(salt@ =~= decimal_text(salt_millis as nat));
        let salt_s = salt.as_str();
        let secret_s = self.secret.as_str();
        let token_s = token.as_str();
        let act_s = act.as_str();
        let sign = digest(&vec![salt_s, secret_s, token_s, act_s]);
        let mut url = self.base_url.clone();
        url.append("?sign=");
        url.append(sign.as_str());
        url.append("&salt=");
        url.append(salt.as_str());
        url.append("&token=");
        url.append(token.as_str());
        url.append(act.as_str());
        proof {
            assert(crate::signer::texts_of(seq![salt_s, secret_s, token_s, act_s]) =~= seq![
                salt@,
                self.secret@,
                token@,
                act@,
            ]);
        }
        Ok(url)
    }

    /// The signed URL of the snapshot query.
    pub fn last_data_url(&self, salt_millis: u64) -> (r: Result<String, ApiError>)
        ensures
            r is Err <==> self@.token is None,
            r matches Err(e) ==> e is NotAuthenticated,
            r matches Ok(u) ==> query_url_of(self@, "querySPDeviceLastData"@, Seq::empty(), salt_millis as nat)
                == Some(u@),
    {
        self.request_url("querySPDeviceLastData", None, salt_millis)
    }

    /// The signed URL of the power-flow query.
    pub fn power_flow_url(&self, salt_millis: u64) -> (r: Result<String, ApiError>)
        ensures
            r is Err <==> self@.token is None,
            r matches Err(e) ==> e is NotAuthenticated,
            r matches Ok(u) ==> query_url_of(self@, "queryDeviceFlowPower"@, Seq::empty(), salt_millis as nat)
                == Some(u@),
    {
        self.request_url("queryDeviceFlowPower", None, salt_millis)
    }

    /// The signed URL of the query for one day's data.
    pub fn daily_data_url(&self, day: Date, salt_millis: u64) -> (r: Result<String, ApiError>)
        ensures
            r is Err <==> self@.token is None,
            r matches Err(e) ==> e is NotAuthenticated,
            r matches Ok(u) ==> query_url_of(self@, "queryDeviceDataOneDay"@, daily_query(day), salt_millis as nat)
                == Some(u@),
    {
        let mut q = String::new();
        q.append("&date=");
        if 0 <= day.year && day.year <= 9999 {
            push_padded(&mut q, day.year as u64, 4);
        } else {
            push_signed(&mut q, day.year as i64);
        }
        q.append("-");
        push_padded(&mut q, day.month as u64, 2);
        q.append("-");
        push_padded(&mut q, day.day as u64, 2);
        assert(q@ =~= daily_query(day));
        self.request_url("queryDeviceDataOneDay", Some(q.as_str()), salt_millis)
    }

    /// Takes a login reply's error code and `dat` fields: on code 0 with all
    /// three fields the session becomes authenticated with them; otherwise
    /// the client is left as it was.
    pub fn apply_login(
        &mut self,
        code: Option<i64>,
        secret: Option<String>,
        token: Option<String>,
        expire: Option<u64>,
        body: Json,
    ) -> (r: Result<(), ApiError>)
        ensures
            code != Some(0i64) ==> r == Err::<(), ApiError>(ApiError::ServiceError { code, body }),
            code == Some(0i64) && (secret is None || token is None || expire is None) ==> r
                == Err::<(), ApiError>(ApiError::MalformedResponse),
            r is Ok <==> (code == Some(0i64) && secret is Some && token is Some && expire is Some),
            r is Ok ==> final(self)@ == with_session(
                old(self)@,
                secret->0@,
                token->0@,
                expire->0,
            ),
            r is Err ==> final(self)@ == old(self)@,
    {
        match check_status(code, body) {
            Err(e) => Err(e),
            Ok(_) => match (secret, token, expire) {
                (Some(s), Some(t), Some(x)) => {
                    self.secret = s;
                    self.token = Some(t);
                    self.expire = Some(x);
                    Ok(())
                },
                _ => Err(ApiError::MalformedResponse),
            },
        }
    }

    /// Takes a login reply: `err`, and `dat.secret`, `dat.token`,
    /// `dat.expire`.
    pub fn complete_login(&mut self, response: Json) -> (r: Result<(), ApiError>)
        ensures
            ({
                let code = response_code(response);
                let secret = opt_text(json_path(response, seq!["dat"@, "secret"@]));
                let token = opt_text(json_path(response, seq!["dat"@, "token"@]));
                let expire = match json_path(response, seq!["dat"@, "expire"@]) {
                    Some(x) => json_u64(x),
                    None => None,
                };
                &&& code != Some(0i64) ==> r == Err::<(), ApiError>(
                    ApiError::ServiceError { code, body: response },
                )
                &&& code == Some(0i64) && (secret is None || token is None || expire is None) ==> r
                    == Err::<(), ApiError>(ApiError::MalformedResponse)
                &&& r is Ok <==> (code == Some(0i64) && secret is Some && token is Some
                    && expire is Some)
                &&& r is Ok ==> final(self)@ == with_session(
                    old(self)@,
                    secret->0,
                    token->0,
                    expire->0,
                )
                &&& r is Err ==> final(self)@ == old(self)@
            }),
    {
        let code = match member(&response, "err") {
            Some(v) => signed_of(v),
            None => None,
        };
        let secret = match member_at(&response, &vec!["dat", "secret"]) {
            Some(v) => text_of(v),
            None => None,
        };
        let token = match member_at(&response, &vec!["dat", "token"]) {
            Some(v) => text_of(v),
            None => None,
        };
        let expire = match member_at(&response, &vec!["dat", "expire"]) {
            Some(v) => unsigned_of(v),
            None => None,
        };
        proof {
            assert(crate::signer::texts_of(seq!["dat", "secret"]) =~= seq!["dat"@, "secret"@]);
            assert(crate::signer::texts_of(seq!["dat", "token"]) =~= seq!["dat"@, "token"@]);
            assert(crate::signer::texts_of(seq!["dat", "expire"]) =~= seq!["dat"@, "expire"@]);
        }
        self.apply_login(code, secret, token, expire, response)
    }

    /// Reads the reply to a "last data" query: a failed status check is
    /// returned as it is, otherwise the decoded snapshot.
    pub fn last_data_from_response(response: Json) -> (r: Result<WatchPowerLastData, ApiError>)
        ensures
            response_code(response) != Some(0i64) ==> r == Err::<WatchPowerLastData, ApiError>(
                ApiError::ServiceError { code: response_code(response), body: response },
            ),
            response_code(response) == Some(0i64) ==> {
                &&& r matches Ok(d) ==> json_decodes_to(response, d)
                &&& r matches Err(e) ==> (e is Decode && last_data_json_failure(response) == Some(
                    e->Decode_0@,
                ))
            },
    {
        match check_response(response) {
            Err(e) => Err(e),
            Ok(body) => match WatchPowerLastData::from_json(&body) {
                Ok(d) => Ok(d),
                Err(e) => Err(ApiError::Decode(e)),
            },
        }
    }
}

/// Queries are gated on login: a client that has not logged in builds no
/// query URL, whatever the action, parameters and salt.
pub proof fn lemma_fresh_client_builds_no_query(
    base_url: Seq<char>,
    suffix_context: Seq<char>,
    company_key: Seq<char>,
    serial_number: Seq<char>,
    wifi_pn: Seq<char>,
    dev_code: i32,
    dev_addr: i32,
    action: Seq<char>,
    query: Seq<char>,
    salt: nat,
)
    ensures
        query_url_of(
            fresh_client(base_url, suffix_context, company_key, serial_number, wifi_pn, dev_code, dev_addr),
            action,
            query,
            salt,
        ) is None,
{
}

/// After a login, every query URL carries the session's token right after
/// the salt, and is signed with its secret and token.
pub proof fn lemma_login_token_in_queries(
    api: ApiView,
    secret: Seq<char>,
    token: Seq<char>,
    expire: u64,
    action: Seq<char>,
    query: Seq<char>,
    salt: nat,
)
    ensures
        ({
            let s = with_session(api, secret, token, expire);
            let act = query_action(s, action, query);
            query_url_of(s, action, query, salt) == Some(
                api.base_url + "?sign="@ + digest_of(seq![decimal_text(salt), secret, token, act])
                    + "&salt="@ + decimal_text(salt) + "&token="@ + token + act,
            )
        }),
{
}

} // verus!
