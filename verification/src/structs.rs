//! The messages exchanged with clients and administrators: requests, their
//! side information, responses and result codes.
use crate::configparser::Config;
use crate::text::{clone_opt_text, opt_text, trim, trimmed};
use vstd::prelude::*;
use vstd::string::*;

verus! {

/// The outcome of handling one request.
#[derive(Debug, Clone, Copy, PartialEq, Eq, Structural)]
pub enum ErrorCodes {
    OK,
    NotRegister,
    ClientVersionMismatch,
    UnsupportedMethod,
    Reversed1,
    Reversed2,
    Reversed3,
    Reversed4,
    Reversed5,
}

impl ErrorCodes {
    /// The number that stands for this code on the wire.
    pub open spec fn number(self) -> i64 {
        match self {
            ErrorCodes::OK => 0,
            ErrorCodes::NotRegister => 1,
            ErrorCodes::ClientVersionMismatch => 2,
            ErrorCodes::UnsupportedMethod => 3,
            ErrorCodes::Reversed1 => 4,
            ErrorCodes::Reversed2 => 5,
            ErrorCodes::Reversed3 => 6,
            ErrorCodes::Reversed4 => 7,
            ErrorCodes::Reversed5 => 8,
        }
    }

    /// Whether this code is one of the unassigned ones, which carry no
    /// message.
    pub open spec fn is_reserved(self) -> bool {
        self.number() >= 4
    }

    /// The fixed text that describes this code; empty for `OK`.
    pub open spec fn message_text(self) -> Seq<char> {
        match self {
            ErrorCodes::NotRegister => "Not registered client"@,
            ErrorCodes::ClientVersionMismatch => "Client version smaller than requested version"@,
            ErrorCodes::UnsupportedMethod => "Request method not supported"@,
            _ => Seq::<char>::empty(),
        }
    }

    /// The text that describes this code.
    pub fn message(&self) -> (text: String)
        requires
            !self.is_reserved(),
        ensures
            text@ == self.message_text(),
    {
        match self {
            ErrorCodes::OK => String::new(),
            ErrorCodes::NotRegister => String::from_str("Not registered client"),
            ErrorCodes::ClientVersionMismatch => String::from_str(
                "Client version smaller than requested version",
            ),
            _ => String::from_str("Request method not supported"),
        }
    }
}

impl From<&ErrorCodes> for i64 {
    fn from(e: &ErrorCodes) -> (n: i64) {
        match e {
            ErrorCodes::OK => 0,
            ErrorCodes::NotRegister => 1,
            ErrorCodes::ClientVersionMismatch => 2,
            ErrorCodes::UnsupportedMethod => 3,
            ErrorCodes::Reversed1 => 4,
            ErrorCodes::Reversed2 => 5,
            ErrorCodes::Reversed3 => 6,
            ErrorCodes::Reversed4 => 7,
            ErrorCodes::Reversed5 => 8,
        }
    }
}

impl vstd::std_specs::convert::FromSpecImpl<&ErrorCodes> for i64 {
    open spec fn obeys_from_spec() -> bool {
        true
    }

    open spec fn from_spec(e: &ErrorCodes) -> i64 {
        e.number()
    }
}

/// What a `Response` holds.
pub struct ResponseView {
    pub status: i64,
    pub error_code: i64,
    pub message: Option<Seq<char>>,
}

/// The answer to one request: a status, and a message when the request
/// failed.
#[derive(Debug)]
pub struct Response {
    status: i64,
    error_code: i64,
    message: Option<String>,
}

impl View for Response {
    type V = ResponseView;

    closed spec fn view(&self) -> ResponseView {
        ResponseView {
            status: self.status,
            error_code: self.error_code,
            message: opt_text(self.message),
        }
    }
}

impl Response {
    /// A response with the given status and message.
    pub fn new(status: i64, message: Option<String>) -> (r: Response)
        ensures
            r@ == (ResponseView { status, error_code: 0, message: opt_text(message) }),
    {
        Response { status, error_code: 0, message }
    }

    /// The response to a request that succeeded: status 200, no message.
    pub fn new_ok() -> (r: Response)
        ensures
            r@ == (ResponseView { status: 200, error_code: 0, message: None }),
    {
        Response { status: 200, error_code: 0, message: None }
    }

    /// What the response to a request that ended with `code` holds: status
    /// 200 without a message for `OK`, status 400 with the code's message
    /// otherwise.
    pub open spec fn of_code(code: ErrorCodes) -> ResponseView {
        if code == ErrorCodes::OK {
            ResponseView { status: 200, error_code: 0, message: None }
        } else {
            ResponseView { status: 400, error_code: 0, message: Some(code.message_text()) }
        }
    }

    /// The response to a request that ended with `code`.
    pub fn from_code(code: &ErrorCodes) -> (r: Response)
        requires
            !code.is_reserved(),
        ensures
            r@ == Response::of_code(*code),
    {
        match code {
            ErrorCodes::OK => Response::new_ok(),
            _ => Response::new(400, Some(code.message())),
        }
    }

    pub fn get_status(&self) -> (status: i64)
        ensures
            status == self@.status,
    {
        self.status
    }

    pub fn get_error_code(&self) -> (error_code: i64)
        ensures
            error_code == self@.error_code,
    {
        self.error_code
    }

    pub fn get_message(&self) -> (message: &Option<String>)
        ensures
            opt_text(*message) == self@.message,
    {
        &self.message
    }
}

/// What a `Request` holds.
pub struct RequestView {
    pub version: Seq<char>,
    pub action: Seq<char>,
    pub uuid: Seq<char>,
    pub body: Option<Seq<char>>,
}

/// One event reported by a client.
#[derive(Debug)]
pub struct Request {
    version: String,
    action: String,
    uuid: String,
    body: Option<String>,
}

impl View for Request {
    type V = RequestView;

    closed spec fn view(&self) -> RequestView {
        RequestView {
            version: self.version@,
            action: self.action@,
            uuid: self.uuid@,
            body: opt_text(self.body),
        }
    }
}

impl Clone for Request {
    fn clone(&self) -> (r: Request)
        ensures
            r@ == self@,
    {
        Request {
            version: self.version.clone(),
            action: self.action.clone(),
            uuid: self.uuid.clone(),
            body: clone_opt_text(&self.body),
        }
    }
}

impl Request {
    pub fn new(version: String, action: String, uuid: String, body: Option<String>) -> (r: Request)
        ensures
            r@ == (RequestView {
                version: version@,
                action: action@,
                uuid: uuid@,
                body: opt_text(body),
            }),
    {
        Request { version, action, uuid, body }
    }

    pub fn get_action(&self) -> (action: &String)
        ensures
            action@ == self@.action,
    {
        &self.action
    }

    pub fn get_uuid(&self) -> (uuid: &String)
        ensures
            uuid@ == self@.uuid,
    {
        &self.uuid
    }

    pub fn get_body(&self) -> (body: &Option<String>)
        ensures
            opt_text(*body) == self@.body,
    {
        &self.body
    }

    pub fn get_version(&self) -> (version: &String)
        ensures
            version@ == self@.version,
    {
        &self.version
    }
}

/// One request of an administrator.
#[derive(Debug)]
pub struct AdminRequest {
    action: String,
}

impl View for AdminRequest {
    type V = Seq<char>;

    closed spec fn view(&self) -> Seq<char> {
        self.action@
    }
}

impl Clone for AdminRequest {
    fn clone(&self) -> (r: AdminRequest)
        ensures
            r@ == self@,
    {
        AdminRequest { action: self.action.clone() }
    }
}

impl AdminRequest {
    pub fn new(action: String) -> (r: AdminRequest)
        ensures
            r@ == action@,
    {
        AdminRequest { action }
    }

    pub fn get_action(&self) -> (action: &String)
        ensures
            action@ == self@,
    {
        &self.action
    }
}

/// What an `AdditionalInfo` holds.
pub struct AdditionalInfoView {
    pub hostname: Seq<char>,
    pub boot_time: i64,
}

/// What a client says of itself in the body of a request.
#[derive(Debug)]
pub struct AdditionalInfo {
    hostname: String,
    boot_time: i64,
}

impl View for AdditionalInfo {
    type V = AdditionalInfoView;

    closed spec fn view(&self) -> AdditionalInfoView {
        AdditionalInfoView { hostname: self.hostname@, boot_time: self.boot_time }
    }
}

impl Clone for AdditionalInfo {
    fn clone(&self) -> (r: AdditionalInfo)
        ensures
            r@ == self@,
    {
        AdditionalInfo { hostname: self.hostname.clone(), boot_time: self.boot_time }
    }
}

impl Default for AdditionalInfo {
    /// The information of a client that sent none: an empty hostname and
    /// boot time 0.
    fn default() -> (r: AdditionalInfo)
        ensures
            r@ == (AdditionalInfoView { hostname: Seq::<char>::empty(), boot_time: 0 }),
    {
        AdditionalInfo { hostname: String::new(), boot_time: 0 }
    }
}

impl AdditionalInfo {
    /// What a client said of itself, given what could be read of the body
    /// of its request: a body that is missing or cannot be read counts as
    /// one that says nothing.
    pub fn or_default(parsed: Option<AdditionalInfo>) -> (r: AdditionalInfo)
        ensures
            r@ == match parsed {
                Some(info) => info@,
                None => (AdditionalInfoView { hostname: Seq::<char>::empty(), boot_time: 0 }),
            },
    {
        match parsed {
            Some(info) => info,
            None => AdditionalInfo::default(),
        }
    }

    pub fn new(hostname: String, boot_time: i64) -> (r: AdditionalInfo)
        ensures
            r@ == (AdditionalInfoView { hostname: hostname@, boot_time }),
    {
        AdditionalInfo { hostname, boot_time }
    }

    pub fn get_host_name(&self) -> (hostname: &String)
        ensures
            hostname@ == self@.hostname,
    {
        &self.hostname
    }

    pub fn get_boot_time(&self) -> (boot_time: i64)
        ensures
            boot_time == self@.boot_time,
    {
        self.boot_time
    }
}

/// What a `ClientRow` of this module holds.
pub struct ClientRowView {
    pub id: i32,
    pub uuid: Seq<char>,
    pub boot_time: u32,
    pub last_seen: u32,
}

/// A client as the store's second layout kept it: without a hostname.
#[derive(Debug)]
pub struct ClientRow {
    id: i32,
    uuid: String,
    boot_time: u32,
    last_seen: u32,
}

impl View for ClientRow {
    type V = ClientRowView;

    closed spec fn view(&self) -> ClientRowView {
        ClientRowView {
            id: self.id,
            uuid: self.uuid@,
            boot_time: self.boot_time,
            last_seen: self.last_seen,
        }
    }
}

impl Clone for ClientRow {
    fn clone(&self) -> (r: ClientRow)
        ensures
            r@ == self@,
    {
        ClientRow {
            id: self.id,
            uuid: self.uuid.clone(),
            boot_time: self.boot_time,
            last_seen: self.last_seen,
        }
    }
}

impl ClientRow {
    pub fn new(id: i32, uuid: String, boot_time: u32, last_seen: u32) -> (r: ClientRow)
        ensures
            r@ == (ClientRowView { id, uuid: uuid@, boot_time, last_seen }),
    {
        ClientRow { id, uuid, boot_time, last_seen }
    }

    pub fn get_id(&self) -> (id: i32)
        ensures
            id == self@.id,
    {
        self.id
    }

    pub fn get_uuid(&self) -> (uuid: &String)
        ensures
            uuid@ == self@.uuid,
    {
        &self.uuid
    }

    pub fn get_boot_time(&self) -> (boot_time: u32)
        ensures
            boot_time == self@.boot_time,
    {
        self.boot_time
    }

    pub fn get_last_seen(&self) -> (last_seen: u32)
        ensures
            last_seen == self@.last_seen,
    {
        self.last_seen
    }
}

/// The rows that answer an administrator's query.
#[derive(Debug, Default)]
pub struct AdminResult<T> {
    pub result: Vec<T>,
}

/// The value that the `authorization` header of a request must have for
/// the given token: the word `Bearer`, a blank and the token, without white
/// space at either end.
pub open spec fn bearer(token: Seq<char>) -> Seq<char> {
    trimmed("Bearer "@ + token)
}

/// Lets a request pass if it carries the expected token.
#[derive(Debug)]
pub struct AuthorizationGuard {
    token: String,
}

impl View for AuthorizationGuard {
    type V = Seq<char>;

    closed spec fn view(&self) -> Seq<char> {
        self.token@
    }
}

impl Clone for AuthorizationGuard {
    fn clone(&self) -> (r: AuthorizationGuard)
        ensures
            r@ == self@,
    {
        AuthorizationGuard { token: self.token.clone() }
    }
}

impl AuthorizationGuard {
    /// The guard that expects the given token.
    pub fn from_token(token: &str) -> (r: AuthorizationGuard)
        ensures
            r@ == bearer(token@),
    {
        let mut expected = String::from_str("Bearer ");
        expected.append(token);
        AuthorizationGuard { token: trim(expected.as_str()) }
    }

    /// The guard that expects the given token, or the empty token where
    /// none is given.
    pub fn from_optional_token(token: Option<String>) -> (r: AuthorizationGuard)
        ensures
            r@ == bearer(
                match token {
                    Some(t) => t@,
                    None => Seq::<char>::empty(),
                },
            ),
    {
        match token {
            Some(t) => AuthorizationGuard::from_token(t.as_str()),
            None => {
                proof {
                    reveal_strlit("");
                    assert(""@ =~= Seq::<char>::empty());
                }
                AuthorizationGuard::from_token("")
            },
        }
    }

    /// The guard that expects the token that clients are configured with.
    pub fn from_config(cfg: &Config) -> (r: AuthorizationGuard)
        ensures
            r@ == bearer(cfg@.server.token),
    {
        AuthorizationGuard::from_token(cfg.get_auth_token().as_str())
    }

    /// Whether a request passes, given the bytes of its `authorization`
    /// header, if it has one: the header must be there and hold exactly the
    /// expected value, which must not be empty.
    pub fn check(&self, authorization: Option<&[u8]>) -> (pass: bool)
        ensures
            pass == (authorization is Some && self@.len() > 0 && authorization->Some_0@
                == vstd::utf8::encode_utf8(self@)),
    {
        match authorization {
            None => false,
            Some(value) => {
                if self.token.as_str().is_empty() {
                    return false;
                }
                let expected = self.token.as_str().as_bytes();
                if value.len() != expected.len() {
                    return false;
                }
                let mut i: usize = 0;
                while i < value.len()
                    invariant
                        0 <= i <= value.len(),
                        value.len() == expected.len(),
                        expected@ == vstd::utf8::encode_utf8(self@),
                        authorization == Some(value),
                        forall|j: int| 0 <= j < i ==> value@[j] == expected@[j],
                    decreases value.len() - i,
                {
                    if value[i] != expected[i] {
                        assert(value@[i as int] != expected@[i as int]);
                        return false;
                    }
                    i += 1;
                }
                assert(value@ =~= expected@);
                true
            },
        }
    }
}

} // verus!
