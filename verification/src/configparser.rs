//! The server's configuration.
use crate::text::{clone_opt_text, decimal_u64, nat_digits, opt_text};
use vstd::prelude::*;
use vstd::string::*;

pub mod client;

verus! {

/// What a `Server` holds.
pub struct ServerView {
    pub bind: Seq<char>,
    pub port: u16,
    pub token: Seq<char>,
    pub database: Seq<char>,
    pub admin_token: Option<Seq<char>>,
}

/// Where the server listens, what it asks of its callers, and where it
/// keeps its data.
#[derive(Debug)]
pub struct Server {
    bind: String,
    port: u16,
    pub(crate) token: String,
    database: String,
    admin_token: Option<String>,
}

impl View for Server {
    type V = ServerView;

    closed spec fn view(&self) -> ServerView {
        ServerView {
            bind: self.bind@,
            port: self.port,
            token: self.token@,
            database: self.database@,
            admin_token: opt_text(self.admin_token),
        }
    }
}

impl Server {
    pub fn new(
        bind: String,
        port: u16,
        token: String,
        database: String,
        admin_token: Option<String>,
    ) -> (r: Server)
        ensures
            r@ == (ServerView {
                bind: bind@,
                port,
                token: token@,
                database: database@,
                admin_token: opt_text(admin_token),
            }),
    {
        Server { bind, port, token, database, admin_token }
    }
}

/// What a `Telegram` holds.
pub struct TelegramView {
    pub bot_token: Seq<char>,
    pub api_server: Option<Seq<char>>,
    pub owner: i64,
}

/// How the operator is reached.
#[derive(Debug)]
pub struct Telegram {
    bot_token: String,
    api_server: Option<String>,
    owner: i64,
}

impl View for Telegram {
    type V = TelegramView;

    closed spec fn view(&self) -> TelegramView {
        TelegramView {
            bot_token: self.bot_token@,
            api_server: opt_text(self.api_server),
            owner: self.owner,
        }
    }
}

impl Telegram {
    pub fn new(bot_token: String, api_server: Option<String>, owner: i64) -> (r: Telegram)
        ensures
            r@ == (TelegramView { bot_token: bot_token@, api_server: opt_text(api_server), owner }),
    {
        Telegram { bot_token, api_server, owner }
    }
}

/// What a `Config` holds.
pub struct ConfigView {
    pub server: ServerView,
    pub telegram: TelegramView,
}

/// The configuration of the server.
#[derive(Debug)]
pub struct Config {
    pub(crate) server: Server,
    telegram: Telegram,
}

impl View for Config {
    type V = ConfigView;

    closed spec fn view(&self) -> ConfigView {
        ConfigView { server: self.server@, telegram: self.telegram@ }
    }
}

/// The address to listen on, as text: the host, a colon, and the port in
/// decimal.
pub open spec fn bind_params(server: ServerView) -> Seq<char> {
    server.bind + ":"@ + nat_digits(server.port as nat)
}

impl Config {
    /// The configuration made of its two parts.
    pub fn from_parts(server: Server, telegram: Telegram) -> (r: Config)
        ensures
            r@ == (ConfigView { server: server@, telegram: telegram@ }),
    {
        Config { server, telegram }
    }

    /// The address to listen on, host and port.
    pub fn get_bind_params(&self) -> (address: String)
        ensures
            address@ == bind_params(self@.server),
    {
        let mut address = self.server.bind.clone();
        address.append(":");
        address.append(decimal_u64(self.server.port as u64).as_str());
        address
    }

    pub fn get_bot_token(&self) -> (bot_token: &String)
        ensures
            bot_token@ == self@.telegram.bot_token,
    {
        &self.telegram.bot_token
    }

    pub fn get_api_server(&self) -> (api_server: &Option<String>)
        ensures
            opt_text(*api_server) == self@.telegram.api_server,
    {
        &self.telegram.api_server
    }

    pub fn get_owner(&self) -> (owner: i64)
        ensures
            owner == self@.telegram.owner,
    {
        self.telegram.owner
    }

    pub fn get_database_location(&self) -> (database: &String)
        ensures
            database@ == self@.server.database,
    {
        &self.server.database
    }

    pub fn get_auth_token(&self) -> (token: &String)
        ensures
            token@ == self@.server.token,
    {
        &self.server.token
    }

    pub fn get_admin_token(&self) -> (admin_token: Option<String>)
        ensures
            opt_text(admin_token) == self@.server.admin_token,
    {
        clone_opt_text(&self.server.admin_token)
    }
}

} // verus!
