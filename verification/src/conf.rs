//! The configuration record and the payload that asks for it.

use vstd::prelude::*;

verus! {

/// The resolved configuration of a service: where it listens and how it
/// reaches its database.
#[derive(PartialEq, Debug, Clone)]
pub struct Conf {
    pub pg_db_port: String,
    pub pg_db_host: String,
    pub pg_db_name: String,
    pub pg_db_username: String,
    pub pg_db_password: String,
    pub port: u16,
    pub host: String,
}

/// What a `Conf` holds, as plain mathematical values.
pub ghost struct ConfView {
    pub pg_db_port: Seq<char>,
    pub pg_db_host: Seq<char>,
    pub pg_db_name: Seq<char>,
    pub pg_db_username: Seq<char>,
    pub pg_db_password: Seq<char>,
    pub port: u16,
    pub host: Seq<char>,
}

impl View for Conf {
    type V = ConfView;

    open spec fn view(&self) -> ConfView {
        ConfView {
            pg_db_port: self.pg_db_port@,
            pg_db_host: self.pg_db_host@,
            pg_db_name: self.pg_db_name@,
            pg_db_username: self.pg_db_username@,
            pg_db_password: self.pg_db_password@,
            port: self.port,
            host: self.host@,
        }
    }
}

/// The record in which every text is empty and the port is zero.
pub open spec fn empty_conf() -> ConfView {
    ConfView {
        pg_db_port: Seq::empty(),
        pg_db_host: Seq::empty(),
        pg_db_name: Seq::empty(),
        pg_db_username: Seq::empty(),
        pg_db_password: Seq::empty(),
        port: 0,
        host: Seq::empty(),
    }
}

impl Default for Conf {
    fn default() -> (conf: Conf)
        ensures
            conf@ == empty_conf(),
    {
        Conf {
            pg_db_port: String::new(),
            pg_db_host: String::new(),
            pg_db_name: String::new(),
            pg_db_username: String::new(),
            pg_db_password: String::new(),
            port: 0,
            host: String::new(),
        }
    }
}

/// The payload of a request to the configuration authority: the name of the
/// application whose configuration is wanted.
#[derive(PartialEq, Debug, Clone)]
pub struct ReqConfStruct {
    pub app_name: String,
}

/// The configuration under which the configuration authority itself runs.
pub open spec fn conf_service_defaults() -> ConfView {
    ConfView {
        pg_db_port: "15500"@,
        pg_db_host: "127.0.0.1"@,
        pg_db_name: "conf"@,
        pg_db_username: "postgres"@,
        pg_db_password: "postgres"@,
        port: 14200,
        host: "127.0.0.1"@,
    }
}

/// The configuration of the configuration authority: it cannot ask itself, so
/// its record is fixed.
pub fn init_conf_service() -> (conf: Conf)
    ensures
        conf@ == conf_service_defaults(),
{
    Conf {
        port: 14200,
        host: "127.0.0.1".to_owned(),
        pg_db_port: "15500".to_owned(),
        pg_db_host: "127.0.0.1".to_owned(),
        pg_db_name: "conf".to_owned(),
        pg_db_password: "postgres".to_owned(),
        pg_db_username: "postgres".to_owned(),
    }
}

} // verus!
