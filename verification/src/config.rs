use vstd::prelude::*;

use crate::nums::is_uint_literal;
use crate::nums::parse_u16;
use crate::nums::uint_literal_value;
use crate::text::str_eq;

verus! {

/// The connection parameters the config source supplies, already
/// validated: only `sslmode = disable` reaches this point.
pub struct ConnInfo {
    pub host: String,
    pub port: u16,
    pub dbname: String,
    pub user: String,
    pub pass: String,
}

/// The mathematical value of [`ConnInfo`].
pub ghost struct ConnInfoView {
    pub host: Seq<char>,
    pub port: int,
    pub dbname: Seq<char>,
    pub user: Seq<char>,
    pub pass: Seq<char>,
}

impl View for ConnInfo {
    type V = ConnInfoView;

    open spec fn view(&self) -> ConnInfoView {
        ConnInfoView {
            host: self.host@,
            port: self.port as int,
            dbname: self.dbname@,
            user: self.user@,
            pass: self.pass@,
        }
    }
}

/// What can be wrong with the configuration; every case is fatal at
/// startup.
#[derive(Debug)]
pub enum ConfigError {
    MissingHost,
    MissingPort,
    MissingSslMode,
    MissingDbName,
    MissingUser,
    MissingPass,
    SslUnimplemented,
    BadSslMode,
    BadPort,
}

/// The view of an optional borrowed string.
pub open spec fn opt_str_view(o: Option<&str>) -> Option<Seq<char>> {
    match o {
        None => None,
        Some(s) => Some(s@),
    }
}

/// The view of a connection-info result.
pub open spec fn conn_result_view(r: Result<ConnInfo, ConfigError>) -> Result<
    ConnInfoView,
    ConfigError,
> {
    match r {
        Ok(c) => Ok(c@),
        Err(e) => Err(e),
    }
}

/// How the six raw config values become connection parameters: every
/// key must be present (checked in the order the config is read),
/// `sslmode` must be `disable` — `enable` is an unimplemented fatal
/// path, anything else a fatal error — and the port must be a decimal
/// 16-bit number.
pub open spec fn spec_connection_info(
    host: Option<Seq<char>>,
    port: Option<Seq<char>>,
    ssl: Option<Seq<char>>,
    dbname: Option<Seq<char>>,
    user: Option<Seq<char>>,
    pass: Option<Seq<char>>,
) -> Result<ConnInfoView, ConfigError> {
    if host is None {
        Err(ConfigError::MissingHost)
    } else if port is None {
        Err(ConfigError::MissingPort)
    } else if ssl is None {
        Err(ConfigError::MissingSslMode)
    } else if dbname is None {
        Err(ConfigError::MissingDbName)
    } else if user is None {
        Err(ConfigError::MissingUser)
    } else if pass is None {
        Err(ConfigError::MissingPass)
    } else if ssl->0 == "enable"@ {
        Err(ConfigError::SslUnimplemented)
    } else if ssl->0 != "disable"@ {
        Err(ConfigError::BadSslMode)
    } else if !(is_uint_literal(port->0) && uint_literal_value(port->0) <= 0xffff) {
        Err(ConfigError::BadPort)
    } else {
        Ok(
            ConnInfoView {
                host: host->0,
                port: uint_literal_value(port->0),
                dbname: dbname->0,
                user: user->0,
                pass: pass->0,
            },
        )
    }
}

/// Validates the six raw values a config source hands over and builds
/// the connection parameters.
pub fn connection_info(
    host: Option<&str>,
    port: Option<&str>,
    sslmode: Option<&str>,
    dbname: Option<&str>,
    user: Option<&str>,
    pass: Option<&str>,
) -> (r: Result<ConnInfo, ConfigError>)
    ensures
        conn_result_view(r) == spec_connection_info(
            opt_str_view(host),
            opt_str_view(port),
            opt_str_view(sslmode),
            opt_str_view(dbname),
            opt_str_view(user),
            opt_str_view(pass),
        ),
{
    let h = match host {
        Some(h) => h,
        None => {
            return Err(ConfigError::MissingHost);
        },
    };
    let pt = match port {
        Some(p) => p,
        None => {
            return Err(ConfigError::MissingPort);
        },
    };
    let ssl = match sslmode {
        Some(s) => s,
        None => {
            return Err(ConfigError::MissingSslMode);
        },
    };
    let db = match dbname {
        Some(d) => d,
        None => {
            return Err(ConfigError::MissingDbName);
        },
    };
    let us = match user {
        Some(u) => u,
        None => {
            return Err(ConfigError::MissingUser);
        },
    };
    let pw = match pass {
        Some(p) => p,
        None => {
            return Err(ConfigError::MissingPass);
        },
    };
    if str_eq(ssl, "enable") {
        return Err(ConfigError::SslUnimplemented);
    }
    if !str_eq(ssl, "disable") {
        return Err(ConfigError::BadSslMode);
    }
    let p = match parse_u16(pt) {
        Some(p) => p,
        None => {
            return Err(ConfigError::BadPort);
        },
    };
    Ok(
        ConnInfo {
            host: h.to_owned(),
            port: p,
            dbname: db.to_owned(),
            user: us.to_owned(),
            pass: pw.to_owned(),
        },
    )
}

} // verus!
