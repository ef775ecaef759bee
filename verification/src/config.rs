//! Server configuration: the documented defaults, the validation rules, and
//! the application of textual overrides (as read from the environment by the
//! surrounding program) with verified numeric and boolean parsing.

use vstd::prelude::*;
use vstd::string::StringExecFns;
use crate::codec::hex_val;
use crate::errors::HubError;
use crate::text::chars_of_str;

verus! {

/// Top-level configuration.
#[derive(Debug, Clone, PartialEq)]
pub struct Config {
    pub host: String,
    pub port: u16,
    pub db_path: String,
    pub max_connections_per_channel: usize,
    pub message_size_limit: usize,
    pub log_level: String,
    pub cors: CorsConfig,
    pub websocket: WebSocketConfig,
    pub persistence: PersistenceConfig,
}

/// Cross-origin settings for the HTTP layer.
#[derive(Debug, Clone, PartialEq)]
pub struct CorsConfig {
    pub allowed_origins: Vec<String>,
    pub allowed_methods: Vec<String>,
    pub allowed_headers: Vec<String>,
    pub max_age: u32,
}

/// Transport settings for streaming connections.
#[derive(Debug, Clone, Copy, PartialEq, Eq)]
pub struct WebSocketConfig {
    pub connection_timeout: u64,
    pub max_continuation_size: usize,
    pub ping_interval: u64,
    pub pong_timeout: u64,
}

/// Durability settings.
#[derive(Debug, Clone, Copy, PartialEq, Eq)]
pub struct PersistenceConfig {
    pub persist_messages_default: bool,
    pub max_messages_per_channel: usize,
    pub message_retention_days: u32,
    pub auto_backup: bool,
    pub backup_interval_hours: u32,
}

impl Default for WebSocketConfig {
    fn default() -> (r: Self)
        ensures
            r == (WebSocketConfig {
                connection_timeout: 30u64,
                max_continuation_size: 1048576usize,
                ping_interval: 30u64,
                pong_timeout: 10u64,
            }),
    {
        WebSocketConfig {
            connection_timeout: 30,
            max_continuation_size: 1048576,
            ping_interval: 30,
            pong_timeout: 10,
        }
    }
}

impl Default for PersistenceConfig {
    fn default() -> (r: Self)
        ensures
            r == (PersistenceConfig {
                persist_messages_default: false,
                max_messages_per_channel: 10000usize,
                message_retention_days: 30u32,
                auto_backup: false,
                backup_interval_hours: 24u32,
            }),
    {
        PersistenceConfig {
            persist_messages_default: false,
            max_messages_per_channel: 10000,
            message_retention_days: 30,
            auto_backup: false,
            backup_interval_hours: 24,
        }
    }
}

/// The default origins allowed by CORS: the local development hosts.
pub open spec fn default_origins() -> Seq<Seq<char>> {
    seq![
        "http://localhost:3000"@,
        "http://localhost:8080"@,
        "http://127.0.0.1:3000"@,
        "http://127.0.0.1:8080"@,
    ]
}

pub open spec fn default_methods() -> Seq<Seq<char>> {
    seq!["GET"@, "POST"@, "PUT"@, "DELETE"@, "OPTIONS"@]
}

pub open spec fn default_headers() -> Seq<Seq<char>> {
    seq!["Content-Type"@, "Authorization"@, "Accept"@, "Origin"@, "X-Requested-With"@]
}

impl Default for CorsConfig {
    fn default() -> (r: Self)
        ensures
            r.allowed_origins.deep_view() == default_origins(),
            r.allowed_methods.deep_view() == default_methods(),
            r.allowed_headers.deep_view() == default_headers(),
            r.max_age == 3600,
    {
        let mut origins: Vec<String> = Vec::new();
        origins.push(String::from_str("http://localhost:3000"));
        origins.push(String::from_str("http://localhost:8080"));
        origins.push(String::from_str("http://127.0.0.1:3000"));
        origins.push(String::from_str("http://127.0.0.1:8080"));
        let mut methods: Vec<String> = Vec::new();
        methods.push(String::from_str("GET"));
        methods.push(String::from_str("POST"));
        methods.push(String::from_str("PUT"));
        methods.push(String::from_str("DELETE"));
        methods.push(String::from_str("OPTIONS"));
        let mut headers: Vec<String> = Vec::new();
        headers.push(String::from_str("Content-Type"));
        headers.push(String::from_str("Authorization"));
        headers.push(String::from_str("Accept"));
        headers.push(String::from_str("Origin"));
        headers.push(String::from_str("X-Requested-With"));
        proof {
            assert(origins.deep_view() =~= default_origins());
            assert(methods.deep_view() =~= default_methods());
            assert(headers.deep_view() =~= default_headers());
        }
        CorsConfig {
            allowed_origins: origins,
            allowed_methods: methods,
            allowed_headers: headers,
            max_age: 3600,
        }
    }
}

impl Default for Config {
    fn default() -> (r: Self)
        ensures
            r.host@ == "127.0.0.1"@,
            r.port == 8080,
            r.db_path@ == "emit_hub.redb"@,
            r.max_connections_per_channel == 1000,
            r.message_size_limit == 1048576,
            r.log_level@ == "info"@,
            r.cors.allowed_origins.deep_view() == default_origins(),
            r.cors.allowed_methods.deep_view() == default_methods(),
            r.cors.allowed_headers.deep_view() == default_headers(),
            r.cors.max_age == 3600,
            r.websocket == (WebSocketConfig {
                connection_timeout: 30u64,
                max_continuation_size: 1048576usize,
                ping_interval: 30u64,
                pong_timeout: 10u64,
            }),
            r.persistence == (PersistenceConfig {
                persist_messages_default: false,
                max_messages_per_channel: 10000usize,
                message_retention_days: 30u32,
                auto_backup: false,
                backup_interval_hours: 24u32,
            }),
    {
        Config {
            host: String::from_str("127.0.0.1"),
            port: 8080,
            db_path: String::from_str("emit_hub.redb"),
            max_connections_per_channel: 1000,
            message_size_limit: 1048576,
            log_level: String::from_str("info"),
            cors: CorsConfig::default(),
            websocket: WebSocketConfig::default(),
            persistence: PersistenceConfig::default(),
        }
    }
}

/// The validation rule: every bound that gates the server must be non-zero.
pub open spec fn config_valid(
    port: u16,
    max_conn: usize,
    msg_limit: usize,
    ws_timeout: u64,
    retention: u32,
) -> bool {
    port != 0 && max_conn != 0 && msg_limit != 0 && ws_timeout != 0 && retention != 0
}

impl Config {
    /// Check the non-zero bounds. (Preparing the database directory is the
    /// surrounding program's part.)
    pub fn validate(&self) -> (r: Result<(), HubError>)
        ensures
            r is Ok <==> config_valid(
                self.port,
                self.max_connections_per_channel,
                self.message_size_limit,
                self.websocket.connection_timeout,
                self.persistence.message_retention_days,
            ),
            r is Err ==> r == Err::<(), HubError>(HubError::ValidationError),
    {
        if self.port == 0 {
            return Err(HubError::ValidationError);
        }
        if self.max_connections_per_channel == 0 {
            return Err(HubError::ValidationError);
        }
        if self.message_size_limit == 0 {
            return Err(HubError::ValidationError);
        }
        if self.websocket.connection_timeout == 0 {
            return Err(HubError::ValidationError);
        }
        if self.persistence.message_retention_days == 0 {
            return Err(HubError::ValidationError);
        }
        Ok(())
    }
}

pub open spec fn is_dec_digit(c: char) -> bool {
    hex_val(c) < 10
}

/// The value of a decimal digit string, most significant first.
pub open spec fn dec_val(s: Seq<char>) -> nat
    decreases s.len(),
{
    if s.len() == 0 {
        0
    } else {
        dec_val(s.drop_last()) * 10 + hex_val(s.last()) % 10
    }
}

/// What a numeric setting accepts: one or more decimal digits, denoting a
/// value that fits the type.
pub open spec fn parse_u64_spec(s: Seq<char>) -> Option<u64> {
    if s.len() > 0 && (forall|i: int| 0 <= i < s.len() ==> is_dec_digit(#[trigger] s[i]))
        && dec_val(s) <= u64::MAX {
        Some(dec_val(s) as u64)
    } else {
        None
    }
}

/// What a boolean setting accepts: exactly `true` or `false`.
pub open spec fn parse_bool_spec(s: Seq<char>) -> Option<bool> {
    if s == "true"@ {
        Some(true)
    } else if s == "false"@ {
        Some(false)
    } else {
        None
    }
}

/// Parse a decimal setting, exactly as `parse_u64_spec` says.
pub fn parse_u64(s: &str) -> (r: Option<u64>)
    ensures
        r == parse_u64_spec(s@),
{
    let v = chars_of_str(s);
    let n = v.len();
    if n == 0 {
        return None;
    }
    let mut acc: u64 = 0;
    let mut too_big = false;
    let mut k: usize = 0;
    while k < n
        invariant
            k <= n,
            n == v@.len(),
            v@ == s@,
            forall|j: int| 0 <= j < k ==> is_dec_digit(#[trigger] v@[j]),
            !too_big ==> acc as nat == dec_val(s@.subrange(0, k as int)),
            too_big ==> dec_val(s@.subrange(0, k as int)) > u64::MAX,
        decreases n - k,
    {
        let c = v[k];
        let d: u8 = if c == '0' { 0 } else if c == '1' { 1 } else if c == '2' { 2 }
        else if c == '3' { 3 } else if c == '4' { 4 } else if c == '5' { 5 }
        else if c == '6' { 6 } else if c == '7' { 7 } else if c == '8' { 8 }
        else if c == '9' { 9 } else { 10 };
        if d >= 10 {
            return None;
        }
        let ghost pre = s@.subrange(0, k as int);
        proof {
            let ext = pre.push(s@[k as int]);
            assert(s@.subrange(0, k + 1) =~= ext);
            assert(ext.drop_last() =~= pre);
            assert(ext.last() == s@[k as int]);
        }
        if too_big {
        } else {
            let wide: u128 = (acc as u128) * 10 + (d as u128);
            if wide > u64::MAX as u128 {
                too_big = true;
            } else {
                acc = wide as u64;
            }
        }
        k = k + 1;
    }
    proof {
        assert(s@.subrange(0, n as int) =~= s@);
    }
    if too_big {
        None
    } else {
        Some(acc)
    }
}

/// Parse a boolean setting, exactly as `parse_bool_spec` says.
pub fn parse_bool(s: &str) -> (r: Option<bool>)
    ensures
        r == parse_bool_spec(s@),
{
    let v = chars_of_str(s);
    proof {
        reveal_strlit("true");
        reveal_strlit("false");
    }
    if v.len() == 4 && v[0] == 't' && v[1] == 'r' && v[2] == 'u' && v[3] == 'e' {
        proof {
            assert(s@ =~= "true"@);
        }
        Some(true)
    } else if v.len() == 5 && v[0] == 'f' && v[1] == 'a' && v[2] == 'l' && v[3] == 's' && v[4]
        == 'e' {
        proof {
            assert(s@ =~= "false"@);
        }
        Some(false)
    } else {
        proof {
            if s@ == "true"@ {
                assert(v@ =~= "true"@);
            }
            if s@ == "false"@ {
                assert(v@ =~= "false"@);
            }
        }
        None
    }
}

/// The textual overrides the surrounding program reads from the
/// environment; a field left `None` keeps the base value.
#[derive(Debug, Default)]
pub struct ConfigOverrides {
    pub host: Option<String>,
    pub port: Option<String>,
    pub db_path: Option<String>,
    pub max_connections: Option<String>,
    pub message_size_limit: Option<String>,
    pub log_level: Option<String>,
    pub cors_origins: Option<Vec<String>>,
    pub ws_timeout: Option<String>,
    pub ws_ping_interval: Option<String>,
    pub persist_messages: Option<String>,
    pub message_retention_days: Option<String>,
    pub auto_backup: Option<String>,
}

/// The value a sixteen-bit setting settles on, or nothing when its text is
/// bad or out of range.
pub open spec fn eff_u16(base: u16, o: Option<String>) -> Option<u16> {
    match o {
        None => Some(base),
        Some(p) => match parse_u64_spec(p@) {
            Some(x) => if x <= u16::MAX {
                Some(x as u16)
            } else {
                None
            },
            None => None,
        },
    }
}

pub open spec fn eff_usize(base: usize, o: Option<String>) -> Option<usize> {
    match o {
        None => Some(base),
        Some(p) => match parse_u64_spec(p@) {
            Some(x) => if x <= usize::MAX {
                Some(x as usize)
            } else {
                None
            },
            None => None,
        },
    }
}

pub open spec fn eff_u64(base: u64, o: Option<String>) -> Option<u64> {
    match o {
        None => Some(base),
        Some(p) => parse_u64_spec(p@),
    }
}

pub open spec fn eff_u32(base: u32, o: Option<String>) -> Option<u32> {
    match o {
        None => Some(base),
        Some(p) => match parse_u64_spec(p@) {
            Some(x) => if x <= u32::MAX {
                Some(x as u32)
            } else {
                None
            },
            None => None,
        },
    }
}

pub open spec fn eff_bool(base: bool, o: Option<String>) -> Option<bool> {
    match o {
        None => Some(base),
        Some(p) => parse_bool_spec(p@),
    }
}


fn settle_u16(o: &Option<String>, base: u16) -> (r: Result<u16, HubError>)
    ensures
        r is Ok <==> eff_u16(base, *o) is Some,
        r matches Ok(x) ==> Some(x) == eff_u16(base, *o),
        r is Err ==> r == Err::<u16, HubError>(HubError::ValidationError),
{
    match o {
        None => Ok(base),
        Some(p) => match parse_u64(p.as_str()) {
            Some(x) => if x <= u16::MAX as u64 {
                Ok(x as u16)
            } else {
                Err(HubError::ValidationError)
            },
            None => Err(HubError::ValidationError),
        },
    }
}

fn settle_usize(o: &Option<String>, base: usize) -> (r: Result<usize, HubError>)
    ensures
        r is Ok <==> eff_usize(base, *o) is Some,
        r matches Ok(x) ==> Some(x) == eff_usize(base, *o),
        r is Err ==> r == Err::<usize, HubError>(HubError::ValidationError),
{
    match o {
        None => Ok(base),
        Some(p) => match parse_u64(p.as_str()) {
            Some(x) => if x <= usize::MAX as u64 {
                Ok(x as usize)
            } else {
                Err(HubError::ValidationError)
            },
            None => Err(HubError::ValidationError),
        },
    }
}

fn settle_u64(o: &Option<String>, base: u64) -> (r: Result<u64, HubError>)
    ensures
        r is Ok <==> eff_u64(base, *o) is Some,
        r matches Ok(x) ==> Some(x) == eff_u64(base, *o),
        r is Err ==> r == Err::<u64, HubError>(HubError::ValidationError),
{
    match o {
        None => Ok(base),
        Some(p) => match parse_u64(p.as_str()) {
            Some(x) => Ok(x),
            None => Err(HubError::ValidationError),
        },
    }
}

fn settle_u32(o: &Option<String>, base: u32) -> (r: Result<u32, HubError>)
    ensures
        r is Ok <==> eff_u32(base, *o) is Some,
        r matches Ok(x) ==> Some(x) == eff_u32(base, *o),
        r is Err ==> r == Err::<u32, HubError>(HubError::ValidationError),
{
    match o {
        None => Ok(base),
        Some(p) => match parse_u64(p.as_str()) {
            Some(x) => if x <= u32::MAX as u64 {
                Ok(x as u32)
            } else {
                Err(HubError::ValidationError)
            },
            None => Err(HubError::ValidationError),
        },
    }
}

fn settle_bool(o: &Option<String>, base: bool) -> (r: Result<bool, HubError>)
    ensures
        r is Ok <==> eff_bool(base, *o) is Some,
        r matches Ok(x) ==> Some(x) == eff_bool(base, *o),
        r is Err ==> r == Err::<bool, HubError>(HubError::ValidationError),
{
    match o {
        None => Ok(base),
        Some(p) => match parse_bool(p.as_str()) {
            Some(b) => Ok(b),
            None => Err(HubError::ValidationError),
        },
    }
}

impl Config {
    /// Lay the overrides over this configuration: every present field must
    /// parse, and the settled values must pass validation; otherwise the
    /// whole application is refused and nothing of it is returned.
    #[verifier::rlimit(100)]
    #[verifier::spinoff_prover]
    pub fn apply_overrides(self, ov: ConfigOverrides) -> (r: Result<Config, HubError>)
        ensures
            r is Ok <==> {
                &&& eff_u16(self.port, ov.port) is Some
                &&& eff_usize(self.max_connections_per_channel, ov.max_connections) is Some
                &&& eff_usize(self.message_size_limit, ov.message_size_limit) is Some
                &&& eff_u64(self.websocket.connection_timeout, ov.ws_timeout) is Some
                &&& eff_u64(self.websocket.ping_interval, ov.ws_ping_interval) is Some
                &&& eff_bool(self.persistence.persist_messages_default, ov.persist_messages)
                    is Some
                &&& eff_u32(self.persistence.message_retention_days, ov.message_retention_days)
                    is Some
                &&& eff_bool(self.persistence.auto_backup, ov.auto_backup) is Some
                &&& config_valid(
                    eff_u16(self.port, ov.port)->Some_0,
                    eff_usize(self.max_connections_per_channel, ov.max_connections)->Some_0,
                    eff_usize(self.message_size_limit, ov.message_size_limit)->Some_0,
                    eff_u64(self.websocket.connection_timeout, ov.ws_timeout)->Some_0,
                    eff_u32(self.persistence.message_retention_days, ov.message_retention_days)
                        ->Some_0,
                )
            },
            r is Err ==> r == Err::<Config, HubError>(HubError::ValidationError),
            r matches Ok(c) ==> {
                &&& c.host == (match ov.host {
                    Some(h) => h,
                    None => self.host,
                })
                &&& c.db_path == (match ov.db_path {
                    Some(p) => p,
                    None => self.db_path,
                })
                &&& c.log_level == (match ov.log_level {
                    Some(l) => l,
                    None => self.log_level,
                })
                &&& c.cors.allowed_origins == (match ov.cors_origins {
                    Some(o) => o,
                    None => self.cors.allowed_origins,
                })
                &&& c.cors.allowed_methods == self.cors.allowed_methods
                &&& c.cors.allowed_headers == self.cors.allowed_headers
                &&& c.cors.max_age == self.cors.max_age
                &&& Some(c.port) == eff_u16(self.port, ov.port)
                &&& Some(c.max_connections_per_channel) == eff_usize(
                    self.max_connections_per_channel,
                    ov.max_connections,
                )
                &&& Some(c.message_size_limit) == eff_usize(
                    self.message_size_limit,
                    ov.message_size_limit,
                )
                &&& Some(c.websocket.connection_timeout) == eff_u64(
                    self.websocket.connection_timeout,
                    ov.ws_timeout,
                )
                &&& Some(c.websocket.ping_interval) == eff_u64(
                    self.websocket.ping_interval,
                    ov.ws_ping_interval,
                )
                &&& c.websocket.max_continuation_size == self.websocket.max_continuation_size
                &&& c.websocket.pong_timeout == self.websocket.pong_timeout
                &&& Some(c.persistence.persist_messages_default) == eff_bool(
                    self.persistence.persist_messages_default,
                    ov.persist_messages,
                )
                &&& Some(c.persistence.message_retention_days) == eff_u32(
                    self.persistence.message_retention_days,
                    ov.message_retention_days,
                )
                &&& Some(c.persistence.auto_backup) == eff_bool(
                    self.persistence.auto_backup,
                    ov.auto_backup,
                )
                &&& c.persistence.max_messages_per_channel
                    == self.persistence.max_messages_per_channel
                &&& c.persistence.backup_interval_hours
                    == self.persistence.backup_interval_hours
            },
    {
        let mut c = self;
        match ov.host {
            Some(h) => {
                c.host = h;
            },
            None => {},
        }
        match ov.db_path {
            Some(p) => {
                c.db_path = p;
            },
            None => {},
        }
        match ov.log_level {
            Some(l) => {
                c.log_level = l;
            },
            None => {},
        }
        match ov.cors_origins {
            Some(o) => {
                c.cors.allowed_origins = o;
            },
            None => {},
        }
        c.port = match settle_u16(&ov.port, c.port) {
            Ok(x) => x,
            Err(e) => {
                return Err(e);
            },
        };
        c.max_connections_per_channel = match settle_usize(
            &ov.max_connections,
            c.max_connections_per_channel,
        ) {
            Ok(x) => x,
            Err(e) => {
                return Err(e);
            },
        };
        c.message_size_limit = match settle_usize(&ov.message_size_limit, c.message_size_limit) {
            Ok(x) => x,
            Err(e) => {
                return Err(e);
            },
        };
        c.websocket.connection_timeout = match settle_u64(
            &ov.ws_timeout,
            c.websocket.connection_timeout,
        ) {
            Ok(x) => x,
            Err(e) => {
                return Err(e);
            },
        };
        c.websocket.ping_interval = match settle_u64(
            &ov.ws_ping_interval,
            c.websocket.ping_interval,
        ) {
            Ok(x) => x,
            Err(e) => {
                return Err(e);
            },
        };
        c.persistence.persist_messages_default = match settle_bool(
            &ov.persist_messages,
            c.persistence.persist_messages_default,
        ) {
            Ok(x) => x,
            Err(e) => {
                return Err(e);
            },
        };
        c.persistence.message_retention_days = match settle_u32(
            &ov.message_retention_days,
            c.persistence.message_retention_days,
        ) {
            Ok(x) => x,
            Err(e) => {
                return Err(e);
            },
        };
        c.persistence.auto_backup = match settle_bool(&ov.auto_backup, c.persistence.auto_backup) {
            Ok(x) => x,
            Err(e) => {
                return Err(e);
            },
        };
        match c.validate() {
            Ok(()) => Ok(c),
            Err(e) => Err(e),
        }
    }
}

} // verus!
