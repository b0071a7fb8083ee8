//! Start-up settings: command-line options and the defaults that the
//! environment may override.

use vstd::prelude::*;

use crate::text::{int_reading, parse_i64, parse_u16, text_eq, IntErrorKind};

verus! {

/// Command-line options. `host` is kept as written; it has been checked to be an IP address.
#[derive(Debug, Default, PartialEq, Eq)]
pub struct CliOptions {
    pub host: Option<String>,
    pub port: Option<u16>,
    pub show_help: bool,
    pub show_version: bool,
}

/// Why the command line is refused.
#[derive(Debug, PartialEq, Eq)]
pub enum CliError {
    /// An option that takes a value came last; the option.
    MissingValue(String),
    /// The host value is not an IP address; the value.
    InvalidHost(String),
    /// The port value is not a `u16`; the value and why.
    InvalidPort(String, IntErrorKind),
    /// An argument that no option matches; the argument.
    UnknownArgument(String),
}

/// Abstract view of parsed options: host text, port, help and version flags.
pub type CliView = (Option<Seq<char>>, Option<u16>, bool, bool);

/// Abstract view of a refused command line.
pub enum CliFault {
    MissingValue(Seq<char>),
    InvalidHost(Seq<char>),
    InvalidPort(Seq<char>, IntErrorKind),
    UnknownArgument(Seq<char>),
}

/// Options read from `args[i..]` on top of `st`; `ip_ok[k]` tells whether
/// `args[k]` is an IP address. Options are taken left to right and the first
/// problem met is the error.
pub open spec fn cli_from(args: Seq<Seq<char>>, ip_ok: Seq<bool>, i: int, st: CliView) -> Result<
    CliView,
    CliFault,
>
    decreases args.len() - i,
{
    if i < 0 || i >= args.len() {
        Ok(st)
    } else {
        let a = args[i];
        if a == "-h"@ || a == "--host"@ {
            if i + 1 >= args.len() {
                Err(CliFault::MissingValue(a))
            } else if !ip_ok[i + 1] {
                Err(CliFault::InvalidHost(args[i + 1]))
            } else {
                cli_from(args, ip_ok, i + 2, (Some(args[i + 1]), st.1, st.2, st.3))
            }
        } else if a == "-p"@ || a == "--port"@ {
            if i + 1 >= args.len() {
                Err(CliFault::MissingValue(a))
            } else {
                match int_reading(args[i + 1], false, 65535, 0) {
                    Ok(n) => cli_from(args, ip_ok, i + 2, (st.0, Some(n as u16), st.2, st.3)),
                    Err(k) => Err(CliFault::InvalidPort(args[i + 1], k)),
                }
            }
        } else if a == "--help"@ {
            cli_from(args, ip_ok, i + 1, (st.0, st.1, true, st.3))
        } else if a == "-V"@ || a == "--version"@ {
            cli_from(args, ip_ok, i + 1, (st.0, st.1, st.2, true))
        } else {
            Err(CliFault::UnknownArgument(a))
        }
    }
}

/// The character sequences of the arguments.
pub open spec fn arg_texts(args: Seq<String>) -> Seq<Seq<char>> {
    args.map_values(|s: String| s@)
}

impl CliOptions {
    pub open spec fn view(&self) -> CliView {
        (
            match self.host {
                Some(h) => Some(h@),
                None => None,
            },
            self.port,
            self.show_help,
            self.show_version,
        )
    }
}

impl CliError {
    pub open spec fn view(&self) -> CliFault {
        match self {
            CliError::MissingValue(a) => CliFault::MissingValue(a@),
            CliError::InvalidHost(v) => CliFault::InvalidHost(v@),
            CliError::InvalidPort(v, k) => CliFault::InvalidPort(v@, *k),
            CliError::UnknownArgument(a) => CliFault::UnknownArgument(a@),
        }
    }

    /// The message shown for the error.
    pub open spec fn spec_message(&self) -> Seq<char> {
        match self {
            CliError::MissingValue(a) => "missing value for "@ + a@,
            CliError::InvalidHost(_) => "invalid IP address syntax"@,
            CliError::InvalidPort(_, k) => k.spec_message(),
            CliError::UnknownArgument(a) => "unknown argument: "@ + a@,
        }
    }

    /// The message shown for the error.
    pub fn message(&self) -> (r: String)
        ensures
            r@ == self.spec_message(),
    {
        match self {
            CliError::MissingValue(a) => {
                let mut m = String::from_str("missing value for ");
                m.append(a.as_str());
                m
            },
            CliError::InvalidHost(_) => String::from_str("invalid IP address syntax"),
            CliError::InvalidPort(_, k) => k.message(),
            CliError::UnknownArgument(a) => {
                let mut m = String::from_str("unknown argument: ");
                m.append(a.as_str());
                m
            },
        }
    }
}

/// Parses the command line (program name excluded): `-h`/`--host` with an IP
/// address, `-p`/`--port` with a port number, `--help`, and `-V`/`--version`.
/// `ip_ok[k]` is whether `args[k]` reads as an IP address.
pub fn parse_cli(args: &Vec<String>, ip_ok: &Vec<bool>) -> (r: Result<CliOptions, CliError>)
    requires
        ip_ok.len() == args.len(),
    ensures
        match (r, cli_from(arg_texts(args@), ip_ok@, 0, (None, None, false, false))) {
            (Ok(o), Ok(v)) => o.view() == v,
            (Err(e), Err(f)) => e.view() == f,
            _ => false,
        },
{
    let ghost texts = arg_texts(args@);
    let mut options = CliOptions { host: None, port: None, show_help: false, show_version: false };
    let mut i: usize = 0;
    while i < args.len()
        invariant
            texts == arg_texts(args@),
            ip_ok.len() == args.len(),
            i <= args.len(),
            cli_from(texts, ip_ok@, i as int, options.view()) == cli_from(
                texts,
                ip_ok@,
                0,
                (None, None, false, false),
            ),
        decreases args.len() - i,
    {
        let arg = args[i].as_str();
        assert(texts[i as int] == arg@);
        if text_eq(arg, "-h") || text_eq(arg, "--host") {
            if i + 1 >= args.len() {
                return Err(CliError::MissingValue(args[i].clone()));
            }
            assert(texts[i + 1] == args@[i + 1]@);
            if !ip_ok[i + 1] {
                return Err(CliError::InvalidHost(args[i + 1].clone()));
            }
            options.host = Some(args[i + 1].clone());
            i = i + 2;
        } else if text_eq(arg, "-p") || text_eq(arg, "--port") {
            if i + 1 >= args.len() {
                return Err(CliError::MissingValue(args[i].clone()));
            }
            assert(texts[i + 1] == args@[i + 1]@);
            match parse_u16(args[i + 1].as_str()) {
                Ok(n) => {
                    options.port = Some(n);
                },
                Err(k) => {
                    return Err(CliError::InvalidPort(args[i + 1].clone(), k));
                },
            }
            i = i + 2;
        } else if text_eq(arg, "--help") {
            options.show_help = true;
            i = i + 1;
        } else if text_eq(arg, "-V") || text_eq(arg, "--version") {
            options.show_version = true;
            i = i + 1;
        } else {
            return Err(CliError::UnknownArgument(args[i].clone()));
        }
    }
    Ok(options)
}

/// A host option placed after a command line that parses replaces the host it
/// gave, and changes nothing else: the last `-h`/`--host` wins.
pub proof fn lemma_later_host_replaces(
    args: Seq<Seq<char>>,
    ip_ok: Seq<bool>,
    i: int,
    st: CliView,
    flag: Seq<char>,
    flag_ok: bool,
    host: Seq<char>,
)
    requires
        ip_ok.len() == args.len(),
        0 <= i <= args.len(),
        flag == "-h"@ || flag == "--host"@,
    ensures
        cli_from(args, ip_ok, i, st) matches Ok(v) ==> cli_from(
            args + seq![flag, host],
            ip_ok + seq![flag_ok, true],
            i,
            st,
        ) == Ok::<CliView, CliFault>((Some(host), v.1, v.2, v.3)),
    decreases args.len() - i,
{
    let args2 = args + seq![flag, host];
    let ok2 = ip_ok + seq![flag_ok, true];
    if i == args.len() {
        assert(args2[i] == flag);
        assert(args2[i + 1] == host);
        assert(ok2[i + 1]);
        assert(args2.len() == i + 2);
        assert(cli_from(args2, ok2, i + 2, (Some(host), st.1, st.2, st.3)) == Ok::<CliView, CliFault>(
            (Some(host), st.1, st.2, st.3),
        ));
    } else {
        assert(args2[i] == args[i]);
        if i + 1 < args.len() {
            assert(args2[i + 1] == args[i + 1]);
            assert(ok2[i + 1] == ip_ok[i + 1]);
        }
        let a = args[i];
        if a == "-h"@ || a == "--host"@ {
            if i + 1 < args.len() && ip_ok[i + 1] {
                lemma_later_host_replaces(args, ip_ok, i + 2, (Some(args[i + 1]), st.1, st.2, st.3), flag, flag_ok, host);
            }
        } else if a == "-p"@ || a == "--port"@ {
            if i + 1 < args.len() {
                if let Ok(n) = int_reading(args[i + 1], false, 65535, 0) {
                    lemma_later_host_replaces(args, ip_ok, i + 2, (st.0, Some(n as u16), st.2, st.3), flag, flag_ok, host);
                }
            }
        } else if a == "--help"@ {
            lemma_later_host_replaces(args, ip_ok, i + 1, (st.0, st.1, true, st.3), flag, flag_ok, host);
        } else if a == "-V"@ || a == "--version"@ {
            lemma_later_host_replaces(args, ip_ok, i + 1, (st.0, st.1, st.2, true), flag, flag_ok, host);
        }
    }
}

/// A port option placed after a command line that parses replaces the port it
/// gave, and changes nothing else: the last `-p`/`--port` wins.
pub proof fn lemma_later_port_replaces(
    args: Seq<Seq<char>>,
    ip_ok: Seq<bool>,
    i: int,
    st: CliView,
    flag: Seq<char>,
    flag_ok: bool,
    value: Seq<char>,
    value_ok: bool,
    port: u16,
)
    requires
        ip_ok.len() == args.len(),
        0 <= i <= args.len(),
        flag == "-p"@ || flag == "--port"@,
        int_reading(value, false, 65535, 0) == Ok::<int, IntErrorKind>(port as int),
    ensures
        cli_from(args, ip_ok, i, st) matches Ok(v) ==> cli_from(
            args + seq![flag, value],
            ip_ok + seq![flag_ok, value_ok],
            i,
            st,
        ) == Ok::<CliView, CliFault>((v.0, Some(port), v.2, v.3)),
    decreases args.len() - i,
{
    reveal_strlit("-h");
    reveal_strlit("--host");
    reveal_strlit("-p");
    reveal_strlit("--port");
    let args2 = args + seq![flag, value];
    let ok2 = ip_ok + seq![flag_ok, value_ok];
    if i == args.len() {
        assert(args2[i] == flag);
        assert(args2[i + 1] == value);
        assert(flag != "-h"@ && flag != "--host"@) by {
            assert("-h"@.len() == 2 && "--host"@.len() == 6);
            assert("-p"@[1] == 'p' && "-h"@[1] == 'h');
            assert("--port"@[2] == 'p' && "--host"@[2] == 'h');
        }
        assert(args2.len() == i + 2);
        assert(cli_from(args2, ok2, i + 2, (st.0, Some(port), st.2, st.3)) == Ok::<CliView, CliFault>(
            (st.0, Some(port), st.2, st.3),
        ));
    } else {
        assert(args2[i] == args[i]);
        if i + 1 < args.len() {
            assert(args2[i + 1] == args[i + 1]);
            assert(ok2[i + 1] == ip_ok[i + 1]);
        }
        let a = args[i];
        if a == "-h"@ || a == "--host"@ {
            if i + 1 < args.len() && ip_ok[i + 1] {
                lemma_later_port_replaces(args, ip_ok, i + 2, (Some(args[i + 1]), st.1, st.2, st.3), flag, flag_ok, value, value_ok, port);
            }
        } else if a == "-p"@ || a == "--port"@ {
            if i + 1 < args.len() {
                if let Ok(n) = int_reading(args[i + 1], false, 65535, 0) {
                    lemma_later_port_replaces(args, ip_ok, i + 2, (st.0, Some(n as u16), st.2, st.3), flag, flag_ok, value, value_ok, port);
                }
            }
        } else if a == "--help"@ {
            lemma_later_port_replaces(args, ip_ok, i + 1, (st.0, st.1, true, st.3), flag, flag_ok, value, value_ok, port);
        } else if a == "-V"@ || a == "--version"@ {
            lemma_later_port_replaces(args, ip_ok, i + 1, (st.0, st.1, st.2, true), flag, flag_ok, value, value_ok, port);
        }
    }
}

/// The listening address after the command line: the host option replaces the
/// configured address's host and the port option its port, each only when given.
pub fn bind_address(base_host: String, base_port: u16, cli: &CliOptions) -> (r: (String, u16))
    ensures
        r.0@ == (match cli.host {
            Some(h) => h@,
            None => base_host@,
        }),
        r.1 == (match cli.port {
            Some(p) => p,
            None => base_port,
        }),
{
    let host = match &cli.host {
        Some(h) => h.clone(),
        None => base_host,
    };
    let port = match cli.port {
        Some(p) => p,
        None => base_port,
    };
    (host, port)
}

/// Listening address used when the environment names none.
pub const DEFAULT_BIND: &'static str = "0.0.0.0:18080";

/// Database path used when the environment names none.
pub const DEFAULT_DATABASE_PATH: &'static str = "data/pinginfo.db";

/// Days of results kept when the environment names no valid number.
pub const DEFAULT_RETENTION_DAYS: i64 = 30i64;

/// Settings read from the environment, before the listening address is parsed.
#[derive(Debug)]
pub struct ConfigValues {
    pub bind: String,
    pub database_path: String,
    pub retention_days: i64,
}

/// The settings from optional environment values: the listening address and
/// database path default when absent; the retention is the value read as an
/// `i64`, or 30 when it is absent or not a number.
pub fn config_values(
    bind: Option<String>,
    database_path: Option<String>,
    retention_days: Option<String>,
) -> (r: ConfigValues)
    ensures
        r.bind@ == (match bind {
            Some(b) => b@,
            None => DEFAULT_BIND@,
        }),
        r.database_path@ == (match database_path {
            Some(p) => p@,
            None => DEFAULT_DATABASE_PATH@,
        }),
        r.retention_days == (match retention_days {
            Some(v) => match int_reading(
                v@,
                true,
                0x7fff_ffff_ffff_ffff,
                0x8000_0000_0000_0000,
            ) {
                Ok(n) => n,
                Err(_) => DEFAULT_RETENTION_DAYS as int,
            },
            None => DEFAULT_RETENTION_DAYS as int,
        }),
{
    let bind = match bind {
        Some(b) => b,
        None => String::from_str(DEFAULT_BIND),
    };
    let database_path = match database_path {
        Some(p) => p,
        None => String::from_str(DEFAULT_DATABASE_PATH),
    };
    let retention_days = match retention_days {
        Some(v) => match parse_i64(v.as_str()) {
            Ok(n) => n,
            Err(_) => DEFAULT_RETENTION_DAYS,
        },
        None => DEFAULT_RETENTION_DAYS,
    };
    ConfigValues { bind, database_path, retention_days }
}

} // verus!
