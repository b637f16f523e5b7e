//! The hub's settings from its environment and command line.

use vstd::prelude::*;

use crate::text::{parse_decimal, parse_u64, str_equal};

verus! {

pub const DEFAULT_BIND_ADDR: &'static str = "0.0.0.0:5000";
pub const DEFAULT_DB_PATH: &'static str = "uchi-pulse.db";
pub const DEFAULT_HELLO_REQUEST_ADDR: &'static str = "255.255.255.255:5000";
pub const DEFAULT_OFFLINE_TIMEOUT_SEC: u64 = 180;

/// The settings the hub runs with.
#[derive(Debug, PartialEq, Eq)]
pub struct HubConfig {
    pub bind_addr: String,
    pub db_path: String,
    pub hello_request_addr: String,
    pub offline_timeout_sec: u64,
    pub cdc_device: Option<String>,
}

pub ghost struct HubConfigView {
    pub bind_addr: Seq<char>,
    pub db_path: Seq<char>,
    pub hello_request_addr: Seq<char>,
    pub offline_timeout_sec: u64,
    pub cdc_device: Option<Seq<char>>,
}

impl View for HubConfig {
    type V = HubConfigView;

    open spec fn view(&self) -> HubConfigView {
        HubConfigView {
            bind_addr: self.bind_addr@,
            db_path: self.db_path@,
            hello_request_addr: self.hello_request_addr@,
            offline_timeout_sec: self.offline_timeout_sec,
            cdc_device: match self.cdc_device {
                Some(d) => Some(d@),
                None => None,
            },
        }
    }
}

/// The `UCHI_PULSE_*` variables that are set.
#[derive(Debug, Default)]
pub struct HubEnvironment {
    pub bind_addr: Option<String>,
    pub db_path: Option<String>,
    pub hello_request_addr: Option<String>,
    pub offline_timeout_sec: Option<String>,
    pub cdc_device: Option<String>,
}

/// What the command line asks for.
#[derive(Debug, PartialEq, Eq)]
pub enum HubCommand {
    Run(HubConfig),
    /// Print the usage and stop.
    Help,
}

pub open spec fn or_default(value: Option<String>, default: Seq<char>) -> Seq<char> {
    match value {
        Some(v) => v@,
        None => default,
    }
}

/// The settings from the environment alone, or why they are unusable.
pub open spec fn env_config(env: HubEnvironment) -> Result<HubConfigView, Seq<char>> {
    let timeout = match env.offline_timeout_sec {
        Some(t) => parse_decimal(t@),
        None => Some(DEFAULT_OFFLINE_TIMEOUT_SEC),
    };
    match timeout {
        None => Err("UCHI_PULSE_OFFLINE_TIMEOUT_SEC must be an integer"@),
        Some(t) => Ok(
            HubConfigView {
                bind_addr: or_default(env.bind_addr, DEFAULT_BIND_ADDR@),
                db_path: or_default(env.db_path, DEFAULT_DB_PATH@),
                hello_request_addr: or_default(env.hello_request_addr, DEFAULT_HELLO_REQUEST_ADDR@),
                offline_timeout_sec: t,
                cdc_device: match env.cdc_device {
                    Some(d) => Some(d@),
                    None => None,
                },
            },
        ),
    }
}

/// The settings after the arguments `args`, read from the front: each
/// option takes the next argument as its value; `--help` or `-h` stops with
/// the usage.
pub open spec fn run_args(config: HubConfigView, args: Seq<Seq<char>>) -> Result<Option<HubConfigView>, Seq<char>>
    decreases args.len(),
{
    if args.len() == 0 {
        Ok(Some(config))
    } else {
        let a = args[0];
        let rest = args.subrange(2, args.len() as int);
        if a == "--bind"@ {
            if args.len() < 2 {
                Err("--bind requires an address"@)
            } else {
                run_args(HubConfigView { bind_addr: args[1], ..config }, rest)
            }
        } else if a == "--db"@ {
            if args.len() < 2 {
                Err("--db requires a path"@)
            } else {
                run_args(HubConfigView { db_path: args[1], ..config }, rest)
            }
        } else if a == "--hello-request-addr"@ {
            if args.len() < 2 {
                Err("--hello-request-addr requires an address"@)
            } else {
                run_args(HubConfigView { hello_request_addr: args[1], ..config }, rest)
            }
        } else if a == "--offline-timeout-sec"@ {
            if args.len() < 2 {
                Err("--offline-timeout-sec requires seconds"@)
            } else {
                match parse_decimal(args[1]) {
                    None => Err("--offline-timeout-sec must be an integer"@),
                    Some(t) => run_args(HubConfigView { offline_timeout_sec: t, ..config }, rest),
                }
            }
        } else if a == "--cdc-device"@ {
            if args.len() < 2 {
                Err("--cdc-device requires a path"@)
            } else {
                run_args(HubConfigView { cdc_device: Some(args[1]), ..config }, rest)
            }
        } else if a == "--help"@ || a == "-h"@ {
            Ok(None)
        } else {
            Err("unknown argument: "@ + a)
        }
    }
}

pub open spec fn arg_views(args: Seq<String>) -> Seq<Seq<char>> {
    args.map_values(|a: String| a@)
}

fn value_of(env: &Option<String>, default: &str) -> (r: String)
    ensures
        r@ == or_default(*env, default@),
{
    match env {
        Some(v) => v.clone(),
        None => default.to_owned(),
    }
}

impl HubConfig {
    /// The offline timeout in milliseconds, saturating at `u64::MAX`.
    pub fn offline_timeout_ms(&self) -> (r: u64)
        ensures
            r == if self.offline_timeout_sec * 1000 <= u64::MAX {
                (self.offline_timeout_sec * 1000) as u64
            } else {
                u64::MAX
            },
    {
        if self.offline_timeout_sec <= u64::MAX / 1000 {
            self.offline_timeout_sec * 1000
        } else {
            u64::MAX
        }
    }

    /// The hub's settings: the environment, then the command-line options
    /// (without the program name), which take precedence.
    pub fn from_args(env: &HubEnvironment, args: &[String]) -> (r: Result<HubCommand, String>)
        ensures
            match env_config(*env) {
                Err(m) => r matches Err(e) && e@ == m,
                Ok(base) => match run_args(base, arg_views(args@)) {
                    Err(m) => r matches Err(e) && e@ == m,
                    Ok(None) => r == Ok::<HubCommand, String>(HubCommand::Help),
                    Ok(Some(c)) => r matches Ok(HubCommand::Run(config)) && config@ == c,
                },
            },
    {
        let offline_timeout_sec = match &env.offline_timeout_sec {
            Some(t) => match parse_u64(t.as_str()) {
                Some(v) => v,
                None => {
                    return Err("UCHI_PULSE_OFFLINE_TIMEOUT_SEC must be an integer".to_owned());
                },
            },
            None => DEFAULT_OFFLINE_TIMEOUT_SEC,
        };
        let mut config = HubConfig {
            bind_addr: value_of(&env.bind_addr, DEFAULT_BIND_ADDR),
            db_path: value_of(&env.db_path, DEFAULT_DB_PATH),
            hello_request_addr: value_of(&env.hello_request_addr, DEFAULT_HELLO_REQUEST_ADDR),
            offline_timeout_sec,
            cdc_device: match &env.cdc_device {
                Some(d) => Some(d.clone()),
                None => None,
            },
        };
        let ghost views = arg_views(args@);
        proof {
            assert(views.subrange(0, views.len() as int) =~= views);
            assert(env_config(*env) == Ok::<HubConfigView, Seq<char>>(config@));
        }
        let mut i: usize = 0;
        while i < args.len()
            invariant
                i <= args@.len(),
                i % 2 == 0 || i == args@.len(),
                views == arg_views(args@),
                env_config(*env) matches Ok(base) && run_args(base, views) == run_args(
                    config@,
                    views.subrange(i as int, views.len() as int),
                ),
            decreases args@.len() - i,
        {
            let ghost tail = views.subrange(i as int, views.len() as int);
            proof {
                assert(tail[0] == args@[i as int]@);
                if i + 1 < args@.len() {
                    assert(tail[1] == args@[i as int + 1]@);
                }
                if i + 2 <= views.len() {
                    assert(tail.subrange(2, tail.len() as int) =~= views.subrange(
                        i as int + 2,
                        views.len() as int,
                    ));
                }
            }
            let a = args[i].as_str();
            if str_equal(a, "--bind") {
                if i + 1 >= args.len() {
                    return Err("--bind requires an address".to_owned());
                }
                config.bind_addr = args[i + 1].clone();
            } else if str_equal(a, "--db") {
                if i + 1 >= args.len() {
                    return Err("--db requires a path".to_owned());
                }
                config.db_path = args[i + 1].clone();
            } else if str_equal(a, "--hello-request-addr") {
                if i + 1 >= args.len() {
                    return Err("--hello-request-addr requires an address".to_owned());
                }
                config.hello_request_addr = args[i + 1].clone();
            } else if str_equal(a, "--offline-timeout-sec") {
                if i + 1 >= args.len() {
                    return Err("--offline-timeout-sec requires seconds".to_owned());
                }
                match parse_u64(args[i + 1].as_str()) {
                    Some(v) => {
                        config.offline_timeout_sec = v;
                    },
                    None => {
                        return Err("--offline-timeout-sec must be an integer".to_owned());
                    },
                }
            } else if str_equal(a, "--cdc-device") {
                if i + 1 >= args.len() {
                    return Err("--cdc-device requires a path".to_owned());
                }
                config.cdc_device = Some(args[i + 1].clone());
            } else if str_equal(a, "--help") || str_equal(a, "-h") {
                return Ok(HubCommand::Help);
            } else {
                let mut m = String::new();
                m.append("unknown argument: ");
                m.append(a);
                return Err(m);
            }
            i = i + 2;
        }
        proof {
            assert(views.subrange(i as int, views.len() as int).len() == 0);
        }
        Ok(HubCommand::Run(config))
    }
}

/// The usage lines printed for `--help`.
pub fn usage() -> (r: Vec<&'static str>)
    ensures
        r@.len() == 2,
        r@[0]@ == "Usage: uchi-pulse-hub [--bind ADDR] [--db PATH] [--hello-request-addr ADDR] [--offline-timeout-sec SECONDS] [--cdc-device PATH]"@,
        r@[1]@ == "Defaults: bind=0.0.0.0:5000, db=uchi-pulse.db, hello-request=255.255.255.255:5000, offline-timeout=180 seconds"@,
{
    let mut r: Vec<&'static str> = Vec::new();
    r.push(
        "Usage: uchi-pulse-hub [--bind ADDR] [--db PATH] [--hello-request-addr ADDR] [--offline-timeout-sec SECONDS] [--cdc-device PATH]",
    );
    r.push(
        "Defaults: bind=0.0.0.0:5000, db=uchi-pulse.db, hello-request=255.255.255.255:5000, offline-timeout=180 seconds",
    );
    r
}

/// The settings with `db_path` replaced by `p`.
pub open spec fn with_db(config: HubConfigView, p: Seq<char>) -> HubConfigView {
    HubConfigView { db_path: p, ..config }
}

proof fn lemma_other_options_keep_db(config: HubConfigView, p: Seq<char>, args: Seq<Seq<char>>)
    requires
        !args.contains("--db"@),
    ensures
        run_args(with_db(config, p), args) == match run_args(config, args) {
            Ok(Some(c)) => Ok(Some(with_db(c, p))),
            other => other,
        },
    decreases args.len(),
{
    if args.len() > 0 {
        assert(args[0] != "--db"@);
        if args.len() >= 2 {
            let rest = args.subrange(2, args.len() as int);
            assert(!rest.contains("--db"@)) by {
                if rest.contains("--db"@) {
                    let k = choose|k: int| 0 <= k < rest.len() && rest[k] == "--db"@;
                    assert(args[k + 2] == rest[k]);
                }
            }
            let a = args[0];
            let v = args[1];
            lemma_other_options_keep_db(HubConfigView { bind_addr: v, ..config }, p, rest);
            lemma_other_options_keep_db(HubConfigView { hello_request_addr: v, ..config }, p, rest);
            lemma_other_options_keep_db(HubConfigView { cdc_device: Some(v), ..config }, p, rest);
            assert(with_db(HubConfigView { bind_addr: v, ..config }, p) == HubConfigView {
                bind_addr: v,
                ..with_db(config, p)
            });
            assert(with_db(HubConfigView { hello_request_addr: v, ..config }, p) == HubConfigView {
                hello_request_addr: v,
                ..with_db(config, p)
            });
            assert(with_db(HubConfigView { cdc_device: Some(v), ..config }, p) == HubConfigView {
                cdc_device: Some(v),
                ..with_db(config, p)
            });
            if let Some(t) = parse_decimal(v) {
                lemma_other_options_keep_db(HubConfigView { offline_timeout_sec: t, ..config }, p, rest);
                assert(with_db(HubConfigView { offline_timeout_sec: t, ..config }, p) == HubConfigView {
                    offline_timeout_sec: t,
                    ..with_db(config, p)
                });
            }
        }
    }
}

/// `--db p` sets the database path to `p`: when no later argument is
/// `--db`, the arguments `--db p` followed by `rest` give what `rest` alone
/// gives, with the database path `p`; `--db p` alone gives the settings with
/// the path `p`.
pub proof fn law_db_option_sets_path(config: HubConfigView, p: Seq<char>, rest: Seq<Seq<char>>)
    requires
        !rest.contains("--db"@),
    ensures
        run_args(config, seq!["--db"@, p] + rest) == match run_args(config, rest) {
            Ok(Some(c)) => Ok(Some(with_db(c, p))),
            other => other,
        },
        run_args(config, seq!["--db"@, p]) == Ok::<Option<HubConfigView>, Seq<char>>(
            Some(with_db(config, p)),
        ),
{
    reveal_strlit("--bind");
    reveal_strlit("--db");
    let args = seq!["--db"@, p] + rest;
    assert(args[0] == "--db"@);
    assert(args[1] == p);
    assert(args.subrange(2, args.len() as int) =~= rest);
    assert("--db"@ != "--bind"@) by {
        assert("--db"@.len() != "--bind"@.len());
    }
    lemma_other_options_keep_db(config, p, rest);
    assert(HubConfigView { db_path: p, ..config } == with_db(config, p));
    let alone = seq!["--db"@, p];
    assert(alone[0] == "--db"@);
    assert(alone[1] == p);
    assert(alone.subrange(2, alone.len() as int) =~= Seq::<Seq<char>>::empty());
    assert(run_args(with_db(config, p), Seq::<Seq<char>>::empty()) == Ok::<
        Option<HubConfigView>,
        Seq<char>,
    >(Some(with_db(config, p))));
}

/// The settings with `bind_addr` set from `x`.
pub open spec fn with_bind(config: HubConfigView, x: Seq<char>) -> HubConfigView {
    HubConfigView { bind_addr: x, ..config }
}

proof fn lemma_other_options_keep_bind(config: HubConfigView, x: Seq<char>, args: Seq<Seq<char>>)
    requires
        !args.contains("--bind"@),
    ensures
        run_args(with_bind(config, x), args) == match run_args(config, args) {
            Ok(Some(c)) => Ok(Some(with_bind(c, x))),
            other => other,
        },
    decreases args.len(),
{
    if args.len() > 0 {
        assert(args[0] != "--bind"@);
        if args.len() >= 2 {
            let rest = args.subrange(2, args.len() as int);
            assert(!rest.contains("--bind"@)) by {
                if rest.contains("--bind"@) {
                    let k = choose|k: int| 0 <= k < rest.len() && rest[k] == "--bind"@;
                    assert(args[k + 2] == rest[k]);
                }
            }
            let v = args[1];
            lemma_other_options_keep_bind(HubConfigView { db_path: v, ..config }, x, rest);
            assert(with_bind(HubConfigView { db_path: v, ..config }, x) == HubConfigView {
                db_path: v,
                ..with_bind(config, x)
            });
            lemma_other_options_keep_bind(HubConfigView { hello_request_addr: v, ..config }, x, rest);
            assert(with_bind(HubConfigView { hello_request_addr: v, ..config }, x) == HubConfigView {
                hello_request_addr: v,
                ..with_bind(config, x)
            });
            lemma_other_options_keep_bind(HubConfigView { cdc_device: Some(v), ..config }, x, rest);
            assert(with_bind(HubConfigView { cdc_device: Some(v), ..config }, x) == HubConfigView {
                cdc_device: Some(v),
                ..with_bind(config, x)
            });
            if let Some(t) = parse_decimal(v) {
                lemma_other_options_keep_bind(HubConfigView { offline_timeout_sec: t, ..config }, x, rest);
                assert(with_bind(HubConfigView { offline_timeout_sec: t, ..config }, x) == HubConfigView {
                    offline_timeout_sec: t,
                    ..with_bind(config, x)
                });
            }
        }
    }
}

/// `--bind x` sets `bind_addr` from `x`: when no later argument is
/// `--bind`, the arguments `--bind x` followed by `rest` give what
/// `rest` alone gives, with that setting taken from `x`.
pub proof fn law_bind_option_sets_bind_addr(config: HubConfigView, x: Seq<char>, rest: Seq<Seq<char>>)
    requires
        !rest.contains("--bind"@),
    ensures
        run_args(config, seq!["--bind"@, x] + rest) == match run_args(config, rest) {
            Ok(Some(c)) => Ok(Some(with_bind(c, x))),
            other => other,
        },
{
    reveal_strlit("--bind");
    reveal_strlit("--db");
    reveal_strlit("--hello-request-addr");
    reveal_strlit("--offline-timeout-sec");
    reveal_strlit("--bind");
    let args = seq!["--bind"@, x] + rest;
    assert(args[0] == "--bind"@);
    assert(args[1] == x);
    assert(args.subrange(2, args.len() as int) =~= rest);
    lemma_other_options_keep_bind(config, x, rest);
    assert(HubConfigView { bind_addr: x, ..config } == with_bind(config, x));
}

/// The settings with `hello_request_addr` set from `x`.
pub open spec fn with_hello(config: HubConfigView, x: Seq<char>) -> HubConfigView {
    HubConfigView { hello_request_addr: x, ..config }
}

proof fn lemma_other_options_keep_hello(config: HubConfigView, x: Seq<char>, args: Seq<Seq<char>>)
    requires
        !args.contains("--hello-request-addr"@),
    ensures
        run_args(with_hello(config, x), args) == match run_args(config, args) {
            Ok(Some(c)) => Ok(Some(with_hello(c, x))),
            other => other,
        },
    decreases args.len(),
{
    if args.len() > 0 {
        assert(args[0] != "--hello-request-addr"@);
        if args.len() >= 2 {
            let rest = args.subrange(2, args.len() as int);
            assert(!rest.contains("--hello-request-addr"@)) by {
                if rest.contains("--hello-request-addr"@) {
                    let k = choose|k: int| 0 <= k < rest.len() && rest[k] == "--hello-request-addr"@;
                    assert(args[k + 2] == rest[k]);
                }
            }
            let v = args[1];
            lemma_other_options_keep_hello(HubConfigView { bind_addr: v, ..config }, x, rest);
            assert(with_hello(HubConfigView { bind_addr: v, ..config }, x) == HubConfigView {
                bind_addr: v,
                ..with_hello(config, x)
            });
            lemma_other_options_keep_hello(HubConfigView { db_path: v, ..config }, x, rest);
            assert(with_hello(HubConfigView { db_path: v, ..config }, x) == HubConfigView {
                db_path: v,
                ..with_hello(config, x)
            });
            lemma_other_options_keep_hello(HubConfigView { cdc_device: Some(v), ..config }, x, rest);
            assert(with_hello(HubConfigView { cdc_device: Some(v), ..config }, x) == HubConfigView {
                cdc_device: Some(v),
                ..with_hello(config, x)
            });
            if let Some(t) = parse_decimal(v) {
                lemma_other_options_keep_hello(HubConfigView { offline_timeout_sec: t, ..config }, x, rest);
                assert(with_hello(HubConfigView { offline_timeout_sec: t, ..config }, x) == HubConfigView {
                    offline_timeout_sec: t,
                    ..with_hello(config, x)
                });
            }
        }
    }
}

/// `--hello-request-addr x` sets `hello_request_addr` from `x`: when no later argument is
/// `--hello-request-addr`, the arguments `--hello-request-addr x` followed by `rest` give what
/// `rest` alone gives, with that setting taken from `x`.
pub proof fn law_hello_option_sets_hello_request_addr(config: HubConfigView, x: Seq<char>, rest: Seq<Seq<char>>)
    requires
        !rest.contains("--hello-request-addr"@),
    ensures
        run_args(config, seq!["--hello-request-addr"@, x] + rest) == match run_args(config, rest) {
            Ok(Some(c)) => Ok(Some(with_hello(c, x))),
            other => other,
        },
{
    reveal_strlit("--bind");
    reveal_strlit("--db");
    reveal_strlit("--hello-request-addr");
    reveal_strlit("--offline-timeout-sec");
    reveal_strlit("--hello-request-addr");
    let args = seq!["--hello-request-addr"@, x] + rest;
    assert(args[0] == "--hello-request-addr"@);
    assert(args[1] == x);
    assert(args.subrange(2, args.len() as int) =~= rest);
    lemma_other_options_keep_hello(config, x, rest);
    assert(HubConfigView { hello_request_addr: x, ..config } == with_hello(config, x));
}

/// The settings with `cdc_device` set from `x`.
pub open spec fn with_cdc(config: HubConfigView, x: Seq<char>) -> HubConfigView {
    HubConfigView { cdc_device: Some(x), ..config }
}

proof fn lemma_other_options_keep_cdc(config: HubConfigView, x: Seq<char>, args: Seq<Seq<char>>)
    requires
        !args.contains("--cdc-device"@),
    ensures
        run_args(with_cdc(config, x), args) == match run_args(config, args) {
            Ok(Some(c)) => Ok(Some(with_cdc(c, x))),
            other => other,
        },
    decreases args.len(),
{
    if args.len() > 0 {
        assert(args[0] != "--cdc-device"@);
        if args.len() >= 2 {
            let rest = args.subrange(2, args.len() as int);
            assert(!rest.contains("--cdc-device"@)) by {
                if rest.contains("--cdc-device"@) {
                    let k = choose|k: int| 0 <= k < rest.len() && rest[k] == "--cdc-device"@;
                    assert(args[k + 2] == rest[k]);
                }
            }
            let v = args[1];
            lemma_other_options_keep_cdc(HubConfigView { bind_addr: v, ..config }, x, rest);
            assert(with_cdc(HubConfigView { bind_addr: v, ..config }, x) == HubConfigView {
                bind_addr: v,
                ..with_cdc(config, x)
            });
            lemma_other_options_keep_cdc(HubConfigView { db_path: v, ..config }, x, rest);
            assert(with_cdc(HubConfigView { db_path: v, ..config }, x) == HubConfigView {
                db_path: v,
                ..with_cdc(config, x)
            });
            lemma_other_options_keep_cdc(HubConfigView { hello_request_addr: v, ..config }, x, rest);
            assert(with_cdc(HubConfigView { hello_request_addr: v, ..config }, x) == HubConfigView {
                hello_request_addr: v,
                ..with_cdc(config, x)
            });
            if let Some(t) = parse_decimal(v) {
                lemma_other_options_keep_cdc(HubConfigView { offline_timeout_sec: t, ..config }, x, rest);
                assert(with_cdc(HubConfigView { offline_timeout_sec: t, ..config }, x) == HubConfigView {
                    offline_timeout_sec: t,
                    ..with_cdc(config, x)
                });
            }
        }
    }
}

/// `--cdc-device x` sets `cdc_device` from `x`: when no later argument is
/// `--cdc-device`, the arguments `--cdc-device x` followed by `rest` give what
/// `rest` alone gives, with that setting taken from `x`.
pub proof fn law_cdc_option_sets_cdc_device(config: HubConfigView, x: Seq<char>, rest: Seq<Seq<char>>)
    requires
        !rest.contains("--cdc-device"@),
    ensures
        run_args(config, seq!["--cdc-device"@, x] + rest) == match run_args(config, rest) {
            Ok(Some(c)) => Ok(Some(with_cdc(c, x))),
            other => other,
        },
{
    reveal_strlit("--bind");
    reveal_strlit("--db");
    reveal_strlit("--hello-request-addr");
    reveal_strlit("--offline-timeout-sec");
    reveal_strlit("--cdc-device");
    let args = seq!["--cdc-device"@, x] + rest;
    assert(args[0] == "--cdc-device"@);
    assert(args[1] == x);
    assert(args.subrange(2, args.len() as int) =~= rest);
    lemma_other_options_keep_cdc(config, x, rest);
    assert(HubConfigView { cdc_device: Some(x), ..config } == with_cdc(config, x));
}

/// The settings with the offline timeout `t`.
pub open spec fn with_timeout(config: HubConfigView, t: u64) -> HubConfigView {
    HubConfigView { offline_timeout_sec: t, ..config }
}

proof fn lemma_other_options_keep_timeout(config: HubConfigView, t: u64, args: Seq<Seq<char>>)
    requires
        !args.contains("--offline-timeout-sec"@),
    ensures
        run_args(with_timeout(config, t), args) == match run_args(config, args) {
            Ok(Some(c)) => Ok(Some(with_timeout(c, t))),
            other => other,
        },
    decreases args.len(),
{
    if args.len() > 0 {
        assert(args[0] != "--offline-timeout-sec"@);
        if args.len() >= 2 {
            let rest = args.subrange(2, args.len() as int);
            assert(!rest.contains("--offline-timeout-sec"@)) by {
                if rest.contains("--offline-timeout-sec"@) {
                    let k = choose|k: int| 0 <= k < rest.len() && rest[k] == "--offline-timeout-sec"@;
                    assert(args[k + 2] == rest[k]);
                }
            }
            let v = args[1];
            lemma_other_options_keep_timeout(HubConfigView { bind_addr: v, ..config }, t, rest);
            assert(with_timeout(HubConfigView { bind_addr: v, ..config }, t) == HubConfigView {
                bind_addr: v,
                ..with_timeout(config, t)
            });
            lemma_other_options_keep_timeout(HubConfigView { db_path: v, ..config }, t, rest);
            assert(with_timeout(HubConfigView { db_path: v, ..config }, t) == HubConfigView {
                db_path: v,
                ..with_timeout(config, t)
            });
            lemma_other_options_keep_timeout(HubConfigView { hello_request_addr: v, ..config }, t, rest);
            assert(with_timeout(HubConfigView { hello_request_addr: v, ..config }, t) == HubConfigView {
                hello_request_addr: v,
                ..with_timeout(config, t)
            });
            lemma_other_options_keep_timeout(HubConfigView { cdc_device: Some(v), ..config }, t, rest);
            assert(with_timeout(HubConfigView { cdc_device: Some(v), ..config }, t) == HubConfigView {
                cdc_device: Some(v),
                ..with_timeout(config, t)
            });
        }
    }
}

/// `--offline-timeout-sec x` sets the offline timeout to the number `x`
/// spells: when no later argument is `--offline-timeout-sec`, the arguments
/// `--offline-timeout-sec x` followed by `rest` give what `rest` alone gives,
/// with that timeout; when `x` is not a number they are refused.
pub proof fn law_timeout_option_sets_timeout(config: HubConfigView, x: Seq<char>, rest: Seq<Seq<char>>)
    requires
        !rest.contains("--offline-timeout-sec"@),
    ensures
        run_args(config, seq!["--offline-timeout-sec"@, x] + rest) == match parse_decimal(x) {
            None => Err::<Option<HubConfigView>, Seq<char>>("--offline-timeout-sec must be an integer"@),
            Some(t) => match run_args(config, rest) {
                Ok(Some(c)) => Ok(Some(with_timeout(c, t))),
                other => other,
            },
        },
{
    reveal_strlit("--bind");
    reveal_strlit("--db");
    reveal_strlit("--hello-request-addr");
    reveal_strlit("--offline-timeout-sec");
    let args = seq!["--offline-timeout-sec"@, x] + rest;
    assert(args[0] == "--offline-timeout-sec"@);
    assert(args[1] == x);
    assert(args.subrange(2, args.len() as int) =~= rest);
    if let Some(t) = parse_decimal(x) {
        lemma_other_options_keep_timeout(config, t, rest);
        assert(HubConfigView { offline_timeout_sec: t, ..config } == with_timeout(config, t));
    }
}

/// The settings from the environment: each variable that is set gives its
/// setting, and each that is not gives the default; only a timeout that is
/// not a number makes them unusable.
pub proof fn law_environment_settings(env: HubEnvironment)
    ensures
        env_config(env) is Err <==> (env.offline_timeout_sec is Some && parse_decimal(
            env.offline_timeout_sec->0@,
        ) is None),
        env_config(env) matches Ok(c) ==> {
            &&& c.bind_addr == if env.bind_addr is Some {
                env.bind_addr->0@
            } else {
                DEFAULT_BIND_ADDR@
            }
            &&& c.db_path == if env.db_path is Some {
                env.db_path->0@
            } else {
                DEFAULT_DB_PATH@
            }
            &&& c.hello_request_addr == if env.hello_request_addr is Some {
                env.hello_request_addr->0@
            } else {
                DEFAULT_HELLO_REQUEST_ADDR@
            }
            &&& c.offline_timeout_sec == if env.offline_timeout_sec is Some {
                parse_decimal(env.offline_timeout_sec->0@)->0
            } else {
                DEFAULT_OFFLINE_TIMEOUT_SEC
            }
            &&& c.cdc_device == if env.cdc_device is Some {
                Some(env.cdc_device->0@)
            } else {
                None
            }
        },
{
}

/// `--help` or `-h` stops with the usage, whatever follows; an option given
/// as the last argument, without its value, is refused.
pub proof fn law_help_and_missing_values(config: HubConfigView, rest: Seq<Seq<char>>)
    ensures
        run_args(config, seq!["--help"@] + rest) == Ok::<Option<HubConfigView>, Seq<char>>(None),
        run_args(config, seq!["-h"@] + rest) == Ok::<Option<HubConfigView>, Seq<char>>(None),
        run_args(config, seq!["--bind"@]) is Err,
        run_args(config, seq!["--db"@]) is Err,
        run_args(config, seq!["--hello-request-addr"@]) is Err,
        run_args(config, seq!["--offline-timeout-sec"@]) is Err,
        run_args(config, seq!["--cdc-device"@]) is Err,
{
    reveal_strlit("--bind");
    reveal_strlit("--db");
    reveal_strlit("--hello-request-addr");
    reveal_strlit("--offline-timeout-sec");
    reveal_strlit("--cdc-device");
    reveal_strlit("--help");
    reveal_strlit("-h");
    assert("--help"@ != "--bind"@) by {
        assert("--help"@[2] != "--bind"@[2]);
    }
    assert((seq!["--help"@] + rest)[0] == "--help"@);
    assert((seq!["-h"@] + rest)[0] == "-h"@);
    assert(seq!["--bind"@][0] == "--bind"@);
    assert(seq!["--db"@][0] == "--db"@);
    assert(seq!["--hello-request-addr"@][0] == "--hello-request-addr"@);
    assert(seq!["--offline-timeout-sec"@][0] == "--offline-timeout-sec"@);
    assert(seq!["--cdc-device"@][0] == "--cdc-device"@);
}

} // verus!
