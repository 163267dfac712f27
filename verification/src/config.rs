//! Resolved daemon configuration: defaults, layered under the key/value pairs
//! of an optional properties file, layered under explicit command-line flags.

use vstd::prelude::*;

verus! {

/// The command-line flags the daemon accepts, already parsed into plain
/// values. Flags that the operator did not give are `None` (`verbose` counts
/// repetitions, so zero means "not given").
pub struct PyrosCliArgs {
    pub home_dir: Option<String>,
    pub command: Option<String>,
    pub mqtt_host: Option<String>,
    pub mqtt_port: Option<String>,
    pub verbose: u8,
}

/// Mathematical mirror of `PyrosCliArgs`.
#[verifier::ext_equal]
pub ghost struct ArgsV {
    pub home_dir: Option<Seq<char>>,
    pub command: Option<Seq<char>>,
    pub mqtt_host: Option<Seq<char>>,
    pub mqtt_port: Option<Seq<char>>,
    pub verbose: u8,
}

impl View for PyrosCliArgs {
    type V = ArgsV;

    open spec fn view(&self) -> ArgsV {
        ArgsV {
            home_dir: match self.home_dir {
                Some(s) => Some(s@),
                None => None,
            },
            command: match self.command {
                Some(s) => Some(s@),
                None => None,
            },
            mqtt_host: match self.mqtt_host {
                Some(s) => Some(s@),
                None => None,
            },
            mqtt_port: match self.mqtt_port {
                Some(s) => Some(s@),
                None => None,
            },
            verbose: self.verbose,
        }
    }
}

/// Why a configuration could not be resolved. Each variant carries the value
/// that was rejected, or the message of the properties parser.
#[derive(Debug)]
pub enum ConfigError {
    BadDebugLevel(String),
    BadPort(String),
    BadPropertiesFile(String),
}

/// The resolved configuration, immutable after startup.
pub struct Config {
    pub home_dir: String,
    pub config_file: String,
    pub verbosity: u8,
    pub mqtt_host: String,
    pub mqtt_port: u16,
    pub mqtt_timeout: i32,
    pub mqtt_max_reconnect_retries: i32,
    pub thread_kill_timeout: i32,
    pub agents_check_timeout: i32,
    pub agents_kill_timeout: i32,
}

/// Mathematical mirror of `Config`.
#[verifier::ext_equal]
pub ghost struct ConfigV {
    pub home_dir: Seq<char>,
    pub config_file: Seq<char>,
    pub verbosity: u8,
    pub mqtt_host: Seq<char>,
    pub mqtt_port: u16,
    pub mqtt_timeout: i32,
    pub mqtt_max_reconnect_retries: i32,
    pub thread_kill_timeout: i32,
    pub agents_check_timeout: i32,
    pub agents_kill_timeout: i32,
}

impl View for Config {
    type V = ConfigV;

    open spec fn view(&self) -> ConfigV {
        ConfigV {
            home_dir: self.home_dir@,
            config_file: self.config_file@,
            verbosity: self.verbosity,
            mqtt_host: self.mqtt_host@,
            mqtt_port: self.mqtt_port,
            mqtt_timeout: self.mqtt_timeout,
            mqtt_max_reconnect_retries: self.mqtt_max_reconnect_retries,
            thread_kill_timeout: self.thread_kill_timeout,
            agents_check_timeout: self.agents_check_timeout,
            agents_kill_timeout: self.agents_kill_timeout,
        }
    }
}

/// The configuration before any properties file or flag is applied.
pub open spec fn default_config(home: Seq<char>) -> ConfigV {
    ConfigV {
        home_dir: home,
        config_file: home + "/pyros.config"@,
        verbosity: 0,
        mqtt_host: "localhost"@,
        mqtt_port: 1883,
        mqtt_timeout: 60,
        mqtt_max_reconnect_retries: 20,
        thread_kill_timeout: 1,
        agents_check_timeout: 1,
        agents_kill_timeout: 180,
    }
}

// ---------------------------------------------------------------------------
// Decimal parsing, with the grammar of Rust's unsigned `FromStr`: an optional
// leading '+', then one or more ASCII digits, and the value within bounds.
// ---------------------------------------------------------------------------

pub open spec fn is_decimal_digit(c: char) -> bool {
    '0' <= c && c <= '9'
}

pub open spec fn digit_value(c: char) -> int {
    c as int - '0' as int
}

pub open spec fn all_digits(s: Seq<char>) -> bool {
    forall|i: int| 0 <= i < s.len() ==> is_decimal_digit(#[trigger] s[i])
}

/// The number a digit string denotes, most significant digit first.
pub open spec fn digits_value(s: Seq<char>) -> int
    decreases s.len(),
{
    if s.len() == 0 {
        0
    } else {
        digits_value(s.drop_last()) * 10 + digit_value(s.last())
    }
}

/// The digits of a numeral, once an optional leading '+' sign is removed.
pub open spec fn digit_body(s: Seq<char>) -> Seq<char> {
    if s.len() > 0 && s[0] == '+' {
        s.drop_first()
    } else {
        s
    }
}

/// The value of a decimal numeral, or `None` where the string is not one.
pub open spec fn parse_decimal(s: Seq<char>) -> Option<int> {
    let body = digit_body(s);
    if body.len() > 0 && all_digits(body) {
        Some(digits_value(body))
    } else {
        None
    }
}

pub open spec fn parse_u8_spec(s: Seq<char>) -> Option<u8> {
    match parse_decimal(s) {
        Some(v) => if v <= u8::MAX { Some(v as u8) } else { None },
        None => None,
    }
}

pub open spec fn parse_u16_spec(s: Seq<char>) -> Option<u16> {
    match parse_decimal(s) {
        Some(v) => if v <= u16::MAX { Some(v as u16) } else { None },
        None => None,
    }
}

proof fn lemma_digits_value_nonneg(s: Seq<char>)
    requires
        all_digits(s),
    ensures
        digits_value(s) >= 0,
    decreases s.len(),
{
    if s.len() > 0 {
        assert(all_digits(s.drop_last()));
        lemma_digits_value_nonneg(s.drop_last());
    }
}

/// A digit string is worth at least any of its prefixes.
proof fn lemma_digits_value_prefix_le(s: Seq<char>, k: int)
    requires
        all_digits(s),
        0 <= k <= s.len(),
    ensures
        digits_value(s.take(k)) <= digits_value(s),
    decreases s.len(),
{
    if k == s.len() {
        assert(s.take(k) =~= s);
    } else {
        assert(all_digits(s.drop_last()));
        assert(s.take(k) =~= s.drop_last().take(k));
        lemma_digits_value_prefix_le(s.drop_last(), k);
        lemma_digits_value_nonneg(s.drop_last());
        assert(digits_value(s.drop_last()) <= digits_value(s.drop_last()) * 10 + digit_value(
            s.last(),
        ));
    }
}

/// Parses a decimal numeral worth at most `max`.
fn parse_bounded(s: &str, max: u32) -> (r: Option<u32>)
    requires
        max <= 0xFFFF,
    ensures
        r is Some <==> (parse_decimal(s@) matches Some(v) && v <= max),
        r matches Some(u) ==> parse_decimal(s@) == Some(u as int),
{
    let n = s.unicode_len();
    let start: usize = if n > 0 && s.get_char(0) == '+' {
        1
    } else {
        0
    };
    proof {
        assert(digit_body(s@) =~= s@.subrange(start as int, n as int));
    }
    if start >= n {
        return None;
    }
    let ghost body = s@.subrange(start as int, n as int);
    let mut acc: u32 = 0;
    let mut i: usize = start;
    while i < n
        invariant
            start <= i <= n,
            n == s@.len(),
            max <= 0xFFFF,
            body == s@.subrange(start as int, n as int),
            body == digit_body(s@),
            body.len() > 0,
            all_digits(s@.subrange(start as int, i as int)),
            acc == digits_value(s@.subrange(start as int, i as int)),
            acc <= max,
        decreases n - i,
    {
        let c = s.get_char(i);
        if c < '0' || c > '9' {
            proof {
                assert(body[i - start] == s@[i as int]);
                assert(!all_digits(body));
            }
            return None;
        }
        let d = (c as u32) - 48;
        proof {
            let prev = s@.subrange(start as int, i as int);
            let cur = s@.subrange(start as int, i as int + 1);
            assert(cur.drop_last() =~= prev);
            assert(cur.last() == s@[i as int]);
        }
        acc = acc * 10 + d;
        if acc > max {
            proof {
                if all_digits(body) {
                    assert(s@.subrange(start as int, i as int + 1) =~= body.take(
                        i as int + 1 - start,
                    ));
                    lemma_digits_value_prefix_le(body, i as int + 1 - start);
                }
            }
            return None;
        }
        i += 1;
    }
    proof {
        assert(s@.subrange(start as int, i as int) =~= body);
    }
    Some(acc)
}

/// Parses a `u8` the way `str::parse` does.
pub fn parse_u8(s: &str) -> (r: Option<u8>)
    ensures
        r == parse_u8_spec(s@),
{
    match parse_bounded(s, 255) {
        Some(v) => Some(v as u8),
        None => None,
    }
}

/// Parses a `u16` the way `str::parse` does.
pub fn parse_u16(s: &str) -> (r: Option<u16>)
    ensures
        r == parse_u16_spec(s@),
{
    match parse_bounded(s, 65535) {
        Some(v) => Some(v as u16),
        None => None,
    }
}

// ---------------------------------------------------------------------------
// Applying key/value pairs to a configuration.
// ---------------------------------------------------------------------------

/// The views of a list of key/value pairs.
pub open spec fn pairs_view(ps: Seq<(String, String)>) -> Seq<(Seq<char>, Seq<char>)> {
    ps.map_values(|p: (String, String)| (p.0@, p.1@))
}

/// The views of a list of log entries.
pub open spec fn strings_view(ls: Seq<String>) -> Seq<Seq<char>> {
    ls.map_values(|l: String| l@)
}

/// Whether a key is none that the configuration recognizes.
pub open spec fn unknown_key(k: Seq<char>) -> bool {
    k != "debug_level"@ && k != "mqtt.host"@ && k != "mqtt.port"@
}

/// The log entry for a property key the configuration does not recognize.
pub open spec fn unknown_line(k: Seq<char>) -> Seq<char> {
    "Unknown property found "@ + k
}

/// Whether one pair applies without error: the two numeric keys demand a
/// value that parses; every other key always applies.
pub open spec fn pair_ok(k: Seq<char>, v: Seq<char>) -> bool {
    &&& k == "debug_level"@ ==> parse_u8_spec(v) is Some
    &&& k == "mqtt.port"@ ==> parse_u16_spec(v) is Some
}

pub open spec fn pairs_ok(ps: Seq<(Seq<char>, Seq<char>)>) -> bool {
    forall|i: int| 0 <= i < ps.len() ==> #[trigger] pair_ok(ps[i].0, ps[i].1)
}

/// What one recognized pair changes; an unknown key changes nothing.
pub open spec fn apply_pair_spec(c: ConfigV, k: Seq<char>, v: Seq<char>) -> ConfigV {
    if k == "debug_level"@ {
        match parse_u8_spec(v) {
            Some(d) => ConfigV { verbosity: d, ..c },
            None => c,
        }
    } else if k == "mqtt.host"@ {
        ConfigV { mqtt_host: v, ..c }
    } else if k == "mqtt.port"@ {
        match parse_u16_spec(v) {
            Some(q) => ConfigV { mqtt_port: q, ..c },
            None => c,
        }
    } else {
        c
    }
}

/// The pairs applied in order, earlier pairs first.
pub open spec fn apply_pairs_spec(c: ConfigV, ps: Seq<(Seq<char>, Seq<char>)>) -> ConfigV
    decreases ps.len(),
{
    if ps.len() == 0 {
        c
    } else {
        apply_pair_spec(apply_pairs_spec(c, ps.drop_last()), ps.last().0, ps.last().1)
    }
}

/// The log entries that applying the pairs emits, in order: one per pair
/// whose key is unknown.
pub open spec fn unknown_logs(ps: Seq<(Seq<char>, Seq<char>)>) -> Seq<Seq<char>>
    decreases ps.len(),
{
    if ps.len() == 0 {
        Seq::empty()
    } else {
        unknown_logs(ps.drop_last()) + (if unknown_key(ps.last().0) {
            seq![unknown_line(ps.last().0)]
        } else {
            Seq::empty()
        })
    }
}

/// The error that a failing pair produces.
pub open spec fn pair_error_matches(e: ConfigError, k: Seq<char>, v: Seq<char>) -> bool {
    if k == "debug_level"@ {
        e matches ConfigError::BadDebugLevel(m) && m@ == v
    } else {
        e matches ConfigError::BadPort(m) && m@ == v
    }
}

/// The key/value pairs that a configuration source denotes: nothing for an
/// absent file, and what the properties parser reads otherwise.
pub open spec fn spec_file_pairs(cb: Option<Vec<u8>>) -> Option<Seq<(Seq<char>, Seq<char>)>> {
    match cb {
        None => Some(Seq::empty()),
        Some(b) => props_of(b@),
    }
}

/// The key/value pairs that the properties text format denotes, in file
/// order, or nothing where the bytes are not well-formed properties text.
pub uninterp spec fn props_of(bytes: Seq<u8>) -> Option<Seq<(Seq<char>, Seq<char>)>>;

/// Relies on java_properties::PropertiesIter: reads the properties text
/// format ("key=value" lines, with continuations and escapes) from the given
/// bytes; the pairs read are a function of the bytes alone, in file order.
#[verifier::external_body]
fn parse_properties(bytes: &Vec<u8>) -> (r: Result<Vec<(String, String)>, String>)
    ensures
        r is Ok <==> props_of(bytes@) is Some,
        r matches Ok(ps) ==> Some(pairs_view(ps@)) == props_of(bytes@),
{
    let mut out: Vec<(String, String)> = Vec::new();
    let mut iter = java_properties::PropertiesIter::new(&bytes[..]);
    match iter.read_into(|k, v| out.push((k, v))) {
        Ok(()) => Ok(out),
        Err(e) => Err(format!("{e}")),
    }
}

/// Whether the command-line flags themselves are well-formed: a port flag
/// must parse; every other flag is taken as given.
pub open spec fn cli_ok(a: ArgsV) -> bool {
    a.mqtt_port matches Some(p) ==> parse_u16_spec(p) is Some
}

/// Explicit command-line flags take precedence over file values: the host
/// and port where given, and the verbosity where at least one `-v` was.
pub open spec fn apply_cli(c: ConfigV, a: ArgsV) -> ConfigV {
    ConfigV {
        mqtt_host: match a.mqtt_host {
            Some(h) => h,
            None => c.mqtt_host,
        },
        mqtt_port: match a.mqtt_port {
            Some(p) => match parse_u16_spec(p) {
                Some(q) => q,
                None => c.mqtt_port,
            },
            None => c.mqtt_port,
        },
        verbosity: if a.verbose > 0 {
            a.verbose
        } else {
            c.verbosity
        },
        ..c
    }
}

/// The three recognized keys are pairwise distinct.
proof fn lemma_recognized_keys_distinct()
    ensures
        "debug_level"@ != "mqtt.host"@,
        "debug_level"@ != "mqtt.port"@,
        "mqtt.host"@ != "mqtt.port"@,
{
    reveal_strlit("debug_level");
    reveal_strlit("mqtt.host");
    reveal_strlit("mqtt.port");
    assert(("debug_level"@).len() == 11);
    assert(("mqtt.host"@).len() == 9);
    assert(("mqtt.port"@).len() == 9);
    assert(("mqtt.host"@)[5] == 'h');
    assert(("mqtt.port"@)[5] == 'p');
}

impl Config {
    /// Applies key/value pairs in order: `debug_level` and `mqtt.port` set
    /// their field when the value parses and fail otherwise, `mqtt.host` sets
    /// the host, and an unknown key changes nothing but emits its log entry.
    /// On a failing pair the earlier pairs remain applied.
    pub fn apply_pairs(&mut self, pairs: &Vec<(String, String)>) -> (r: Result<
        Vec<String>,
        ConfigError,
    >)
        ensures
            r is Ok <==> pairs_ok(pairs_view(pairs@)),
            r matches Ok(logs) ==> final(self)@ == apply_pairs_spec(
                old(self)@,
                pairs_view(pairs@),
            ) && strings_view(logs@) == unknown_logs(pairs_view(pairs@)),
            r matches Err(e) ==> exists|j: int|
                {
                    &&& 0 <= j < pairs_view(pairs@).len()
                    &&& #[trigger] pairs_ok(pairs_view(pairs@).take(j))
                    &&& !pair_ok(pairs_view(pairs@)[j].0, pairs_view(pairs@)[j].1)
                    &&& final(self)@ == apply_pairs_spec(old(self)@, pairs_view(pairs@).take(j))
                    &&& pair_error_matches(e, pairs_view(pairs@)[j].0, pairs_view(pairs@)[j].1)
                },
    {
        let ghost pv = pairs_view(pairs@);
        let key_debug = String::from_str("debug_level");
        let key_host = String::from_str("mqtt.host");
        let key_port = String::from_str("mqtt.port");
        let mut logs: Vec<String> = Vec::new();
        let n = pairs.len();
        let mut i: usize = 0;
        while i < n
            invariant
                i <= n,
                n == pairs.len(),
                pv == pairs_view(pairs@),
                pv.len() == n,
                key_debug@ == "debug_level"@,
                key_host@ == "mqtt.host"@,
                key_port@ == "mqtt.port"@,
                pairs_ok(pv.take(i as int)),
                self@ == apply_pairs_spec(old(self)@, pv.take(i as int)),
                strings_view(logs@) == unknown_logs(pv.take(i as int)),
            decreases n - i,
        {
            proof {
                lemma_recognized_keys_distinct();
                assert(pv.take(i as int + 1).drop_last() =~= pv.take(i as int));
                assert(pv[i as int] == (pairs@[i as int].0@, pairs@[i as int].1@));
            }
            let key = &pairs[i].0;
            let val = &pairs[i].1;
            if *key == key_debug {
                match parse_u8(val.as_str()) {
                    Some(d) => {
                        self.verbosity = d;
                    },
                    None => {
                        proof {
                            assert(!pair_ok(pv[i as int].0, pv[i as int].1));
                            assert(!pairs_ok(pv));
                        }
                        return Err(ConfigError::BadDebugLevel(val.clone()));
                    },
                }
            } else if *key == key_host {
                self.mqtt_host = val.clone();
            } else if *key == key_port {
                match parse_u16(val.as_str()) {
                    Some(q) => {
                        self.mqtt_port = q;
                    },
                    None => {
                        proof {
                            assert(!pair_ok(pv[i as int].0, pv[i as int].1));
                            assert(!pairs_ok(pv));
                        }
                        return Err(ConfigError::BadPort(val.clone()));
                    },
                }
            } else {
                logs.push(String::from_str("Unknown property found ").concat(key.as_str()));
                proof {
                    assert(strings_view(logs@) =~= strings_view(logs@.drop_last()).push(
                        logs@.last()@,
                    ));
                }
            }
            proof {
                assert(pair_ok(pv[i as int].0, pv[i as int].1));
                assert forall|j: int| 0 <= j < i as int + 1 implies #[trigger] pair_ok(
                    pv.take(i as int + 1)[j].0,
                    pv.take(i as int + 1)[j].1,
                ) by {
                    assert(pv.take(i as int + 1)[j] == pv[j]);
                    if j < i as int {
                        assert(pair_ok(pv.take(i as int)[j].0, pv.take(i as int)[j].1));
                    }
                }
                assert(pairs_ok(pv.take(i as int + 1)));
                assert(self@ =~= apply_pairs_spec(old(self)@, pv.take(i as int + 1)));
                assert(strings_view(logs@) =~= unknown_logs(pv.take(i as int + 1)));
            }
            i += 1;
        }
        proof {
            assert(pv.take(n as int) =~= pv);
        }
        Ok(logs)
    }

    /// The configuration that the startup inputs resolve to: the defaults
    /// for `home_dir`, under the pairs of the optional properties file (as
    /// `apply_pairs` reads them), under the explicit command-line flags (as
    /// `apply_cli` says). A file that is not well-formed properties text, a
    /// pair whose numeric value does not parse, and a port flag that does not
    /// parse each fail with their error, in that order.
    pub fn new(home_dir: &str, args: PyrosCliArgs, config_bytes: &Option<Vec<u8>>) -> (r: Result<
        (Config, Vec<String>),
        ConfigError,
    >)
        ensures
            r is Ok <==> (spec_file_pairs(*config_bytes) matches Some(fps) && pairs_ok(fps)
                && cli_ok(args@)),
            r matches Ok(ok) ==> spec_file_pairs(*config_bytes) matches Some(fps) && ok.0@
                == apply_cli(apply_pairs_spec(default_config(home_dir@), fps), args@)
                && strings_view(ok.1@) == unknown_logs(fps),
            r is Err && spec_file_pairs(*config_bytes) is None ==> r->Err_0 is BadPropertiesFile,
            r is Err && spec_file_pairs(*config_bytes) is Some && !pairs_ok(
                spec_file_pairs(*config_bytes)->0,
            ) ==> exists|j: int|
                {
                    &&& 0 <= j < spec_file_pairs(*config_bytes)->0.len()
                    &&& #[trigger] pairs_ok(spec_file_pairs(*config_bytes)->0.take(j))
                    &&& !pair_ok(
                        spec_file_pairs(*config_bytes)->0[j].0,
                        spec_file_pairs(*config_bytes)->0[j].1,
                    )
                    &&& pair_error_matches(
                        r->Err_0,
                        spec_file_pairs(*config_bytes)->0[j].0,
                        spec_file_pairs(*config_bytes)->0[j].1,
                    )
                },
            r is Err && spec_file_pairs(*config_bytes) is Some && pairs_ok(
                spec_file_pairs(*config_bytes)->0,
            ) ==> (r->Err_0 matches ConfigError::BadPort(m) && Some(m@) == args@.mqtt_port),
    {
        let mut cfg = Config {
            home_dir: String::from_str(home_dir),
            config_file: String::from_str(home_dir).concat("/pyros.config"),
            verbosity: 0,
            mqtt_host: String::from_str("localhost"),
            mqtt_port: 1883,
            mqtt_timeout: 60,
            mqtt_max_reconnect_retries: 20,
            thread_kill_timeout: 1,
            agents_check_timeout: 1,
            agents_kill_timeout: 180,
        };
        proof {
            assert(cfg@ =~= default_config(home_dir@));
        }
        let pairs: Vec<(String, String)> = match config_bytes {
            None => Vec::new(),
            Some(b) => match parse_properties(b) {
                Ok(ps) => ps,
                Err(m) => {
                    return Err(ConfigError::BadPropertiesFile(m));
                },
            },
        };
        proof {
            assert(pairs_view(pairs@) =~= spec_file_pairs(*config_bytes)->0);
        }
        let logs = match cfg.apply_pairs(&pairs) {
            Ok(logs) => logs,
            Err(e) => {
                return Err(e);
            },
        };
        let PyrosCliArgs { home_dir: _, command: _, mqtt_host, mqtt_port, verbose } = args;
        match mqtt_host {
            Some(h) => {
                cfg.mqtt_host = h;
            },
            None => {},
        }
        match mqtt_port {
            Some(p) => match parse_u16(p.as_str()) {
                Some(q) => {
                    cfg.mqtt_port = q;
                },
                None => {
                    return Err(ConfigError::BadPort(p));
                },
            },
            None => {},
        }
        if verbose > 0 {
            cfg.verbosity = verbose;
        }
        proof {
            assert(cfg@ =~= apply_cli(
                apply_pairs_spec(default_config(home_dir@), spec_file_pairs(*config_bytes)->0),
                args@,
            ));
        }
        Ok((cfg, logs))
    }

    /// Re-reads the configuration source and applies its pairs over the
    /// current values, with no command-line flags involved.
    pub fn load_from_config_file(&mut self, config_bytes: &Option<Vec<u8>>) -> (r: Result<
        Vec<String>,
        ConfigError,
    >)
        ensures
            r is Ok <==> (spec_file_pairs(*config_bytes) matches Some(fps) && pairs_ok(fps)),
            r matches Ok(logs) ==> spec_file_pairs(*config_bytes) matches Some(fps)
                && final(self)@ == apply_pairs_spec(old(self)@, fps)
                && strings_view(logs@) == unknown_logs(fps),
            r is Err && spec_file_pairs(*config_bytes) is None ==> (r->Err_0 is BadPropertiesFile
                && final(self)@ == old(self)@),
            r is Err && spec_file_pairs(*config_bytes) is Some ==> exists|j: int|
                {
                    &&& 0 <= j < spec_file_pairs(*config_bytes)->0.len()
                    &&& #[trigger] pairs_ok(spec_file_pairs(*config_bytes)->0.take(j))
                    &&& !pair_ok(
                        spec_file_pairs(*config_bytes)->0[j].0,
                        spec_file_pairs(*config_bytes)->0[j].1,
                    )
                    &&& final(self)@ == apply_pairs_spec(
                        old(self)@,
                        spec_file_pairs(*config_bytes)->0.take(j),
                    )
                    &&& pair_error_matches(
                        r->Err_0,
                        spec_file_pairs(*config_bytes)->0[j].0,
                        spec_file_pairs(*config_bytes)->0[j].1,
                    )
                },
    {
        let pairs: Vec<(String, String)> = match config_bytes {
            None => Vec::new(),
            Some(b) => match parse_properties(b) {
                Ok(ps) => ps,
                Err(m) => {
                    return Err(ConfigError::BadPropertiesFile(m));
                },
            },
        };
        proof {
            assert(pairs_view(pairs@) =~= spec_file_pairs(*config_bytes)->0);
        }
        self.apply_pairs(&pairs)
    }
}

} // verus!
