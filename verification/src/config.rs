//! Deployment mode and server settings.
use vstd::prelude::*;
use crate::text::{
    ascii_lower_seq, chars_eq, chars_of, digit_char, has_prefix, nat_digits, starts_with_chars, opt_view, optional_trimmed, owned, push_str, string_of, trim,
    trim_str, trimmed_nonempty, u64_to_string,
};

verus! {

#[derive(Debug, Clone, PartialEq, Eq)]
pub enum AppError {
    InvalidConfig(String),
}

#[derive(Debug, Clone, Copy, PartialEq, Eq, Structural)]
pub enum AppMode {
    Web,
    Desktop,
    Demo,
}

#[derive(Debug, Clone)]
pub struct AppConfig {
    pub mode: AppMode,
    pub host: String,
    pub port: u16,
    pub database_url: Option<String>,
    pub sqlite_database_path: Option<String>,
    pub llama_cpp_base_url: String,
    pub llama_cpp_default_model: String,
    pub llama_cpp_server_bin: String,
    pub llama_cpp_timeout_secs: u64,
    pub gemini_base_url: String,
    pub gemini_timeout_secs: u64,
    pub secrets_encryption_key: Option<String>,
    pub secrets_key_path: String,
}

pub open spec fn app_mode_name(mode: AppMode) -> Seq<char> {
    match mode {
        AppMode::Web => "web"@,
        AppMode::Desktop => "desktop"@,
        AppMode::Demo => "demo"@,
    }
}

/// The mode named by a setting value, read case-insensitively (ASCII) and
/// without surrounding whitespace.
pub open spec fn app_mode_named(value: Seq<char>) -> Option<AppMode> {
    let key = ascii_lower_seq(trim(value));
    if key == "web"@ {
        Some(AppMode::Web)
    } else if key == "desktop"@ {
        Some(AppMode::Desktop)
    } else if key == "demo"@ {
        Some(AppMode::Demo)
    } else {
        None
    }
}

/// The chars with ASCII letters lowercased, as `str::to_ascii_lowercase`
/// gives them.
pub fn to_ascii_lowercase(cs: &Vec<char>) -> (r: Vec<char>)
    ensures
        r@ == ascii_lower_seq(cs@),
{
    let mut out: Vec<char> = Vec::new();
    let mut i: usize = 0;
    while i < cs.len()
        invariant
            0 <= i <= cs@.len(),
            out@ == ascii_lower_seq(cs@.take(i as int)),
        decreases cs@.len() - i,
    {
        let c = cs[i];
        let l = if 'A' <= c && c <= 'Z' {
            ((c as u8) + 32) as char
        } else {
            c
        };
        out.push(l);
        proof {
            assert(ascii_lower_seq(cs@.take(i + 1)) =~= ascii_lower_seq(cs@.take(i as int)).push(
                l,
            ));
        }
        i += 1;
    }
    proof {
        assert(cs@.take(cs@.len() as int) =~= cs@);
    }
    out
}

fn key_is(key: &Vec<char>, name: &str) -> (r: bool)
    ensures
        r == (key@ == name@),
{
    let n = chars_of(name);
    chars_eq(key, &n)
}

impl AppMode {
    pub fn as_str(self) -> (r: &'static str)
        ensures
            r@ == app_mode_name(self),
    {
        match self {
            AppMode::Web => "web",
            AppMode::Desktop => "desktop",
            AppMode::Demo => "demo",
        }
    }

    /// Reads `APP_MODE`; an unknown value is a configuration error that names it.
    pub fn parse(value: &str) -> (r: Result<AppMode, AppError>)
        ensures
            match r {
                Ok(mode) => app_mode_named(value@) == Some(mode),
                Err(AppError::InvalidConfig(msg)) => app_mode_named(value@) is None && msg@
                    == "unsupported APP_MODE: "@ + ascii_lower_seq(trim(value@)),
            },
    {
        let t = trim_str(value);
        let tc = chars_of(t.as_str());
        let key = to_ascii_lowercase(&tc);
        if key_is(&key, "web") {
            Ok(AppMode::Web)
        } else if key_is(&key, "desktop") {
            Ok(AppMode::Desktop)
        } else if key_is(&key, "demo") {
            Ok(AppMode::Demo)
        } else {
            let mut msg = String::new();
            push_str(&mut msg, "unsupported APP_MODE: ");
            let k = string_of(&key);
            push_str(&mut msg, k.as_str());
            Err(AppError::InvalidConfig(msg))
        }
    }
}

impl AppConfig {
    /// `host:port`, the address the server binds.
    pub fn bind_addr(&self) -> (r: String)
        ensures
            r@ == self.host@ + ":"@ + nat_digits(self.port as nat),
    {
        let mut out = String::new();
        push_str(&mut out, self.host.as_str());
        push_str(&mut out, ":");
        let port = u64_to_string(self.port as u64);
        push_str(&mut out, port.as_str());
        out
    }
}

/// Every mode name reads back as its mode.
pub proof fn lemma_app_mode_round_trip(mode: AppMode)
    ensures
        app_mode_named(app_mode_name(mode)) == Some(mode),
{
    reveal_strlit("web");
    reveal_strlit("desktop");
    reveal_strlit("demo");
    let n = app_mode_name(mode);
    assert(n.len() > 0 && !crate::text::is_ws(n[0]) && !crate::text::is_ws(n.last()));
    assert(crate::text::trim_start(n) == n);
    assert(crate::text::trim_end(n) == n);
    assert(ascii_lower_seq(n) =~= n);
    assert("web"@[0] != "desktop"@[0]);
    assert("web"@[0] != "demo"@[0]);
    assert("desktop"@.len() != "demo"@.len());
}


// ------------------------------------------------------------------------
// Unsigned decimal settings.
// ------------------------------------------------------------------------
/// Why a setting is not an unsigned integer of its type.
#[derive(Debug, Clone, Copy, PartialEq, Eq, Structural)]
pub enum ParseIntKind {
    Empty,
    InvalidDigit,
    PosOverflow,
}

impl ParseIntKind {
    /// The text std gives the error.
    pub fn message(self) -> (r: &'static str)
        ensures
            r@ == parse_int_message(self),
    {
        match self {
            ParseIntKind::Empty => "cannot parse integer from empty string",
            ParseIntKind::InvalidDigit => "invalid digit found in string",
            ParseIntKind::PosOverflow => "number too large to fit in target type",
        }
    }
}

pub open spec fn parse_int_message(kind: ParseIntKind) -> Seq<char> {
    match kind {
        ParseIntKind::Empty => "cannot parse integer from empty string"@,
        ParseIntKind::InvalidDigit => "invalid digit found in string"@,
        ParseIntKind::PosOverflow => "number too large to fit in target type"@,
    }
}

pub open spec fn is_decimal_digit(c: char) -> bool {
    '0' <= c && c <= '9'
}

/// The first `n` characters read as decimal digits, left to right: the first
/// character that is no digit, or the first digit that takes the value past
/// `max`, ends the reading with its error.
pub open spec fn scan_digits(body: Seq<char>, n: int, max: int) -> Result<int, ParseIntKind>
    decreases n,
{
    if n <= 0 {
        Ok(0)
    } else {
        match scan_digits(body, n - 1, max) {
            Err(e) => Err(e),
            Ok(v) => {
                let c = body[n - 1];
                if !is_decimal_digit(c) {
                    Err(ParseIntKind::InvalidDigit)
                } else if v * 10 + (c as int - '0' as int) > max {
                    Err(ParseIntKind::PosOverflow)
                } else {
                    Ok(v * 10 + (c as int - '0' as int))
                }
            },
        }
    }
}

/// An unsigned integer of at most `max` as `str::parse` reads it: an optional
/// `+`, then decimal digits only.
pub open spec fn parse_unsigned(s: Seq<char>, max: int) -> Result<int, ParseIntKind> {
    if s.len() == 0 {
        Err(ParseIntKind::Empty)
    } else if s[0] == '+' && s.len() == 1 {
        Err(ParseIntKind::InvalidDigit)
    } else {
        let body = if s[0] == '+' {
            s.drop_first()
        } else {
            s
        };
        scan_digits(body, body.len() as int, max)
    }
}

proof fn lemma_scan_error_stays(body: Seq<char>, k: int, n: int, max: int)
    requires
        0 <= k <= n,
        scan_digits(body, k, max) is Err,
    ensures
        scan_digits(body, n, max) == scan_digits(body, k, max),
    decreases n - k,
{
    if n > k {
        lemma_scan_error_stays(body, k, n - 1, max);
    }
}

/// `s.parse::<T>()` for an unsigned type whose largest value is `max`.
pub fn parse_unsigned_decimal(s: &str, max: u64) -> (r: Result<u64, ParseIntKind>)
    ensures
        match r {
            Ok(v) => parse_unsigned(s@, max as int) == Ok::<int, ParseIntKind>(v as int),
            Err(k) => parse_unsigned(s@, max as int) == Err::<int, ParseIntKind>(k),
        },
{
    let cs = chars_of(s);
    if cs.len() == 0 {
        return Err(ParseIntKind::Empty);
    }
    let start: usize = if cs[0] == '+' {
        if cs.len() == 1 {
            return Err(ParseIntKind::InvalidDigit);
        }
        1
    } else {
        0
    };
    let ghost body = if cs@[0] == '+' {
        cs@.drop_first()
    } else {
        cs@
    };
    assert(body =~= cs@.subrange(start as int, cs@.len() as int));
    assert(parse_unsigned(s@, max as int) == scan_digits(body, body.len() as int, max as int));
    let mut v: u64 = 0;
    let mut i: usize = start;
    while i < cs.len()
        invariant
            start <= i <= cs@.len(),
            body == cs@.subrange(start as int, cs@.len() as int),
            parse_unsigned(s@, max as int) == scan_digits(body, body.len() as int, max as int),
            v <= max,
            scan_digits(body, i - start, max as int) == Ok::<int, ParseIntKind>(v as int),
        decreases cs@.len() - i,
    {
        let c = cs[i];
        assert(body[i - start] == c);
        if !('0' <= c && c <= '9') {
            proof {
                assert(scan_digits(body, i - start + 1, max as int) == Err::<int, ParseIntKind>(
                    ParseIntKind::InvalidDigit,
                ));
                lemma_scan_error_stays(body, i - start + 1, body.len() as int, max as int);
            }
            return Err(ParseIntKind::InvalidDigit);
        }
        let d: u64 = ((c as u32) - 48u32) as u64;
        let next: u128 = (v as u128) * 10 + (d as u128);
        if next > max as u128 {
            proof {
                assert(scan_digits(body, i - start + 1, max as int) == Err::<int, ParseIntKind>(
                    ParseIntKind::PosOverflow,
                ));
                lemma_scan_error_stays(body, i - start + 1, body.len() as int, max as int);
            }
            return Err(ParseIntKind::PosOverflow);
        }
        v = next as u64;
        i += 1;
    }
    assert(i - start == body.len());
    Ok(v)
}

// ------------------------------------------------------------------------
// Settings.
// ------------------------------------------------------------------------
/// The settings the configuration is read from, each as it was found (the
/// environment variable of the same name, upper-cased), or `None`.
#[derive(Debug, Clone)]
pub struct ConfigSettings {
    pub app_mode: Option<String>,
    pub host: Option<String>,
    pub port: Option<String>,
    pub database_url: Option<String>,
    pub sqlite_database_path: Option<String>,
    pub secrets_key_path: Option<String>,
    pub llama_cpp_timeout_secs: Option<String>,
    pub gemini_timeout_secs: Option<String>,
    pub llama_cpp_base_url: Option<String>,
    pub llama_cpp_default_model: Option<String>,
    pub llama_cpp_server_bin: Option<String>,
    pub gemini_base_url: Option<String>,
    pub secrets_encryption_key: Option<String>,
}

pub open spec fn or_default(value: Option<String>, default: Seq<char>) -> Seq<char> {
    match value {
        Some(v) => v@,
        None => default,
    }
}

fn setting_or(value: &Option<String>, default: &str) -> (r: String)
    ensures
        r@ == or_default(*value, default@),
{
    match value {
        Some(v) => v.clone(),
        None => owned(default),
    }
}

fn copy_setting(value: &Option<String>) -> (r: Option<String>)
    ensures
        opt_view(r) == opt_view(*value),
{
    match value {
        Some(v) => Some(v.clone()),
        None => None,
    }
}

/// The message of a setting that is no unsigned integer.
pub open spec fn invalid_number_message(name: Seq<char>, kind: ParseIntKind) -> Seq<char> {
    "invalid "@ + name + ": "@ + parse_int_message(kind)
}

fn invalid_number(name: &str, kind: ParseIntKind) -> (r: AppError)
    ensures
        r == AppError::InvalidConfig(r->InvalidConfig_0),
        r->InvalidConfig_0@ == invalid_number_message(name@, kind),
{
    let mut msg = owned("invalid ");
    push_str(&mut msg, name);
    push_str(&mut msg, ": ");
    push_str(&mut msg, kind.message());
    AppError::InvalidConfig(msg)
}

/// The SQLite path: the one set, else the default one when no database URL is set.
pub open spec fn sqlite_path_setting(settings: ConfigSettings) -> Option<Seq<char>> {
    match settings.sqlite_database_path {
        Some(p) => Some(p@),
        None => if settings.database_url is None {
            Some("data/novelgraph.sqlite3"@)
        } else {
            None
        },
    }
}

/// A path separator on some platform: `/`, or `\\` on Windows.
pub open spec fn is_path_sep(c: char) -> bool {
    c == '/' || c == '\\'
}

/// No char of `s` is `:` or `\\`, so that on no platform does it hold a drive,
/// a verbatim prefix or a backslash separator.
pub open spec fn no_drive_or_backslash(s: Seq<char>) -> bool {
    forall|i: int| 0 <= i < s.len() ==> (#[trigger] s[i]) != ':' && s[i] != '\\'
}

/// `path` is `dir`, a `/`, then `name`, where `name` is a last component
/// that every platform reads as such: not empty, not `.`, without separator
/// or drive mark; and `dir` is not empty, ends neither in a separator nor in
/// `.`, and has no drive mark or backslash.
pub open spec fn last_component_split(path: Seq<char>, dir: Seq<char>, name: Seq<char>) -> bool {
    &&& path == dir + seq!['/'] + name
    &&& dir.len() > 0
    &&& !is_path_sep(dir.last())
    &&& dir.last() != '.'
    &&& no_drive_or_backslash(dir)
    &&& plain_component(name)
    &&& name != seq!['.']
}

/// `Path::parent`, as text.
///
/// Claims of std's `Path::parent` ("the path without its final component"):
/// an empty path has none; a parent is a prefix of the path; and a path that
/// is a plain directory, `/`, and a plain last component has that directory
/// as parent. What it gives for other forms (roots, prefixes, `.` parts,
/// repeated separators) is left unsaid.
#[verifier::external_body]
fn path_parent(path: &str) -> (r: Option<String>)
    ensures
        path@.len() == 0 ==> r is None,
        r matches Some(p) ==> p@.len() <= path@.len() && p@ == path@.take(p@.len() as int),
        forall|dir: Seq<char>, name: Seq<char>|
            #[trigger] last_component_split(path@, dir, name) ==> opt_view(r) == Some(dir),
{
    std::path::Path::new(path).parent().map(|p| p.to_string_lossy().into_owned())
}

/// `path` is `part` joined under `base`: `base`, at most one separator, then
/// `part`.
pub open spec fn joined_under(path: Seq<char>, base: Seq<char>, part: Seq<char>) -> bool {
    &&& base.len() + part.len() <= path.len() <= base.len() + part.len() + 1
    &&& path.take(base.len() as int) == base
    &&& path.skip(path.len() - part.len()) == part
}

/// `path` is `base`, one separator, then `part`.
pub open spec fn joined_with_sep(path: Seq<char>, base: Seq<char>, part: Seq<char>) -> bool {
    &&& path.len() == base.len() + 1 + part.len()
    &&& path.take(base.len() as int) == base
    &&& is_path_sep(path[base.len() as int])
    &&& path.skip(base.len() + 1int) == part
}

/// A plain path component: not empty, with no separator or drive mark.
pub open spec fn plain_component(part: Seq<char>) -> bool {
    part.len() > 0 && forall|i: int| 0 <= i < part.len() ==> (#[trigger] part[i]) != '/' && part[i] != '\\' && part[i]
        != ':'
}

/// `s` starts with a Windows verbatim prefix `\\?\`.
pub open spec fn verbatim_prefixed(s: Seq<char>) -> bool {
    s.len() >= 4 && s[0] == '\\' && s[1] == '\\' && s[2] == '?' && s[3] == '\\'
}

/// A base that a plain component is joined to with exactly one separator:
/// not empty, not starting with `\\` (so no verbatim or UNC prefix), no drive
/// mark, not ending in a separator.
pub open spec fn extendable_base(base: Seq<char>) -> bool {
    &&& base.len() > 0
    &&& base[0] != '\\'
    &&& !is_path_sep(base.last())
    &&& forall|i: int| 0 <= i < base.len() ==> (#[trigger] base[i]) != ':'
}

/// `PathBuf::join`, as text.
///
/// Claims of std's `PathBuf::push` for a plain relative component: unless
/// the base has a Windows verbatim prefix (where std normalizes the whole
/// path), the base is kept and the component follows, with a separator added
/// only where one is needed; after a non-empty base with no drive mark that
/// does not end in a separator, exactly one separator is added. Which of `/`
/// and `\\` that separator is depends on the platform and is left unsaid.
#[verifier::external_body]
fn path_join(base: &str, part: &str) -> (r: String)
    requires
        plain_component(part@),
    ensures
        !verbatim_prefixed(base@) ==> joined_under(r@, base@, part@),
        extendable_base(base@) ==> joined_with_sep(r@, base@, part@),
{
    std::path::PathBuf::from(base).join(part).to_string_lossy().into_owned()
}

/// `dir` is where the key file goes by default: `data`, or the directory
/// of the SQLite database (a prefix of its path) when it has one.
pub open spec fn default_key_dir(settings: ConfigSettings, dir: Seq<char>) -> bool {
    match sqlite_path_setting(settings) {
        Some(p) => dir == "data"@ || (dir.len() <= p.len() && dir == p.take(dir.len() as int)),
        None => dir == "data"@,
    }
}

/// `path` is the default key file: `byok.key` under `secrets` under `dir`,
/// as far as std promises the joins (none under a verbatim prefix).
pub open spec fn default_key_path(settings: ConfigSettings, path: Seq<char>, dir: Seq<char>, secrets: Seq<char>) -> bool {
    &&& default_key_dir(settings, dir)
    &&& !verbatim_prefixed(dir) ==> joined_under(secrets, dir, "secrets"@)
    &&& !verbatim_prefixed(secrets) ==> joined_under(path, secrets, "byok.key"@)
}

/// `path` is `dir`, a separator, `secrets`, a separator, `byok.key`.
pub open spec fn key_file_under(path: Seq<char>, dir: Seq<char>) -> bool {
    let n = dir.len() as int;
    &&& path.len() == n + 17
    &&& path.take(n) == dir
    &&& is_path_sep(path[n])
    &&& path.subrange(n + 1, n + 8) == "secrets"@
    &&& is_path_sep(path[n + 8])
    &&& path.skip(n + 9) == "byok.key"@
}

/// The default SQLite path is the directory `data` and the file
/// `novelgraph.sqlite3`.
proof fn lemma_default_sqlite_path_split()
    ensures
        last_component_split("data/novelgraph.sqlite3"@, "data"@, "novelgraph.sqlite3"@),
        extendable_base("data"@),
{
    reveal_strlit("data/novelgraph.sqlite3");
    reveal_strlit("data");
    reveal_strlit("novelgraph.sqlite3");
    assert("data/novelgraph.sqlite3"@ =~= "data"@ + seq!['/'] + "novelgraph.sqlite3"@);
    assert("novelgraph.sqlite3"@ != seq!['.']) by {
        assert("novelgraph.sqlite3"@.len() != 1);
    }
}

/// Two joins with one separator each, from a base that takes one, give the
/// key file under that base.
proof fn lemma_key_file_joins(dir: Seq<char>, secrets: Seq<char>, path: Seq<char>)
    requires
        extendable_base(dir) ==> joined_with_sep(secrets, dir, "secrets"@),
        extendable_base(secrets) ==> joined_with_sep(path, secrets, "byok.key"@),
    ensures
        extendable_base(dir) ==> key_file_under(path, dir),
{
    reveal_strlit("secrets");
    reveal_strlit("byok.key");
    if extendable_base(dir) {
        let n = dir.len() as int;
        assert(secrets.skip(n + 1) == "secrets"@);
        assert(secrets.last() == secrets.skip(n + 1)[6]);
        assert forall|i: int| 0 <= i < secrets.len() implies (#[trigger] secrets[i]) != ':' by {
            if i < n {
                assert(secrets[i] == secrets.take(n)[i]);
            } else if i > n {
                assert(secrets[i] == secrets.skip(n + 1)[i - n - 1]);
            }
        }
        assert(secrets[0] == dir[0]) by {
            assert(secrets[0] == secrets.take(n)[0]);
        }
        assert(extendable_base(secrets));
        assert(path.take(n) =~= secrets.take(n)) by {
            assert(path.take(n) =~= path.take(secrets.len() as int).take(n));
        }
        assert(path[n] == secrets[n]) by {
            assert(path[n] == path.take(secrets.len() as int)[n]);
        }
        assert(path.subrange(n + 1, n + 8) =~= secrets.skip(n + 1)) by {
            assert forall|k: int| 0 <= k < 7 implies #[trigger] path.subrange(n + 1, n + 8)[k] == secrets.skip(n + 1)[k] by {
                assert(path[n + 1 + k] == path.take(secrets.len() as int)[n + 1 + k]);
            }
        }
        assert(path[n + 8] == path[secrets.len() as int]);
        assert(path.skip(n + 9) =~= path.skip(secrets.len() + 1int));
    }
}

impl AppConfig {
    /// The configuration from the settings found: each setting parsed or
    /// defaulted; the first setting that cannot be read gives the error.
    pub fn from_settings(settings: &ConfigSettings, default_server_bin: &str) -> (r: Result<AppConfig, AppError>)
        ensures
            ({
                let mode = app_mode_named(or_default(settings.app_mode, "web"@));
                let port = parse_unsigned(or_default(settings.port, "3000"@), u16::MAX as int);
                let llama = parse_unsigned(or_default(settings.llama_cpp_timeout_secs, "120"@), u64::MAX as int);
                let gemini = parse_unsigned(or_default(settings.gemini_timeout_secs, "120"@), u64::MAX as int);
                match r {
                    Ok(c) => {
                        &&& mode == Some(c.mode)
                        &&& port == Ok::<int, ParseIntKind>(c.port as int)
                        &&& llama == Ok::<int, ParseIntKind>(c.llama_cpp_timeout_secs as int)
                        &&& gemini == Ok::<int, ParseIntKind>(c.gemini_timeout_secs as int)
                        &&& c.host@ == or_default(settings.host, "127.0.0.1"@)
                        &&& opt_view(c.database_url) == opt_view(settings.database_url)
                        &&& opt_view(c.sqlite_database_path) == sqlite_path_setting(*settings)
                        &&& c.llama_cpp_base_url@ == or_default(settings.llama_cpp_base_url, "http://127.0.0.1:8080"@)
                        &&& c.llama_cpp_default_model@ == or_default(settings.llama_cpp_default_model, "qwen3"@)
                        &&& c.llama_cpp_server_bin@ == or_default(settings.llama_cpp_server_bin, default_server_bin@)
                        &&& c.gemini_base_url@ == or_default(
                            settings.gemini_base_url,
                            "https://generativelanguage.googleapis.com/v1beta"@,
                        )
                        &&& opt_view(c.secrets_encryption_key) == trimmed_nonempty(opt_view(settings.secrets_encryption_key))
                        &&& (settings.secrets_key_path matches Some(p) ==> c.secrets_key_path@ == p@)
                        &&& (settings.secrets_key_path is None ==> exists|dir: Seq<char>, secrets: Seq<char>|
                            #[trigger] default_key_path(*settings, c.secrets_key_path@, dir, secrets))
                        &&& (settings.secrets_key_path is None && sqlite_path_setting(*settings) is None
                            ==> key_file_under(c.secrets_key_path@, "data"@))
                        &&& (settings.secrets_key_path is None && settings.sqlite_database_path is None
                            && settings.database_url is None ==> key_file_under(c.secrets_key_path@, "data"@))
                        &&& (settings.secrets_key_path is None ==> forall|dir: Seq<char>, name: Seq<char>|
                            #[trigger] last_component_split(sqlite_path_setting(*settings)->0, dir, name)
                                && sqlite_path_setting(*settings) is Some ==> key_file_under(
                                c.secrets_key_path@,
                                dir,
                            ))
                    },
                    Err(AppError::InvalidConfig(msg)) => if mode is None {
                        msg@ == "unsupported APP_MODE: "@ + ascii_lower_seq(trim(or_default(settings.app_mode, "web"@)))
                    } else if port is Err {
                        msg@ == invalid_number_message("PORT"@, port->Err_0)
                    } else if llama is Err {
                        msg@ == invalid_number_message("LLAMA_CPP_TIMEOUT_SECS"@, llama->Err_0)
                    } else {
                        gemini is Err && msg@ == invalid_number_message("GEMINI_TIMEOUT_SECS"@, gemini->Err_0)
                    },
                }
            }),
    {
        let mode_text = setting_or(&settings.app_mode, "web");
        let mode = match AppMode::parse(mode_text.as_str()) {
            Ok(m) => m,
            Err(e) => return Err(e),
        };
        let host = setting_or(&settings.host, "127.0.0.1");
        let port_text = setting_or(&settings.port, "3000");
        let port = match parse_unsigned_decimal(port_text.as_str(), 65535) {
            Ok(p) => p as u16,
            Err(kind) => return Err(invalid_number("PORT", kind)),
        };
        let database_url = copy_setting(&settings.database_url);
        let sqlite_database_path = match &settings.sqlite_database_path {
            Some(p) => Some(p.clone()),
            None => if database_url.is_none() {
                Some(owned("data/novelgraph.sqlite3"))
            } else {
                None
            },
        };
        let ghost mut key_dir: Seq<char> = Seq::empty();
        let ghost mut key_secrets: Seq<char> = Seq::empty();
        let secrets_key_path = match &settings.secrets_key_path {
            Some(p) => p.clone(),
            None => {
                let data_dir = match &sqlite_database_path {
                    Some(path) => match path_parent(path.as_str()) {
                        Some(parent) => parent,
                        None => owned("data"),
                    },
                    None => owned("data"),
                };
                proof {
                    reveal_strlit("secrets");
                    reveal_strlit("byok.key");
                }
                let secrets_dir = path_join(data_dir.as_str(), "secrets");
                let key = path_join(secrets_dir.as_str(), "byok.key");
                proof {
                    key_dir = data_dir@;
                    key_secrets = secrets_dir@;
                    lemma_key_file_joins(data_dir@, secrets_dir@, key@);
                    if sqlite_path_setting(*settings) is None {
                        reveal_strlit("data");
                        assert(extendable_base("data"@));
                    }
                    if settings.sqlite_database_path is None && settings.database_url is None {
                        lemma_default_sqlite_path_split();
                        assert(data_dir@ == "data"@);
                        assert(extendable_base("data"@));
                    }
                    assert forall|dir: Seq<char>, name: Seq<char>|
                        #[trigger] last_component_split(sqlite_path_setting(*settings)->0, dir, name)
                            && sqlite_path_setting(*settings) is Some implies key_file_under(key@, dir) by {
                        assert(data_dir@ == dir);
                        assert(extendable_base(dir));
                    }
                }
                assert(default_key_path(*settings, key@, key_dir, key_secrets));
                key
            },
        };
        let llama_text = setting_or(&settings.llama_cpp_timeout_secs, "120");
        let llama_cpp_timeout_secs = match parse_unsigned_decimal(llama_text.as_str(), u64::MAX) {
            Ok(v) => v,
            Err(kind) => return Err(invalid_number("LLAMA_CPP_TIMEOUT_SECS", kind)),
        };
        let gemini_text = setting_or(&settings.gemini_timeout_secs, "120");
        let gemini_timeout_secs = match parse_unsigned_decimal(gemini_text.as_str(), u64::MAX) {
            Ok(v) => v,
            Err(kind) => return Err(invalid_number("GEMINI_TIMEOUT_SECS", kind)),
        };
        let config = AppConfig {
                mode,
                host,
                port,
                database_url,
                sqlite_database_path,
                llama_cpp_base_url: setting_or(&settings.llama_cpp_base_url, "http://127.0.0.1:8080"),
                llama_cpp_default_model: setting_or(&settings.llama_cpp_default_model, "qwen3"),
                llama_cpp_server_bin: setting_or(&settings.llama_cpp_server_bin, default_server_bin),
                llama_cpp_timeout_secs,
                gemini_base_url: setting_or(
                    &settings.gemini_base_url,
                    "https://generativelanguage.googleapis.com/v1beta",
                ),
                gemini_timeout_secs,
                secrets_encryption_key: optional_trimmed(&settings.secrets_encryption_key),
                secrets_key_path,
            };
        proof {
            if settings.secrets_key_path is None {
                assert(default_key_path(*settings, config.secrets_key_path@, key_dir, key_secrets));
            }
        }
        Ok(config)
    }
}


/// Only SQLite storage is served: a database URL must name it.
pub const MSG_SQLITE_ONLY: &'static str =
    "only SQLite storage is implemented in this foundation slice; set SQLITE_DATABASE_PATH or use a sqlite DATABASE_URL";

/// A database URL names SQLite when it starts with `sqlite:`.
pub fn is_sqlite_database_url(url: &str) -> (r: bool)
    ensures
        r == has_prefix(url@, "sqlite:"@),
{
    let cs = chars_of(url);
    let prefix = chars_of("sqlite:");
    starts_with_chars(&cs, &prefix)
}


// ------------------------------------------------------------------------
// Reading back a number.
// ------------------------------------------------------------------------
proof fn lemma_scan_prefix(a: Seq<char>, b: Seq<char>, k: int, max: int)
    requires
        0 <= k <= a.len(),
        k <= b.len(),
        a.take(k) == b.take(k),
    ensures
        scan_digits(a, k, max) == scan_digits(b, k, max),
    decreases k,
{
    if k > 0 {
        assert(a.take(k - 1) =~= a.take(k).take(k - 1));
        assert(b.take(k - 1) =~= b.take(k).take(k - 1));
        lemma_scan_prefix(a, b, k - 1, max);
        assert(a[k - 1] == a.take(k)[k - 1]);
        assert(b[k - 1] == b.take(k)[k - 1]);
    }
}

proof fn lemma_digit_char(d: int)
    requires
        0 <= d < 10,
    ensures
        is_decimal_digit(digit_char(d)),
        digit_char(d) as int - '0' as int == d,
{
}

proof fn lemma_scan_decimal(n: nat, max: int)
    requires
        n <= max,
    ensures
        scan_digits(nat_digits(n), nat_digits(n).len() as int, max) == Ok::<int, ParseIntKind>(n as int),
        nat_digits(n).len() >= 1,
        is_decimal_digit(nat_digits(n)[0]),
    decreases n,
{
    if n < 10 {
        lemma_digit_char(n as int);
        let s = nat_digits(n);
        assert(s =~= seq![digit_char(n as int)]);
        assert(scan_digits(s, 0, max) == Ok::<int, ParseIntKind>(0));
    } else {
        let q = (n / 10) as nat;
        let d = (n % 10) as int;
        lemma_scan_decimal(q, max);
        lemma_digit_char(d);
        let head = nat_digits(q);
        let s = nat_digits(n);
        assert(s == head.push(digit_char(d)));
        assert(s.take(head.len() as int) =~= head.take(head.len() as int));
        lemma_scan_prefix(s, head, head.len() as int, max);
        assert(s[head.len() as int] == digit_char(d));
        assert(q * 10 + d == n);
        assert(s[0] == head[0]);
    }
}

/// The decimal form of a number reads back as the number, for every number
/// the type holds: `parse` undoes `to_string`.
pub proof fn lemma_decimal_round_trip(n: nat, max: int)
    requires
        n <= max,
    ensures
        parse_unsigned(nat_digits(n), max) == Ok::<int, ParseIntKind>(n as int),
{
    lemma_scan_decimal(n, max);
}

} // verus!
