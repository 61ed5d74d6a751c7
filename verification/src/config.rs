//! Command-line configuration: where the daemon is, which token to use, where files live,
//! and the launch agent that runs the daemon.
use vstd::prelude::*;

use crate::cli::CliError;
use crate::fsops::{last_index_of, trim_by, trim_whitespace, whitespace_pred};
use crate::text::{chars_of, decimal, has_prefix, str_strip_prefix, u64_text};

verus! {

broadcast use vstd::string::group_string_axioms;

/// The daemon host unless configured otherwise.
pub const DEFAULT_HOST: &'static str = "127.0.0.1";

/// The daemon port unless configured otherwise.
pub const DEFAULT_PORT: u16 = 18301;

/// The name of the token file used unless told otherwise.
pub const DEFAULT_TOKEN_NAME: &'static str = "default";

/// The launchd label of the daemon.
pub const LAUNCHD_LABEL: &'static str = "io.github.ch37n1.memo.memod";

/// Whether `c` is an ASCII digit.
pub open spec fn ascii_digit(c: char) -> bool {
    '0' <= c && c <= '9'
}

/// The value of a string of decimal digits.
pub open spec fn digits_value(s: Seq<char>) -> nat
    decreases s.len(),
{
    if s.len() == 0 {
        0
    } else {
        digits_value(s.drop_last()) * 10 + ((s.last() as nat) - 48) as nat
    }
}

/// The digits of a number's text: what follows a leading `+`, if there is one.
pub open spec fn u16_digits(s: Seq<char>) -> Seq<char> {
    if s.len() > 0 && s[0] == '+' {
        s.skip(1)
    } else {
        s
    }
}

/// Whether every character of `d` is a decimal digit.
pub open spec fn all_digits(d: Seq<char>) -> bool {
    forall|i: int| 0 <= i < d.len() ==> ascii_digit(#[trigger] d[i])
}

/// `str::parse::<u16>`: an optional `+`, then one or more decimal digits whose value fits.
pub open spec fn parse_u16_text(s: Seq<char>) -> Option<u16> {
    let d = u16_digits(s);
    if d.len() > 0 && all_digits(d) && digits_value(d) <= 65535 {
        Some(digits_value(d) as u16)
    } else {
        None
    }
}

/// The value of digits is at least that of any prefix.
pub proof fn lemma_digits_value_prefix(s: Seq<char>, k: int)
    requires
        0 <= k <= s.len(),
        forall|i: int| 0 <= i < s.len() ==> ascii_digit(#[trigger] s[i]),
    ensures
        digits_value(s) >= digits_value(s.take(k)),
    decreases s.len() - k,
{
    if k < s.len() {
        assert(s.take(k + 1).drop_last() =~= s.take(k));
        assert(s.take(k + 1).last() == s[k]);
        lemma_digits_value_prefix(s, k + 1);
    } else {
        assert(s.take(k) =~= s);
    }
}

/// Reads a port number as `str::parse::<u16>` does.
pub fn parse_u16(s: &str) -> (r: Option<u16>)
    ensures
        r == parse_u16_text(s@),
{
    let v = chars_of(s);
    let start: usize = if v.len() > 0 && v[0] == '+' {
        1
    } else {
        0
    };
    let ghost d = u16_digits(s@);
    proof {
        assert(d =~= v@.skip(start as int));
    }
    if start >= v.len() {
        return None;
    }
    let mut value: u32 = 0;
    let mut i: usize = start;
    proof {
        assert(d.take(0) =~= Seq::<char>::empty());
    }
    while i < v.len()
        invariant
            v@ == s@,
            d == v@.skip(start as int),
            d == u16_digits(s@),
            start <= i <= v.len(),
            forall|k: int| 0 <= k < i - start ==> ascii_digit(#[trigger] d[k]),
            value == digits_value(d.take(i - start)),
            value <= 65535,
        decreases v.len() - i,
    {
        let c = v[i];
        proof {
            assert(d[i - start] == c);
        }
        if !('0' <= c && c <= '9') {
            proof {
                assert(!ascii_digit(d[i - start]));
                assert(!all_digits(d));
                assert(parse_u16_text(s@) is None);
            }
            return None;
        }
        let digit = (c as u32) - 48;
        proof {
            assert(d.take(i - start + 1).drop_last() =~= d.take(i - start));
            assert(d.take(i - start + 1).last() == c);
        }
        if value > 6553 || value * 10 + digit > 65535 {
            proof {
                assert(digits_value(d.take(i - start + 1)) == digits_value(d.take(i - start)) * 10
                    + ((c as nat) - 48) as nat);
                assert(digits_value(d.take(i - start + 1)) > 65535);
                if all_digits(d) {
                    lemma_digits_value_prefix(d, i - start + 1);
                    assert(digits_value(d) > 65535);
                }
                assert(parse_u16_text(s@) is None);
            }
            return None;
        }
        value = value * 10 + digit;
        i = i + 1;
    }
    proof {
        assert(d.take(v.len() - start) =~= d);
    }
    Some(value as u16)
}

/// `base` joined with `rest` as `Path::join` does: an absolute `rest` replaces `base`; a
/// slash is put between them unless `base` is empty or already ends with one.
pub open spec fn path_join(base: Seq<char>, rest: Seq<char>) -> Seq<char> {
    if rest.len() > 0 && rest[0] == '/' {
        rest
    } else if base.len() == 0 || base.last() == '/' {
        base + rest
    } else {
        base + seq!['/'] + rest
    }
}

/// Joins `rest` onto `base` as a path.
pub fn join_path(base: &str, rest: &str) -> (p: String)
    ensures
        p@ == path_join(base@, rest@),
{
    let r = chars_of(rest);
    if r.len() > 0 && r[0] == '/' {
        return rest.to_owned();
    }
    let b = chars_of(base);
    let mut out = base.to_owned();
    if !(b.len() == 0 || b[b.len() - 1] == '/') {
        out.append("/");
        proof {
            reveal_strlit("/");
        }
    }
    out.append(rest);
    out
}

/// The host and port of a `host:port` bind address; the port follows the last colon.
pub open spec fn bind_addr_outcome(bind: Option<Seq<char>>) -> Result<
    (Option<Seq<char>>, Option<u16>),
    Seq<char>,
> {
    match bind {
        None => Ok((None, None)),
        Some(b) => {
            let t = trim_by(b, whitespace_pred());
            if t.len() == 0 {
                Ok((None, None))
            } else {
                match last_index_of(t, ':') {
                    None => Err("invalid daemon.bind_addr: "@ + t),
                    Some(k) => match parse_u16_text(t.skip(k + 1)) {
                        None => Err("invalid daemon.bind_addr port: "@ + t),
                        Some(port) => Ok((Some(t.take(k)), Some(port))),
                    },
                }
            }
        },
    }
}

/// The characters of an optional string slice.
pub open spec fn opt_str(o: Option<&str>) -> Option<Seq<char>> {
    match o {
        Some(s) => Some(s@),
        None => None,
    }
}

/// Reads the `daemon.bind_addr` setting; an address without a colon or with a bad port
/// is a configuration error naming it.
pub fn parse_bind_addr(bind_addr: Option<&str>) -> (r: Result<(Option<String>, Option<u16>), CliError>)
    ensures
        match bind_addr_outcome(opt_str(bind_addr)) {
            Ok((h, p)) => r matches Ok((rh, rp)) && crate::text::opt_text(rh) == h && rp == p,
            Err(m) => r matches Err(CliError::Config(x)) && x@ == m,
        },
{
    let bind_addr = match bind_addr {
        Some(b) => b,
        None => return Ok((None, None)),
    };
    let trimmed = trim_whitespace(bind_addr);
    let v = chars_of(trimmed);
    if v.len() == 0 {
        return Ok((None, None));
    }
    let mut j: usize = v.len();
    proof {
        assert(v@.take(v.len() as int) =~= v@);
    }
    while j > 0 && v[j - 1] != ':'
        invariant
            v@ == trimmed@,
            0 <= j <= v.len(),
            last_index_of(v@, ':') == last_index_of(v@.take(j as int), ':'),
        decreases j,
    {
        proof {
            assert(v@.take(j as int).drop_last() =~= v@.take(j - 1));
        }
        j = j - 1;
    }
    proof {
        if j == v.len() {
            assert(v@.take(j as int) =~= v@);
        }
    }
    if j == 0 {
        proof {
            assert(v@.take(0) =~= Seq::<char>::empty());
        }
        return Err(CliError::Config("invalid daemon.bind_addr: ".to_owned().concat(trimmed)));
    }
    proof {
        assert(v@.take(j as int).last() == ':');
        assert(last_index_of(v@, ':') == Some(j - 1));
    }
    let host = trimmed.substring_char(0, j - 1);
    let port_text = trimmed.substring_char(j, v.len());
    proof {
        assert(trimmed@.subrange(j as int, v.len() as int) =~= trimmed@.skip(j as int));
        assert(trimmed@.subrange(0, j - 1) =~= trimmed@.take(j - 1));
    }
    match parse_u16(port_text) {
        Some(port) => Ok((Some(host.to_owned()), Some(port))),
        None => Err(CliError::Config("invalid daemon.bind_addr port: ".to_owned().concat(trimmed))),
    }
}

/// Where the daemon is: the host from the flag, the environment, the configuration file or
/// the default, in that order; the port likewise, an unreadable `MEMO_PORT` being an error.
/// A bad configured address is an error in any case.
pub open spec fn daemon_addr_outcome(
    flag_host: Option<Seq<char>>,
    flag_port: Option<u16>,
    env_host: Option<Seq<char>>,
    env_port: Option<Seq<char>>,
    config_bind_addr: Option<Seq<char>>,
) -> Result<(Seq<char>, u16), Seq<char>> {
    match bind_addr_outcome(config_bind_addr) {
        Err(m) => Err(m),
        Ok((config_host, config_port)) => {
            let host = match flag_host {
                Some(h) => h,
                None => match env_host {
                    Some(h) => h,
                    None => match config_host {
                        Some(h) => h,
                        None => "127.0.0.1"@,
                    },
                },
            };
            match flag_port {
                Some(p) => Ok((host, p)),
                None => match env_port {
                    Some(t) => match parse_u16_text(t) {
                        Some(p) => Ok((host, p)),
                        None => Err("invalid MEMO_PORT: "@ + t),
                    },
                    None => match config_port {
                        Some(p) => Ok((host, p)),
                        None => Ok((host, 18301)),
                    },
                },
            }
        },
    }
}

/// Resolves the daemon address from flags, environment and configuration.
pub fn resolve_daemon_addr(
    flag_host: Option<&str>,
    flag_port: Option<u16>,
    env_host: Option<&str>,
    env_port: Option<&str>,
    config_bind_addr: Option<&str>,
) -> (r: Result<(String, u16), CliError>)
    ensures
        match daemon_addr_outcome(
            opt_str(flag_host),
            flag_port,
            opt_str(env_host),
            opt_str(env_port),
            opt_str(config_bind_addr),
        ) {
            Ok((h, p)) => r matches Ok((rh, rp)) && rh@ == h && rp == p,
            Err(m) => r matches Err(CliError::Config(x)) && x@ == m,
        },
        r is Ok && flag_host is Some ==> r->Ok_0.0@ == flag_host->Some_0@,
        r is Ok && flag_host is None && env_host is Some ==> r->Ok_0.0@ == env_host->Some_0@,
        r is Ok && flag_port is Some ==> r->Ok_0.1 == flag_port->Some_0,
        r is Ok && flag_port is None && env_port is Some ==> parse_u16_text(env_port->Some_0@)
            == Some(r->Ok_0.1),
{
    let (config_host, config_port) = parse_bind_addr(config_bind_addr)?;
    let host = match flag_host {
        Some(h) => h.to_owned(),
        None => match env_host {
            Some(h) => h.to_owned(),
            None => match config_host {
                Some(h) => h,
                None => DEFAULT_HOST.to_owned(),
            },
        },
    };
    let port = match flag_port {
        Some(p) => p,
        None => match env_port {
            Some(t) => match parse_u16(t) {
                Some(p) => p,
                None => return Err(CliError::Config("invalid MEMO_PORT: ".to_owned().concat(t))),
            },
            None => match config_port {
                Some(p) => p,
                None => DEFAULT_PORT,
            },
        },
    };
    Ok((host, port))
}

/// The token to use: the flag, else the environment, else the token file's contents
/// trimmed, unless they are blank or there is no file.
pub open spec fn token_choice(
    flag: Option<Seq<char>>,
    env: Option<Seq<char>>,
    file: Option<Seq<char>>,
) -> Option<Seq<char>> {
    match flag {
        Some(t) => Some(t),
        None => match env {
            Some(t) => Some(t),
            None => match file {
                None => None,
                Some(c) => if trim_by(c, whitespace_pred()).len() == 0 {
                    None
                } else {
                    Some(trim_by(c, whitespace_pred()))
                },
            },
        },
    }
}

/// Picks the token from the flag, the environment and the token file's contents (`None`
/// when there is no file).
pub fn resolve_token(flag_token: Option<&str>, env_token: Option<&str>, file_contents: Option<&str>) -> (r: Option<String>)
    ensures
        crate::text::opt_text(r) == token_choice(
            opt_str(flag_token),
            opt_str(env_token),
            opt_str(file_contents),
        ),
        flag_token is Some ==> crate::text::opt_text(r) == opt_str(flag_token),
        flag_token is None && env_token is Some ==> crate::text::opt_text(r) == opt_str(env_token),
        flag_token is None && env_token is None && file_contents is None ==> r is None,
{
    if let Some(token) = flag_token {
        return Some(token.to_owned());
    }
    if let Some(token) = env_token {
        return Some(token.to_owned());
    }
    let contents = match file_contents {
        Some(c) => c,
        None => return None,
    };
    let trimmed = trim_whitespace(contents);
    if trimmed.unicode_len() == 0 {
        return None;
    }
    Some(trimmed.to_owned())
}

/// The daemon's address in order of precedence: a host or port given by flag wins, then the
/// one from the environment, whatever the configuration file says (a bad configured address
/// is an error in any case, and so is an unreadable port in the environment).
pub proof fn lemma_daemon_addr_precedence(
    flag_host: Option<Seq<char>>,
    flag_port: Option<u16>,
    env_host: Option<Seq<char>>,
    env_port: Option<Seq<char>>,
    config_bind_addr: Option<Seq<char>>,
)
    ensures
        daemon_addr_outcome(flag_host, flag_port, env_host, env_port, config_bind_addr) matches Ok(
            (h, p),
        ) ==> (flag_host is Some ==> h == flag_host->Some_0) && (flag_host is None
            && env_host is Some ==> h == env_host->Some_0) && (flag_port is Some ==> p
            == flag_port->Some_0) && (flag_port is None && env_port is Some ==> parse_u16_text(
            env_port->Some_0,
        ) == Some(p)),
        bind_addr_outcome(config_bind_addr) is Ok && flag_port is Some ==> daemon_addr_outcome(
            flag_host,
            flag_port,
            env_host,
            env_port,
            config_bind_addr,
        ) is Ok,
{
}

/// The token's sources in order of precedence: a flag wins over everything; without a flag
/// the environment's token wins whatever the token file holds; only when neither is given
/// does the token file count, and without one there is no token.
pub proof fn lemma_token_precedence(
    flag: Option<Seq<char>>,
    env: Option<Seq<char>>,
    file: Option<Seq<char>>,
    other_env: Option<Seq<char>>,
    other_file: Option<Seq<char>>,
)
    ensures
        flag is Some ==> token_choice(flag, env, file) == flag,
        flag is Some ==> token_choice(flag, env, file) == token_choice(flag, other_env, other_file),
        flag is None && env is Some ==> token_choice(flag, env, file) == env,
        flag is None && env is Some ==> token_choice(flag, env, file) == token_choice(
            flag,
            env,
            other_file,
        ),
        flag is None && env is None && file is None ==> token_choice(flag, env, file) is None,
        token_choice(flag, env, file) matches Some(t) ==> flag == Some(t) || env == Some(t) || (
        file is Some && t == trim_by(file->Some_0, whitespace_pred()) && t.len() > 0),
{
}

/// A path with a leading `~/` taken from the home directory.
pub open spec fn expanded_path(path: Seq<char>, home: Seq<char>) -> Seq<char> {
    if has_prefix(path, "~/"@) {
        path_join(home, path.skip(2))
    } else {
        path
    }
}

/// Expands a leading `~/` to the home directory `home`.
pub fn expand_user_path(path: &str, home: &str) -> (p: String)
    ensures
        p@ == expanded_path(path@, home@),
{
    proof {
        reveal_strlit("~/");
    }
    match str_strip_prefix(path, "~/") {
        Some(rest) => join_path(home, rest),
        None => path.to_owned(),
    }
}

/// The daemon log: the configured path, expanded, unless it is blank; else the default
/// under the home directory.
pub open spec fn log_path_choice(configured: Option<Seq<char>>, home: Seq<char>) -> Seq<char> {
    match configured {
        Some(p) => if trim_by(p, whitespace_pred()).len() > 0 {
            expanded_path(trim_by(p, whitespace_pred()), home)
        } else {
            path_join(home, ".local/state/memo/memod.log"@)
        },
        None => path_join(home, ".local/state/memo/memod.log"@),
    }
}

/// Where the daemon log is.
pub fn resolve_log_path(path_from_config: Option<&str>, home: &str) -> (p: String)
    ensures
        p@ == log_path_choice(opt_str(path_from_config), home@),
{
    if let Some(path) = path_from_config {
        let trimmed = trim_whitespace(path);
        if trimmed.unicode_len() > 0 {
            return expand_user_path(trimmed, home);
        }
    }
    join_path(home, ".local/state/memo/memod.log")
}

/// The configuration file under the home directory.
pub fn config_file_path(home: &str) -> (p: String)
    ensures
        p@ == path_join(home@, ".config/memo/config.toml"@),
{
    join_path(home, ".config/memo/config.toml")
}

/// The file of the token called `name` under the home directory.
pub fn token_file_path(home: &str, name: &str) -> (p: String)
    ensures
        p@ == path_join(home@, ".config/memo/tokens/"@ + name@ + ".token"@),
{
    let mut rest = ".config/memo/tokens/".to_owned();
    rest.append(name);
    rest.append(".token");
    join_path(home, rest.as_str())
}

/// The launch agent definition under the home directory.
pub fn launch_agent_plist_path(home: &str) -> (p: String)
    ensures
        p@ == path_join(home@, "Library/LaunchAgents/io.github.ch37n1.memo.memod.plist"@),
{
    join_path(home, "Library/LaunchAgents/io.github.ch37n1.memo.memod.plist")
}

/// The daemon's process-id file under the runtime directory.
pub fn pid_file_path(runtime_root: &str) -> (p: String)
    ensures
        p@ == path_join(runtime_root@, "memo/memod.pid"@),
{
    join_path(runtime_root, "memo/memod.pid")
}

/// The resolved settings of a command-line run.
#[derive(Debug)]
pub struct RuntimeConfig {
    pub json: bool,
    pub host: String,
    pub port: u16,
    pub token: Option<String>,
    pub default_mount: Option<String>,
    pub log_path: String,
}

impl RuntimeConfig {
    /// The daemon's base URL: `http://host:port`.
    pub fn base_url(&self) -> (u: String)
        ensures
            u@ == "http://"@ + self.host@ + ":"@ + decimal(self.port as nat),
    {
        let mut u = "http://".to_owned();
        u.append(self.host.as_str());
        u.append(":");
        u.append(u64_text(self.port as u64).as_str());
        u
    }
}

/// The launch agent definition that runs `binary` with its output in `log_path`.
pub open spec fn plist_text(binary: Seq<char>, log_path: Seq<char>) -> Seq<char> {
    "<?xml version=\"1.0\" encoding=\"UTF-8\"?>\n<!DOCTYPE plist PUBLIC \"-//Apple//DTD PLIST 1.0//EN\" \"http://www.apple.com/DTDs/PropertyList-1.0.dtd\">\n<plist version=\"1.0\">\n<dict>\n  <key>Label</key>\n  <string>"@
        + "io.github.ch37n1.memo.memod"@
        + "</string>\n  <key>ProgramArguments</key>\n  <array>\n    <string>"@ + binary
        + "</string>\n  </array>\n  <key>RunAtLoad</key>\n  <false/>\n  <key>StandardOutPath</key>\n  <string>"@
        + log_path + "</string>\n  <key>StandardErrorPath</key>\n  <string>"@ + log_path
        + "</string>\n</dict>\n</plist>\n"@
}

/// The launch agent definition for the daemon.
pub fn plist_contents(binary: &str, log_path: &str) -> (s: String)
    ensures
        s@ == plist_text(binary@, log_path@),
{
    let mut s = "<?xml version=\"1.0\" encoding=\"UTF-8\"?>\n<!DOCTYPE plist PUBLIC \"-//Apple//DTD PLIST 1.0//EN\" \"http://www.apple.com/DTDs/PropertyList-1.0.dtd\">\n<plist version=\"1.0\">\n<dict>\n  <key>Label</key>\n  <string>".to_owned();
    s.append(LAUNCHD_LABEL);
    s.append("</string>\n  <key>ProgramArguments</key>\n  <array>\n    <string>");
    s.append(binary);
    s.append("</string>\n  </array>\n  <key>RunAtLoad</key>\n  <false/>\n  <key>StandardOutPath</key>\n  <string>");
    s.append(log_path);
    s.append("</string>\n  <key>StandardErrorPath</key>\n  <string>");
    s.append(log_path);
    s.append("</string>\n</dict>\n</plist>\n");
    s
}

/// The last `limit` lines (at least one) of `lines`.
pub open spec fn tail_of(lines: Seq<Seq<char>>, limit: usize) -> Seq<Seq<char>> {
    let cap: int = if limit == 0 { 1 } else { limit as int };
    if lines.len() > cap {
        lines.skip(lines.len() - cap)
    } else {
        lines
    }
}

/// Keeps the last `limit` lines of a log (at least one).
pub fn tail_lines(lines: Vec<String>, limit: usize) -> (r: Vec<String>)
    ensures
        crate::glob::views_of(r@) == tail_of(crate::glob::views_of(lines@), limit),
{
    let cap: usize = if limit == 0 {
        1
    } else {
        limit
    };
    let ghost all = lines@;
    if lines.len() <= cap {
        return lines;
    }
    let drop = lines.len() - cap;
    let mut out: Vec<String> = Vec::new();
    let mut i: usize = drop;
    proof {
        assert(all.skip(drop as int).take(0) =~= Seq::<String>::empty());
    }
    while i < lines.len()
        invariant
            all == lines@,
            drop <= i <= lines.len(),
            crate::glob::views_of(out@) == crate::glob::views_of(all.skip(drop as int).take(
                i - drop,
            )),
        decreases lines.len() - i,
    {
        let line = lines[i].clone();
        let ghost before = out@;
        out.push(line);
        proof {
            assert(all.skip(drop as int).take(i - drop + 1) =~= all.skip(drop as int).take(
                i - drop,
            ).push(all[i as int]));
            assert(crate::glob::views_of(out@) =~= crate::glob::views_of(before).push(all[i as int]@));
            assert(crate::glob::views_of(all.skip(drop as int).take(i - drop + 1))
                =~= crate::glob::views_of(all.skip(drop as int).take(i - drop)).push(
                all[i as int]@,
            ));
        }
        i = i + 1;
    }
    proof {
        assert(all.skip(drop as int).take(lines.len() - drop) =~= all.skip(drop as int));
        assert(crate::glob::views_of(all.skip(drop as int)) =~= crate::glob::views_of(all).skip(
            drop as int,
        ));
    }
    out
}

} // verus!
