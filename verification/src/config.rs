//! Deployment configuration.
//!
//! The process environment is read by the host program; this module owns
//! everything that can be checked: splitting the comma-separated origin
//! list, validating the environment flag, and assembling the final
//! [`Config`] value.

use vstd::prelude::*;
use vstd::string::StrSliceExecFns;
use vstd::string::StringExecFns;

verus! {

/// Which deployment the process serves.
#[derive(Debug, Clone, Copy, PartialEq, Eq, Structural)]
pub enum AppEnv {
    Development,
    Production,
}

/// A deployment parameter that is present but malformed.
#[derive(Debug, Clone)]
pub enum ConfigError {
    InvalidAppEnv(String),
}

impl ConfigError {
    /// The human-readable description of the error.
    pub fn message(&self) -> (msg: String)
        ensures
            self matches ConfigError::InvalidAppEnv(m) && msg@ == m@,
    {
        match self {
            ConfigError::InvalidAppEnv(m) => m.clone(),
        }
    }
}

/// Everything the service needs to run, read once at startup.
#[derive(Debug, Clone)]
pub struct Config {
    pub allowed_origins: Vec<String>,
    pub database_url: String,
    pub redis_url: String,
    pub bind_addr: String,
    pub base_url: String,

    pub inat_client_id: String,
    pub inat_client_secret: String,
    pub inat_redirect_uri: String,
    pub inat_base_url: String,
    pub app_redirect_uri: String,

    pub app_env: AppEnv,
}

/// The characters that count as whitespace when origin entries are
/// trimmed: the Unicode `White_Space` set.
pub open spec fn is_space(c: char) -> bool {
    ||| c == ' '
    ||| c == '\t'
    ||| c == '\n'
    ||| c == '\r'
    ||| c == '\u{b}'
    ||| c == '\u{c}'
    ||| c == '\u{85}'
    ||| c == '\u{a0}'
    ||| c == '\u{1680}'
    ||| ('\u{2000}' <= c && c <= '\u{200a}')
    ||| c == '\u{2028}'
    ||| c == '\u{2029}'
    ||| c == '\u{202f}'
    ||| c == '\u{205f}'
    ||| c == '\u{3000}'
}

/// `s` with leading and trailing whitespace removed.
pub open spec fn spec_trim(s: Seq<char>) -> Seq<char>
    decreases s.len(),
{
    if s.len() == 0 {
        s
    } else if is_space(s[0]) {
        spec_trim(s.drop_first())
    } else if is_space(s[s.len() - 1]) {
        spec_trim(s.drop_last())
    } else {
        s
    }
}

/// The origin entries contributed by one raw comma-separated token:
/// the token trimmed, or nothing if only whitespace remains.
pub open spec fn emit_origin(cur: Seq<char>) -> Seq<Seq<char>> {
    if spec_trim(cur).len() == 0 {
        Seq::empty()
    } else {
        seq![spec_trim(cur)]
    }
}

/// Walk `s` from position `i` with the current raw token `cur` and the
/// entries `acc` already produced; a comma closes the current token.
pub open spec fn split_origins_from(s: Seq<char>, i: int, cur: Seq<char>, acc: Seq<Seq<char>>) -> Seq<
    Seq<char>,
>
    decreases s.len() - i,
{
    if i < 0 || i >= s.len() {
        acc + emit_origin(cur)
    } else if s[i] == ',' {
        split_origins_from(s, i + 1, Seq::empty(), acc + emit_origin(cur))
    } else {
        split_origins_from(s, i + 1, cur.push(s[i]), acc)
    }
}

/// The allowed-origin list denoted by a raw comma-separated string:
/// each entry trimmed, empty entries dropped.
pub open spec fn spec_allowed_origins(s: Seq<char>) -> Seq<Seq<char>> {
    split_origins_from(s, 0, Seq::empty(), Seq::empty())
}

/// If everything before `lo` and everything from `hi` on is whitespace,
/// and the span in between starts and ends with non-whitespace, that
/// span is exactly the trimmed string.
proof fn lemma_trim_is_subrange(s: Seq<char>, lo: int, hi: int)
    requires
        0 <= lo <= hi <= s.len(),
        forall|j: int| 0 <= j < lo ==> is_space(s[j]),
        forall|j: int| hi <= j < s.len() ==> is_space(s[j]),
        lo == hi || (!is_space(s[lo]) && !is_space(s[hi - 1])),
    ensures
        spec_trim(s) == s.subrange(lo, hi),
    decreases s.len(),
{
    if s.len() == 0 {
        assert(s.subrange(lo, hi) =~= s);
    } else if is_space(s[0]) {
        if lo == hi {
            lemma_trim_is_subrange(s.drop_first(), 0, 0);
            assert(s.subrange(lo, hi) =~= s.drop_first().subrange(0, 0));
        } else {
            lemma_trim_is_subrange(s.drop_first(), lo - 1, hi - 1);
            assert(s.subrange(lo, hi) =~= s.drop_first().subrange(lo - 1, hi - 1));
        }
    } else if is_space(s[s.len() - 1]) {
        if lo == hi {
            lemma_trim_is_subrange(s.drop_last(), lo, lo);
            assert(s.subrange(lo, hi) =~= s.drop_last().subrange(lo, lo));
        } else {
            lemma_trim_is_subrange(s.drop_last(), lo, hi);
            assert(s.subrange(lo, hi) =~= s.drop_last().subrange(lo, hi));
        }
    } else {
        assert(s.subrange(lo, hi) =~= s);
    }
}

/// Whether `c` is in the Unicode `White_Space` set.
fn is_space_char(c: char) -> (b: bool)
    ensures
        b == is_space(c),
{
    let u = c as u32;
    u == 0x20 || u == 0x9 || u == 0xa || u == 0xd || u == 0xb || u == 0xc || u == 0x85 || u == 0xa0
        || u == 0x1680 || (0x2000 <= u && u <= 0x200a) || u == 0x2028 || u == 0x2029 || u == 0x202f
        || u == 0x205f || u == 0x3000
}

/// Append the trimmed form of `s[from..to]` to `out`, unless only
/// whitespace remains.
fn push_trimmed(out: &mut Vec<String>, s: &str, from: usize, to: usize)
    requires
        from <= to <= s@.len(),
    ensures
        final(out).deep_view() == old(out).deep_view() + emit_origin(s@.subrange(
            from as int,
            to as int,
        )),
{
    let t = s.substring_char(from, to);
    let n = t.unicode_len();
    let mut lo: usize = 0;
    let mut hi: usize = n;
    while lo < hi
        invariant_except_break
            lo <= hi <= n,
            n == t@.len(),
            forall|j: int| 0 <= j < lo ==> is_space(t@[j]),
            hi == n,
        ensures
            lo <= hi <= n,
            n == t@.len(),
            forall|j: int| 0 <= j < lo ==> is_space(t@[j]),
            forall|j: int| hi <= j < n ==> is_space(t@[j]),
            lo == hi || !is_space(t@[lo as int]),
        decreases hi - lo,
    {
        if is_space_char(t.get_char(lo)) {
            lo = lo + 1;
        } else {
            break ;
        }
    }
    while lo < hi
        invariant_except_break
            lo <= hi <= n,
            n == t@.len(),
            forall|j: int| 0 <= j < lo ==> is_space(t@[j]),
            forall|j: int| hi <= j < n ==> is_space(t@[j]),
            lo == hi || !is_space(t@[lo as int]),
        ensures
            lo <= hi <= n,
            n == t@.len(),
            forall|j: int| 0 <= j < lo ==> is_space(t@[j]),
            forall|j: int| hi <= j < n ==> is_space(t@[j]),
            lo == hi || (!is_space(t@[lo as int]) && !is_space(t@[hi - 1])),
        decreases hi - lo,
    {
        if is_space_char(t.get_char(hi - 1)) {
            hi = hi - 1;
        } else {
            break ;
        }
    }
    proof {
        lemma_trim_is_subrange(t@, lo as int, hi as int);
    }
    let ghost prev = out.deep_view();
    if lo < hi {
        let trimmed = t.substring_char(lo, hi);
        out.push(trimmed.to_owned());
        assert(out.deep_view() =~= prev + emit_origin(s@.subrange(from as int, to as int)));
    } else {
        assert(out.deep_view() =~= prev + emit_origin(s@.subrange(from as int, to as int)));
    }
}

/// Split a raw comma-separated origin list into its entries, trimming
/// whitespace around each and dropping entries that are left empty.
pub fn parse_allowed_origins(s: &str) -> (origins: Vec<String>)
    ensures
        origins.deep_view() == spec_allowed_origins(s@),
{
    let n = s.unicode_len();
    let mut origins: Vec<String> = Vec::new();
    let mut start: usize = 0;
    let mut i: usize = 0;
    proof {
        assert(s@.subrange(0, 0) =~= Seq::<char>::empty());
        assert(origins.deep_view() =~= Seq::<Seq<char>>::empty());
    }
    while i < n
        invariant
            start <= i <= n,
            n == s@.len(),
            spec_allowed_origins(s@) == split_origins_from(
                s@,
                i as int,
                s@.subrange(start as int, i as int),
                origins.deep_view(),
            ),
        decreases n - i,
    {
        let c = s.get_char(i);
        if c == ',' {
            push_trimmed(&mut origins, s, start, i);
            start = i + 1;
            proof {
                assert(s@.subrange(start as int, i as int + 1) =~= Seq::<char>::empty());
            }
        } else {
            proof {
                assert(s@.subrange(start as int, i as int + 1) =~= s@.subrange(
                    start as int,
                    i as int,
                ).push(s@[i as int]));
            }
        }
        i = i + 1;
    }
    push_trimmed(&mut origins, s, start, n);
    origins
}

impl AppEnv {
    /// Parse the `APP_ENV` flag: only the two literal deployment names
    /// are accepted; anything else is a configuration error carrying a
    /// description of what was received.
    pub fn parse(value: String) -> (r: Result<AppEnv, ConfigError>)
        ensures
            value@ == "production"@ ==> r == Ok::<AppEnv, ConfigError>(AppEnv::Production),
            value@ == "development"@ ==> r == Ok::<AppEnv, ConfigError>(AppEnv::Development),
            value@ != "production"@ && value@ != "development"@ ==> (r matches Err(
                ConfigError::InvalidAppEnv(m),
            ) && m@ == "Invalid APP_ENV: Received "@ + value@
                + ". Expected \"production\" or \"development\""@),
    {
        proof {
            reveal_strlit("production");
            reveal_strlit("development");
            assert("production"@.len() == 10);
            assert("development"@.len() == 11);
        }
        if value == "production".to_owned() {
            Ok(AppEnv::Production)
        } else if value == "development".to_owned() {
            Ok(AppEnv::Development)
        } else {
            let mut msg = "Invalid APP_ENV: Received ".to_owned();
            msg.append(value.as_str());
            msg.append(". Expected \"production\" or \"development\"");
            Err(ConfigError::InvalidAppEnv(msg))
        }
    }
}

impl Config {
    /// Assemble the configuration from the raw values of the deployment
    /// environment. The origin list is split and trimmed; the
    /// environment flag defaults to development when absent and is
    /// rejected when unrecognized. Every other parameter is taken as
    /// given.
    pub fn from_values(
        allowed_origins: &str,
        database_url: String,
        redis_url: String,
        bind_addr: String,
        base_url: String,
        inat_client_id: String,
        inat_client_secret: String,
        inat_redirect_uri: String,
        inat_base_url: String,
        app_redirect_uri: String,
        app_env: Option<String>,
    ) -> (r: Result<Config, ConfigError>)
        ensures
            (r matches Ok(_)) <==> match app_env {
                None => true,
                Some(v) => v@ == "production"@ || v@ == "development"@,
            },
            r matches Ok(cfg) ==> {
                &&& cfg.allowed_origins.deep_view() == spec_allowed_origins(allowed_origins@)
                &&& cfg.database_url == database_url
                &&& cfg.redis_url == redis_url
                &&& cfg.bind_addr == bind_addr
                &&& cfg.base_url == base_url
                &&& cfg.inat_client_id == inat_client_id
                &&& cfg.inat_client_secret == inat_client_secret
                &&& cfg.inat_redirect_uri == inat_redirect_uri
                &&& cfg.inat_base_url == inat_base_url
                &&& cfg.app_redirect_uri == app_redirect_uri
                &&& cfg.app_env == (match app_env {
                    None => AppEnv::Development,
                    Some(v) => if v@ == "production"@ {
                        AppEnv::Production
                    } else {
                        AppEnv::Development
                    },
                })
            },
    {
        let env = match app_env {
            None => AppEnv::Development,
            Some(v) => match AppEnv::parse(v) {
                Ok(e) => e,
                Err(e) => {
                    return Err(e);
                },
            },
        };
        Ok(
            Config {
                allowed_origins: parse_allowed_origins(allowed_origins),
                database_url,
                redis_url,
                bind_addr,
                base_url,
                inat_client_id,
                inat_client_secret,
                inat_redirect_uri,
                inat_base_url,
                app_redirect_uri,
                app_env: env,
            },
        )
    }

    /// Whether the service runs in the production deployment.
    pub fn is_prod(&self) -> (b: bool)
        ensures
            b == (self.app_env == AppEnv::Production),
    {
        self.app_env == AppEnv::Production
    }
}

} // verus!
