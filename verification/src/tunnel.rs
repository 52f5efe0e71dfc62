//! Supervision of the `cloudflared` quick tunnel: whether and where to start
//! it, how to read its version check, and how to find the public URL in its
//! output. Starting the process and reading its output is done by the
//! caller, which hands each outcome to these functions.

use vstd::prelude::*;
use vstd::string::*;
use crate::config::Config;
use crate::error::{CdnError, ErrorKind};
use crate::text::{
    chars_of, contains_text, decimal, digits_value, find_in, first_occurrence, is_whitespace,
    lemma_absent_char, lemma_contains_after, lemma_decimal_injective, lemma_decimal_value, lemma_first_occurrence,
    lemma_first_occurrence_unique, lemma_trim_end_shape, lemma_trim_joined, occurs_at, push_decimal, string_of, trim,
    trim_bounds, trim_end, trim_start,
};

verus! {

/// The tunnel supervisor for a configuration.
pub struct TunnelManager {
    config: Config,
}

/// The scheme prefix of the public URL: `https://`.
pub open spec fn https_prefix() -> Seq<char> {
    "https://"@
}

/// The host suffix of quick-tunnel URLs.
pub open spec fn quick_tunnel_domain() -> Seq<char> {
    "trycloudflare.com"@
}

/// The quick-tunnel URL announced on one line of `cloudflared` output, if
/// any: the text from the first `https://` up to the next space, when it
/// mentions `trycloudflare.com`; or, when no space follows, the rest of the
/// line without surrounding whitespace, when that mentions it.
pub open spec fn url_in_line(line: Seq<char>) -> Option<Seq<char>> {
    match first_occurrence(line, https_prefix()) {
        None => None,
        Some(start) => {
            let rest = line.subrange(start, line.len() as int);
            match first_occurrence(rest, " "@) {
                Some(end) => if contains_text(rest.subrange(0, end), quick_tunnel_domain()) {
                    Some(rest.subrange(0, end))
                } else {
                    None
                },
                None => if contains_text(rest, quick_tunnel_domain()) {
                    Some(trim(rest))
                } else {
                    None
                },
            }
        },
    }
}

/// Trimming the rest of a line that starts with `https://` and mentions
/// `trycloudflare.com` keeps both, and takes a prefix of that rest.
proof fn lemma_trim_keeps_text(rest: Seq<char>, p: Seq<char>, d: Seq<char>)
    requires
        p == https_prefix(),
        d == quick_tunnel_domain(),
        rest.len() >= p.len(),
        rest.subrange(0, p.len() as int) == p,
        contains_text(rest, d),
    ensures
        trim(rest).len() >= p.len(),
        trim(rest).subrange(0, p.len() as int) == p,
        contains_text(trim(rest), d),
        occurs_at(rest, trim(rest), 0),
{
    reveal_strlit("https://");
    reveal_strlit("trycloudflare.com");
    assert(rest[0] == rest.subrange(0, p.len() as int)[0]);
    assert(!is_whitespace(rest[0]));
    assert(trim_start(rest) == rest);
    lemma_trim_end_shape(rest);
    let t = trim(rest);
    let k = t.len() as int;
    assert(rest[7] == rest.subrange(0, p.len() as int)[7]);
    assert(!is_whitespace(rest[7]));
    assert(k >= 8);
    assert(t.subrange(0, p.len() as int) =~= rest.subrange(0, p.len() as int));
    let i = choose|i: int| occurs_at(rest, d, i);
    assert(rest[i + 16] == rest.subrange(i, i + d.len())[16]);
    assert(!is_whitespace(rest[i + 16]));
    assert(k > i + 16);
    assert(t.subrange(i, i + d.len()) =~= rest.subrange(i, i + d.len()));
    assert(occurs_at(t, d, i));
    assert(rest.subrange(0, k) =~= t);
}

/// A URL found on a line of `cloudflared` output is a piece of that line
/// that starts with `https://` and mentions `trycloudflare.com`.
pub proof fn lemma_found_url_shape(line: Seq<char>)
    requires
        url_in_line(line) is Some,
    ensures
        ({
            let u = url_in_line(line)->Some_0;
            &&& u.len() >= https_prefix().len()
            &&& u.subrange(0, https_prefix().len() as int) == https_prefix()
            &&& contains_text(u, quick_tunnel_domain())
            &&& exists|i: int| occurs_at(line, u, i)
        }),
{
    reveal_strlit("https://");
    reveal_strlit(" ");
    reveal_strlit("trycloudflare.com");
    let p = https_prefix();
    let d = quick_tunnel_domain();
    lemma_first_occurrence(line, p);
    let start = first_occurrence(line, p)->Some_0;
    let rest = line.subrange(start, line.len() as int);
    assert(rest.subrange(0, p.len() as int) =~= line.subrange(start, start + p.len()));
    lemma_first_occurrence(rest, " "@);
    match first_occurrence(rest, " "@) {
        Some(end) => {
            let u = rest.subrange(0, end);
            if end < p.len() {
                assert(rest.subrange(end, end + 1)[0] == ' ');
                assert(rest[end] == p[end]);
            }
            assert(u.subrange(0, p.len() as int) =~= p);
            assert(line.subrange(start, start + u.len()) =~= u);
            assert(occurs_at(line, u, start));
            assert(url_in_line(line) == Some(u));
        },
        None => {
            lemma_trim_keeps_text(rest, p, d);
            let t = trim(rest);
            assert(line.subrange(start, start + t.len()) =~= rest.subrange(0, t.len() as int));
            assert(occurs_at(line, t, start));
            assert(url_in_line(line) == Some(t));
        },
    }
}

/// After text that does not contain `https://`, the first `https://` of a
/// line is the one that follows that text: no occurrence can straddle the
/// boundary, since `h` appears in `https://` only at its start.
proof fn lemma_https_after_prefix(prefix: Seq<char>, after: Seq<char>)
    requires
        !contains_text(prefix, https_prefix()),
    ensures
        first_occurrence(prefix + https_prefix() + after, https_prefix()) == Some(
            prefix.len() as int,
        ),
{
    reveal_strlit("https://");
    let p = https_prefix();
    let line = prefix + p + after;
    let s = prefix.len() as int;
    assert(line.subrange(s, s + 8) =~= p);
    assert forall|j: int| 0 <= j < s implies !occurs_at(line, p, j) by {
        if occurs_at(line, p, j) {
            if j + 8 <= s {
                assert(prefix.subrange(j, j + 8) =~= line.subrange(j, j + 8));
                assert(occurs_at(prefix, p, j));
            } else {
                assert(line[s] == 'h');
                assert(line.subrange(j, j + 8)[s - j] == line[s]);
                assert(p[s - j] != 'h');
            }
        }
    }
    lemma_first_occurrence_unique(line, p, s);
}

/// When no space follows the first `https://` of a line, the URL found is
/// the rest of the line, where that rest mentions `trycloudflare.com` and
/// has no surrounding whitespace.
proof fn lemma_url_runs_to_line_end(line: Seq<char>, start: int)
    requires
        first_occurrence(line, https_prefix()) == Some(start),
        first_occurrence(line.subrange(start, line.len() as int), " "@) is None,
        contains_text(line.subrange(start, line.len() as int), quick_tunnel_domain()),
        trim(line.subrange(start, line.len() as int)) == line.subrange(start, line.len() as int),
    ensures
        url_in_line(line) == Some(line.subrange(start, line.len() as int)),
{
}

/// `https://` followed by text without a space holds no space.
proof fn lemma_no_space_after_https(u: Seq<char>)
    requires
        !u.contains(' '),
    ensures
        first_occurrence(https_prefix() + u, " "@) is None,
{
    reveal_strlit("https://");
    reveal_strlit(" ");
    let p = https_prefix();
    let r = p + u;
    assert forall|i: int| 0 <= i < r.len() implies r[i] != ' ' by {
        if i < 8 {
            assert(r[i] == p[i]);
        } else {
            assert(r[i] == u[i - 8]);
        }
    }
    assert(" "@ =~= seq![' ']);
    lemma_absent_char(r, ' ');
}

/// `https://` is not empty and does not start with whitespace.
proof fn lemma_https_starts_plainly()
    ensures
        https_prefix().len() > 0,
        !is_whitespace(https_prefix()[0]),
{
    reveal_strlit("https://");
}

/// A URL that ends the line is found whole. When the first `https://` of a
/// line is followed, up to the end of the line, by text `u` that holds no
/// space, mentions `trycloudflare.com` and does not end in whitespace (as a
/// line read from the process output is handed over), the URL found is
/// `https://` followed by all of `u`.
pub proof fn lemma_url_at_line_end(prefix: Seq<char>, u: Seq<char>)
    requires
        !contains_text(prefix, https_prefix()),
        !u.contains(' '),
        contains_text(u, quick_tunnel_domain()),
        !is_whitespace(u.last()),
    ensures
        url_in_line(prefix + https_prefix() + u) == Some(https_prefix() + u),
{
    reveal_strlit("trycloudflare.com");
    let p = https_prefix();
    let d = quick_tunnel_domain();
    let line = prefix + p + u;
    let rest = line.subrange(prefix.len() as int, line.len() as int);
    assert(rest =~= p + u);
    lemma_https_after_prefix(prefix, u);
    lemma_no_space_after_https(u);
    lemma_contains_after(p, u, d);
    assert(u.len() > 0);
    lemma_https_starts_plainly();
    lemma_trim_joined(p, u);
    lemma_url_runs_to_line_end(line, prefix.len() as int);
}

/// A URL followed by a space is found up to that space. When the first
/// `https://` of a line is followed by text `u` that holds no space and
/// mentions `trycloudflare.com`, and then by a space and anything else, the
/// URL found is `https://` followed by `u`.
pub proof fn lemma_url_before_space(prefix: Seq<char>, u: Seq<char>, tail: Seq<char>)
    requires
        !contains_text(prefix, https_prefix()),
        !u.contains(' '),
        contains_text(u, quick_tunnel_domain()),
    ensures
        url_in_line(prefix + https_prefix() + u + " "@ + tail) == Some(https_prefix() + u),
{
    reveal_strlit("https://");
    reveal_strlit(" ");
    reveal_strlit("trycloudflare.com");
    let p = https_prefix();
    let d = quick_tunnel_domain();
    let after = u + " "@ + tail;
    let line = prefix + p + u + " "@ + tail;
    assert(line =~= prefix + p + after);
    lemma_https_after_prefix(prefix, after);
    let rest = line.subrange(prefix.len() as int, line.len() as int);
    assert(rest =~= p + u + " "@ + tail);
    let e: int = 8 + u.len() as int;
    assert(rest.subrange(e, e + 1) =~= " "@);
    assert forall|i: int| 0 <= i < e implies !occurs_at(rest, " "@, i) by {
        if occurs_at(rest, " "@, i) {
            assert(rest.subrange(i, i + 1)[0] == rest[i]);
            if i < 8 {
                assert(rest[i] == p[i]);
            } else {
                assert(rest[i] == u[i - 8]);
            }
        }
    }
    lemma_first_occurrence_unique(rest, " "@, e);
    let url = rest.subrange(0, e);
    assert(url =~= p + u);
    let k = choose|k: int| occurs_at(u, d, k);
    assert(url.subrange(k + 8, k + 8 + d.len()) =~= u.subrange(k, k + d.len()));
    assert(occurs_at(url, d, k + 8));
}

/// The origin the tunnel forwards to: `http://127.0.0.1:<local_port>`.
pub open spec fn origin_text(c: Config) -> Seq<char> {
    "http://127.0.0.1:"@ + decimal(c.tunnel.local_port as nat)
}

/// The origin names the tunnel's local port and nothing else of the
/// configuration: it is `http://127.0.0.1:` followed by digits that read
/// back as `tunnel.local_port`, and two configurations have the same origin
/// exactly when their tunnel local ports agree, whatever else (the server's
/// own port among it) tells them apart.
pub proof fn lemma_origin_port(c1: Config, c2: Config)
    ensures
        origin_text(c1).len() > 17,
        origin_text(c1).subrange(0, 17) == "http://127.0.0.1:"@,
        digits_value(origin_text(c1).subrange(17, origin_text(c1).len() as int))
            == c1.tunnel.local_port,
        origin_text(c1) == origin_text(c2) <==> c1.tunnel.local_port == c2.tunnel.local_port,
{
    reveal_strlit("http://127.0.0.1:");
    let h = "http://127.0.0.1:"@;
    let o1 = origin_text(c1);
    let o2 = origin_text(c2);
    let d1 = decimal(c1.tunnel.local_port as nat);
    let d2 = decimal(c2.tunnel.local_port as nat);
    assert(o1.subrange(0, 17) =~= h);
    assert(o1.subrange(17, o1.len() as int) =~= d1);
    assert(o2.subrange(17, o2.len() as int) =~= d2);
    lemma_decimal_value(c1.tunnel.local_port as nat);
    lemma_decimal_injective(c1.tunnel.local_port as nat, c2.tunnel.local_port as nat);
    if o1 == o2 {
        assert(d1 == d2);
    }
}

/// Finds the quick-tunnel URL on one line of `cloudflared` output.
pub fn tunnel_url_in_line(line: &str) -> (r: Option<String>)
    ensures
        match url_in_line(line@) {
            Some(u) => r matches Some(s) && s@ == u,
            None => r is None,
        },
{
    let v = chars_of(line);
    let https = chars_of("https://");
    let space = chars_of(" ");
    let domain = chars_of("trycloudflare.com");
    let n = v.len();
    let start = match find_in(&v, 0, n, &https) {
        None => {
            assert(v@.subrange(0, n as int) =~= line@);
            return None;
        },
        Some(i) => i,
    };
    assert(v@.subrange(0, n as int) =~= line@);
    let ghost rest = line@.subrange(start as int, n as int);
    match find_in(&v, start, n, &space) {
        Some(e) => {
            assert(rest.subrange(0, e as int) =~= v@.subrange(start as int, start + e));
            if find_in(&v, start, start + e, &domain).is_some() {
                Some(string_of(&v, start, start + e))
            } else {
                None
            }
        },
        None => {
            if find_in(&v, start, n, &domain).is_some() {
                let (a, b) = trim_bounds(&v, start, n);
                Some(string_of(&v, a, b))
            } else {
                None
            }
        },
    }
}

/// What the supervisor does with one event of `cloudflared`'s output: a
/// line that announces the URL ends the wait with it; another line ends the
/// wait with a timeout error once the time allowed has passed, and
/// otherwise the wait goes on (`Ok(None)`); the end of the output ends it
/// with an error.
pub fn on_cloudflared_line(line: Option<&str>, timed_out: bool) -> (r: Result<Option<String>, CdnError>)
    ensures
        match line {
            Some(l) => match url_in_line(l@) {
                Some(u) => r matches Ok(Some(s)) && s@ == u,
                None => if timed_out {
                    r matches Err(e) && e@ == (
                        ErrorKind::Tunnel,
                        "Timeout waiting for cloudflared URL"@,
                    )
                } else {
                    r matches Ok(None)
                },
            },
            None => r matches Err(e) && e@ == (
                ErrorKind::Tunnel,
                "cloudflared did not produce a tunnel URL"@,
            ),
        },
{
    match line {
        Some(l) => match tunnel_url_in_line(l) {
            Some(u) => Ok(Some(u)),
            None => if timed_out {
                Err(CdnError::Tunnel(String::from_str("Timeout waiting for cloudflared URL")))
            } else {
                Ok(None)
            },
        },
        None => Err(CdnError::Tunnel(String::from_str("cloudflared did not produce a tunnel URL"))),
    }
}

/// The verdict on `cloudflared --version`: `launched` is `Ok(success)`
/// with whether the command exited successfully, or `Err(text)` with the
/// text of the error that kept it from running.
pub fn version_check_outcome(launched: Result<bool, String>) -> (r: Result<(), CdnError>)
    ensures
        match launched {
            Ok(true) => r is Ok,
            Ok(false) => r matches Err(e) && e@ == (
                ErrorKind::Tunnel,
                "cloudflared --version returned non-zero exit code"@,
            ),
            Err(t) => r matches Err(e) && e@ == (
                ErrorKind::Tunnel,
                "cloudflared not found. Install with: sudo apt install cloudflared. Error: "@ + t@,
            ),
        },
{
    match launched {
        Ok(true) => Ok(()),
        Ok(false) => Err(
            CdnError::Tunnel(String::from_str("cloudflared --version returned non-zero exit code")),
        ),
        Err(t) => {
            let mut m = String::from_str(
                "cloudflared not found. Install with: sudo apt install cloudflared. Error: ",
            );
            m.append(t.as_str());
            Err(CdnError::Tunnel(m))
        },
    }
}

impl TunnelManager {
    /// The configuration the manager was made with.
    pub closed spec fn configuration(&self) -> Config {
        self.config
    }

    /// A manager for the given configuration.
    pub fn new(config: Config) -> (m: Self)
        ensures
            m.configuration() == config,
    {
        Self { config }
    }

    /// Where a tunnel would forward to, or why none is started: the tunnel
    /// must be enabled in the configuration.
    pub fn tunnel_origin(&self) -> (r: Result<String, CdnError>)
        ensures
            if self.configuration().tunnel.enabled {
                r matches Ok(s) && s@ == origin_text(self.configuration())
            } else {
                r matches Err(e) && e@ == (ErrorKind::Tunnel, "Tunnel disabled in config"@)
            },
    {
        if !self.config.tunnel.enabled {
            return Err(CdnError::Tunnel(String::from_str("Tunnel disabled in config")));
        }
        let mut s = String::from_str("http://127.0.0.1:");
        push_decimal(&mut s, self.config.tunnel.local_port as u64);
        Ok(s)
    }
}

} // verus!
