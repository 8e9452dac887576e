//! The environment of the user's login shell: the command that prints it
//! after a marker, and the parsing of what that command printed.
use vstd::prelude::*;
use vstd::string::StringSliceAdditionalSpecFns;
use crate::keyed::{distinct_keys, lemma_pair_map_at, pair_map, upsert};
use crate::workspace::{shell_quote, shell_quoted};

verus! {

/// Printed right before the environment dump, followed by a NUL byte.
pub const LOGIN_ENV_SENTINEL: &'static str = "__CODEX_LOGIN_ENV_START__";

/// The bytes that mark the start of the environment dump.
pub open spec fn marker() -> Seq<u8> {
    LOGIN_ENV_SENTINEL.spec_bytes().push(0u8)
}

/// The marker starts at position `p` of `out`.
pub open spec fn marker_at(out: Seq<u8>, p: int) -> bool {
    0 <= p && p + marker().len() <= out.len() && out.subrange(p, p + marker().len()) == marker()
}

/// Where the environment dump starts: right after the first marker.
pub open spec fn dump_start(out: Seq<u8>) -> Option<int> {
    if exists|p: int| marker_at(out, p) {
        let p = choose|p: int| marker_at(out, p) && forall|q: int| marker_at(out, q) ==> p <= q;
        Some(p + marker().len())
    } else {
        None
    }
}

/// Position of the first `x` in `s`; its length where there is none.
pub open spec fn first_index(s: Seq<u8>, x: u8) -> nat
    decreases s.len(),
{
    if s.len() == 0 {
        0
    } else if s[0] == x {
        0
    } else {
        1 + first_index(s.drop_first(), x)
    }
}

/// `s` split at its NUL bytes, as `<[u8]>::split` does.
pub open spec fn split_nul(s: Seq<u8>) -> Seq<Seq<u8>>
    decreases s.len(),
{
    let k = first_index(s, 0u8);
    if k >= s.len() {
        seq![s]
    } else {
        seq![s.subrange(0, k as int)] + split_nul(s.subrange(k as int + 1, s.len() as int))
    }
}

/// What `String::from_utf8_lossy` returns: the bytes decoded as UTF-8, each
/// invalid sequence replaced by U+FFFD.
pub uninterp spec fn utf8_lossy(b: Seq<u8>) -> Seq<char>;

/// Relies on `String::from_utf8_lossy`; it depends on the bytes alone.
#[verifier::external_body]
fn lossy_string(b: &Vec<u8>) -> (r: String)
    ensures
        r@ == utf8_lossy(b@),
{
    String::from_utf8_lossy(b.as_slice()).into_owned()
}

/// The variable one `NAME=value` entry sets: none where the entry has no
/// `=` or an empty name.
pub open spec fn entry_var(e: Seq<u8>) -> Option<(Seq<char>, Seq<char>)> {
    let q = first_index(e, 61u8);
    if q >= e.len() || utf8_lossy(e.subrange(0, q as int)).len() == 0 {
        None
    } else {
        Some((utf8_lossy(e.subrange(0, q as int)), utf8_lossy(e.subrange(q as int + 1, e.len() as int))))
    }
}

/// The variables the entries set, a later entry winning over an earlier one.
pub open spec fn env_vars(entries: Seq<Seq<u8>>) -> Map<Seq<char>, Seq<char>>
    decreases entries.len(),
{
    if entries.len() == 0 {
        Map::empty()
    } else {
        match entry_var(entries.last()) {
            Some((k, v)) => env_vars(entries.drop_last()).insert(k, v),
            None => env_vars(entries.drop_last()),
        }
    }
}

/// The environment printed in `out`: the variables set by the entries after
/// the marker; none where there is no marker or no variable.
pub open spec fn login_environment(out: Seq<u8>) -> Option<Map<Seq<char>, Seq<char>>> {
    match dump_start(out) {
        Some(start) => {
            let vars = env_vars(split_nul(out.subrange(start, out.len() as int)));
            if vars.dom().len() == 0 && vars.dom().finite() {
                None
            } else {
                Some(vars)
            }
        },
        None => None,
    }
}

proof fn lemma_first_index(s: Seq<u8>, x: u8, k: int)
    requires
        0 <= k <= s.len(),
        forall|j: int| 0 <= j < k ==> s[j] != x,
        k == s.len() || s[k] == x,
    ensures
        first_index(s, x) == k,
    decreases k,
{
    if k > 0 {
        lemma_first_index(s.drop_first(), x, k - 1);
    }
}

proof fn lemma_env_vars_finite(entries: Seq<Seq<u8>>)
    ensures
        env_vars(entries).dom().finite(),
    decreases entries.len(),
{
    if entries.len() > 0 {
        lemma_env_vars_finite(entries.drop_last());
    }
}

/// The variable one entry sets (see `entry_var`).
fn parse_entry(e: &Vec<u8>) -> (r: Option<(String, String)>)
    ensures
        match r {
            Some((k, v)) => entry_var(e@) == Some((k@, v@)),
            None => entry_var(e@) is None,
        },
{
    let mut q: usize = 0;
    while q < e.len() && e[q] != 61u8
        invariant
            q <= e@.len(),
            forall|j: int| 0 <= j < q ==> e@[j] != 61u8,
        decreases e@.len() - q,
    {
        q = q + 1;
    }
    proof {
        lemma_first_index(e@, 61u8, q as int);
    }
    if q >= e.len() {
        return None;
    }
    let mut key_bytes: Vec<u8> = Vec::new();
    let mut i: usize = 0;
    while i < q
        invariant
            q < e@.len(),
            i <= q,
            key_bytes@ == e@.subrange(0, i as int),
        decreases q - i,
    {
        key_bytes.push(e[i]);
        i = i + 1;
        assert(key_bytes@ =~= e@.subrange(0, i as int));
    }
    let mut value_bytes: Vec<u8> = Vec::new();
    let mut j: usize = q + 1;
    while j < e.len()
        invariant
            q < e@.len(),
            q + 1 <= j <= e@.len(),
            value_bytes@ == e@.subrange(q + 1, j as int),
        decreases e@.len() - j,
    {
        value_bytes.push(e[j]);
        j = j + 1;
        assert(value_bytes@ =~= e@.subrange(q + 1, j as int));
    }
    let key = lossy_string(&key_bytes);
    if key.as_str().is_empty() {
        return None;
    }
    let value = lossy_string(&value_bytes);
    Some((key, value))
}

/// Whether the marker starts at position `p` of `out`.
fn marker_matches(out: &Vec<u8>, marker_bytes: &Vec<u8>, p: usize) -> (r: bool)
    requires
        marker_bytes@ == marker(),
        p + marker_bytes@.len() <= out@.len(),
    ensures
        r == marker_at(out@, p as int),
{
    let n = out.len();
    let mut i: usize = 0;
    while i < marker_bytes.len()
        invariant
            n == out@.len(),
            marker_bytes@ == marker(),
            p + marker_bytes@.len() <= out@.len(),
            i <= marker_bytes@.len(),
            forall|j: int| 0 <= j < i ==> out@[p + j] == marker_bytes@[j],
        decreases marker_bytes@.len() - i,
    {
        if out[p + i] != marker_bytes[i] {
            assert(out@.subrange(p as int, p + marker().len())[i as int] != marker()[i as int]);
            return false;
        }
        i = i + 1;
    }
    assert(out@.subrange(p as int, p + marker().len()) =~= marker());
    true
}

/// Where the environment dump of `out` starts (see `dump_start`).
fn find_dump_start(out: &Vec<u8>) -> (r: Option<usize>)
    ensures
        match r {
            Some(start) => dump_start(out@) == Some(start as int) && start <= out@.len(),
            None => dump_start(out@) is None,
        },
{
    let sentinel = LOGIN_ENV_SENTINEL.as_bytes();
    let mut marker_bytes: Vec<u8> = Vec::new();
    let mut i: usize = 0;
    while i < sentinel.len()
        invariant
            sentinel@ == LOGIN_ENV_SENTINEL.spec_bytes(),
            i <= sentinel@.len(),
            marker_bytes@ == sentinel@.subrange(0, i as int),
        decreases sentinel@.len() - i,
    {
        marker_bytes.push(sentinel[i]);
        i = i + 1;
        assert(marker_bytes@ =~= sentinel@.subrange(0, i as int));
    }
    marker_bytes.push(0u8);
    assert(marker_bytes@ =~= marker());
    let m = marker_bytes.len();
    let n = out.len();
    if n < m {
        assert(!exists|p: int| marker_at(out@, p));
        return None;
    }
    let mut p: usize = 0;
    while p <= n - m
        invariant
            marker_bytes@ == marker(),
            m == marker().len(),
            n == out@.len(),
            m <= n,
            p <= n - m + 1,
            forall|q: int| 0 <= q < p ==> !marker_at(out@, q),
        decreases n - m + 1 - p,
    {
        if marker_matches(out, &marker_bytes, p) {
            assert(dump_start(out@) == Some(p + m)) by {
                let c = choose|c: int| marker_at(out@, c) && forall|q: int| marker_at(out@, q) ==> c <= q;
                assert(c == p);
            }
            return Some(p + m);
        }
        p = p + 1;
    }
    assert(!exists|q: int| marker_at(out@, q)) by {
        assert forall|q: int| !marker_at(out@, q) by {
            if q >= p {
                assert(q + m > out@.len());
            }
        }
    }
    None
}

/// The variables set by the entries of `out` from `start` on, as pairs of
/// name and value, each name once.
fn parse_dump(out: &Vec<u8>, start: usize) -> (r: Vec<(String, String)>)
    requires
        start <= out@.len(),
    ensures
        distinct_keys(r@),
        pair_map(r@) == env_vars(split_nul(out@.subrange(start as int, out@.len() as int))),
{
    let ghost rest = out@.subrange(start as int, out@.len() as int);
    let n = out.len();
    let mut vars: Vec<(String, String)> = Vec::new();
    let mut entry: Vec<u8> = Vec::new();
    let mut k: usize = start;
    let mut seg: usize = start;
    let ghost mut done: Seq<Seq<u8>> = Seq::empty();
    assert(pair_map(vars@) =~= env_vars(done));
    assert(done + split_nul(rest) =~= split_nul(rest));
    while k < n
        invariant
            n == out@.len(),
            start <= seg <= k <= n,
            rest == out@.subrange(start as int, n as int),
            entry@ == out@.subrange(seg as int, k as int),
            forall|j: int| seg <= j < k ==> out@[j] != 0u8,
            done + split_nul(out@.subrange(seg as int, n as int)) == split_nul(rest),
            distinct_keys(vars@),
            pair_map(vars@) == env_vars(done),
        decreases n - k,
    {
        if out[k] == 0u8 {
            proof {
                let s = out@.subrange(seg as int, n as int);
                lemma_first_index(s, 0u8, k - seg);
                assert(s.subrange(0, k - seg) =~= entry@);
                assert(s.subrange(k - seg + 1, s.len() as int) =~= out@.subrange(k + 1, n as int));
                assert(split_nul(s) == seq![entry@] + split_nul(out@.subrange(k + 1, n as int)));
                assert(done.push(entry@) + split_nul(out@.subrange(k + 1, n as int)) =~= done
                    + split_nul(s));
                assert(done.push(entry@).drop_last() =~= done);
            }
            match parse_entry(&entry) {
                Some((key, value)) => {
                    upsert(&mut vars, key, value);
                },
                None => {},
            }
            proof {
                done = done.push(entry@);
            }
            entry = Vec::new();
            seg = k + 1;
            assert(entry@ =~= out@.subrange(seg as int, (k + 1) as int));
        } else {
            entry.push(out[k]);
            assert(entry@ =~= out@.subrange(seg as int, k + 1));
        }
        k = k + 1;
    }
    proof {
        let s = out@.subrange(seg as int, n as int);
        lemma_first_index(s, 0u8, s.len() as int);
        assert(s =~= entry@);
        assert(done.push(entry@) =~= split_nul(rest));
        assert(done.push(entry@).drop_last() =~= done);
    }
    match parse_entry(&entry) {
        Some((key, value)) => {
            upsert(&mut vars, key, value);
        },
        None => {},
    }
    vars
}

/// The environment that the login shell printed in `out` (see
/// `login_environment`), as pairs of name and value, each name once.
pub fn parse_login_environment(out: &Vec<u8>) -> (r: Option<Vec<(String, String)>>)
    ensures
        match r {
            Some(vars) => distinct_keys(vars@) && login_environment(out@) == Some(pair_map(vars@)),
            None => login_environment(out@) is None,
        },
{
    let start = match find_dump_start(out) {
        Some(start) => start,
        None => return None,
    };
    let vars = parse_dump(out, start);
    proof {
        lemma_env_vars_finite(split_nul(out@.subrange(start as int, out@.len() as int)));
    }
    if vars.len() == 0 {
        assert(pair_map(vars@).dom() =~= Set::<Seq<char>>::empty());
        return None;
    }
    proof {
        lemma_pair_map_at(vars@, 0);
        assert(pair_map(vars@).dom().contains(vars@[0].0@));
    }
    Some(vars)
}

/// The shell command that prints the marker and then the environment, NUL
/// separated; run in `cwd` (quoted) where one is given.
pub open spec fn login_env_command_text(cwd: Option<Seq<char>>) -> Seq<char> {
    match cwd {
        Some(path) => "cd "@ + shell_quoted(path) + " && printf '"@ + LOGIN_ENV_SENTINEL@
            + "\\0' && env -0"@,
        None => "printf '"@ + LOGIN_ENV_SENTINEL@ + "\\0'; env -0"@,
    }
}

/// The command a login shell runs to print its environment (see
/// `login_env_command_text`).
pub fn login_env_command(cwd: Option<&str>) -> (r: String)
    ensures
        r@ == login_env_command_text(
            match cwd {
                Some(p) => Some(p@),
                None => None,
            },
        ),
{
    let mut command = String::new();
    match cwd {
        Some(path) => {
            let quoted = shell_quote(path);
            command.append("cd ");
            command.append(quoted.as_str());
            command.append(" && printf '");
            command.append(LOGIN_ENV_SENTINEL);
            command.append("\\0' && env -0");
        },
        None => {
            command.append("printf '");
            command.append(LOGIN_ENV_SENTINEL);
            command.append("\\0'; env -0");
        },
    }
    command
}

} // verus!
