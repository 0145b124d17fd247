//! Credential retrieval: parsing of the credential helper's line-oriented
//! `key=value` output, the exact request payload written to the helper, and
//! the ordered environment-variable fallback. Spawning the helper process and
//! reading environment variables happen on the host side; this module decides
//! what those raw results mean.

use vstd::prelude::*;

verus! {

/// Line feed, the byte that terminates a line of helper output.
pub const LINE_FEED: u8 = 10;

/// Carriage return, stripped when it ends a line just before a line feed.
pub const CARRIAGE_RETURN: u8 = 13;

/// The bytes of `password=`, the key whose value is the token.
pub open spec fn password_prefix() -> Seq<u8> {
    // p      a     s      s      w      o      r      d      =
    seq![112u8, 97u8, 115u8, 115u8, 119u8, 111u8, 114u8, 100u8, 61u8]
}

/// Index of the first line feed in `s`, or `s.len()` if there is none.
pub open spec fn first_line_feed(s: Seq<u8>) -> int
    decreases s.len(),
{
    if s.len() == 0 {
        0
    } else if s[0] == LINE_FEED {
        0
    } else {
        1 + first_line_feed(s.skip(1))
    }
}

/// A line as delivered to the parser: a carriage return left at the end of a
/// line-feed-terminated line is dropped.
pub open spec fn chomp(line: Seq<u8>) -> Seq<u8> {
    if line.len() > 0 && line.last() == CARRIAGE_RETURN {
        line.drop_last()
    } else {
        line
    }
}

/// The lines of the helper output: split at each line feed, with a carriage
/// return stripped from the end of each terminated line. A trailing line feed
/// opens no further line, and an unterminated final line is kept as it stands.
pub open spec fn lines_of(s: Seq<u8>) -> Seq<Seq<u8>>
    decreases s.len(),
{
    if s.len() == 0 {
        Seq::empty()
    } else {
        let i = first_line_feed(s);
        if 0 <= i && i < s.len() {
            seq![chomp(s.take(i))] + lines_of(s.skip(i + 1))
        } else {
            seq![s]
        }
    }
}

/// Whether a line carries the `password` key.
pub open spec fn is_password_line(line: Seq<u8>) -> bool {
    line.len() >= password_prefix().len() && line.take(password_prefix().len() as int)
        == password_prefix()
}

/// The remainder of a `password=` line: the candidate token.
pub open spec fn token_of(line: Seq<u8>) -> Seq<u8> {
    line.skip(password_prefix().len() as int)
}

/// The outcome of the scan: the first `password=` line decides it. Its value
/// is the token if non-empty; an empty value there is a miss, whatever later
/// lines hold. Later matches are ignored.
pub open spec fn first_token(lines: Seq<Seq<u8>>) -> Option<Seq<u8>>
    decreases lines.len(),
{
    if lines.len() == 0 {
        None
    } else if is_password_line(lines[0]) {
        if token_of(lines[0]).len() > 0 {
            Some(token_of(lines[0]))
        } else {
            None
        }
    } else {
        first_token(lines.skip(1))
    }
}

/// What a helper run means: on a successful exit, the value of the first
/// `password=` line of its output, provided that value is non-empty; on a
/// failed exit, nothing — a refused lookup is not an execution failure.
pub open spec fn credential_of(success: bool, stdout: Seq<u8>) -> Option<Seq<u8>> {
    if success {
        first_token(lines_of(stdout))
    } else {
        None
    }
}

/// A position with no line feed before it that is either the end or holds a
/// line feed is exactly `first_line_feed`.
pub proof fn lemma_first_line_feed_is(s: Seq<u8>, i: int)
    requires
        0 <= i <= s.len(),
        forall|k: int| 0 <= k < i ==> s[k] != LINE_FEED,
        i < s.len() ==> s[i] == LINE_FEED,
    ensures
        first_line_feed(s) == i,
    decreases s.len(),
{
    if s.len() == 0 {
    } else if s[0] == LINE_FEED {
        assert(i == 0);
    } else {
        assert(i != 0);
        assert forall|k: int| 0 <= k < i - 1 implies s.skip(1)[k] != LINE_FEED by {
            assert(s.skip(1)[k] == s[k + 1]);
        }
        if i - 1 < s.skip(1).len() {
            assert(s.skip(1)[i - 1] == s[i]);
        }
        lemma_first_line_feed_is(s.skip(1), i - 1);
    }
}

/// The first `password=` line decides the scan: the token is its value if
/// that value is non-empty, and nothing otherwise.
pub proof fn lemma_first_token_at(lines: Seq<Seq<u8>>, i: int)
    requires
        0 <= i < lines.len(),
        is_password_line(lines[i]),
        forall|j: int| 0 <= j < i ==> !is_password_line(lines[j]),
    ensures
        first_token(lines) == (if token_of(lines[i]).len() > 0 {
            Some(token_of(lines[i]))
        } else {
            None::<Seq<u8>>
        }),
    decreases i,
{
    if i == 0 {
    } else {
        assert(!is_password_line(lines[0]));
        assert(lines.skip(1)[i - 1] == lines[i]);
        assert forall|j: int| 0 <= j < i - 1 implies !is_password_line(lines.skip(1)[j]) by {
            assert(lines.skip(1)[j] == lines[j + 1]);
        }
        lemma_first_token_at(lines.skip(1), i - 1);
    }
}

/// If no line carries the `password` key, no token is found.
pub proof fn lemma_first_token_none(lines: Seq<Seq<u8>>)
    requires
        forall|j: int| 0 <= j < lines.len() ==> !is_password_line(lines[j]),
    ensures
        first_token(lines) is None,
    decreases lines.len(),
{
    if lines.len() == 0 {
    } else {
        assert(!is_password_line(lines[0]));
        assert forall|j: int| 0 <= j < lines.skip(1).len() implies !is_password_line(
            lines.skip(1)[j],
        ) by {
            assert(lines.skip(1)[j] == lines[j + 1]);
        }
        lemma_first_token_none(lines.skip(1));
    }
}

/// First match wins: if line `i` of a successful helper run's output is the
/// first `password=` line and its value is non-empty, the retrieved
/// credential is exactly that value.
pub proof fn lemma_first_password_line_wins(stdout: Seq<u8>, i: int)
    requires
        0 <= i < lines_of(stdout).len(),
        is_password_line(lines_of(stdout)[i]),
        token_of(lines_of(stdout)[i]).len() > 0,
        forall|j: int| 0 <= j < i ==> !is_password_line(lines_of(stdout)[j]),
    ensures
        credential_of(true, stdout) == Some(token_of(lines_of(stdout)[i])),
{
    lemma_first_token_at(lines_of(stdout), i);
}

/// An empty value on the first `password=` line is a miss: the scan stops
/// there, and later matches are ignored.
pub proof fn lemma_empty_password_line_is_miss(stdout: Seq<u8>, i: int)
    requires
        0 <= i < lines_of(stdout).len(),
        is_password_line(lines_of(stdout)[i]),
        token_of(lines_of(stdout)[i]).len() == 0,
        forall|j: int| 0 <= j < i ==> !is_password_line(lines_of(stdout)[j]),
    ensures
        credential_of(true, stdout) is None,
{
    lemma_first_token_at(lines_of(stdout), i);
}

/// If no line of a successful helper run's output is a `password=` line, the
/// lookup is a miss, not an error.
pub proof fn lemma_no_password_line_is_miss(stdout: Seq<u8>)
    requires
        forall|j: int| 0 <= j < lines_of(stdout).len() ==> !is_password_line(lines_of(stdout)[j]),
    ensures
        credential_of(true, stdout) is None,
{
    lemma_first_token_none(lines_of(stdout));
}

/// A credential reported as present is never empty.
pub proof fn lemma_credential_nonempty(success: bool, stdout: Seq<u8>)
    ensures
        credential_of(success, stdout) matches Some(tok) ==> tok.len() > 0,
{
    lemma_first_token_nonempty(lines_of(stdout));
}

/// A token found by `first_token` is the non-empty value of a `password=`
/// line, so it is never empty.
pub proof fn lemma_first_token_nonempty(lines: Seq<Seq<u8>>)
    ensures
        first_token(lines) matches Some(tok) ==> tok.len() > 0,
    decreases lines.len(),
{
    if lines.len() == 0 {
    } else if is_password_line(lines[0]) {
    } else {
        lemma_first_token_nonempty(lines.skip(1));
    }
}

/// The bytes of `password=`, as a value.
fn password_prefix_bytes() -> (r: Vec<u8>)
    ensures
        r@ == password_prefix(),
{
    let mut v: Vec<u8> = Vec::new();
    v.push(112);
    v.push(97);
    v.push(115);
    v.push(115);
    v.push(119);
    v.push(111);
    v.push(114);
    v.push(100);
    v.push(61);
    proof {
        assert(v@ =~= password_prefix());
    }
    v
}

/// Copies the bytes of `s` between `from` and `to` into a fresh vector.
fn copy_range(s: &[u8], from: usize, to: usize) -> (r: Vec<u8>)
    requires
        from <= to <= s@.len(),
    ensures
        r@ == s@.subrange(from as int, to as int),
{
    let mut v: Vec<u8> = Vec::new();
    let mut k: usize = from;
    while k < to
        invariant
            from <= k <= to <= s@.len(),
            v@ == s@.subrange(from as int, k as int),
        decreases to - k,
    {
        v.push(s[k]);
        k = k + 1;
        proof {
            assert(v@ =~= s@.subrange(from as int, k as int));
        }
    }
    v
}

/// Index of the first line feed in `s` at or after `from`, or `s.len()`.
fn find_line_feed(s: &[u8], from: usize) -> (r: usize)
    requires
        from <= s@.len(),
    ensures
        from <= r <= s@.len(),
        forall|k: int| from <= k < r ==> s@[k] != LINE_FEED,
        r < s@.len() ==> s@[r as int] == LINE_FEED,
{
    let mut j: usize = from;
    while j < s.len()
        invariant
            from <= j <= s@.len(),
            forall|k: int| from <= k < j ==> s@[k] != LINE_FEED,
        decreases s@.len() - j,
    {
        if s[j] == LINE_FEED {
            return j;
        }
        j = j + 1;
    }
    j
}

/// Whether the line of `s` that runs from `start` to `end` carries the
/// `password` key.
fn is_password_line_at(s: &[u8], start: usize, end: usize) -> (r: bool)
    requires
        start <= end <= s@.len(),
    ensures
        r == is_password_line(s@.subrange(start as int, end as int)),
{
    let ghost line = s@.subrange(start as int, end as int);
    let prefix = password_prefix_bytes();
    if end - start < prefix.len() {
        return false;
    }
    let mut k: usize = 0;
    while k < prefix.len()
        invariant
            0 <= k <= prefix.len(),
            prefix@ == password_prefix(),
            start <= end <= s@.len(),
            end - start >= prefix@.len(),
            line == s@.subrange(start as int, end as int),
            forall|m: int| 0 <= m < k ==> line[m] == password_prefix()[m],
        decreases prefix.len() - k,
    {
        if s[start + k] != prefix[k] {
            proof {
                assert(line[k as int] == s@[start + k as int]);
                if is_password_line(line) {
                    assert(line.take(password_prefix().len() as int)[k as int]
                        == password_prefix()[k as int]);
                }
            }
            return false;
        }
        proof {
            assert(line[k as int] == s@[start + k as int]);
        }
        k = k + 1;
    }
    proof {
        assert(line.take(password_prefix().len() as int) =~= password_prefix());
    }
    true
}

/// Scans a completed helper run's standard output for the credential: on a
/// successful exit, the value of the first `password=` line, provided that
/// value is non-empty; `None` on a failed exit, when no `password=` line
/// exists, or when the first one's value is empty — later matches are
/// ignored. A found credential is never empty.
pub fn credential_from_output(success: bool, stdout: &[u8]) -> (r: Option<Vec<u8>>)
    ensures
        credential_of(success, stdout@) matches Some(tok) ==> (r matches Some(t) && t@ == tok),
        credential_of(success, stdout@) is None ==> r is None,
        !success ==> r is None,
        r matches Some(t) ==> t@.len() > 0,
{
    if !success {
        return None;
    }
    let plen = password_prefix_bytes().len();
    let mut pos: usize = 0;
    proof {
        assert(stdout@.skip(0) =~= stdout@);
    }
    loop
        invariant
            success,
            plen == password_prefix().len(),
            pos <= stdout@.len(),
            first_token(lines_of(stdout@.skip(pos as int))) == first_token(lines_of(stdout@)),
        decreases stdout@.len() - pos,
    {
        if pos == stdout.len() {
            proof {
                assert(stdout@.skip(pos as int) =~= Seq::<u8>::empty());
            }
            return None;
        }
        let j = find_line_feed(stdout, pos);
        let terminated = j < stdout.len();
        let end: usize = if terminated && j > pos && stdout[j - 1] == CARRIAGE_RETURN {
            j - 1
        } else {
            j
        };
        let ghost suffix = stdout@.skip(pos as int);
        let ghost line = stdout@.subrange(pos as int, end as int);
        proof {
            assert forall|k: int| 0 <= k < j - pos implies suffix[k] != LINE_FEED by {
                assert(suffix[k] == stdout@[pos + k]);
            }
            if j - pos < suffix.len() {
                assert(suffix[j - pos] == stdout@[j as int]);
            }
            lemma_first_line_feed_is(suffix, j - pos);
            if terminated {
                assert(suffix.take(j - pos) =~= stdout@.subrange(pos as int, j as int));
                assert(chomp(suffix.take(j - pos)) =~= line);
                assert(lines_of(suffix) == seq![line] + lines_of(suffix.skip(j - pos + 1)));
                assert(lines_of(suffix)[0] == line);
            } else {
                assert(line =~= suffix);
                assert(lines_of(suffix) == seq![suffix]);
                assert(lines_of(suffix)[0] == line);
            }
        }
        if is_password_line_at(stdout, pos, end) {
            // The first password= line decides: its non-empty value is the
            // credential, and an empty value is a miss.
            if end - pos > plen {
                let t = copy_range(stdout, pos + plen, end);
                proof {
                    assert(t@ =~= token_of(line));
                    assert(first_token(lines_of(suffix)) == Some(token_of(line)));
                }
                return Some(t);
            }
            proof {
                assert(token_of(line).len() == 0);
                assert(first_token(lines_of(suffix)) is None);
            }
            return None;
        }
        if !terminated {
            proof {
                assert(!is_password_line(lines_of(suffix)[0]));
                assert(first_token(lines_of(suffix)) == first_token(lines_of(suffix).skip(1)));
                assert(lines_of(suffix).skip(1) =~= Seq::<Seq<u8>>::empty());
                assert(first_token(Seq::<Seq<u8>>::empty()) is None);
            }
            return None;
        }
        proof {
            let rest = lines_of(suffix.skip(j - pos + 1));
            assert(!is_password_line(lines_of(suffix)[0]));
            assert((seq![line] + rest).skip(1) =~= rest);
            assert(first_token(lines_of(suffix)) == first_token(rest));
            assert(suffix.skip(j - pos + 1) =~= stdout@.skip(j + 1));
        }
        pos = j + 1;
    }
}

/// What a completed helper run produced: its exit disposition and its two
/// captured output streams. The error stream is carried for the caller's
/// inspection but never interpreted here.
pub struct HelperRun {
    /// Whether the helper exited with a success status.
    pub success: bool,
    /// The bytes of the helper's standard output.
    pub stdout: Vec<u8>,
    /// The bytes of the helper's standard error, uninterpreted.
    pub stderr: Vec<u8>,
}

/// Resolves the credential-store lookup from the attempt to run the helper:
/// a run that completed yields the credential its output carries (a failed
/// exit or a miss is `Ok(None)`, not an error), while a helper that could not
/// be spawned or awaited is surfaced as an error naming the cause.
pub fn resolve_from_store(run: Result<HelperRun, String>) -> (r: Result<Option<Vec<u8>>, String>)
    ensures
        run matches Ok(o) ==> (r matches Ok(c)
            && (credential_of(o.success, o.stdout@) matches Some(tok) ==> (c matches Some(t) && t@
            == tok)) && (credential_of(o.success, o.stdout@) is None ==> c is None)),
        run matches Ok(o) ==> (!o.success ==> r == Ok::<Option<Vec<u8>>, String>(None)),
        run matches Err(e) ==> (r matches Err(m) && m@ == "Failed to execute git credential: "@
            + e@),
{
    match run {
        Ok(o) => Ok(credential_from_output(o.success, o.stdout.as_slice())),
        Err(e) => {
            let msg: String = String::from_str("Failed to execute git credential: ");
            Err(msg.concat(e.as_str()))
        },
    }
}

/// The contents of an optionally present string value.
pub open spec fn opt_str_view(v: Option<String>) -> Option<Seq<char>> {
    match v {
        Some(s) => Some(s@),
        None => None,
    }
}

/// The fallback variable's contribution: its value if set and non-empty.
pub open spec fn env_fallback(fallback: Option<Seq<char>>) -> Option<Seq<char>> {
    match fallback {
        Some(f) => if f.len() > 0 {
            Some(f)
        } else {
            None
        },
        None => None,
    }
}

/// The environment resolution rule: the primary variable's value when set and
/// non-empty, regardless of the fallback; else the fallback's value when set
/// and non-empty; else nothing.
pub open spec fn env_choice(primary: Option<Seq<char>>, fallback: Option<Seq<char>>) -> Option<
    Seq<char>,
> {
    match primary {
        Some(p) => if p.len() > 0 {
            Some(p)
        } else {
            env_fallback(fallback)
        },
        None => env_fallback(fallback),
    }
}

/// Resolves the credential from the two environment variables' values, read
/// by the host: the primary value wins when set and non-empty, else a set and
/// non-empty fallback value, else nothing. Absence is a miss, not an error,
/// and a value reported as present is never empty.
pub fn resolve_from_env(primary: Option<String>, fallback: Option<String>) -> (r: Option<String>)
    ensures
        opt_str_view(r) == env_choice(opt_str_view(primary), opt_str_view(fallback)),
        r matches Some(t) ==> t@.len() > 0,
{
    match primary {
        Some(p) => {
            if !p.as_str().is_empty() {
                return Some(p);
            }
            nonempty_or_none(fallback)
        },
        None => nonempty_or_none(fallback),
    }
}

/// The value if it is set and non-empty, else nothing.
fn nonempty_or_none(value: Option<String>) -> (r: Option<String>)
    ensures
        opt_str_view(r) == env_fallback(opt_str_view(value)),
{
    match value {
        Some(v) => {
            if !v.as_str().is_empty() {
                Some(v)
            } else {
                None
            }
        },
        None => None,
    }
}

/// The target-identity descriptor written to the credential helper's input:
/// the protocol line, the host line, and the terminating blank line.
pub fn helper_request_payload() -> (r: &'static str)
    ensures
        r@ == "protocol=https\nhost=github.com\n\n"@,
{
    "protocol=https\nhost=github.com\n\n"
}

} // verus!
