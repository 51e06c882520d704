//! The AI sidecar process: when to (re)start it, and how its output stream is cut into lines and
//! read.
use vstd::prelude::*;
use crate::ai_lifecycle::EngineStatus;
use crate::error::AppError;
use crate::path_utils::lowercase_text;
use crate::text::{chars_of, contains, contains_text, has_prefix, matches_at, starts_with};

verus! {

/// What to do when the engine is needed.
#[derive(Debug, Clone, Copy, PartialEq, Eq, Structural)]
pub enum EngineStartDecision {
    /// The AI is disabled: mark the engine disabled and refuse.
    RefuseDisabled,
    /// Another caller is starting the engine: nothing to do.
    AlreadyStarting,
    /// The running process serves the current settings: mark it running.
    ReuseRunning,
    /// Stop whatever runs, mark the engine starting, and launch a new process.
    Restart,
}

/// The decision for the engine, given whether the AI is enabled, the engine's status, whether a
/// process is alive, and whether it was started with the current settings.
pub open spec fn engine_start_spec(
    enabled: bool,
    status: EngineStatus,
    alive: bool,
    config_matches: bool,
) -> EngineStartDecision {
    if !enabled {
        EngineStartDecision::RefuseDisabled
    } else if status == EngineStatus::Starting {
        EngineStartDecision::AlreadyStarting
    } else if alive && config_matches {
        EngineStartDecision::ReuseRunning
    } else {
        EngineStartDecision::Restart
    }
}

/// Decides what to do when the engine is needed.
pub fn engine_start_decision(enabled: bool, status: EngineStatus, alive: bool, config_matches: bool) -> (d:
    EngineStartDecision)
    ensures
        d == engine_start_spec(enabled, status, alive, config_matches),
{
    if !enabled {
        EngineStartDecision::RefuseDisabled
    } else if status == EngineStatus::Starting {
        EngineStartDecision::AlreadyStarting
    } else if alive && config_matches {
        EngineStartDecision::ReuseRunning
    } else {
        EngineStartDecision::Restart
    }
}

/// The error reported when the AI is disabled.
pub fn engine_disabled_error() -> (e: AppError)
    ensures
        e matches AppError::Anyhow(m) && m@ == "AI feature is disabled in settings."@,
{
    AppError::Anyhow("AI feature is disabled in settings.".to_string())
}

/// The error reported when the process did not announce it was ready in time.
pub fn engine_timeout_error() -> (e: AppError)
    ensures
        e matches AppError::Anyhow(m) && m@ == "Sidecar failed to initialize within 30 seconds"@,
{
    AppError::Anyhow("Sidecar failed to initialize within 30 seconds".to_string())
}

/// The engine status after launching a process: `Running` when it announced it was ready in
/// time, else `Error`.
pub fn status_after_launch(ready: bool) -> (s: EngineStatus)
    ensures
        ready ==> s == EngineStatus::Running,
        !ready ==> s == EngineStatus::Error,
{
    if ready {
        EngineStatus::Running
    } else {
        EngineStatus::Error
    }
}

/// The buffer and the completed lines after reading `bytes`: a line ends at `\n` or `\r`, and
/// empty lines are dropped.
pub open spec fn feed_spec(buf: Seq<u8>, bytes: Seq<u8>) -> (Seq<u8>, Seq<Seq<u8>>)
    decreases bytes.len(),
{
    if bytes.len() == 0 {
        (buf, Seq::empty())
    } else {
        let (b1, lines1) = feed_spec(buf, bytes.drop_last());
        let b = bytes.last();
        if b == 10u8 || b == 13u8 {
            if b1.len() > 0 {
                (Seq::empty(), lines1.push(b1))
            } else {
                (b1, lines1)
            }
        } else {
            (b1.push(b), lines1)
        }
    }
}

/// Cuts the bytes read from the process into lines: appends the completed lines, in order, to
/// `lines`, and keeps the unfinished line in `buf`.
pub fn feed_bytes(buf: &mut Vec<u8>, bytes: &[u8], lines: &mut Vec<Vec<u8>>)
    ensures
        final(buf)@ == feed_spec(old(buf)@, bytes@).0,
        lines_view(final(lines)@) == lines_view(old(lines)@) + feed_spec(old(buf)@, bytes@).1,
{
    let ghost buf0 = buf@;
    let ghost lines0 = lines_view(lines@);
    let mut i: usize = 0;
    proof {
        assert(bytes@.take(0) =~= Seq::<u8>::empty());
        assert(lines_view(lines@) =~= lines0 + Seq::<Seq<u8>>::empty());
    }
    while i < bytes.len()
        invariant
            i <= bytes@.len(),
            buf@ == feed_spec(buf0, bytes@.take(i as int)).0,
            lines_view(lines@) == lines0 + feed_spec(buf0, bytes@.take(i as int)).1,
        decreases bytes@.len() - i,
    {
        let b = bytes[i];
        proof {
            assert(bytes@.take(i + 1).drop_last() == bytes@.take(i as int));
            assert(bytes@.take(i + 1).last() == b);
        }
        let ghost lines_before = lines@;
        if b == 10u8 || b == 13u8 {
            if buf.len() > 0 {
                let line = buf.clone();
                buf.clear();
                lines.push(line);
                proof {
                    assert(lines_view(lines@) =~= lines_view(lines_before).push(line@));
                }
            }
        } else {
            buf.push(b);
        }
        i = i + 1;
    }
    proof {
        assert(bytes@.take(bytes@.len() as int) == bytes@);
    }
}

/// The byte values of a list of lines.
pub open spec fn lines_view(v: Seq<Vec<u8>>) -> Seq<Seq<u8>> {
    v.map_values(|l: Vec<u8>| l@)
}

/// Reading a stream in two chunks gives the same lines and the same unfinished line as reading
/// it in one.
pub proof fn lemma_feed_chunks(buf: Seq<u8>, a: Seq<u8>, b: Seq<u8>)
    ensures
        feed_spec(feed_spec(buf, a).0, b).0 == feed_spec(buf, a + b).0,
        feed_spec(buf, a).1 + feed_spec(feed_spec(buf, a).0, b).1 == feed_spec(buf, a + b).1,
    decreases b.len(),
{
    if b.len() == 0 {
        assert(a + b == a);
        assert(feed_spec(buf, a).1 + Seq::<Seq<u8>>::empty() == feed_spec(buf, a).1);
    } else {
        lemma_feed_chunks(buf, a, b.drop_last());
        assert((a + b).drop_last() == a + b.drop_last());
        assert((a + b).last() == b.last());
        let (b1, l1) = feed_spec(feed_spec(buf, a).0, b.drop_last());
        let x = b.last();
        if (x == 10u8 || x == 13u8) && b1.len() > 0 {
            assert(feed_spec(buf, a).1 + l1.push(b1) =~= (feed_spec(buf, a).1 + l1).push(b1));
        }
    }
}

/// What `String::from_utf8_lossy` gives for a byte string (invalid sequences replaced by
/// U+FFFD).
pub uninterp spec fn spec_utf8_lossy(bytes: Seq<u8>) -> Seq<char>;

/// Calls `String::from_utf8_lossy`: the bytes decoded as UTF-8, each invalid sequence replaced
/// by U+FFFD. A function of the bytes alone; named here and not written out.
#[verifier::external_body]
fn utf8_lossy(bytes: &[u8]) -> (s: String)
    ensures
        s@ == spec_utf8_lossy(bytes@),
{
    String::from_utf8_lossy(bytes).into_owned()
}

/// Whether a character has the Unicode `White_Space` property, the white space that
/// `str::trim` removes.
pub open spec fn is_white_space(c: char) -> bool {
    let u = c as u32;
    (0x9 <= u <= 0xd) || u == 0x20 || u == 0x85 || u == 0xa0 || u == 0x1680 || (0x2000 <= u
        <= 0x200a) || u == 0x2028 || u == 0x2029 || u == 0x202f || u == 0x205f || u == 0x3000
}

/// `s` without its leading white space.
pub open spec fn trim_start_spec(s: Seq<char>) -> Seq<char>
    decreases s.len(),
{
    if s.len() > 0 && is_white_space(s[0]) {
        trim_start_spec(s.skip(1))
    } else {
        s
    }
}

/// `s` without its trailing white space.
pub open spec fn trim_end_spec(s: Seq<char>) -> Seq<char>
    decreases s.len(),
{
    if s.len() > 0 && is_white_space(s.last()) {
        trim_end_spec(s.drop_last())
    } else {
        s
    }
}

/// `s` without its leading and trailing white space, as `str::trim` gives it.
pub open spec fn spec_trim(s: Seq<char>) -> Seq<char> {
    trim_end_spec(trim_start_spec(s))
}

/// Whether a character is white space in the sense of `is_white_space`.
fn white_space(c: char) -> (r: bool)
    ensures
        r == is_white_space(c),
{
    let u = c as u32;
    (0x9 <= u && u <= 0xd) || u == 0x20 || u == 0x85 || u == 0xa0 || u == 0x1680 || (0x2000 <= u
        && u <= 0x200a) || u == 0x2028 || u == 0x2029 || u == 0x202f || u == 0x205f || u == 0x3000
}

/// The text without leading and trailing white space.
pub fn trim(s: &str) -> (r: String)
    ensures
        r@ == spec_trim(s@),
{
    let v = chars_of(s);
    let mut start: usize = 0;
    proof {
        assert(v@.skip(0) =~= v@);
    }
    while start < v.len() && white_space(v[start])
        invariant
            start <= v.len(),
            trim_start_spec(v@.skip(start as int)) == trim_start_spec(v@),
        decreases v.len() - start,
    {
        proof {
            assert(v@.skip(start as int).skip(1) =~= v@.skip(start + 1));
        }
        start = start + 1;
    }
    let ghost front = v@.skip(start as int);
    proof {
        assert(trim_start_spec(front) == front);
        assert(front =~= v@.subrange(start as int, v.len() as int));
    }
    let mut end: usize = v.len();
    while end > start && white_space(v[end - 1])
        invariant
            start <= end <= v.len(),
            trim_end_spec(v@.subrange(start as int, end as int)) == trim_end_spec(front),
        decreases end - start,
    {
        proof {
            assert(v@.subrange(start as int, end as int).drop_last() =~= v@.subrange(
                start as int,
                end - 1,
            ));
        }
        end = end - 1;
    }
    proof {
        let rest = v@.subrange(start as int, end as int);
        if rest.len() > 0 {
            assert(rest.last() == v@[end - 1]);
        }
        assert(trim_end_spec(rest) == rest);
    }
    let mut r = String::new();
    let mut i: usize = start;
    while i < end
        invariant
            start <= i <= end <= v.len(),
            r@ == v@.subrange(start as int, i as int),
        decreases end - i,
    {
        r.push(v[i]);
        proof {
            assert(v@.subrange(start as int, i + 1) =~= v@.subrange(start as int, i as int).push(
                v@[i as int],
            ));
        }
        i = i + 1;
    }
    r
}

/// `s` with every leading repetition of `p` removed (for a non-empty `p`).
pub open spec fn strip_prefix_all(s: Seq<char>, p: Seq<char>) -> Seq<char>
    decreases s.len(),
{
    if p.len() > 0 && has_prefix(s, p) {
        strip_prefix_all(s.skip(p.len() as int), p)
    } else {
        s
    }
}

/// `s` with every leading repetition of `p` removed, as `str::trim_start_matches` does for a
/// text pattern.
pub fn trim_start_matches(s: &str, p: &str) -> (r: String)
    ensures
        r@ == strip_prefix_all(s@, p@),
{
    let sv = chars_of(s);
    let pv = chars_of(p);
    let mut start: usize = 0;
    proof {
        assert(sv@.skip(0) =~= sv@);
    }
    if pv.len() > 0 {
        loop
            invariant
                pv.len() > 0,
                start <= sv.len(),
                sv@ == s@,
                pv@ == p@,
                strip_prefix_all(sv@.skip(start as int), pv@) == strip_prefix_all(s@, pv@),
            ensures
                start <= sv.len(),
                strip_prefix_all(sv@.skip(start as int), pv@) == sv@.skip(start as int),
                strip_prefix_all(sv@.skip(start as int), pv@) == strip_prefix_all(s@, pv@),
            decreases sv.len() - start,
        {
            let ghost rest = sv@.skip(start as int);
            if sv.len() - start < pv.len() {
                break;
            }
            let same = matches_at(&sv, &pv, start);
            proof {
                assert(rest.take(pv@.len() as int) =~= sv@.subrange(start as int, start + pv.len()));
            }
            if !same {
                break;
            }
            proof {
                assert(rest.skip(pv@.len() as int) =~= sv@.skip(start + pv.len()));
            }
            start = start + pv.len();
        }
    }
    let mut out = String::new();
    let mut i: usize = start;
    while i < sv.len()
        invariant
            start <= i <= sv.len(),
            out@ == sv@.subrange(start as int, i as int),
        decreases sv.len() - i,
    {
        out.push(sv[i]);
        proof {
            assert(out@ =~= sv@.subrange(start as int, i + 1));
        }
        i = i + 1;
    }
    proof {
        assert(sv@.subrange(start as int, sv.len() as int) =~= sv@.skip(start as int));
        if pv.len() == 0 {
            assert(sv@.skip(0) =~= sv@);
        }
    }
    out
}

/// What a line from the process means.
#[derive(Debug, Clone)]
pub enum SidecarLine {
    /// The process is ready to take commands.
    Ready,
    /// A reply to a command (the raw line).
    Response(String),
    /// A log message to show.
    Log(String),
    /// A line mentioning an error, shown as critical.
    Critical(String),
    /// Anything else.
    Ignored,
}

/// The meaning of a line, given the line and its trimmed form.
pub open spec fn classify_spec(line: Seq<char>, trimmed: Seq<char>) -> (int, Seq<char>) {
    if trimmed == "READY"@ {
        (0, Seq::empty())
    } else if has_prefix(trimmed, seq!['{']) {
        (1, line)
    } else if has_prefix(trimmed, "[LOG]"@) {
        (2, spec_trim(strip_prefix_all(trimmed, "[LOG]"@)))
    } else if contains_text(lowercase_text(trimmed), "error"@) {
        (3, "CRITICAL: "@ + trimmed)
    } else {
        (4, Seq::empty())
    }
}

/// The kind number and text of a classified line.
pub open spec fn line_kind(l: SidecarLine) -> (int, Seq<char>) {
    match l {
        SidecarLine::Ready => (0, Seq::empty()),
        SidecarLine::Response(s) => (1, s@),
        SidecarLine::Log(s) => (2, s@),
        SidecarLine::Critical(s) => (3, s@),
        SidecarLine::Ignored => (4, Seq::empty()),
    }
}

/// Reads one line of the process's output: `READY`; a JSON reply (starting with `{`); a
/// `[LOG]` message; a line mentioning "error" in any case; or nothing of interest.
pub fn classify_line(line_bytes: &[u8]) -> (r: SidecarLine)
    ensures
        line_kind(r) == classify_spec(
            spec_utf8_lossy(line_bytes@),
            spec_trim(spec_utf8_lossy(line_bytes@)),
        ),
{
    let line = utf8_lossy(line_bytes);
    let trimmed = trim(line.as_str());
    classify_text(line, trimmed)
}

/// Reads a line given as text and its trimmed form.
pub fn classify_text(line: String, trimmed: String) -> (r: SidecarLine)
    ensures
        line_kind(r) == classify_spec(line@, trimmed@),
{
    let ready = "READY";
    let brace = "{";
    let log = "[LOG]";
    let error = "error";
    proof {
        reveal_strlit("READY");
        reveal_strlit("{");
        reveal_strlit("[LOG]");
        reveal_strlit("error");
        assert(brace@ =~= seq!['{']);
    }
    if crate::path_utils::text_eq(trimmed.as_str(), ready) {
        SidecarLine::Ready
    } else if starts_with(trimmed.as_str(), brace) {
        SidecarLine::Response(line)
    } else if starts_with(trimmed.as_str(), log) {
        let rest = trim_start_matches(trimmed.as_str(), log);
        SidecarLine::Log(trim(rest.as_str()))
    } else if contains(trimmed.as_str().to_lowercase().as_str(), error) {
        let mut msg = "CRITICAL: ".to_string();
        msg.append(trimmed.as_str());
        proof {
            reveal_strlit("CRITICAL: ");
        }
        SidecarLine::Critical(msg)
    } else {
        SidecarLine::Ignored
    }
}

} // verus!
