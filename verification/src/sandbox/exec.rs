//! Process output formatting: combined stdout/stderr text, exit status and
//! truncation notices.
use vstd::prelude::*;
use vstd::string::StringExecFns;
use crate::text::{decimal, int_decimal, push_decimal, push_int_decimal, push_str};

verus! {

/// Byte limits on captured process output.
#[derive(Clone, Copy, Debug)]
pub struct OutputLimits {
    pub max_stdout_bytes: u64,
    pub max_stderr_bytes: u64,
    pub max_combined_bytes: u64,
}

/// `EXIT: <code>` for an exit code, `SIGNAL: killed` for a signal kill.
pub open spec fn exit_text(exit_code: Option<i32>) -> Seq<char> {
    match exit_code {
        Some(c) => "EXIT: "@ + int_decimal(c as int),
        None => "SIGNAL: killed"@,
    }
}

/// The combined output text of a finished process.
///
/// - both streams empty: the exit text, or nothing for exit code 0;
/// - stderr empty: stdout, followed by the exit text unless the code is 0;
/// - stderr present: both streams labelled, then the exit text.
pub open spec fn format_output_spec(stdout: Seq<char>, stderr: Seq<char>, exit_code: Option<i32>) -> Seq<char> {
    let show_code = exit_code != Some(0i32);
    if stdout.len() == 0 && stderr.len() == 0 {
        if show_code { exit_text(exit_code) } else { Seq::empty() }
    } else if stderr.len() == 0 {
        if show_code { stdout + "\n"@ + exit_text(exit_code) } else { stdout }
    } else {
        "STDOUT:\n"@ + stdout + "\nSTDERR:\n"@ + stderr + "\n"@ + exit_text(exit_code)
    }
}

fn push_exit(out: &mut String, exit_code: Option<i32>)
    ensures
        final(out)@ == old(out)@ + exit_text(exit_code),
{
    match exit_code {
        Some(c) => {
            push_str(out, "EXIT: ");
            push_int_decimal(out, c as i64);
        },
        None => push_str(out, "SIGNAL: killed"),
    }
    assert(final(out)@ =~= old(out)@ + exit_text(exit_code));
}

/// Format combined stdout/stderr output for a completed process so the LLM
/// can tell the streams apart; a signal kill shows `SIGNAL: killed`
/// instead of an exit code.
pub fn format_output(stdout: &str, stderr: &str, exit_code: Option<i32>) -> (r: String)
    ensures
        r@ == format_output_spec(stdout@, stderr@, exit_code),
{
    let show_code = match exit_code {
        Some(c) => c != 0,
        None => true,
    };
    let mut out = String::new();
    if stdout.is_empty() && stderr.is_empty() {
        if show_code {
            push_exit(&mut out, exit_code);
        }
    } else if stderr.is_empty() {
        push_str(&mut out, stdout);
        if show_code {
            push_str(&mut out, "\n");
            push_exit(&mut out, exit_code);
        }
    } else {
        push_str(&mut out, "STDOUT:\n");
        push_str(&mut out, stdout);
        push_str(&mut out, "\nSTDERR:\n");
        push_str(&mut out, stderr);
        push_str(&mut out, "\n");
        push_exit(&mut out, exit_code);
    }
    assert(out@ =~= format_output_spec(stdout@, stderr@, exit_code));
    out
}

/// `"<limit_type> exceeded <max> byte limit"`.
pub open spec fn truncation_notice_spec(limit_type: Seq<char>, max: nat) -> Seq<char> {
    limit_type + " exceeded "@ + decimal(max) + " byte limit"@
}

/// Build a truncation notice string for a specific limit type
/// (`stdout`, `stderr` or `combined output`).
pub fn truncation_notice(limit_type: &str, max: usize) -> (r: String)
    ensures
        r@ == truncation_notice_spec(limit_type@, max as nat),
{
    let mut out = String::new();
    push_str(&mut out, limit_type);
    push_str(&mut out, " exceeded ");
    push_decimal(&mut out, max as u64);
    push_str(&mut out, " byte limit");
    assert(out@ =~= truncation_notice_spec(limit_type@, max as nat));
    out
}

/// The notices appended after the output of a truncated process, in the
/// order stdout, stderr, combined (limits shown as `usize`, as printed).
pub open spec fn truncation_suffix(limits: OutputLimits, stdout_trunc: bool, stderr_trunc: bool, combined_trunc: bool) -> Seq<char> {
    (if stdout_trunc { "\n[TRUNCATED] "@ + truncation_notice_spec("stdout"@, (limits.max_stdout_bytes as usize) as nat) } else { Seq::empty() })
        + (if stderr_trunc { "\n[TRUNCATED] "@ + truncation_notice_spec("stderr"@, (limits.max_stderr_bytes as usize) as nat) } else { Seq::empty() })
        + (if combined_trunc { "\n[TRUNCATED] "@ + truncation_notice_spec("combined output"@, (limits.max_combined_bytes as usize) as nat) } else { Seq::empty() })
}

/// The text and truncation flag reported for a finished process: the
/// formatted output, followed by a notice for every limit that was hit.
/// The combined limit counts the bytes read from both streams.
pub fn finish_output(
    stdout: &str,
    stderr: &str,
    exit_code: Option<i32>,
    limits: &OutputLimits,
    stdout_bytes: u64,
    stderr_bytes: u64,
    stdout_trunc: bool,
    stderr_trunc: bool,
) -> (r: (String, bool))
    ensures
        ({
            let combined = stdout_bytes + stderr_bytes > limits.max_combined_bytes;
            &&& r.1 == (stdout_trunc || stderr_trunc || combined)
            &&& r.0@ == format_output_spec(stdout@, stderr@, exit_code)
                + truncation_suffix(*limits, stdout_trunc, stderr_trunc, combined)
        }),
{
    let combined_trunc = stdout_bytes as u128 + stderr_bytes as u128 > limits.max_combined_bytes as u128;
    let truncated = stdout_trunc || stderr_trunc || combined_trunc;
    let mut o = format_output(stdout, stderr, exit_code);
    let ghost base = o@;
    if stdout_trunc {
        push_str(&mut o, "\n[TRUNCATED] ");
        push_str(&mut o, truncation_notice("stdout", limits.max_stdout_bytes as usize).as_str());
    }
    let ghost a = o@;
    if stderr_trunc {
        push_str(&mut o, "\n[TRUNCATED] ");
        push_str(&mut o, truncation_notice("stderr", limits.max_stderr_bytes as usize).as_str());
    }
    let ghost b = o@;
    if combined_trunc {
        push_str(&mut o, "\n[TRUNCATED] ");
        push_str(&mut o, truncation_notice("combined output", limits.max_combined_bytes as usize).as_str());
    }
    assert(o@ =~= base + truncation_suffix(*limits, stdout_trunc, stderr_trunc, combined_trunc));
    (o, truncated)
}

/// How a command's output reads: with error output, both streams under
/// headers and the exit line; else a clean exit shows the output alone, and
/// any other exit adds its line after the output (or stands alone).
pub proof fn lemma_format_output_cases(stdout: Seq<char>, stderr: Seq<char>, exit_code: Option<i32>)
    ensures
        format_output_spec(stdout, stderr, exit_code) == if stderr.len() > 0 {
            "STDOUT:\n"@ + stdout + "\nSTDERR:\n"@ + stderr + "\n"@ + exit_text(exit_code)
        } else if exit_code == Some(0i32) {
            stdout
        } else if stdout.len() == 0 {
            exit_text(exit_code)
        } else {
            stdout + "\n"@ + exit_text(exit_code)
        },
{
}

/// Size of one read from a child's output pipe.
pub const READ_CHUNK: usize = 8192;

/// Output captured from one stream of a finished process, kept up to a
/// limit: the capture is truncated when a byte beyond the limit is read,
/// and reading stops there. A stream that ends exactly at the limit is not
/// truncated.
pub struct CappedCapture {
    buf: Vec<u8>,
    limit: u64,
    truncated: bool,
    seen: Ghost<Seq<u8>>,
}

/// The first `min(len, limit)` bytes of a stream.
pub open spec fn capped_prefix(stream: Seq<u8>, limit: u64) -> Seq<u8> {
    if stream.len() <= limit { stream } else { stream.subrange(0, limit as int) }
}

impl CappedCapture {
    /// The bytes read so far from the stream.
    pub closed spec fn stream(self) -> Seq<u8> {
        self.seen@
    }

    /// The bytes kept.
    pub closed spec fn kept(self) -> Seq<u8> {
        self.buf@
    }

    /// The limit.
    pub closed spec fn limit_spec(self) -> u64 {
        self.limit
    }

    /// Whether reading has stopped: a byte beyond the limit was read.
    pub closed spec fn is_stopped(self) -> bool {
        self.truncated
    }

    /// Whether the capture was cut at the limit.
    pub closed spec fn is_truncated(self) -> bool {
        self.truncated
    }

    /// The capture keeps the bytes read up to the limit, and is truncated
    /// exactly when more than the limit was read.
    pub closed spec fn wf(self) -> bool {
        &&& self.buf@ == capped_prefix(self.seen@, self.limit)
        &&& self.truncated == (self.seen@.len() > self.limit)
    }

    /// An empty capture for a stream limited to `limit` bytes.
    pub fn new(limit: u64) -> (r: Self)
        ensures
            r.wf(),
            r.stream() == Seq::<u8>::empty(),
            r.limit_spec() == limit,
            !r.is_stopped(),
    {
        CappedCapture { buf: Vec::new(), limit, truncated: false, seen: Ghost(Seq::empty()) }
    }

    /// How many bytes the next read may take: none once the capture is
    /// truncated; else up to a chunk, and at the limit one byte, to see
    /// whether the stream goes on.
    pub fn next_read(&self) -> (n: usize)
        requires
            self.wf(),
        ensures
            n == 0 <==> self.is_stopped(),
            n <= READ_CHUNK,
            !self.is_stopped() ==> n == (if self.limit_spec() - self.kept().len() == 0 { 1 }
                else if self.limit_spec() - self.kept().len() < READ_CHUNK { self.limit_spec() - self.kept().len() }
                else { READ_CHUNK as int }),
    {
        if self.truncated {
            return 0;
        }
        let remaining = self.limit - self.buf.len() as u64;
        if remaining == 0 {
            1
        } else if remaining < READ_CHUNK as u64 {
            remaining as usize
        } else {
            READ_CHUNK
        }
    }

    /// Record a read of `chunk`: the bytes up to the limit are kept; a byte
    /// beyond it truncates the capture.
    pub fn absorb(&mut self, chunk: &[u8])
        requires
            old(self).wf(),
            !old(self).is_stopped(),
        ensures
            final(self).wf(),
            final(self).stream() == old(self).stream() + chunk@,
            final(self).limit_spec() == old(self).limit_spec(),
    {
        let ghost start = self.buf@;
        let ghost seen0 = self.seen@;
        let remaining = self.limit - self.buf.len() as u64;
        let take: usize = if (chunk.len() as u64) <= remaining { chunk.len() } else { remaining as usize };
        let mut i: usize = 0;
        while i < take
            invariant
                i <= take <= chunk@.len(),
                take <= remaining,
                remaining == self.limit - start.len(),
                self.buf@ == start + chunk@.subrange(0, i as int),
                self.seen@ == seen0,
                start == capped_prefix(seen0, self.limit),
                seen0.len() <= self.limit,
                !self.truncated,
            decreases take - i,
        {
            self.buf.push(chunk[i]);
            i = i + 1;
            assert(self.buf@ =~= start + chunk@.subrange(0, i as int));
        }
        self.seen = Ghost(seen0 + chunk@);
        if take < chunk.len() {
            self.truncated = true;
        }
        proof {
            let all = seen0 + chunk@;
            if all.len() <= self.limit {
                assert(chunk@.subrange(0, take as int) =~= chunk@);
                assert(self.buf@ =~= all);
            } else {
                assert(self.buf@ =~= all.subrange(0, self.limit as int));
            }
        }
    }

    /// The bytes kept, how many, and whether the capture was truncated.
    pub fn finish(self) -> (r: (u64, Vec<u8>, bool))
        requires
            self.wf(),
        ensures
            r.1@ == self.kept(),
            r.0 == r.1@.len(),
            r.2 == self.is_truncated(),
    {
        let n = self.buf.len() as u64;
        (n, self.buf, self.truncated)
    }
}

/// Reading a capped stream keeps what a bounded reader should: once the
/// stream ends (`stream` read whole, with `rest` empty) or the capture
/// stops, the bytes kept are the first `min(len, limit)` bytes of the whole
/// stream, and the capture is truncated exactly when the stream is longer
/// than the limit.
pub proof fn lemma_capped_capture_keeps_prefix(c: CappedCapture, rest: Seq<u8>)
    requires
        c.wf(),
        c.is_stopped() || rest.len() == 0,
    ensures
        ({
            let all = c.stream() + rest;
            &&& c.kept() == capped_prefix(all, c.limit_spec())
            &&& c.is_truncated() == (all.len() > c.limit_spec())
        }),
{
    let all = c.stream() + rest;
    if c.is_stopped() {
        assert(c.kept() =~= all.subrange(0, c.limit_spec() as int));
    } else {
        assert(all =~= c.stream());
    }
}

/// Whether a whole run is reported truncated, from the two streams the
/// process wrote and the limits: a stream longer than its own limit, or
/// more bytes kept from both than the combined limit allows.
pub open spec fn run_truncated(stdout: Seq<u8>, stderr: Seq<u8>, limits: OutputLimits) -> bool {
    ||| stdout.len() > limits.max_stdout_bytes
    ||| stderr.len() > limits.max_stderr_bytes
    ||| capped_prefix(stdout, limits.max_stdout_bytes).len() + capped_prefix(stderr, limits.max_stderr_bytes).len()
        > limits.max_combined_bytes
}

/// Over a whole run, with each stream read until it ends or its capture
/// stops: stdout keeps its first `min(len, max_stdout_bytes)` bytes, stderr
/// its first `min(len, max_stderr_bytes)`, and the flags that
/// `finish_output` combines (each capture's truncation, and the kept byte
/// counts against the combined limit) give `run_truncated` of the two
/// streams.
pub proof fn lemma_run_truncation(
    out: CappedCapture,
    out_rest: Seq<u8>,
    err: CappedCapture,
    err_rest: Seq<u8>,
    limits: OutputLimits,
)
    requires
        out.wf(),
        err.wf(),
        out.limit_spec() == limits.max_stdout_bytes,
        err.limit_spec() == limits.max_stderr_bytes,
        out.is_stopped() || out_rest.len() == 0,
        err.is_stopped() || err_rest.len() == 0,
    ensures
        ({
            let so = out.stream() + out_rest;
            let se = err.stream() + err_rest;
            &&& out.kept() == capped_prefix(so, limits.max_stdout_bytes)
            &&& err.kept() == capped_prefix(se, limits.max_stderr_bytes)
            &&& (out.is_truncated() || err.is_truncated()
                || out.kept().len() + err.kept().len() > limits.max_combined_bytes)
                == run_truncated(so, se, limits)
        }),
{
    lemma_capped_capture_keeps_prefix(out, out_rest);
    lemma_capped_capture_keeps_prefix(err, err_rest);
}

/// The combined limit applied to captured streams: when their total
/// exceeds it, stdout keeps at most `max` bytes and stderr what is left.
pub open spec fn combined_cut(stdout: Seq<u8>, stderr: Seq<u8>, max: u64) -> (Seq<u8>, Seq<u8>) {
    if stdout.len() >= max {
        (stdout.subrange(0, max as int), Seq::empty())
    } else if stderr.len() > max - stdout.len() {
        (stdout, stderr.subrange(0, max - stdout.len()))
    } else {
        (stdout, stderr)
    }
}

/// Cut the captured streams to the combined limit when their counted
/// bytes exceed it (the total saturates at `u64::MAX`); returns whether the
/// combined limit was exceeded.
pub fn apply_combined_limit(stdout: &mut Vec<u8>, stderr: &mut Vec<u8>, stdout_bytes: u64, stderr_bytes: u64, max: u64) -> (r: bool)
    ensures
        r == ((if stdout_bytes + stderr_bytes > u64::MAX { u64::MAX as int } else { stdout_bytes + stderr_bytes }) > max),
        r ==> (final(stdout)@, final(stderr)@) == combined_cut(old(stdout)@, old(stderr)@, max),
        !r ==> final(stdout)@ == old(stdout)@ && final(stderr)@ == old(stderr)@,
{
    let total: u64 = if stdout_bytes > u64::MAX - stderr_bytes { u64::MAX } else { stdout_bytes + stderr_bytes };
    if total <= max {
        return false;
    }
    let out_len = stdout.len() as u64;
    if out_len >= max {
        stdout.truncate(max as usize);
        stderr.clear();
    } else {
        let keep = max - out_len;
        if (stderr.len() as u64) > keep {
            stderr.truncate(keep as usize);
        }
    }
    proof {
        let c = combined_cut(old(stdout)@, old(stderr)@, max);
        assert(stdout@ =~= c.0);
        assert(stderr@ =~= c.1);
    }
    true
}

} // verus!
