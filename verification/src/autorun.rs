//! Decisions of the unattended runner: classifying agent failures, reading
//! the operator's result line, retry schedules and message formatting.

use vstd::prelude::*;
use vstd::arithmetic::power2::{lemma2_to64, lemma_pow2_strictly_increases, pow2};
use crate::text::{decimal, find_sub, has_sub, is_ws, occurs_at, rfind_sub, str_contains, u64_to_decimal};

verus! {

/// Status an agent reports on its last output line.
#[derive(Debug, Clone, Copy, PartialEq, Eq, Structural)]
pub enum OperatorStatus {
    Completed,
    ProjectDone,
    NeedsInput,
    Error,
}

impl OperatorStatus {
    /// Snake-case name, as the agent writes it.
    pub fn name(&self) -> (r: &'static str)
        ensures
            r@ == match self {
                OperatorStatus::Completed => "completed"@,
                OperatorStatus::ProjectDone => "project_done"@,
                OperatorStatus::NeedsInput => "needs_input"@,
                OperatorStatus::Error => "error"@,
            },
    {
        match self {
            OperatorStatus::Completed => "completed",
            OperatorStatus::ProjectDone => "project_done",
            OperatorStatus::NeedsInput => "needs_input",
            OperatorStatus::Error => "error",
        }
    }
}

/// The operator result an agent ends its output with.
#[derive(Debug)]
pub struct OperatorResult {
    pub status: OperatorStatus,
    pub message: String,
}

/// Token usage reported by the agent.
#[derive(Debug, Default)]
pub struct ClaudeUsage {
    pub input_tokens: u64,
    pub output_tokens: u64,
    pub cache_creation_input_tokens: u64,
    pub cache_read_input_tokens: u64,
    pub speed: String,
}

/// Where a run stands, for crash recovery.
#[derive(Debug, Clone, Copy, PartialEq, Eq, Structural)]
pub enum AutorunPhase {
    Running,
    PendingInput,
}

/// A message handed to a waiting run.
#[derive(Debug)]
pub enum InboxMessage {
    /// The user's reply to a pending question.
    Reply { text: String },
    /// Kill command received.
    Kill,
    /// Query or stats request received.
    Query,
}

/// What waiting for a chat reply produced.
#[derive(Debug)]
pub enum TelegramPollResult {
    /// A reply to the expected message.
    Reply(String),
    /// A kill command for this project.
    Kill,
}

/// Lower-case form of a string, as `str::to_lowercase` computes it.
pub uninterp spec fn lowercase(s: Seq<char>) -> Seq<char>;

/// Wraps `str::to_lowercase`. Its Unicode case mapping is named, not written
/// out: the result depends on the characters of `s` alone.
#[verifier::external_body]
fn to_lowercase(s: &str) -> (r: String)
    ensures
        r@ == lowercase(s@),
{
    s.to_lowercase()
}

/// Error text that signals an expired or rejected login.
pub open spec fn auth_error_text(lower: Seq<char>) -> bool {
    has_sub(lower, "authentication_error"@) || has_sub(lower, "oauth token has expired"@) || (has_sub(
        lower,
        "401"@,
    ) && (has_sub(lower, "token"@) || has_sub(lower, "auth"@)))
}

/// Error text that signals a transient failure worth retrying.
pub open spec fn retryable_text(lower: Seq<char>) -> bool {
    has_sub(lower, "rate limit"@) || has_sub(lower, "overloaded"@) || has_sub(lower, "connection"@)
        || has_sub(lower, "timeout"@)
}

/// Whether an agent's stderr reports an expired OAuth token or an
/// authentication failure (compared case-insensitively).
pub fn is_auth_error(stderr: &str) -> (r: bool)
    ensures
        r == auth_error_text(lowercase(stderr@)),
{
    let lower = to_lowercase(stderr);
    let l = lower.as_str();
    str_contains(l, "authentication_error") || str_contains(l, "oauth token has expired") || (str_contains(
        l,
        "401",
    ) && (str_contains(l, "token") || str_contains(l, "auth")))
}

/// Whether an agent's stderr reports a rate limit, an overload, a connection
/// failure or a timeout (compared case-insensitively).
pub fn is_retryable(stderr: &str) -> (r: bool)
    ensures
        r == retryable_text(lowercase(stderr@)),
{
    let lower = to_lowercase(stderr);
    let l = lower.as_str();
    str_contains(l, "rate limit") || str_contains(l, "overloaded") || str_contains(l, "connection")
        || str_contains(l, "timeout")
}

/// HTML escape of one character.
pub open spec fn escape_char(c: char) -> Seq<char> {
    if c == '&' {
        "&amp;"@
    } else if c == '<' {
        "&lt;"@
    } else if c == '>' {
        "&gt;"@
    } else {
        seq![c]
    }
}

/// `s` with `&`, `<` and `>` replaced by their HTML entities.
pub open spec fn html_escaped(s: Seq<char>) -> Seq<char>
    decreases s.len(),
{
    if s.len() == 0 {
        seq![]
    } else {
        html_escaped(s.drop_last()) + escape_char(s.last())
    }
}

/// Escape the HTML special characters `&`, `<` and `>` for chat messages.
pub fn escape_html(s: &str) -> (r: String)
    ensures
        r@ == html_escaped(s@),
{
    let n = s.unicode_len();
    let mut out = String::new();
    let mut i: usize = 0;
    assert(s@.take(0) =~= Seq::<char>::empty());
    while i < n
        invariant
            n == s@.len(),
            i <= n,
            out@ == html_escaped(s@.take(i as int)),
        decreases n - i,
    {
        proof { reveal_strlit("&amp;"); reveal_strlit("&lt;"); reveal_strlit("&gt;"); }
        assert(s@.take(i + 1).drop_last() =~= s@.take(i as int));
        let c = s.get_char(i);
        assert(s@.take(i + 1).last() == c);
        if c == '&' {
            out = out.concat("&amp;");
        } else if c == '<' {
            out = out.concat("&lt;");
        } else if c == '>' {
            out = out.concat("&gt;");
        } else {
            let one = s.substring_char(i, i + 1);
            assert(one@ =~= seq![c]);
            out = out.concat(one);
        }
        assert(out@ =~= html_escaped(s@.take(i + 1)));
        i += 1;
    }
    assert(s@.take(n as int) =~= s@);
    out
}

/// The state of a scan over JSON text: the depth of braces, whether the
/// scan is inside a string, and whether the last character there was an
/// escaping backslash.
pub open spec fn scan_step(st: (int, bool, bool), c: char) -> (int, bool, bool) {
    if st.2 {
        (st.0, st.1, false)
    } else if st.1 {
        if c == '\\' {
            (st.0, true, true)
        } else if c == '"' {
            (st.0, false, false)
        } else {
            st
        }
    } else if c == '"' {
        (st.0, true, false)
    } else if c == '{' {
        (st.0 + 1, false, false)
    } else if c == '}' {
        (st.0 - 1, false, false)
    } else {
        st
    }
}

/// The scan state after the characters of `s`, from depth 0 outside any
/// string: braces inside strings do not count.
pub open spec fn json_scan(s: Seq<char>) -> (int, bool, bool)
    decreases s.len(),
{
    if s.len() == 0 {
        (0, false, false)
    } else {
        scan_step(json_scan(s.drop_last()), s.last())
    }
}

/// Index of the first `}` outside strings that brings the depth back to
/// zero.
pub open spec fn closing_brace(s: Seq<char>) -> Option<int>
    decreases s.len(),
{
    if s.len() == 0 {
        None
    } else {
        match closing_brace(s.drop_last()) {
            Some(i) => Some(i),
            None => if s.last() == '}' && !json_scan(s.drop_last()).1 && json_scan(s).0 == 0 {
                Some(s.len() - 1)
            } else {
                None
            },
        }
    }
}

/// The marker that opens an operator result.
pub open spec fn status_marker() -> Seq<char> {
    "{\"status\":"@
}

/// The JSON text of the operator result in an agent's output: from the last
/// `{"status":` to the brace that closes it (braces inside strings, with
/// their escapes, do not count), or the message of the failure.
pub open spec fn operator_json_spec(text: Seq<char>) -> Result<Seq<char>, Seq<char>> {
    if !has_sub(text, status_marker()) {
        Err("no operator result JSON found in agent output (missing {\"status\":)"@)
    } else {
        let pos = choose|p: int| occurs_at(text, status_marker(), p) && forall|j: int| p < j ==> !occurs_at(text, status_marker(), j);
        let from = text.skip(pos);
        match closing_brace(from) {
            Some(e) => Ok(from.take(e + 1)),
            None => Err("no matching closing brace for operator result JSON"@),
        }
    }
}

proof fn lemma_closing_prefix(s: Seq<char>, k: int)
    requires
        0 <= k <= s.len(),
        closing_brace(s.take(k)) is Some,
    ensures
        closing_brace(s) == closing_brace(s.take(k)),
    decreases s.len(),
{
    if k == s.len() {
        assert(s.take(k) =~= s);
    } else {
        assert(s.drop_last().take(k) =~= s.take(k));
        lemma_closing_prefix(s.drop_last(), k);
    }
}

proof fn lemma_closing_valid(s: Seq<char>)
    ensures
        closing_brace(s) matches Some(e) ==> 0 <= e < s.len(),
    decreases s.len(),
{
    if s.len() > 0 {
        lemma_closing_valid(s.drop_last());
    }
}

/// Cut the operator result JSON out of an agent's output: the text from the
/// last `{"status":` up to the `}` that closes its opening brace, skipping
/// braces inside JSON strings.
pub fn operator_json(result_text: &str) -> (r: Result<String, String>)
    ensures
        match operator_json_spec(result_text@) {
            Ok(j) => r matches Ok(x) && x@ == j,
            Err(m) => r matches Err(x) && x@ == m,
        },
{
    proof {
        reveal_strlit("{\"status\":");
        reveal_strlit("no operator result JSON found in agent output (missing {\"status\":)");
        reveal_strlit("no matching closing brace for operator result JSON");
    }
    let pos = match rfind_sub(result_text, "{\"status\":") {
        Some(p) => p,
        None => {
            return Err("no operator result JSON found in agent output (missing {\"status\":)".to_owned());
        },
    };
    let ghost text = result_text@;
    let ghost chosen = choose|p: int| occurs_at(text, status_marker(), p) && forall|j: int| p < j ==> !occurs_at(text, status_marker(), j);
    assert(chosen == pos as int) by {
        if chosen < pos {
        } else if chosen > pos {
        }
    }
    let n = result_text.unicode_len();
    let from = result_text.substring_char(pos, n);
    assert(from@ =~= text.skip(pos as int));
    assert(text.subrange(pos as int, pos + 10)[0] == '{');
    let ghost fv = from@;
    assert(operator_json_spec(text) == match closing_brace(fv) {
        Some(e) => Ok(fv.take(e + 1)),
        None => Err("no matching closing brace for operator result JSON"@),
    });
    let m = from.unicode_len();
    let mut depth: usize = 0;
    let mut in_str = false;
    let mut esc = false;
    let mut i: usize = 0;
    assert(fv.take(0) =~= Seq::<char>::empty());
    while i < m
        invariant
            m == fv.len(),
            fv == from@,
            i <= m,
            (depth as int, in_str, esc) == json_scan(fv.take(i as int)),
            esc ==> in_str,
            closing_brace(fv.take(i as int)) is None,
            depth <= i,
            i > 0 ==> depth >= 1,
            m > 0 ==> fv[0] == '{',
            text == result_text@,
            operator_json_spec(text) == match closing_brace(fv) {
                Some(e) => Ok(fv.take(e + 1)),
                None => Err("no matching closing brace for operator result JSON"@),
            },
        decreases m - i,
    {
        let c = from.get_char(i);
        assert(fv.take(i + 1).drop_last() =~= fv.take(i as int));
        assert(fv.take(i + 1).last() == c);
        if esc {
            esc = false;
        } else if in_str {
            if c == '\\' {
                esc = true;
            } else if c == '"' {
                in_str = false;
            }
        } else if c == '"' {
            in_str = true;
        } else if c == '{' {
            depth += 1;
        } else if c == '}' {
            if depth == 1 {
                assert(closing_brace(fv.take(i + 1)) == Some(i as int));
                proof { lemma_closing_prefix(fv, i + 1); }
                let json = from.substring_char(0, i + 1);
                assert(json@ =~= fv.take(i + 1));
                return Ok(json.to_owned());
            }
            depth -= 1;
        }
        i += 1;
    }
    assert(fv.take(m as int) =~= fv);
    Err("no matching closing brace for operator result JSON".to_owned())
}


/// Where the operator result JSON stands in an agent's output: from the
/// last `{"status":` to the brace that closes it, braces inside strings not
/// counting; `None` when there is no marker or no closing brace. The text
/// between the two places is what `operator_json` returns.
pub fn operator_result_span(text: &str) -> (r: Option<(usize, usize)>)
    ensures
        match operator_json_spec(text@) {
            Ok(j) => r matches Some((a, b)) && a <= b <= text@.len() && text@.subrange(a as int, b as int) == j
                && occurs_at(text@, status_marker(), a as int) && forall|k: int|
                a < k ==> !occurs_at(text@, status_marker(), k),
            Err(_) => r is None,
        },
{
    proof { reveal_strlit("{\"status\":"); }
    let pos = match rfind_sub(text, "{\"status\":") {
        Some(p) => p,
        None => {
            return None;
        },
    };
    let ghost tv = text@;
    let ghost chosen = choose|p: int| occurs_at(tv, status_marker(), p) && forall|j: int| p < j ==> !occurs_at(tv, status_marker(), j);
    assert(chosen == pos as int) by {
        if chosen < pos {
        } else if chosen > pos {
        }
    }
    match operator_json(text) {
        Ok(json) => {
            let ghost fv = tv.skip(pos as int);
            proof {
                lemma_closing_valid(fv);
                assert(fv == tv.skip(chosen));
                match closing_brace(fv) {
                    Some(c) => {
                        assert(json@ == fv.take(c + 1));
                        assert(json@.len() <= fv.len());
                    },
                    None => {
                        assert(operator_json_spec(tv) is Err);
                    },
                }
            }
            let e = json.unicode_len();
            let n = text.unicode_len();
            assert(pos + e <= n);
            assert(text@.subrange(pos as int, pos + e) =~= fv.take(e as int));
            Some((pos, pos + e))
        },
        Err(_) => None,
    }
}

/// `base * 2^(attempt - 1)` seconds (`attempt` 0 counts as 1), capped at `cap`.
pub open spec fn capped_backoff(base: int, cap: int, attempt: u32) -> int {
    let k: nat = if attempt == 0 { 0 } else { (attempt - 1) as nat };
    if base * pow2(k) < cap { base * pow2(k) } else { cap }
}

/// `base * 2^(attempt-1)`, capped at `cap`, where `base * 16 >= cap`.
fn capped_doubling(base: u64, cap: u64, attempt: u32) -> (r: u64)
    requires
        base <= 1000,
        cap <= base * 16,
    ensures
        r == capped_backoff(base as int, cap as int, attempt),
{
    let k: u32 = if attempt == 0 { 0 } else { attempt - 1 };
    proof { lemma2_to64(); }
    if k >= 4 {
        proof {
            if k > 4 {
                lemma_pow2_strictly_increases(4, k as nat);
            }
            assert(base * pow2(k as nat) >= base * 16) by (nonlinear_arith)
                requires
                    pow2(k as nat) >= 16,
            ;
        }
        return cap;
    }
    let p: u64 = if k == 0 { 1 } else if k == 1 { 2 } else if k == 2 { 4 } else { 8 };
    assert(p == pow2(k as nat));
    let v = base * p;
    if v < cap { v } else { cap }
}

/// Retry delay in seconds after a failed agent run: 30 * 2^(attempt-1),
/// capped at 480.
pub fn retry_delay(attempt: u32) -> (r: u64)
    ensures
        r == capped_backoff(30, 480, attempt),
{
    capped_doubling(30, 480, attempt)
}

/// Backoff in seconds between failed chat polls: 10 * 2^(attempt-1), capped
/// at 80.
pub fn backoff_delay(attempt: u32) -> (r: u64)
    ensures
        r == capped_backoff(10, 80, attempt),
{
    capped_doubling(10, 80, attempt)
}

/// The item tag of a chat message: `"  ·  <code>item</code>"` with the item
/// escaped, or nothing for an empty item.
pub fn item_tag(item: &str) -> (r: String)
    ensures
        item@.len() == 0 ==> r@ == Seq::<char>::empty(),
        item@.len() > 0 ==> r@ == "  ·  <code>"@ + html_escaped(item@) + "</code>"@,
{
    if item.unicode_len() == 0 {
        String::new()
    } else {
        "  ·  <code>".to_owned().concat(escape_html(item).as_str()).concat("</code>")
    }
}

/// A character that ends a URL in free text.
pub open spec fn url_end(c: char) -> bool {
    is_ws(c) || c == '"' || c == '\'' || c == '>' || c == '<'
}

/// Index of the first URL-ending character, or the length when none.
pub open spec fn url_len(s: Seq<char>) -> int
    decreases s.len(),
{
    if s.len() == 0 {
        0
    } else if url_len(s.drop_last()) < s.len() - 1 {
        url_len(s.drop_last())
    } else if url_end(s.last()) {
        s.len() - 1
    } else {
        s.len() as int
    }
}

proof fn lemma_url_len_bound(s: Seq<char>)
    ensures
        0 <= url_len(s) <= s.len(),
    decreases s.len(),
{
    if s.len() > 0 {
        lemma_url_len_bound(s.drop_last());
    }
}

proof fn lemma_url_len_prefix(s: Seq<char>, k: int)
    requires
        0 <= k <= s.len(),
        url_len(s.take(k)) < k,
    ensures
        url_len(s) == url_len(s.take(k)),
    decreases s.len(),
{
    if k == s.len() {
        assert(s.take(k) =~= s);
    } else {
        assert(s.drop_last().take(k) =~= s.take(k));
        lemma_url_len_prefix(s.drop_last(), k);
        lemma_url_len_bound(s.drop_last());
    }
}

/// The first `https://` URL in `text`, up to the first whitespace, quote or
/// angle bracket.
pub fn extract_url(text: &str) -> (r: Option<String>)
    ensures
        match r {
            Some(u) => exists|i: int| {
                &&& occurs_at(text@, "https://"@, i)
                &&& forall|j: int| 0 <= j < i ==> !occurs_at(text@, "https://"@, j)
                &&& u@ == text@.skip(i).take(url_len(text@.skip(i)))
            },
            None => !has_sub(text@, "https://"@),
        },
{
    let start = match find_sub(text, "https://") {
        Some(i) => i,
        None => {
            return None;
        },
    };
    let n = text.unicode_len();
    let rest = text.substring_char(start, n);
    assert(rest@ =~= text@.skip(start as int));
    let ghost rv = rest@;
    let m = rest.unicode_len();
    let mut k: usize = 0;
    assert(rv.take(0) =~= Seq::<char>::empty());
    while k < m
        invariant
            m == rv.len(),
            rv == rest@,
            rv == text@.skip(start as int),
            occurs_at(text@, "https://"@, start as int),
            forall|j: int| 0 <= j < start ==> !occurs_at(text@, "https://"@, j),
            k <= m,
            url_len(rv.take(k as int)) == k,
        decreases m - k,
    {
        assert(rv.take(k + 1).drop_last() =~= rv.take(k as int));
        let c = rest.get_char(k);
        assert(rv.take(k + 1).last() == c);
        let u = c as u32;
        let ws = (0x09 <= u && u <= 0x0d) || u == 0x20 || u == 0x85 || u == 0xa0 || u == 0x1680 || (0x2000
            <= u && u <= 0x200a) || u == 0x2028 || u == 0x2029 || u == 0x202f || u == 0x205f || u
            == 0x3000;
        if ws || c == '"' || c == '\'' || c == '>' || c == '<' {
            assert(url_len(rv.take(k + 1)) == k);
            proof { lemma_url_len_prefix(rv, k as int + 1); }
            let u = rest.substring_char(0, k).to_owned();
            assert(u@ =~= text@.skip(start as int).take(url_len(text@.skip(start as int))));
            return Some(u);
        }
        k += 1;
    }
    assert(rv.take(m as int) =~= rv);
    Some(rest.to_owned())
}

/// `"Mm Ss"` for at least a minute, else `"Ss"`, from milliseconds.
pub open spec fn duration_text(ms: nat) -> Seq<char> {
    let secs = ms / 1000;
    let mins = secs / 60;
    if mins > 0 {
        decimal(mins) + "m "@ + decimal(secs % 60) + "s"@
    } else {
        decimal(secs) + "s"@
    }
}

/// Format a duration in milliseconds as minutes and seconds.
pub fn format_duration_ms(ms: u64) -> (r: String)
    ensures
        r@ == duration_text(ms as nat),
{
    let secs = ms / 1000;
    let mins = secs / 60;
    let remaining_secs = secs % 60;
    if mins > 0 {
        u64_to_decimal(mins).concat("m ").concat(u64_to_decimal(remaining_secs).as_str()).concat("s")
    } else {
        u64_to_decimal(secs).concat("s")
    }
}

} // verus!
