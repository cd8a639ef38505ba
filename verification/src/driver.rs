//! Live engine drivers: the decisions a DevTools-protocol capture makes on what the engine
//! sends back. Spawning the browser, the sockets and the waiting are the caller's part.
use vstd::prelude::*;
use crate::discover::{lowercase, unicode_lowercase};
use crate::json::{json_reply_fields, json_target_fields, reply_fields, target_fields, target_fields_view};
use crate::probe::Config;
use crate::text::{push_str, str_eq, trim_seq, trim_str};
use crate::webview_qa::EngineBlob;
use crate::xml_events::{lossy_string, utf8_lossy};

verus! {

/// Everything that can go wrong producing a capture.
#[derive(Debug, Clone)]
pub enum DriverError {
    /// No engine binary found on this host.
    EngineNotFound(String),
    /// The browser process could not be started.
    Spawn(String),
    /// DevTools never became reachable / no page target appeared.
    DevToolsUnavailable(String),
    /// CDP transport or protocol failure.
    Protocol(String),
    /// The probe ran but its result wasn't a usable capture.
    BadProbeResult(String),
}

pub open spec fn driver_error_text(e: DriverError) -> Seq<char> {
    match e {
        DriverError::EngineNotFound(m) => "engine not found: "@ + m@,
        DriverError::Spawn(m) => "cannot start engine: "@ + m@,
        DriverError::DevToolsUnavailable(m) => "devtools unavailable: "@ + m@,
        DriverError::Protocol(m) => "devtools protocol error: "@ + m@,
        DriverError::BadProbeResult(m) => "bad probe result: "@ + m@,
    }
}

impl DriverError {
    /// The message a user reads: what went wrong, then the detail.
    pub fn message(&self) -> (r: String)
        ensures
            r@ == driver_error_text(*self),
    {
        let (head, m) = match self {
            DriverError::EngineNotFound(m) => ("engine not found: ", m),
            DriverError::Spawn(m) => ("cannot start engine: ", m),
            DriverError::DevToolsUnavailable(m) => ("devtools unavailable: ", m),
            DriverError::Protocol(m) => ("devtools protocol error: ", m),
            DriverError::BadProbeResult(m) => ("bad probe result: ", m),
        };
        let mut r = String::new();
        push_str(&mut r, head);
        push_str(&mut r, m.as_str());
        r
    }
}

/// Captures an [`EngineBlob`] from one live engine.
pub trait WebViewDriver {
    fn capture(&self, url: &str, cfg: &Config) -> Result<EngineBlob, DriverError>;
}

/// Drives a headless Chromium (Edge) over the DevTools protocol.
#[derive(Debug, Clone)]
pub struct ChromiumDriver {
    pub exe: String,
    pub engine: String,
}

impl ChromiumDriver {
    /// A driver for the engine binary the host search `found`, labelled `chromium-edge`; an
    /// error when the host has none.
    pub fn detect(found: Option<String>) -> (r: Result<ChromiumDriver, DriverError>)
        ensures
            match found {
                Some(exe) => r matches Ok(d) && d.exe == exe && d.engine@ == "chromium-edge"@,
                None => r matches Err(DriverError::EngineNotFound(m))
                    && m@ == "no msedge/chrome/chromium binary on this host"@,
            },
    {
        match found {
            Some(exe) => Ok(ChromiumDriver { exe, engine: "chromium-edge".to_string() }),
            None => Err(DriverError::EngineNotFound("no msedge/chrome/chromium binary on this host".to_string())),
        }
    }

    /// The same driver with its captures labelled `label`.
    pub fn with_engine_label(self, label: String) -> (r: Self)
        ensures
            r.exe == self.exe,
            r.engine == label,
    {
        ChromiumDriver { exe: self.exe, engine: label }
    }
}

/// `needle` occurs in `hay` at `i`.
pub open spec fn bytes_at(hay: Seq<u8>, needle: Seq<u8>, i: int) -> bool {
    0 <= i && i + needle.len() <= hay.len() && hay.subrange(i, i + needle.len()) == needle
}

/// The first index of a non-empty `needle` in `hay`.
pub open spec fn first_occurrence(hay: Seq<u8>, needle: Seq<u8>) -> Option<int> {
    if needle.len() == 0 || hay.len() < needle.len() || !(exists|i: int| bytes_at(hay, needle, i)) {
        None
    } else {
        Some(choose|i: int| bytes_at(hay, needle, i) && forall|j: int| 0 <= j < i ==> !bytes_at(hay, needle, j))
    }
}

/// First index of `needle` in `hay` (none for an empty needle).
pub fn find_subslice(hay: &[u8], needle: &[u8]) -> (r: Option<usize>)
    ensures
        match r {
            Some(i) => bytes_at(hay@, needle@, i as int) && needle@.len() > 0 && forall|j: int|
                0 <= j < i ==> !bytes_at(hay@, needle@, j),
            None => needle@.len() == 0 || forall|j: int| !bytes_at(hay@, needle@, j),
        },
{
    if needle.len() == 0 || hay.len() < needle.len() {
        return None;
    }
    let hl = hay.len();
    let last = hl - needle.len();
    let mut i: usize = 0;
    while i <= last
        invariant
            hl == hay@.len(),
            last + needle@.len() == hay@.len(),
            needle@.len() > 0,
            forall|j: int| 0 <= j < i ==> !bytes_at(hay@, needle@, j),
        decreases last + 1 - i,
    {
        let mut k: usize = 0;
        let mut same = true;
        while k < needle.len()
            invariant
                hl == hay@.len(),
                i <= last,
                last + needle@.len() == hay@.len(),
                k <= needle@.len(),
                same == (forall|m: int| 0 <= m < k ==> hay@[i + m] == needle@[m]),
            decreases needle@.len() - k,
        {
            if hay[i + k] != needle[k] {
                same = false;
            }
            k = k + 1;
        }
        if same {
            assert(hay@.subrange(i as int, i + needle@.len()) =~= needle@);
            return Some(i);
        }
        proof {
            assert(!bytes_at(hay@, needle@, i as int)) by {
                if bytes_at(hay@, needle@, i as int) {
                    assert forall|m: int| 0 <= m < needle@.len() implies hay@[i + m] == needle@[m] by {
                        assert(hay@.subrange(i as int, i + needle@.len())[m] == hay@[i + m]);
                    }
                }
            }
        }
        i = i + 1;
    }
    None
}

pub open spec fn is_digit(c: char) -> bool {
    '0' <= c && c <= '9'
}

/// The value of a run of decimal digits.
pub open spec fn digits_value(s: Seq<char>) -> nat
    decreases s.len(),
{
    if s.len() == 0 {
        0
    } else {
        digits_value(s.drop_last()) * 10 + ((s.last() as u32) - ('0' as u32)) as nat
    }
}

/// What `str::parse::<usize>` accepts: an optional `+`, then one or more decimal digits, whose
/// value fits in `usize`.
pub open spec fn usize_value(s: Seq<char>) -> Option<nat> {
    let d = unsigned_part(s);
    if d.len() > 0 && all_digits(d) && digits_value(d) <= usize::MAX {
        Some(digits_value(d))
    } else {
        None
    }
}

/// `s` without a leading `+`.
pub open spec fn unsigned_part(s: Seq<char>) -> Seq<char> {
    if s.len() > 0 && s[0] == '+' {
        s.drop_first()
    } else {
        s
    }
}

pub open spec fn all_digits(d: Seq<char>) -> bool {
    forall|i: int| 0 <= i < d.len() ==> is_digit(#[trigger] d[i])
}

proof fn lemma_digits_value_grows(s: Seq<char>, c: char)
    requires
        is_digit(c),
    ensures
        digits_value(s.push(c)) >= digits_value(s),
        digits_value(s.push(c)) == digits_value(s) * 10 + ((c as u32) - ('0' as u32)) as nat,
{
    assert(s.push(c).drop_last() =~= s);
}

proof fn lemma_digits_value_prefix(s: Seq<char>, k: int)
    requires
        0 <= k <= s.len(),
        forall|i: int| 0 <= i < s.len() ==> is_digit(#[trigger] s[i]),
    ensures
        digits_value(s.take(k)) <= digits_value(s),
    decreases s.len() - k,
{
    if k < s.len() {
        lemma_digits_value_prefix(s, k + 1);
        assert(s.take(k + 1).drop_last() =~= s.take(k));
    } else {
        assert(s.take(k) =~= s);
    }
}

/// `str::parse::<usize>`.
fn parse_usize(s: &str) -> (r: Option<usize>)
    ensures
        match r {
            Some(n) => usize_value(s@) == Some(n as nat),
            None => usize_value(s@) is None,
        },
{
    let v = crate::text::chars_of(s);
    let start: usize = if v.len() > 0 && v[0] == '+' { 1 } else { 0 };
    let ghost d = unsigned_part(s@);
    assert(d =~= v@.skip(start as int));
    if start >= v.len() {
        return None;
    }
    let mut n: usize = 0;
    let mut i = start;
    while i < v.len()
        invariant
            v@ == s@,
            d == v@.skip(start as int),
            d == unsigned_part(s@),
            start <= i <= v@.len(),
            forall|k: int| start <= k < i ==> is_digit(#[trigger] v@[k]),
            n as nat == digits_value(v@.subrange(start as int, i as int)),
        decreases v@.len() - i,
    {
        let c = v[i];
        assert(v@.subrange(start as int, i + 1) =~= v@.subrange(start as int, i as int).push(c));
        if !('0' <= c && c <= '9') {
            assert(d[i - start] == c);
            assert(!is_digit(d[i - start]));
            return None;
        }
        let digit = (c as u32 - '0' as u32) as usize;
        proof {
            lemma_digits_value_grows(v@.subrange(start as int, i as int), c);
        }
        match n.checked_mul(10) {
            None => {
                proof {
                    if all_digits(d) {
                        lemma_digits_value_prefix(d, i - start + 1);
                        assert(d.take(i - start + 1) =~= v@.subrange(start as int, i + 1));
                    }
                }
                return None;
            },
            Some(m) => match m.checked_add(digit) {
                None => {
                    proof {
                        if all_digits(d) {
                            lemma_digits_value_prefix(d, i - start + 1);
                            assert(d.take(i - start + 1) =~= v@.subrange(start as int, i + 1));
                        }
                    }
                    return None;
                },
                Some(t) => {
                    n = t;
                },
            },
        }
        i = i + 1;
    }
    assert(v@.subrange(start as int, v@.len() as int) =~= d);
    Some(n)
}

/// A header line's `content-length:` value, when the line has that prefix and the rest,
/// trimmed, parses as a `usize`.
pub open spec fn length_value(line: Seq<char>) -> Option<nat> {
    if "content-length:"@.is_prefix_of(line) {
        usize_value(trim_seq(line.skip(15)))
    } else {
        None
    }
}

/// The first `content-length:` value among the lines of `s` (split as `str::lines` splits:
/// at `\n`, dropping a `\r` before it).
pub open spec fn length_from(s: Seq<char>) -> Option<nat>
    decreases s.len(),
{
    if s.len() == 0 {
        None
    } else {
        let k = crate::text::first_char(s, '\n') as int;
        let raw = s.take(k);
        let line = if k < s.len() && raw.len() > 0 && raw.last() == '\r' { raw.drop_last() } else { raw };
        match length_value(line) {
            Some(n) => Some(n),
            None => if k >= s.len() {
                None
            } else {
                proof {
                    lemma_first_char_le(s, '\n');
                }
                length_from(s.skip(k + 1))
            },
        }
    }
}

pub proof fn lemma_first_char_le(s: Seq<char>, c: char)
    ensures
        crate::text::first_char(s, c) <= s.len(),
    decreases s.len(),
{
    if s.len() > 0 && s[0] != c {
        lemma_first_char_le(s.drop_first(), c);
    }
}

fn line_length_value(line: &Vec<char>, from: usize, to: usize) -> (r: Option<usize>)
    requires
        from <= to <= line@.len(),
    ensures
        match r {
            Some(n) => length_value(line@.subrange(from as int, to as int)) == Some(n as nat),
            None => length_value(line@.subrange(from as int, to as int)) is None,
        },
{
    let l = crate::text::string_from_range(line, from, to);
    if !crate::text::str_starts_with(l.as_str(), "content-length:") {
        return None;
    }
    proof {
        reveal_strlit("content-length:");
    }
    let v = crate::text::chars_of(l.as_str());
    let rest = crate::text::string_from_range(&v, 15, v.len());
    assert(rest@ =~= l@.skip(15));
    let t = trim_str(rest.as_str());
    parse_usize(t.as_str())
}

/// The first `content-length:` value among the lines of the (lowercased) header text.
fn content_length(headers: &str) -> (r: Option<usize>)
    ensures
        match r {
            Some(n) => length_from(headers@) == Some(n as nat),
            None => length_from(headers@) is None,
        },
{
    let v = crate::text::chars_of(headers);
    let mut i: usize = 0;
    assert(v@.skip(0) =~= v@);
    while i < v.len()
        invariant
            v@ == headers@,
            i <= v@.len(),
            length_from(headers@) == length_from(v@.skip(i as int)),
        decreases v@.len() - i,
    {
        let ghost s = v@.skip(i as int);
        let e = crate::text::next_char(&v, i, '\n');
        let k = e - i;
        let mut to = e;
        if e < v.len() && e > i && v[e - 1] == '\r' {
            to = e - 1;
        }
        proof {
            assert(s.take(k as int) =~= v@.subrange(i as int, e as int));
            if e < v.len() && e > i && v@[e - 1] == '\r' {
                assert(s.take(k as int).drop_last() =~= v@.subrange(i as int, to as int));
            }
        }
        match line_length_value(&v, i, to) {
            Some(n) => {
                return Some(n);
            },
            None => {
                if e >= v.len() {
                    return None;
                }
                assert(s.skip(k + 1) =~= v@.skip(e + 1));
                i = e + 1;
            },
        }
    }
    assert(v@.skip(i as int) =~= Seq::<char>::empty());
    None
}

/// What reading a DevTools HTTP reply yields once `buf` holds what has arrived (`closed` when
/// the server closed the connection): the body of `content-length` bytes after the header
/// terminator once that many have arrived; at close, whatever follows the terminator, or an
/// error when there is none; otherwise nothing yet.
pub open spec fn http_framing(buf: Seq<u8>, closed: bool) -> Option<Result<Seq<char>, Seq<char>>> {
    let sep = seq![13u8, 10u8, 13u8, 10u8];
    match first_occurrence(buf, sep) {
        Some(pos) => {
            let he = pos + 4;
            let cl = length_from(unicode_lowercase(utf8_lossy(buf.take(pos))));
            if cl is Some && buf.len() >= he + cl->0 {
                Some(Ok(utf8_lossy(buf.subrange(he, he + cl->0))))
            } else if !closed {
                None
            } else {
                Some(Ok(utf8_lossy(buf.skip(he))))
            }
        },
        None => if !closed {
            None
        } else {
            Some(Err("malformed response (no header terminator)"@))
        },
    }
}

proof fn lemma_first_occurrence(hay: Seq<u8>, needle: Seq<u8>, i: int)
    requires
        needle.len() > 0,
        bytes_at(hay, needle, i),
        forall|j: int| 0 <= j < i ==> !bytes_at(hay, needle, j),
    ensures
        first_occurrence(hay, needle) == Some(i),
{
    let c = choose|c: int| bytes_at(hay, needle, c) && forall|j: int| 0 <= j < c ==> !bytes_at(hay, needle, j);
    assert(bytes_at(hay, needle, c));
    if c < i {
        assert(!bytes_at(hay, needle, c));
    }
    if i < c {
        assert(!bytes_at(hay, needle, i));
    }
}

/// Decides a DevTools HTTP reply from the bytes that have arrived: the body once complete, an
/// error when the connection closed without a header terminator, or `None` to read on.
pub fn http_body(buf: &[u8], closed: bool) -> (r: Option<Result<String, DriverError>>)
    ensures
        match r {
            None => http_framing(buf@, closed) is None,
            Some(Ok(b)) => http_framing(buf@, closed) == Some(Ok::<Seq<char>, Seq<char>>(b@)),
            Some(Err(DriverError::DevToolsUnavailable(m))) => http_framing(buf@, closed) == Some(
                Err::<Seq<char>, Seq<char>>(m@),
            ),
            Some(Err(_)) => false,
        },
{
    let sep: [u8; 4] = [13, 10, 13, 10];
    let ghost sv = seq![13u8, 10u8, 13u8, 10u8];
    assert(sep@ =~= sv);
    match find_subslice(buf, &sep) {
        Some(pos) => {
            proof {
                lemma_first_occurrence(buf@, sv, pos as int);
            }
            let bl = buf.len();
            assert(bl == buf@.len() && pos + 4 <= buf@.len());
            let he = pos + 4;
            let head = lossy_string(&buf[0..pos]);
            let lower = lowercase(head.as_str());
            let cl = content_length(lower.as_str());
            assert(buf@.take(pos as int) =~= buf@.subrange(0, pos as int));
            if let Some(n) = cl {
                if buf.len() >= he && buf.len() - he >= n {
                    let body = lossy_string(&buf[he..he + n]);
                    return Some(Ok(body));
                }
            }
            if !closed {
                return None;
            }
            let body = lossy_string(&buf[he..buf.len()]);
            assert(buf@.subrange(he as int, buf@.len() as int) =~= buf@.skip(he as int));
            Some(Ok(body))
        },
        None => {
            proof {
                if first_occurrence(buf@, sv) is Some {
                    let c = first_occurrence(buf@, sv)->0;
                    assert(bytes_at(buf@, sv, c));
                }
            }
            if !closed {
                return None;
            }
            Some(Err(DriverError::DevToolsUnavailable("malformed response (no header terminator)".to_string())))
        },
    }
}

/// The WebSocket debugger URL of the first page target in `fields` (each target's `type` and
/// `webSocketDebuggerUrl`).
pub open spec fn first_page(fields: Seq<(Option<Seq<char>>, Option<Seq<char>>)>, i: int) -> Option<Seq<char>>
    decreases fields.len() - i,
{
    if i < 0 || i >= fields.len() {
        None
    } else if fields[i].0 == Some("page"@) && fields[i].1 is Some {
        fields[i].1
    } else {
        first_page(fields, i + 1)
    }
}

/// What one `/json/list` reply says: the first page target's debugger URL, or why there is
/// none yet (the text is not JSON, or no page target is listed).
pub open spec fn page_target_of(body: Seq<char>) -> Result<Seq<char>, Seq<char>> {
    match json_target_fields(body) {
        Err(m) => Err("bad json: "@ + m),
        Ok(None) => Err("no page target yet"@),
        Ok(Some(fields)) => match first_page(fields, 0) {
            Some(ws) => Ok(ws),
            None => Err("no page target yet"@),
        },
    }
}

/// Reads one `/json/list` reply: the first page target's debugger URL, or the reason to keep
/// polling.
pub fn page_target(body: &str) -> (r: Result<String, String>)
    ensures
        match r {
            Ok(ws) => page_target_of(body@) == Ok::<Seq<char>, Seq<char>>(ws@),
            Err(m) => page_target_of(body@) == Err::<Seq<char>, Seq<char>>(m@),
        },
{
    match target_fields(body) {
        Err(m) => {
            let mut e = String::new();
            push_str(&mut e, "bad json: ");
            push_str(&mut e, m.as_str());
            Err(e)
        },
        Ok(None) => Err("no page target yet".to_string()),
        Ok(Some(list)) => {
            let ghost fs = target_fields_view(list@);
            let mut i: usize = 0;
            while i < list.len()
                invariant
                    fs == target_fields_view(list@),
                    json_target_fields(body@) == Ok::<
                        Option<Seq<(Option<Seq<char>>, Option<Seq<char>>)>>,
                        Seq<char>,
                    >(Some(fs)),
                    i <= list@.len(),
                    first_page(fs, i as int) == first_page(fs, 0),
                decreases list@.len() - i,
            {
                let (t, ws) = &list[i];
                let is_page = match t {
                    Some(t) => str_eq(t.as_str(), "page"),
                    None => false,
                };
                assert(fs[i as int] == (crate::json::opt_text_view(*t), crate::json::opt_text_view(*ws)));
                if is_page {
                    if let Some(w) = ws {
                        assert(first_page(fs, i as int) == Some(w@));
                        return Ok(w.clone());
                    }
                }
                i = i + 1;
            }
            Err("no page target yet".to_string())
        },
    }
}

/// The error when no page target appeared in time, with the last reason seen.
pub fn page_wait_timeout(last: &str) -> (e: DriverError)
    ensures
        e matches DriverError::DevToolsUnavailable(m) && m@ == "timed out waiting for a page target ("@
            + last@ + ")"@,
{
    let mut m = String::new();
    push_str(&mut m, "timed out waiting for a page target (");
    push_str(&mut m, last);
    push_str(&mut m, ")");
    DriverError::DevToolsUnavailable(m)
}

/// What a capture does with one text frame from the DevTools socket.
#[derive(Debug, Clone)]
pub enum ReplyOutcome {
    /// Not the reply to the probe (an event, or not JSON): keep reading.
    Skip,
    /// The reply reports a failure.
    Failed(DriverError),
    /// The probe's result: the JSON text of the capture.
    Probe(String),
}

/// What one text frame means for the probe evaluation (request id 1).
pub open spec fn reply_meaning(text: Seq<char>) -> Option<Result<Seq<char>, (bool, Seq<char>)>> {
    match json_reply_fields(text) {
        None => None,
        Some((id, err, value)) => if id != Some(1u64) {
            None
        } else {
            match err {
                Some(e) => Some(Err((true, e))),
                None => match value {
                    Some(v) => Some(Ok(v)),
                    None => Some(Err((false, "no string result in "@ + text))),
                },
            }
        },
    }
}

/// Classifies one text frame: anything but the reply to the probe (id 1) is skipped; a reply
/// with an `error` is a protocol failure; a reply without a string result is a bad probe
/// result; otherwise the result is the capture's JSON.
pub fn reply_outcome(text: &str) -> (r: ReplyOutcome)
    ensures
        match r {
            ReplyOutcome::Skip => reply_meaning(text@) is None,
            ReplyOutcome::Failed(DriverError::Protocol(m)) => reply_meaning(text@) == Some(
                Err::<Seq<char>, (bool, Seq<char>)>((true, m@)),
            ),
            ReplyOutcome::Failed(DriverError::BadProbeResult(m)) => reply_meaning(text@) == Some(
                Err::<Seq<char>, (bool, Seq<char>)>((false, m@)),
            ),
            ReplyOutcome::Failed(_) => false,
            ReplyOutcome::Probe(v) => reply_meaning(text@) == Some(Ok::<Seq<char>, (bool, Seq<char>)>(v@)),
        },
{
    match reply_fields(text) {
        None => ReplyOutcome::Skip,
        Some((id, err, value)) => {
            if id != Some(1u64) {
                return ReplyOutcome::Skip;
            }
            match err {
                Some(e) => ReplyOutcome::Failed(DriverError::Protocol(e)),
                None => match value {
                    Some(v) => ReplyOutcome::Probe(v),
                    None => {
                        let mut m = String::new();
                        push_str(&mut m, "no string result in ");
                        push_str(&mut m, text);
                        ReplyOutcome::Failed(DriverError::BadProbeResult(m))
                    },
                },
            }
        },
    }
}

} // verus!
