//! The line protocol between this host and the `dsh web` process it starts:
//! where its output announces the local port, how output lines are bounded,
//! and how bridge responses are queued, matched and accepted.
use vstd::prelude::*;
use crate::text;

verus! {

pub const MAX_LOG_LINE: usize = 16384;

pub const MAX_BRIDGE_LINE: usize = 65536;

pub const SENTINEL: &'static str = "@@DSH_DESKTOP@@";

pub const PROTOCOL_VERSION: u32 = 1;

pub const BRIDGE_PATCH_FILE: &'static str = "desktop-bridge.patch.yml";

/// The most log lines kept.
pub const MAX_LOG_LINES: usize = 256;

/// The most unclaimed bridge responses kept.
pub const MAX_PENDING_RESPONSES: usize = 64;

/// What the bridge reports of the Harness's work.
#[derive(Debug, Clone, Copy)]
pub struct BridgeStatus {
    pub accepting_new_work: bool,
    pub active_work: u64,
}

/// One response line of the desktop bridge.
#[derive(Debug)]
pub struct BridgeResponse {
    pub protocol_version: u32,
    pub request_id: String,
    pub ok: bool,
    pub accepting_new_work: Option<bool>,
    pub active_work: Option<u64>,
    pub error: Option<String>,
}

/// Reads the status fields of a bridge response; both must be present.
pub fn bridge_status(response: &BridgeResponse) -> (res: Result<BridgeStatus, String>)
    ensures
        match (response.accepting_new_work, response.active_work) {
            (Some(a), Some(w)) => res matches Ok(s) && s.accepting_new_work == a && s.active_work == w,
            (None, _) => res matches Err(e) && e@ == "desktop bridge response omitted acceptingNewWork"@,
            (Some(_), None) => res matches Err(e) && e@ == "desktop bridge response omitted activeWork"@,
        },
{
    let accepting_new_work = match response.accepting_new_work {
        Some(a) => a,
        None => {
            return Err(String::from_str("desktop bridge response omitted acceptingNewWork"));
        },
    };
    let active_work = match response.active_work {
        Some(w) => w,
        None => {
            return Err(String::from_str("desktop bridge response omitted activeWork"));
        },
    };
    Ok(BridgeStatus { accepting_new_work, active_work })
}

/// `m` occurs in `s` at index `i`.
pub open spec fn occurs_at(s: Seq<char>, m: Seq<char>, i: int) -> bool {
    0 <= i && i + m.len() <= s.len() && s.subrange(i, i + m.len()) == m
}

/// The first index at or after `i` where `m` occurs in `s` (`str::find`).
pub open spec fn find_from(s: Seq<char>, m: Seq<char>, i: int) -> Option<int>
    decreases s.len() + 1 - i,
{
    if i < 0 || i + m.len() > s.len() {
        None
    } else if occurs_at(s, m, i) {
        Some(i)
    } else {
        find_from(s, m, i + 1)
    }
}

/// How many ASCII digits `s` starts with.
pub open spec fn leading_digits(s: Seq<char>) -> nat
    decreases s.len(),
{
    if s.len() > 0 && text::is_digit(s[0]) {
        1 + leading_digits(s.drop_first())
    } else {
        0
    }
}

/// The port announced right after the first occurrence of `marker`: the
/// digits that follow it, if they read as a non-zero `u16`.
pub open spec fn port_after(line: Seq<char>, marker: Seq<char>) -> Option<nat> {
    match find_from(line, marker, 0) {
        None => None,
        Some(i) => {
            let rest = line.skip(i + marker.len());
            match text::parse_u64_spec(rest.take(leading_digits(rest) as int)) {
                Some(v) => if v <= 65535 && v != 0 {
                    Some(v)
                } else {
                    None
                },
                None => None,
            }
        },
    }
}

/// The port a log line announces: the first of the local address markers,
/// in order, that is followed by a non-zero port.
pub open spec fn announced_port(line: Seq<char>) -> Option<nat> {
    if port_after(line, "http://127.0.0.1:"@) is Some {
        port_after(line, "http://127.0.0.1:"@)
    } else if port_after(line, "http://localhost:"@) is Some {
        port_after(line, "http://localhost:"@)
    } else if port_after(line, "127.0.0.1:"@) is Some {
        port_after(line, "127.0.0.1:"@)
    } else {
        port_after(line, "localhost:"@)
    }
}

/// `occurs_at`, computed.
fn occurs(v: &Vec<char>, m: &Vec<char>, i: usize) -> (res: bool)
    requires
        i + m.len() <= v.len(),
    ensures
        res == occurs_at(v@, m@, i as int),
{
    let mut k: usize = 0;
    while k < m.len()
        invariant
            k <= m.len(),
            i + m.len() <= v.len(),
            forall|j: int| 0 <= j < k ==> v@[i + j] == m@[j],
        decreases m.len() - k,
    {
        if v[i + k] != m[k] {
            assert(v@.subrange(i as int, i + m.len())[k as int] != m@[k as int]);
            return false;
        }
        k = k + 1;
    }
    assert(v@.subrange(i as int, i + m.len()) =~= m@);
    true
}

/// `find_from(v, m, 0)`, computed.
fn find_marker(v: &Vec<char>, m: &Vec<char>) -> (res: Option<usize>)
    ensures
        match find_from(v@, m@, 0) {
            None => res is None,
            Some(i) => res matches Some(r) && r == i && i + m.len() <= v.len(),
        },
        res matches Some(i) ==> i + m.len() <= v.len(),
{
    if m.len() > v.len() {
        return None;
    }
    let last = v.len() - m.len();
    let mut i: usize = 0;
    while i <= last
        invariant
            m.len() <= v.len(),
            last == v.len() - m.len(),
            i <= last + 1,
            find_from(v@, m@, 0) == find_from(v@, m@, i as int),
        decreases last + 1 - i,
    {
        if occurs(v, m, i) {
            return Some(i);
        }
        if i == last {
            return None;
        }
        i = i + 1;
    }
    None
}

/// `port_after`, computed.
fn port_after_marker(v: &Vec<char>, marker: &str) -> (res: Option<u16>)
    ensures
        match port_after(v@, marker@) {
            Some(p) => res == Some(p as u16),
            None => res is None,
        },
{
    let m = text::chars_of(marker);
    let found = find_marker(v, &m);
    if found.is_none() {
        return None;
    }
    let first = found.unwrap();
    let start = first + m.len();
    let mut end = start;
    let ghost rest = v@.skip(start as int);
    proof {
        assert(leading_digits(rest) == leading_digits(v@.skip(end as int)) + (end - start));
    }
    while end < v.len() && text::digit(v[end])
        invariant
            start <= end <= v.len(),
            rest == v@.skip(start as int),
            leading_digits(rest) == leading_digits(v@.skip(end as int)) + (end - start),
        decreases v.len() - end,
    {
        assert(v@.skip(end as int).drop_first() =~= v@.skip(end + 1));
        end = end + 1;
    }
    proof {
        if end < v.len() {
            assert(v@.skip(end as int)[0] == v@[end as int]);
        } else {
            assert(v@.skip(end as int).len() == 0);
        }
        assert(leading_digits(v@.skip(end as int)) == 0);
        assert(find_from(v@, marker@, 0) == Some(first as int));
        assert(rest.take(leading_digits(rest) as int) =~= v@.subrange(start as int, end as int));
    }
    match text::parse_u64(v, start, end) {
        Some(p) => {
            if p <= 65535 && p != 0 {
                Some(p as u16)
            } else {
                None
            }
        },
        None => None,
    }
}

/// The address of the Harness page on a local port.
pub fn local_address(port: u16) -> (res: String)
    ensures
        res@ == "http://127.0.0.1:"@ + text::decimal(port as nat) + "/"@,
{
    let mut res = String::from_str("http://127.0.0.1:");
    let digits = text::decimal_string(port as u64);
    res.append(digits.as_str());
    res.append("/");
    res
}

/// The text that marks the Harness's own page.
pub const READY_MARKER: &'static str = "window.__DSH_BOOT__";

/// The page is the Harness's own: it contains `READY_MARKER`.
pub fn is_ready_page(body: &str) -> (res: bool)
    ensures
        res == (find_from(body@, READY_MARKER@, 0) is Some),
{
    let v = text::chars_of(body);
    let m = text::chars_of(READY_MARKER);
    find_marker(&v, &m).is_some()
}

/// The text that the bridge patch template holds where the bridge module's
/// address goes.
pub const BRIDGE_MODULE_MARKER: &'static str = "__DSH_DESKTOP_BRIDGE_MODULE__";

/// `s` with every occurrence of the non-empty `m` replaced by `r`, scanning
/// from the left (`str::replace`).
pub open spec fn replace_all(s: Seq<char>, m: Seq<char>, r: Seq<char>) -> Seq<char>
    decreases s.len(),
{
    if m.len() == 0 {
        s
    } else {
        match find_from(s, m, 0) {
            None => s,
            Some(i) => if 0 <= i && i + m.len() <= s.len() {
                s.take(i) + r + replace_all(s.skip(i + m.len()), m, r)
            } else {
                s
            },
        }
    }
}

/// The bridge patch for a module at `module_url`: the template with each
/// marker replaced by the address.
pub fn bridge_patch_text(template: &str, module_url: &str) -> (res: String)
    ensures
        res@ == replace_all(template@, BRIDGE_MODULE_MARKER@, module_url@),
{
    let v = text::chars_of(template);
    let m = text::chars_of(BRIDGE_MODULE_MARKER);
    proof {
        reveal_strlit("__DSH_DESKTOP_BRIDGE_MODULE__");
    }
    let ghost whole = v@;
    let ghost r = module_url@;
    let mut res = String::new();
    let mut start: usize = 0;
    let mut done = false;
    assert(whole.skip(0) =~= whole);
    while !done
        invariant
            v@ == whole,
            r == module_url@,
            m@ == BRIDGE_MODULE_MARKER@,
            m@.len() > 0,
            start <= v.len(),
            !done ==> res@ + replace_all(whole.skip(start as int), m@, r) == replace_all(whole, m@, r),
            done ==> res@ == replace_all(whole, m@, r),
        decreases v.len() - start + if done { 0int } else { 1int },
    {
        let ghost rest = whole.skip(start as int);
        let ghost res0 = res@;
        let mut k: usize = start;
        let mut found: Option<usize> = None;
        while found.is_none() && m.len() <= v.len() && k <= v.len() - m.len()
            invariant
                start <= k <= v.len(),
                m@ == BRIDGE_MODULE_MARKER@,
                m@.len() > 0,
                v@ == whole,
                rest == whole.skip(start as int),
                found matches Some(f) ==> f == k && f + m@.len() <= whole.len() && find_from(rest, m@, 0) == Some(f - start),
                found is None ==> find_from(rest, m@, 0) == find_from(rest, m@, k - start),
            decreases v.len() + 1 - k + if found is None { 1int } else { 0int },
        {
            let hit = occurs(&v, &m, k);
            proof {
                assert(rest.subrange(k - start, k - start + m@.len()) =~= whole.subrange(k as int, k + m@.len()));
            }
            if hit {
                found = Some(k);
            } else {
                k = k + 1;
            }
        }
        match found {
            Some(f) => {
                let mut i: usize = start;
                while i < f
                    invariant
                        start <= i <= f,
                        f + m@.len() <= whole.len(),
                        v@ == whole,
                        res@ == res0 + whole.subrange(start as int, i as int),
                    decreases f - i,
                {
                    text::push_char(&mut res, v[i]);
                    assert(whole.subrange(start as int, i + 1) =~= whole.subrange(start as int, i as int).push(whole[i as int]));
                    i = i + 1;
                }
                res.append(module_url);
                proof {
                    assert(rest.take(f - start) =~= whole.subrange(start as int, f as int));
                    assert(rest.skip(f - start + m@.len()) =~= whole.skip(f + m@.len()));
                    assert(res@ =~= res0 + rest.take(f - start) + r);
                }
                start = f + m.len();
            },
            None => {
                let mut i: usize = start;
                while i < v.len()
                    invariant
                        start <= i <= v.len(),
                        v@ == whole,
                        res@ == res0 + whole.subrange(start as int, i as int),
                    decreases v.len() - i,
                {
                    text::push_char(&mut res, v[i]);
                    assert(whole.subrange(start as int, i + 1) =~= whole.subrange(start as int, i as int).push(whole[i as int]));
                    i = i + 1;
                }
                proof {
                    assert(rest =~= whole.subrange(start as int, v.len() as int));
                }
                done = true;
            },
        }
    }
    res
}

/// The non-zero port a `dsh web` log line announces on a local address.
pub fn extract_port(line: &str) -> (res: Option<u16>)
    ensures
        match announced_port(line@) {
            Some(p) => res == Some(p as u16),
            None => res is None,
        },
{
    let v = text::chars_of(line);
    let p = port_after_marker(&v, "http://127.0.0.1:");
    if p.is_some() {
        return p;
    }
    let p = port_after_marker(&v, "http://localhost:");
    if p.is_some() {
        return p;
    }
    let p = port_after_marker(&v, "127.0.0.1:");
    if p.is_some() {
        return p;
    }
    port_after_marker(&v, "localhost:")
}

/// One output line being read, kept to at most `max` bytes; the rest of a
/// long line is consumed and dropped.
pub struct BoundedLine {
    pub bytes: Vec<u8>,
    pub max: usize,
    pub saw_input: bool,
}

/// The index of the first newline in `chunk`, if any.
pub open spec fn first_newline(chunk: Seq<u8>) -> Option<int> {
    if exists|i: int| 0 <= i < chunk.len() && chunk[i] == 10u8 {
        Some(choose|i: int| 0 <= i < chunk.len() && chunk[i] == 10u8 && forall|j: int| 0 <= j < i ==> chunk[j] != 10u8)
    } else {
        None
    }
}

/// The index of the first newline in `chunk`, if any.
fn newline_index(chunk: &[u8]) -> (res: Option<usize>)
    ensures
        match res {
            Some(n) => n < chunk@.len() && chunk@[n as int] == 10u8 && forall|j: int| 0 <= j < n ==> chunk@[j] != 10u8,
            None => forall|j: int| 0 <= j < chunk@.len() ==> chunk@[j] != 10u8,
        },
{
    let mut i: usize = 0;
    while i < chunk.len()
        invariant
            i <= chunk@.len(),
            forall|j: int| 0 <= j < i ==> chunk@[j] != 10u8,
        decreases chunk@.len() - i,
    {
        if chunk[i] == 10u8 {
            return Some(i);
        }
        i = i + 1;
    }
    None
}

impl BoundedLine {
    /// A line with nothing read yet.
    pub fn new(max: usize) -> (res: BoundedLine)
        ensures
            res.bytes@.len() == 0,
            res.max == max,
            !res.saw_input,
    {
        BoundedLine { bytes: Vec::new(), max, saw_input: false }
    }

    /// Takes the next non-empty chunk of input: keeps what fits of the
    /// text before the first newline and consumes up to and including that
    /// newline (or the whole chunk). Returns the bytes consumed and whether
    /// the line is complete.
    pub fn feed(&mut self, chunk: &[u8]) -> (res: (usize, bool))
        requires
            chunk@.len() > 0,
        ensures
            final(self).max == old(self).max,
            final(self).saw_input,
            old(self).bytes@.len() <= old(self).max ==> final(self).bytes@.len() <= final(self).max,
            ({
                let content = match first_newline(chunk@) {
                    Some(n) => n,
                    None => chunk@.len() as int,
                };
                let room = if old(self).bytes@.len() >= old(self).max {
                    0
                } else {
                    old(self).max - old(self).bytes@.len()
                };
                let kept = if content < room {
                    content
                } else {
                    room
                };
                &&& final(self).bytes@ == old(self).bytes@ + chunk@.take(kept)
                &&& res.0 == match first_newline(chunk@) {
                    Some(n) => n + 1,
                    None => chunk@.len() as int,
                }
                &&& res.1 == first_newline(chunk@) is Some
            }),
    {
        let newline = newline_index(chunk);
        let len = chunk.len();
        assert(len == chunk@.len());
        proof {
            match newline {
                Some(n) => {
                    assert(chunk@[n as int] == 10u8);
                    let c = choose|k: int| 0 <= k < chunk@.len() && chunk@[k] == 10u8 && forall|j: int| 0 <= j < k ==> chunk@[j] != 10u8;
                    assert(c == n) by {
                        if c < n {
                            assert(chunk@[c] != 10u8);
                        } else if c > n {
                            assert(chunk@[n as int] != 10u8);
                        }
                    }
                },
                None => {},
            }
        }
        let content = match newline {
            Some(n) => n,
            None => chunk.len(),
        };
        let room = if self.bytes.len() >= self.max {
            0
        } else {
            self.max - self.bytes.len()
        };
        let kept = if content < room {
            content
        } else {
            room
        };
        let ghost before = self.bytes@;
        let mut k: usize = 0;
        while k < kept
            invariant
                k <= kept <= chunk@.len(),
                self.max == old(self).max,
                self.bytes@ == before + chunk@.take(k as int),
            decreases kept - k,
        {
            self.bytes.push(chunk[k]);
            assert(chunk@.take(k + 1) =~= chunk@.take(k as int).push(chunk@[k as int]));
            assert(self.bytes@ =~= before + chunk@.take(k + 1));
            k = k + 1;
        }
        self.saw_input = true;
        let consumed = match newline {
            Some(n) => n + 1,
            None => chunk.len(),
        };
        (consumed, newline.is_some())
    }

    /// At end of input: the line read, if any input arrived at all.
    pub fn finish(self) -> (res: Option<Vec<u8>>)
        ensures
            self.saw_input ==> res == Some(self.bytes),
            !self.saw_input ==> res is None,
    {
        if self.saw_input {
            Some(self.bytes)
        } else {
            None
        }
    }
}

/// Keeps the newest log lines: drops the oldest once `MAX_LOG_LINES` are held.
pub fn append_log_line(lines: &mut Vec<String>, bounded: String)
    ensures
        final(lines)@ == if old(lines)@.len() >= MAX_LOG_LINES {
            old(lines)@.drop_first()
        } else {
            old(lines)@
        }.push(bounded),
{
    if lines.len() >= MAX_LOG_LINES {
        lines.remove(0);
        assert(lines@ =~= old(lines)@.drop_first());
    }
    lines.push(bounded);
}

/// `s` begins with `p`.
pub open spec fn starts_with(s: Seq<char>, p: Seq<char>) -> bool {
    p.len() <= s.len() && s.take(p.len() as int) == p
}

/// A stdout line of the Harness, cut to its limit: a bridge line (one that
/// starts with the sentinel) may be longer than a log line.
pub struct OutputLine {
    pub text: String,
    pub bridge_payload: Option<String>,
}

/// Cuts a line to `MAX_BRIDGE_LINE` characters if it starts with the sentinel
/// and to `MAX_LOG_LINE` otherwise; a sentinel line's payload is the rest.
pub fn bound_output_line(line: &str) -> (res: OutputLine)
    ensures
        ({
            let bridge = starts_with(line@, SENTINEL@);
            let limit = if bridge {
                MAX_BRIDGE_LINE
            } else {
                MAX_LOG_LINE
            };
            let kept = if line@.len() < limit {
                line@.len() as int
            } else {
                limit as int
            };
            &&& res.text@ == line@.take(kept)
            &&& if bridge {
                res.bridge_payload matches Some(p) && p@ == line@.take(kept).skip(SENTINEL@.len() as int)
            } else {
                res.bridge_payload is None
            }
        }),
{
    let v = text::chars_of(line);
    let s = text::chars_of(SENTINEL);
    let bridge = s.len() <= v.len() && prefix_matches(&v, &s);
    let limit = if bridge {
        MAX_BRIDGE_LINE
    } else {
        MAX_LOG_LINE
    };
    let kept = if v.len() < limit {
        v.len()
    } else {
        limit
    };
    let mut t = String::new();
    let mut payload = String::new();
    let mut i: usize = 0;
    while i < kept
        invariant
            i <= kept <= v.len(),
            v@ == line@,
            s@ == SENTINEL@,
            t@ == v@.take(i as int),
            i <= s.len() ==> payload@ == Seq::<char>::empty(),
            i > s.len() ==> payload@ == v@.take(i as int).skip(s.len() as int),
        decreases kept - i,
    {
        text::push_char(&mut t, v[i]);
        if i >= s.len() {
            text::push_char(&mut payload, v[i]);
        }
        assert(v@.take(i + 1) =~= v@.take(i as int).push(v@[i as int]));
        assert(i >= s.len() ==> v@.take(i + 1).skip(s.len() as int) =~= v@.take(i as int).skip(
            s.len() as int,
        ).push(v@[i as int]));
        i = i + 1;
    }
    proof {
        reveal_strlit("@@DSH_DESKTOP@@");
        assert(s.len() <= MAX_LOG_LINE);
        if bridge && kept == s.len() {
            assert(v@.take(kept as int).skip(s.len() as int) =~= Seq::<char>::empty());
        }
    }
    OutputLine { text: t, bridge_payload: if bridge { Some(payload) } else { None } }
}

/// A stderr line of the Harness, cut to `MAX_LOG_LINE` characters.
pub fn bound_log_line(line: &str) -> (res: String)
    ensures
        res@ == line@.take(if line@.len() < MAX_LOG_LINE { line@.len() as int } else { MAX_LOG_LINE as int }),
{
    let v = text::chars_of(line);
    let kept = if v.len() < MAX_LOG_LINE {
        v.len()
    } else {
        MAX_LOG_LINE
    };
    let mut res = String::new();
    let mut i: usize = 0;
    while i < kept
        invariant
            i <= kept <= v.len(),
            v@ == line@,
            res@ == v@.take(i as int),
        decreases kept - i,
    {
        text::push_char(&mut res, v[i]);
        assert(v@.take(i + 1) =~= v@.take(i as int).push(v@[i as int]));
        i = i + 1;
    }
    res
}

/// `v` begins with `p` (whose length fits).
fn prefix_matches(v: &Vec<char>, p: &Vec<char>) -> (res: bool)
    requires
        p.len() <= v.len(),
    ensures
        res == (v@.take(p.len() as int) == p@),
{
    let mut k: usize = 0;
    while k < p.len()
        invariant
            k <= p.len() <= v.len(),
            forall|j: int| 0 <= j < k ==> v@[j] == p@[j],
        decreases p.len() - k,
    {
        if v[k] != p[k] {
            assert(v@.take(p.len() as int)[k as int] != p@[k as int]);
            return false;
        }
        k = k + 1;
    }
    assert(v@.take(p.len() as int) =~= p@);
    true
}

/// Queues a bridge response; once `MAX_PENDING_RESPONSES` are waiting the
/// oldest is dropped.
pub fn enqueue_response(queue: &mut Vec<BridgeResponse>, response: BridgeResponse)
    ensures
        final(queue)@ == if old(queue)@.len() >= MAX_PENDING_RESPONSES {
            old(queue)@.drop_first()
        } else {
            old(queue)@
        }.push(response),
{
    if queue.len() >= MAX_PENDING_RESPONSES {
        queue.remove(0);
        assert(queue@ =~= old(queue)@.drop_first());
    }
    queue.push(response);
}

/// The position of the first queued response to `id`, or -1.
pub open spec fn first_response(queue: Seq<BridgeResponse>, id: Seq<char>) -> int
    decreases queue.len(),
{
    if queue.len() == 0 {
        -1
    } else {
        let k = first_response(queue.drop_last(), id);
        if k >= 0 {
            k
        } else if queue.last().request_id@ == id {
            queue.len() - 1
        } else {
            -1
        }
    }
}

/// Removes and returns the first queued response to the request `id`.
pub fn take_response(queue: &mut Vec<BridgeResponse>, id: &str) -> (res: Option<BridgeResponse>)
    ensures
        ({
            let k = first_response(old(queue)@, id@);
            if k < 0 {
                res is None && final(queue)@ == old(queue)@
            } else {
                res == Some(old(queue)@[k]) && final(queue)@ == old(queue)@.remove(k)
            }
        }),
{
    let mut i: usize = 0;
    while i < queue.len()
        invariant
            i <= queue@.len(),
            *queue == *old(queue),
            first_response(queue@.take(i as int), id@) == -1,
        decreases queue@.len() - i,
    {
        assert(queue@.take(i + 1).drop_last() =~= queue@.take(i as int));
        if text::str_eq(queue[i].request_id.as_str(), id) {
            proof {
                lemma_first_response_prefix(queue@, id@, i as int);
            }
            return Some(queue.remove(i));
        }
        i = i + 1;
    }
    assert(queue@.take(queue@.len() as int) =~= queue@);
    None
}

proof fn lemma_first_response_prefix(q: Seq<BridgeResponse>, id: Seq<char>, i: int)
    requires
        0 <= i < q.len(),
        first_response(q.take(i), id) == -1,
        q[i].request_id@ == id,
    ensures
        first_response(q, id) == i,
    decreases q.len() - i,
{
    assert(q.take(i + 1).drop_last() =~= q.take(i));
    if i + 1 < q.len() {
        lemma_first_response_extend(q, id, i + 1);
    } else {
        assert(q.take(i + 1) =~= q);
    }
}

proof fn lemma_first_response_extend(q: Seq<BridgeResponse>, id: Seq<char>, n: int)
    requires
        0 < n <= q.len(),
        first_response(q.take(n), id) >= 0,
    ensures
        first_response(q, id) == first_response(q.take(n), id),
    decreases q.len() - n,
{
    if n < q.len() {
        assert(q.take(n + 1).drop_last() =~= q.take(n));
        lemma_first_response_extend(q, id, n + 1);
    } else {
        assert(q.take(n) =~= q);
    }
}

/// The view of an optional error text, defaulting to `unknown-error`.
pub open spec fn error_text(e: Option<String>) -> Seq<char> {
    match e {
        Some(s) => s@,
        None => "unknown-error"@,
    }
}

/// Accepts the response to `operation` only if it speaks this protocol and
/// reports success.
pub fn accept_response(operation: &str, response: BridgeResponse) -> (res: Result<BridgeResponse, String>)
    ensures
        if response.protocol_version != PROTOCOL_VERSION {
            res matches Err(e) && e@ == "unsupported desktop bridge protocol "@ + text::decimal(
                response.protocol_version as nat,
            )
        } else if !response.ok {
            res matches Err(e) && e@ == "desktop bridge operation "@ + operation@ + " failed: "@
                + error_text(response.error)
        } else {
            res == Ok::<BridgeResponse, String>(response)
        },
{
    if response.protocol_version != PROTOCOL_VERSION {
        let mut m = String::from_str("unsupported desktop bridge protocol ");
        let n = text::decimal_string(response.protocol_version as u64);
        m.append(n.as_str());
        return Err(m);
    }
    if !response.ok {
        let mut m = String::from_str("desktop bridge operation ");
        m.append(operation);
        m.append(" failed: ");
        match &response.error {
            Some(e) => m.append(e.as_str()),
            None => m.append("unknown-error"),
        }
        return Err(m);
    }
    Ok(response)
}

/// The error for a bridge request that got no answer in time.
pub fn timeout_message(operation: &str) -> (res: String)
    ensures
        res@ == "desktop bridge operation "@ + operation@ + " timed out"@,
{
    let mut m = String::from_str("desktop bridge operation ");
    m.append(operation);
    m.append(" timed out");
    m
}

/// Where a runtime may keep the executable `name`, in the order looked at.
pub fn executable_candidates(name: &str) -> (res: Vec<String>)
    ensures
        text::views(res@) == seq![name@, "node/node.exe"@, "runtime/node.exe"@, "bin/node.exe"@],
{
    let mut res = Vec::new();
    res.push(String::from_str(name));
    res.push(String::from_str("node/node.exe"));
    res.push(String::from_str("runtime/node.exe"));
    res.push(String::from_str("bin/node.exe"));
    assert(text::views(res@) =~= seq![name@, "node/node.exe"@, "runtime/node.exe"@, "bin/node.exe"@]);
    res
}

/// Where a runtime may keep the `dsh` command line entry, in the order looked at.
pub fn dsh_cli_candidates() -> (res: Vec<String>)
    ensures
        text::views(res@) == seq![
            "node_modules/@deepseek-ai/dsh/dist/cli.js"@,
            "node_modules/@deepseek-ai/deepseek-harness/dist/cli.js"@,
            "dsh/cli.js"@,
        ],
{
    let mut res = Vec::new();
    res.push(String::from_str("node_modules/@deepseek-ai/dsh/dist/cli.js"));
    res.push(String::from_str("node_modules/@deepseek-ai/deepseek-harness/dist/cli.js"));
    res.push(String::from_str("dsh/cli.js"));
    assert(text::views(res@) =~= seq![
        "node_modules/@deepseek-ai/dsh/dist/cli.js"@,
        "node_modules/@deepseek-ai/deepseek-harness/dist/cli.js"@,
        "dsh/cli.js"@,
    ]);
    res
}

} // verus!
