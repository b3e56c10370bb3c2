//! Reading a worker's status log as bytes: where its complete lines end, what each says, and
//! which of them wake the lead.
use vstd::prelude::*;

use crate::text::{chars_of, string_of_range};
use crate::wake::{kind_is_actionable, wake_kind_of_line, ActionableWake, WakeKind};

verus! {

/// What `String::from_utf8_lossy` makes of `bytes`.
pub uninterp spec fn utf8_lossy(bytes: Seq<u8>) -> Seq<char>;

/// ASCII bytes read as the characters they encode.
pub open spec fn ascii_chars(bytes: Seq<u8>) -> Seq<char> {
    bytes.map_values(|b: u8| b as char)
}

/// Every byte is ASCII.
pub open spec fn all_ascii(bytes: Seq<u8>) -> bool {
    forall|i: int| 0 <= i < bytes.len() ==> #[trigger] bytes[i] < 128
}

/// Decodes `bytes[from..to]`, replacing each invalid sequence with U+FFFD.
///
/// Trusted: calls `String::from_utf8_lossy`. The text is named by the bytes it was read from;
/// beyond that, one fact std documents is claimed: valid UTF-8 comes back as it is, so bytes
/// that are all ASCII decode to the characters they encode. Invalid sequences are not
/// described.
#[verifier::external_body]
pub(crate) fn lossy_text(bytes: &Vec<u8>, from: usize, to: usize) -> (r: String)
    requires
        from <= to <= bytes@.len(),
    ensures
        r@ == utf8_lossy(bytes@.subrange(from as int, to as int)),
        all_ascii(bytes@.subrange(from as int, to as int)) ==> r@ == ascii_chars(
            bytes@.subrange(from as int, to as int),
        ),
{
    String::from_utf8_lossy(&bytes[from..to]).into_owned()
}

/// `s` with every trailing carriage return removed, as `trim_end_matches('\r')` leaves it.
pub open spec fn trim_end_cr(s: Seq<char>) -> Seq<char>
    decreases s.len(),
{
    if s.len() > 0 && s.last() == '\r' {
        trim_end_cr(s.drop_last())
    } else {
        s
    }
}

/// The text of one raw status line.
pub open spec fn line_text(raw: Seq<u8>) -> Seq<char> {
    trim_end_cr(utf8_lossy(raw))
}

/// The actionable state a raw line reports, if it reports one.
pub open spec fn actionable_kind(raw: Seq<u8>) -> Option<WakeKind> {
    match wake_kind_of_line(line_text(raw)) {
        Some(k) => if kind_is_actionable(k) {
            Some(k)
        } else {
            None
        },
        None => None,
    }
}

/// The position of the first newline at or after `start`, or the log's length if there is
/// none.
pub open spec fn newline_from(log: Seq<u8>, start: int) -> int
    decreases log.len() - start,
{
    if start >= log.len() {
        log.len() as int
    } else if log[start] == 10u8 {
        start
    } else {
        newline_from(log, start + 1)
    }
}

pub proof fn lemma_newline_from(log: Seq<u8>, start: int)
    requires
        0 <= start,
    ensures
        start <= newline_from(log, start) || start > log.len(),
        newline_from(log, start) <= log.len() || start > log.len(),
        newline_from(log, start) < log.len() ==> log[newline_from(log, start)] == 10u8,
        forall|j: int| start <= j < newline_from(log, start) ==> log[j] != 10u8,
    decreases log.len() - start,
{
    if start < log.len() && log[start] != 10u8 {
        lemma_newline_from(log, start + 1);
    }
}

proof fn lemma_newline_at(log: Seq<u8>, start: int, i: int)
    requires
        0 <= start <= i < log.len(),
        log[i] == 10u8,
        forall|j: int| start <= j < i ==> log[j] != 10u8,
    ensures
        newline_from(log, start) == i,
    decreases i - start,
{
    if start < i {
        lemma_newline_at(log, start + 1, i);
    }
}

/// The last complete actionable line at or after `start`, or `best` if there is none.
pub open spec fn last_actionable_from(log: Seq<u8>, start: int, best: Option<ActionableWake>) -> Option<
    ActionableWake,
>
    decreases log.len() - start,
{
    if start < 0 || start >= log.len() {
        best
    } else {
        let nl = newline_from(log, start);
        if nl >= log.len() {
            best
        } else {
            proof {
                lemma_newline_from(log, start);
            }
            let next = match actionable_kind(log.subrange(start, nl)) {
                Some(k) => Some(ActionableWake { end: (nl + 1) as u64, kind: k }),
                None => best,
            };
            last_actionable_from(log, nl + 1, next)
        }
    }
}

/// The last complete line of a status log that wakes the lead: its state and the offset just
/// past it. A trailing line without its newline is still being written and does not count.
pub open spec fn last_actionable(log: Seq<u8>) -> Option<ActionableWake> {
    last_actionable_from(log, 0, None)
}

/// A newline inside `log` is found the same way once more text follows it.
proof fn lemma_newline_from_prefix(log: Seq<u8>, tail: Seq<u8>, start: int)
    requires
        0 <= start <= newline_from(log, start) < log.len(),
    ensures
        newline_from(log + tail, start) == newline_from(log, start),
    decreases log.len() - start,
{
    if log[start] != 10u8 {
        lemma_newline_from(log, start + 1);
        lemma_newline_from_prefix(log, tail, start + 1);
    }
}

/// Scanning a complete log and then what follows it is scanning the log, then going on from
/// its end with what the log left.
proof fn lemma_last_actionable_split(log: Seq<u8>, tail: Seq<u8>, start: int, best: Option<ActionableWake>)
    requires
        0 <= start <= log.len(),
        log.len() > 0 ==> log.last() == 10u8,
    ensures
        last_actionable_from(log + tail, start, best) == last_actionable_from(
            log + tail,
            log.len() as int,
            last_actionable_from(log, start, best),
        ),
    decreases log.len() - start,
{
    if start < log.len() {
        lemma_newline_from(log, start);
        let nl = newline_from(log, start);
        if nl >= log.len() {
            assert(log[log.len() - 1] == 10u8);
        }
        lemma_newline_from_prefix(log, tail, start);
        assert((log + tail).subrange(start, nl) =~= log.subrange(start, nl));
        let next = match actionable_kind(log.subrange(start, nl)) {
            Some(k) => Some(ActionableWake { end: (nl + 1) as u64, kind: k }),
            None => best,
        };
        lemma_last_actionable_split(log, tail, nl + 1, next);
    }
}

/// A complete line that wakes nobody, appended to a complete status log, leaves its last
/// actionable line where it was: a worker writing progress notes moves no wake.
pub proof fn lemma_quiet_line_keeps_last_actionable(log: Seq<u8>, line: Seq<u8>)
    requires
        log.len() > 0 ==> log.last() == 10u8,
        forall|i: int| 0 <= i < line.len() ==> line[i] != 10u8,
        actionable_kind(line) is None,
    ensures
        last_actionable(log + line.push(10u8)) == last_actionable(log),
{
    let whole = log + line.push(10u8);
    lemma_last_actionable_split(log, line.push(10u8), 0, None);
    let best = last_actionable_from(log, 0, None);
    let end: int = log.len() + line.len() as int;
    assert(whole[end] == 10u8);
    assert forall|j: int| log.len() <= j < end implies whole[j] != 10u8 by {
        assert(whole[j] == line[j - log.len()]);
    }
    lemma_newline_at(whole, log.len() as int, end);
    assert(whole.subrange(log.len() as int, end) =~= line);
    assert(last_actionable_from(whole, end + 1, best) == best);
    assert(last_actionable_from(whole, log.len() as int, best) == best);
}

/// The first complete actionable line at or after `start`: its start and the position of its
/// newline; or, where there is none, the start of the trailing partial line (the log's length
/// when there is none).
pub enum ScanPoint {
    Line { start: int, newline: int },
    Rest { start: int },
}

pub open spec fn first_actionable_from(log: Seq<u8>, start: int) -> ScanPoint
    decreases log.len() - start,
{
    if start < 0 || start >= log.len() {
        ScanPoint::Rest { start }
    } else {
        let nl = newline_from(log, start);
        if nl >= log.len() {
            ScanPoint::Rest { start }
        } else {
            proof {
                lemma_newline_from(log, start);
            }
            if actionable_kind(log.subrange(start, nl)) is Some {
                ScanPoint::Line { start, newline: nl }
            } else {
                first_actionable_from(log, nl + 1)
            }
        }
    }
}

pub proof fn lemma_first_actionable_bounds(log: Seq<u8>, from: int)
    requires
        0 <= from <= log.len(),
    ensures
        match first_actionable_from(log, from) {
            ScanPoint::Line { start, newline } => from <= start <= newline < log.len()
                && log[newline] == 10u8,
            ScanPoint::Rest { start } => from <= start <= log.len(),
        },
    decreases log.len() - from,
{
    if from < log.len() {
        lemma_newline_from(log, from);
        let nl = newline_from(log, from);
        if nl < log.len() && actionable_kind(log.subrange(from, nl)) is None {
            lemma_first_actionable_bounds(log, nl + 1);
        }
    }
}

/// Searching the bytes past `s` for a newline is searching the whole log from `s`.
proof fn lemma_newline_from_skip(log: Seq<u8>, s: int, k: int)
    requires
        0 <= s <= log.len(),
        0 <= k,
    ensures
        s + k <= log.len() ==> newline_from(log.skip(s), k) == newline_from(log, s + k) - s,
    decreases log.len() - (s + k),
{
    if s + k < log.len() && log[s + k] != 10u8 {
        lemma_newline_from_skip(log, s, k + 1);
    }
}

/// Scanning the bytes past `s` from `k` is scanning the whole log from `s + k`, shifted by `s`.
proof fn lemma_first_actionable_skip(log: Seq<u8>, s: int, k: int)
    requires
        0 <= s <= log.len(),
        0 <= k,
        s + k <= log.len(),
    ensures
        match (first_actionable_from(log.skip(s), k), first_actionable_from(log, s + k)) {
            (ScanPoint::Line { start: a, newline: b }, ScanPoint::Line { start: c, newline: d }) => a + s
                == c && b + s == d,
            (ScanPoint::Rest { start: a }, ScanPoint::Rest { start: c }) => a + s == c,
            _ => false,
        },
    decreases log.len() - (s + k),
{
    let tail = log.skip(s);
    if s + k < log.len() {
        lemma_newline_from_skip(log, s, k);
        lemma_newline_from(log, s + k);
        let nl = newline_from(log, s + k);
        if nl < log.len() {
            assert(tail.subrange(k, nl - s) =~= log.subrange(s + k, nl));
            if actionable_kind(log.subrange(s + k, nl)) is None {
                lemma_first_actionable_skip(log, s, nl + 1 - s);
            }
        }
    }
}

/// What a wait finds in the bytes appended past its position is what the whole log holds at
/// and past that position: the first complete actionable line there, with the same text at
/// the same offsets, or, where there is none, the same place to resume.
pub proof fn lemma_appended_scan_is_log_scan(log: Seq<u8>, position: int)
    requires
        0 <= position <= log.len(),
    ensures
        match (first_actionable_from(log.skip(position), 0), first_actionable_from(log, position)) {
            (ScanPoint::Line { start: a, newline: b }, ScanPoint::Line { start: c, newline: d }) => a
                + position == c && b + position == d && log.skip(position).subrange(a, b)
                == log.subrange(c, d),
            (ScanPoint::Rest { start: a }, ScanPoint::Rest { start: c }) => a + position == c,
            _ => false,
        },
{
    lemma_first_actionable_skip(log, position, 0);
    if let ScanPoint::Line { start: a, newline: b } = first_actionable_from(log.skip(position), 0) {
        lemma_first_actionable_bounds(log.skip(position), 0);
        assert(log.skip(position).subrange(a, b) =~= log.subrange(a + position, b + position));
    }
}

/// `log[s..e]` is a complete line at or after `from`: it starts at `from` or just after a
/// newline, holds no newline, and ends at one.
pub open spec fn complete_line(log: Seq<u8>, from: int, s: int, e: int) -> bool {
    &&& from <= s <= e < log.len()
    &&& (s == from || log[s - 1] == 10u8)
    &&& log[e] == 10u8
    &&& forall|j: int| s <= j < e ==> log[j] != 10u8
}

/// The scan behind `niles wait` finds the first complete actionable line at or after `from`:
/// the line it finds is complete and actionable, and no complete line before it is. Where it
/// finds none, no complete line from `from` on is actionable, and it stops at the start of the
/// trailing partial line.
pub proof fn lemma_scan_finds_first_actionable(log: Seq<u8>, from: int)
    requires
        0 <= from <= log.len(),
    ensures
        match first_actionable_from(log, from) {
            ScanPoint::Line { start, newline } => {
                &&& complete_line(log, from, start, newline)
                &&& actionable_kind(log.subrange(start, newline)) is Some
                &&& forall|s: int, e: int| #[trigger] complete_line(log, from, s, e) && e < start
                    ==> actionable_kind(log.subrange(s, e)) is None
            },
            ScanPoint::Rest { start } => {
                &&& from <= start <= log.len()
                &&& (start == from || log[start - 1] == 10u8)
                &&& forall|j: int| start <= j < log.len() ==> log[j] != 10u8
                &&& forall|s: int, e: int| #[trigger] complete_line(log, from, s, e)
                    ==> actionable_kind(log.subrange(s, e)) is None
            },
        },
    decreases log.len() - from,
{
    if from < log.len() {
        lemma_newline_from(log, from);
        let nl = newline_from(log, from);
        if nl < log.len() {
            assert forall|s: int, e: int| #[trigger] complete_line(log, from, s, e) && s == from implies e
                == nl by {
                if e < nl {
                    assert(log[e] != 10u8);
                }
                if e > nl {
                    assert(log[nl] != 10u8);
                }
            }
            if actionable_kind(log.subrange(from, nl)) is None {
                lemma_scan_finds_first_actionable(log, nl + 1);
                assert forall|s: int, e: int| #[trigger] complete_line(log, from, s, e) && s != from
                    implies complete_line(log, nl + 1, s, e) by {
                    if s - 1 < nl {
                        assert(log[s - 1] != 10u8);
                    }
                }
                match first_actionable_from(log, nl + 1) {
                    ScanPoint::Line { start, newline } => {
                        assert forall|s: int, e: int| #[trigger] complete_line(log, from, s, e) && e
                            < start implies actionable_kind(log.subrange(s, e)) is None by {
                            if s != from {
                                assert(complete_line(log, nl + 1, s, e));
                            }
                        }
                    },
                    ScanPoint::Rest { start } => {
                        assert forall|s: int, e: int| #[trigger] complete_line(log, from, s, e)
                            implies actionable_kind(log.subrange(s, e)) is None by {
                            if s != from {
                                assert(complete_line(log, nl + 1, s, e));
                            }
                        }
                    },
                }
            }
        } else {
            assert forall|s: int, e: int| #[trigger] complete_line(log, from, s, e) implies actionable_kind(
                log.subrange(s, e),
            ) is None by {
                assert(log[e] != 10u8);
            }
        }
    }
}

/// Scanning a log that has grown since: what the shorter log scanned to is found again. A line
/// found in the shorter log is found in the longer one at the same place; where the shorter log
/// held none, scanning the longer one goes on from where the shorter scan stopped.
pub proof fn lemma_scan_survives_growth(log: Seq<u8>, later: Seq<u8>, p: int)
    requires
        0 <= p <= log.len(),
        log.len() <= later.len(),
        later.take(log.len() as int) == log,
    ensures
        match first_actionable_from(log, p) {
            ScanPoint::Line { start, newline } => first_actionable_from(later, p)
                == (ScanPoint::Line { start, newline }),
            ScanPoint::Rest { start } => first_actionable_from(later, p) == first_actionable_from(
                later,
                start,
            ),
        },
    decreases log.len() - p,
{
    if p < log.len() {
        lemma_newline_from(log, p);
        let nl = newline_from(log, p);
        if nl < log.len() {
            assert(later =~= log + later.skip(log.len() as int));
            lemma_newline_from_prefix(log, later.skip(log.len() as int), p);
            assert(later.subrange(p, nl) =~= log.subrange(p, nl));
            if actionable_kind(log.subrange(p, nl)) is None {
                lemma_scan_survives_growth(log, later, nl + 1);
            }
        }
    }
}

/// `s` without its trailing carriage returns.
pub fn trim_end_cr_exec(s: &str) -> (r: String)
    ensures
        r@ == trim_end_cr(s@),
{
    let chars = chars_of(s);
    let mut end = chars.len();
    assert(chars@.take(end as int) =~= s@);
    while end > 0 && chars[end - 1] == '\r'
        invariant
            end <= chars@.len(),
            trim_end_cr(chars@.take(end as int)) == trim_end_cr(s@),
        decreases end,
    {
        assert(chars@.take(end as int).drop_last() =~= chars@.take(end - 1));
        end -= 1;
    }
    assert(chars@.subrange(0, end as int) =~= chars@.take(end as int));
    string_of_range(&chars, 0, end)
}

/// The actionable state a line of text reports, if it reports one.
pub open spec fn text_kind(text: Seq<char>) -> Option<WakeKind> {
    match wake_kind_of_line(text) {
        Some(k) => if kind_is_actionable(k) {
            Some(k)
        } else {
            None
        },
        None => None,
    }
}

/// The text of `log[from..to]` as a status line, and the actionable state it reports. An
/// ASCII line reads as its own bytes.
pub fn read_line(log: &Vec<u8>, from: usize, to: usize) -> (r: (String, Option<WakeKind>))
    requires
        from <= to <= log@.len(),
    ensures
        r.0@ == line_text(log@.subrange(from as int, to as int)),
        r.1 == actionable_kind(log@.subrange(from as int, to as int)),
        all_ascii(log@.subrange(from as int, to as int)) ==> r.0@ == trim_end_cr(
            ascii_chars(log@.subrange(from as int, to as int)),
        ) && r.1 == text_kind(trim_end_cr(ascii_chars(log@.subrange(from as int, to as int)))),
{
    let decoded = lossy_text(log, from, to);
    let text = trim_end_cr_exec(decoded.as_str());
    let kind = match WakeKind::parse_line(text.as_str()) {
        Some(k) => if k.is_actionable() {
            Some(k)
        } else {
            None
        },
        None => None,
    };
    (text, kind)
}

/// The last complete actionable line of `log`.
pub fn find_last_actionable(log: &Vec<u8>) -> (r: Option<ActionableWake>)
    ensures
        r == last_actionable(log@),
{
    let mut best: Option<ActionableWake> = None;
    let mut start: usize = 0;
    let mut i: usize = 0;
    while i < log.len()
        invariant
            start <= i <= log@.len(),
            forall|j: int| start <= j < i ==> log@[j] != 10u8,
            last_actionable_from(log@, start as int, best) == last_actionable(log@),
        decreases log.len() - i,
    {
        if log[i] == 10u8 {
            proof {
                lemma_newline_at(log@, start as int, i as int);
            }
            let (_, kind) = read_line(log, start, i);
            match kind {
                Some(k) => {
                    best = Some(ActionableWake { end: (i + 1) as u64, kind: k });
                },
                None => {},
            }
            start = i + 1;
        }
        i += 1;
    }
    proof {
        if start < log@.len() {
            lemma_newline_from(log@, start as int);
            assert(newline_from(log@, start as int) >= log@.len());
        }
    }
    best
}

/// The first complete actionable line of `log` at or after `from`: its text and the offset
/// just past it; or, where there is none, how far complete lines reach.
pub fn find_first_actionable(log: &Vec<u8>, from: usize) -> (r: Result<(String, usize), usize>)
    requires
        from <= log@.len(),
    ensures
        match first_actionable_from(log@, from as int) {
            ScanPoint::Line { start, newline } => r matches Ok((text, end)) && end == newline + 1
                && text@ == line_text(log@.subrange(start, newline)),
            ScanPoint::Rest { start } => r matches Err(k) && k == start,
        },
{
    let mut start: usize = from;
    let mut i: usize = from;
    while i < log.len()
        invariant
            from <= start <= i <= log@.len(),
            forall|j: int| start <= j < i ==> log@[j] != 10u8,
            first_actionable_from(log@, start as int) == first_actionable_from(log@, from as int),
        decreases log.len() - i,
    {
        if log[i] == 10u8 {
            proof {
                lemma_newline_at(log@, start as int, i as int);
            }
            let (text, kind) = read_line(log, start, i);
            if kind.is_some() {
                return Ok((text, i + 1));
            }
            start = i + 1;
        }
        i += 1;
    }
    proof {
        if start < log@.len() {
            lemma_newline_from(log@, start as int);
        }
    }
    Err(start)
}

} // verus!
