//! The typed rows of `tmux list-windows`.
use vstd::prelude::*;

use crate::digits::{decimal, int_error, int_error_text, parse_u64_spec, parse_u64_str, push_decimal};
use crate::statuslog::{lossy_text, utf8_lossy};
use crate::text::{
    chars_of, is_empty_str, lines_of, lines_of_chars, owned, push_str, split_char, split_spec, str_eq,
};

verus! {

/// The `-F` format whose rows `parse` reads.
pub const LIST_WINDOWS_FORMAT: &'static str =
    "#{window_index}\t#{window_name}\t#{window_active}\t#{pane_pid}\t#{pane_current_command}\t#{pane_dead}";

/// One window as tmux lists it.
#[derive(Clone, Debug, PartialEq, Eq)]
pub struct TmuxWindowSnapshot {
    pub index: usize,
    pub name: String,
    pub active: bool,
    pub pane_pid: Option<u32>,
    pub pane_current_command: Option<String>,
    pub pane_dead: bool,
}

/// A listed window as plain values.
pub struct WindowRow {
    pub index: usize,
    pub name: Seq<char>,
    pub active: bool,
    pub pane_pid: Option<u32>,
    pub pane_current_command: Option<Seq<char>>,
    pub pane_dead: bool,
}

pub open spec fn row_of(s: TmuxWindowSnapshot) -> WindowRow {
    WindowRow {
        index: s.index,
        name: s.name@,
        active: s.active,
        pane_pid: s.pane_pid,
        pane_current_command: match s.pane_current_command {
            Some(c) => Some(c@),
            None => None,
        },
        pane_dead: s.pane_dead,
    }
}

pub open spec fn rows_of(v: Seq<TmuxWindowSnapshot>) -> Seq<WindowRow> {
    v.map_values(|s: TmuxWindowSnapshot| row_of(s))
}

/// The format `parse` expects.
pub fn format() -> (r: &'static str)
    ensures
        r@ == LIST_WINDOWS_FORMAT@,
{
    LIST_WINDOWS_FORMAT
}

pub open spec fn on_line(n: nat) -> Seq<char> {
    " on tmux list-windows line "@ + decimal(n)
}

pub open spec fn usize_field_reading(value: Seq<char>, label: Seq<char>, n: nat) -> Result<usize, Seq<char>> {
    match parse_u64_spec(value) {
        Some(v) if v <= usize::MAX => Ok(v as usize),
        _ => Err("invalid "@ + label + " `"@ + value + "`"@ + on_line(n) + ": "@ + int_error_text(value)),
    }
}

pub open spec fn pid_reading(value: Seq<char>, n: nat) -> Result<Option<u32>, Seq<char>> {
    if value.len() == 0 {
        Ok(None)
    } else {
        match parse_u64_spec(value) {
            Some(v) if v <= u32::MAX => Ok(Some(v as u32)),
            _ => Err("invalid pane pid `"@ + value + "`"@ + on_line(n) + ": "@ + int_error_text(value)),
        }
    }
}

pub open spec fn bool_reading(value: Seq<char>, label: Seq<char>, n: nat) -> Result<bool, Seq<char>> {
    if value == "0"@ {
        Ok(false)
    } else if value == "1"@ {
        Ok(true)
    } else {
        Err("invalid "@ + label + " `"@ + value + "`"@ + on_line(n))
    }
}

pub open spec fn nonempty_spec(value: Seq<char>) -> Option<Seq<char>> {
    if value.len() == 0 {
        None
    } else {
        Some(value)
    }
}

/// One row: six tab-separated fields, each read in order; the first field that fails names
/// the error.
pub open spec fn line_reading(n: nat, line: Seq<char>) -> Result<WindowRow, Seq<char>> {
    let f = split_spec(line, '\t');
    if f.len() != 6 {
        Err("malformed tmux list-windows line "@ + decimal(n) + ": expected 6 fields, got "@ + decimal(
            f.len(),
        ))
    } else {
        match usize_field_reading(f[0], "window index"@, n) {
            Err(e) => Err(e),
            Ok(index) => match bool_reading(f[2], "window active"@, n) {
                Err(e) => Err(e),
                Ok(active) => match pid_reading(f[3], n) {
                    Err(e) => Err(e),
                    Ok(pane_pid) => match bool_reading(f[5], "pane dead"@, n) {
                        Err(e) => Err(e),
                        Ok(pane_dead) => Ok(
                            WindowRow {
                                index,
                                name: f[1],
                                active,
                                pane_pid,
                                pane_current_command: nonempty_spec(f[4]),
                                pane_dead,
                            },
                        ),
                    },
                },
            },
        }
    }
}

/// The rows of `lines`, numbered from `base + 1`; empty lines are skipped but counted.
pub open spec fn lines_reading(lines: Seq<Seq<char>>, base: nat) -> Result<Seq<WindowRow>, Seq<char>>
    decreases lines.len(),
{
    if lines.len() == 0 {
        Ok(Seq::empty())
    } else if lines[0].len() == 0 {
        lines_reading(lines.drop_first(), base + 1)
    } else {
        match line_reading(base + 1, lines[0]) {
            Err(e) => Err(e),
            Ok(row) => match lines_reading(lines.drop_first(), base + 1) {
                Err(e) => Err(e),
                Ok(rows) => Ok(seq![row] + rows),
            },
        }
    }
}

/// What `parse` reads from list-windows output.
pub open spec fn listing_reading(stdout: Seq<u8>) -> Result<Seq<WindowRow>, Seq<char>> {
    lines_reading(lines_of(utf8_lossy(stdout)), 0)
}

fn line_suffix(n: usize) -> (r: String)
    ensures
        r@ == on_line(n as nat),
{
    let mut r = owned(" on tmux list-windows line ");
    push_decimal(&mut r, n as u64);
    r
}

fn parse_usize_field(value: &str, label: &str, line_number: usize) -> (r: Result<usize, String>)
    ensures
        match usize_field_reading(value@, label@, line_number as nat) {
            Ok(v) => r == Ok::<usize, String>(v),
            Err(e) => r matches Err(m) && m@ == e,
        },
{
    match parse_u64_str(value) {
        Some(v) => {
            if v <= usize::MAX as u64 {
                return Ok(v as usize);
            }
        },
        None => {},
    }
    let mut e = owned("invalid ");
    push_str(&mut e, label);
    push_str(&mut e, " `");
    push_str(&mut e, value);
    push_str(&mut e, "`");
    push_str(&mut e, line_suffix(line_number).as_str());
    push_str(&mut e, ": ");
    push_str(&mut e, int_error(value).as_str());
    Err(e)
}

fn parse_optional_pid(value: &str, line_number: usize) -> (r: Result<Option<u32>, String>)
    ensures
        match pid_reading(value@, line_number as nat) {
            Ok(v) => r == Ok::<Option<u32>, String>(v),
            Err(e) => r matches Err(m) && m@ == e,
        },
{
    if is_empty_str(value) {
        return Ok(None);
    }
    match parse_u64_str(value) {
        Some(v) => {
            if v <= u32::MAX as u64 {
                return Ok(Some(v as u32));
            }
        },
        None => {},
    }
    let mut e = owned("invalid pane pid `");
    push_str(&mut e, value);
    push_str(&mut e, "`");
    push_str(&mut e, line_suffix(line_number).as_str());
    push_str(&mut e, ": ");
    push_str(&mut e, int_error(value).as_str());
    Err(e)
}

fn parse_tmux_bool(value: &str, label: &str, line_number: usize) -> (r: Result<bool, String>)
    ensures
        match bool_reading(value@, label@, line_number as nat) {
            Ok(v) => r == Ok::<bool, String>(v),
            Err(e) => r matches Err(m) && m@ == e,
        },
{
    if str_eq(value, "0") {
        Ok(false)
    } else if str_eq(value, "1") {
        Ok(true)
    } else {
        let mut e = owned("invalid ");
        push_str(&mut e, label);
        push_str(&mut e, " `");
        push_str(&mut e, value);
        push_str(&mut e, "`");
        push_str(&mut e, line_suffix(line_number).as_str());
        Err(e)
    }
}

fn nonempty_string(value: &str) -> (r: Option<String>)
    ensures
        match nonempty_spec(value@) {
            Some(v) => r matches Some(s) && s@ == v,
            None => r is None,
        },
{
    if is_empty_str(value) {
        None
    } else {
        Some(owned(value))
    }
}

pub fn parse_line(line_number: usize, line: &str) -> (r: Result<TmuxWindowSnapshot, String>)
    ensures
        match line_reading(line_number as nat, line@) {
            Ok(row) => r matches Ok(s) && row_of(s) == row,
            Err(e) => r matches Err(m) && m@ == e,
        },
{
    let fields = split_char(line, '\t');
    let ghost f = split_spec(line@, '\t');
    assert(fields@.len() == f.len());
    if fields.len() != 6 {
        let mut e = owned("malformed tmux list-windows line ");
        push_decimal(&mut e, line_number as u64);
        push_str(&mut e, ": expected 6 fields, got ");
        push_decimal(&mut e, fields.len() as u64);
        return Err(e);
    }
    proof {
        assert forall|k: int| 0 <= k < 6 implies fields@[k]@ == f[k] by {
            assert(fields@.map_values(|p: String| p@)[k] == fields@[k]@);
        }
    }
    let index = match parse_usize_field(fields[0].as_str(), "window index", line_number) {
        Ok(v) => v,
        Err(e) => return Err(e),
    };
    let active = match parse_tmux_bool(fields[2].as_str(), "window active", line_number) {
        Ok(v) => v,
        Err(e) => return Err(e),
    };
    let pane_pid = match parse_optional_pid(fields[3].as_str(), line_number) {
        Ok(v) => v,
        Err(e) => return Err(e),
    };
    let pane_dead = match parse_tmux_bool(fields[5].as_str(), "pane dead", line_number) {
        Ok(v) => v,
        Err(e) => return Err(e),
    };
    let name = owned(fields[1].as_str());
    let pane_current_command = nonempty_string(fields[4].as_str());
    Ok(TmuxWindowSnapshot { index, name, active, pane_pid, pane_current_command, pane_dead })
}

/// Reads list-windows output: one typed row per non-empty line.
pub fn parse(stdout: &Vec<u8>) -> (r: Result<Vec<TmuxWindowSnapshot>, String>)
    ensures
        match listing_reading(stdout@) {
            Ok(rows) => r matches Ok(v) && rows_of(v@) == rows,
            Err(e) => r matches Err(m) && m@ == e,
        },
{
    let text = lossy_text(stdout, 0, stdout.len());
    assert(stdout@.subrange(0, stdout@.len() as int) =~= stdout@);
    let lines = lines_of_chars(&chars_of(text.as_str()));
    let ghost all = lines@.map_values(|l: String| l@);
    let mut snapshots: Vec<TmuxWindowSnapshot> = Vec::new();
    let mut i: usize = 0;
    assert(all.skip(0) =~= all);
    while i < lines.len()
        invariant
            i <= lines@.len(),
            all == lines@.map_values(|l: String| l@),
            all == lines_of(utf8_lossy(stdout@)),
            lines_reading(all, 0) == match lines_reading(all.skip(i as int), i as nat) {
                Ok(rows) => Ok(rows_of(snapshots@) + rows),
                Err(e) => Err(e),
            },
        decreases lines.len() - i,
    {
        let ghost rest = all.skip(i as int);
        proof {
            assert(rest.drop_first() =~= all.skip(i + 1));
            assert(rest[0] == lines@[i as int]@);
        }
        if !is_empty_str(lines[i].as_str()) {
            match parse_line(i + 1, lines[i].as_str()) {
                Ok(s) => {
                    let ghost before = rows_of(snapshots@);
                    snapshots.push(s);
                    proof {
                        assert(rows_of(snapshots@) =~= before.push(row_of(s)));
                        match lines_reading(all.skip(i + 1), (i + 1) as nat) {
                            Ok(rows) => {
                                assert(before + (seq![row_of(s)] + rows) =~= before.push(row_of(s))
                                    + rows);
                            },
                            Err(_) => {},
                        }
                    }
                },
                Err(e) => {
                    return Err(e);
                },
            }
        }
        i += 1;
    }
    assert(all.skip(i as int) =~= Seq::<Seq<char>>::empty());
    assert(rows_of(snapshots@) + Seq::<WindowRow>::empty() =~= rows_of(snapshots@));
    Ok(snapshots)
}

} // verus!
