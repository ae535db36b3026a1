//! Reading what the download program prints while it works.
//!
//! A status line begins with `[#` and gives the progress in percent between
//! its first opening bracket and its first percent sign, as in
//! `[#2089b0 400.0KiB/33.2MiB(1%) CN:1 DL:115.7KiB ETA:4m51s]`.

use crate::search::{find_chars, occurs};
use crate::text::{chars_of, string_of};
use vstd::prelude::*;

verus! {

/// `i` is the first place at which `line` holds `c`.
pub open spec fn first_index(line: Seq<char>, c: char, i: int) -> bool {
    &&& 0 <= i < line.len()
    &&& line[i] == c
    &&& forall|j: int| 0 <= j < i ==> line[j] != c
}

/// The line reports progress: it is a status line with a bracket before
/// its percent sign.
pub open spec fn reports_progress(line: Seq<char>, open: int, close: int) -> bool {
    &&& line.len() >= 2
    &&& line[0] == '['
    &&& line[1] == '#'
    &&& first_index(line, '(', open)
    &&& first_index(line, '%', close)
    &&& open < close
}

/// The progress that a line reports, as it is written: what stands between
/// the first opening bracket and the first percent sign of a status line.
/// Any other line reports none.
pub open spec fn progress_field_spec(line: Seq<char>) -> Option<Seq<char>> {
    if exists|open: int, close: int| reports_progress(line, open, close) {
        let (open, close) = choose|open: int, close: int| reports_progress(line, open, close);
        Some(line.subrange(open + 1, close))
    } else {
        None
    }
}

fn index_of(line: &Vec<char>, c: char) -> (found: Option<usize>)
    ensures
        match found {
            Some(i) => first_index(line@, c, i as int),
            None => forall|j: int| 0 <= j < line@.len() ==> line@[j] != c,
        },
{
    let mut i: usize = 0;
    while i < line.len()
        invariant
            i <= line.len(),
            forall|j: int| 0 <= j < i ==> line@[j] != c,
        decreases line.len() - i,
    {
        if line[i] == c {
            return Some(i);
        }
        i += 1;
    }
    None
}

/// The progress that a line of the download program reports, as written.
pub fn progress_field(line: &str) -> (field: Option<String>)
    ensures
        field.deep_view() == progress_field_spec(line@),
{
    let chars = chars_of(line);
    if chars.len() < 2 || chars[0] != '[' || chars[1] != '#' {
        return None;
    }
    let open = match index_of(&chars, '(') {
        Some(open) => open,
        None => {
            return None;
        },
    };
    let close = match index_of(&chars, '%') {
        Some(close) => close,
        None => {
            return None;
        },
    };
    if open >= close {
        return None;
    }
    let mut field: Vec<char> = Vec::new();
    let mut i: usize = open + 1;
    while i < close
        invariant
            open < i <= close < chars.len(),
            field@ == chars@.subrange(open + 1, i as int),
        decreases close - i,
    {
        field.push(chars[i]);
        i += 1;
        assert(field@ =~= chars@.subrange(open + 1, i as int));
    }
    proof {
        assert(reports_progress(line@, open as int, close as int));
        let (o, c) = choose|o: int, c: int| reports_progress(line@, o, c);
        assert(o == open && c == close);
    }
    Some(string_of(&field))
}

/// Whether a line of the download program says that the download is done.
pub fn is_completion(line: &str) -> (b: bool)
    ensures
        b == occurs(line@, "download completed"@),
{
    let chars = chars_of(line);
    let words = chars_of("download completed");
    find_chars(chars.as_slice(), words.as_slice()).is_some()
}

} // verus!
