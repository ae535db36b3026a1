//! Telling from the game's files whether the mod loader is installed, and in
//! which build.
//!
//! A patched game file holds the text `EverestBuild` followed by the build
//! number in decimal and a zero byte.

use crate::search::{find_bytes, first_occurrence, occurs};
use vstd::prelude::*;
use vstd::string::{is_ascii_spec_bytes, StringSliceAdditionalSpecFns};

verus! {

/// The byte `+`.
pub const PLUS: u8 = 43;

/// The byte `-`.
pub const MINUS: u8 = 45;

/// The byte `0`.
pub const DIGIT_ZERO: u8 = 48;

/// The byte `9`.
pub const DIGIT_NINE: u8 = 57;

/// The bytes of a text of ASCII characters.
pub open spec fn ascii_bytes(text: Seq<char>) -> Seq<u8> {
    Seq::new(text.len(), |i: int| text[i] as u8)
}

/// The text that stands before the build number.
pub open spec fn build_mark() -> Seq<u8> {
    ascii_bytes("EverestBuild"@)
}

/// A text that only the game's own executable holds: one that was never
/// patched, or the copy that patching keeps of it.
pub open spec fn vanilla_mark() -> Seq<u8> {
    ascii_bytes("_StarJumpEnd+<StartCirclingPlayer>"@)
}

/// `end` is the first place from `start` on at which `data` holds a zero.
pub open spec fn first_zero(data: Seq<u8>, start: int, end: int) -> bool {
    &&& start <= end < data.len()
    &&& data[end] == 0
    &&& forall|j: int| start <= j < end ==> data[j] != 0
}

pub open spec fn is_decimal(digits: Seq<u8>) -> bool {
    forall|i: int| 0 <= i < digits.len() ==> DIGIT_ZERO <= #[trigger] digits[i] <= DIGIT_NINE
}

/// The number that a run of decimal digits writes.
pub open spec fn decimal_value(digits: Seq<u8>) -> nat
    decreases digits.len(),
{
    if digits.len() == 0 {
        0
    } else {
        decimal_value(digits.drop_last()) * 10 + (digits.last() - DIGIT_ZERO) as nat
    }
}

/// The 32-bit integer that `text` writes: a plus or minus sign or none,
/// then one decimal digit or more, and a value that such an integer holds.
pub open spec fn integer_of(text: Seq<u8>) -> Option<i32> {
    let signed = text.len() > 0 && (text[0] == PLUS || text[0] == MINUS);
    let digits = if signed {
        text.skip(1)
    } else {
        text
    };
    let value = if signed && text[0] == MINUS {
        -(decimal_value(digits) as int)
    } else {
        decimal_value(digits) as int
    };
    if digits.len() > 0 && is_decimal(digits) && i32::MIN <= value <= i32::MAX {
        Some(value as i32)
    } else {
        None
    }
}

/// The build number that a game file gives: the integer between the first
/// build mark and the first zero byte after it. A file without the mark,
/// without a zero byte after it, or with anything but an integer between
/// the two, gives none.
pub open spec fn build_number_spec(data: Seq<u8>) -> Option<i32> {
    if exists|pos: int, end: int|
        first_occurrence(data, build_mark(), pos) && first_zero(data, pos, end) {
        let (pos, end) = choose|pos: int, end: int|
            first_occurrence(data, build_mark(), pos) && first_zero(data, pos, end);
        integer_of(data.subrange(pos + build_mark().len(), end))
    } else {
        None
    }
}

/// Whether the library of the game has to be asked for the build: the
/// executable could not be read, or it gives no build and is not the game's
/// own.
pub open spec fn library_is_asked_spec(exe: Option<Seq<u8>>) -> bool {
    match exe {
        Some(data) => build_number_spec(data) is None && !occurs(data, vanilla_mark()),
        None => true,
    }
}

/// The build of the mod loader that a game folder holds, from what could be
/// read of its executable and of its library. The executable is asked first.
/// Where it gives no build and is the game's own, the library is not asked.
pub open spec fn everest_version_spec(exe: Option<Seq<u8>>, dll: Option<Seq<u8>>) -> Option<i32> {
    if library_is_asked_spec(exe) {
        match dll {
            Some(data) => build_number_spec(data),
            None => None,
        }
    } else {
        build_number_spec(exe->Some_0)
    }
}

/// Where the library is not asked, what it holds changes nothing: it need
/// not be read.
pub proof fn law_library_that_is_not_asked(
    exe: Option<Seq<u8>>,
    dll: Option<Seq<u8>>,
    other: Option<Seq<u8>>,
)
    requires
        !library_is_asked_spec(exe),
    ensures
        everest_version_spec(exe, dll) == everest_version_spec(exe, other),
{
}

/// What could be read of a file, as plain bytes.
pub open spec fn bytes_read(file: Option<&[u8]>) -> Option<Seq<u8>> {
    match file {
        Some(data) => Some(data@),
        None => None,
    }
}

proof fn lemma_decimal_value_grows(digits: Seq<u8>, k: int)
    requires
        is_decimal(digits),
        0 <= k <= digits.len(),
    ensures
        decimal_value(digits.take(k)) <= decimal_value(digits),
    decreases digits.len() - k,
{
    if k < digits.len() {
        let longer = digits.take(k + 1);
        assert(longer.drop_last() =~= digits.take(k));
        assert(longer.last() == digits[k]);
        lemma_decimal_value_grows(digits, k + 1);
    } else {
        assert(digits.take(k) =~= digits);
    }
}

fn build_mark_bytes() -> (mark: &'static [u8])
    ensures
        mark@ == build_mark(),
        mark@.len() == 12,
        forall|i: int| 0 <= i < mark@.len() ==> mark@[i] != 0,
{
    let text = "EverestBuild";
    proof {
        reveal_strlit("EverestBuild");
        is_ascii_spec_bytes(text);
        assert(text.spec_bytes() =~= build_mark());
    }
    text.as_bytes()
}

fn vanilla_mark_bytes() -> (mark: &'static [u8])
    ensures
        mark@ == vanilla_mark(),
{
    let text = "_StarJumpEnd+<StartCirclingPlayer>";
    proof {
        reveal_strlit("_StarJumpEnd+<StartCirclingPlayer>");
        is_ascii_spec_bytes(text);
        assert(text.spec_bytes() =~= vanilla_mark());
    }
    text.as_bytes()
}

/// The 32-bit integer that the bytes from `start` up to `end` write.
fn parse_integer(data: &[u8], start: usize, end: usize) -> (r: Option<i32>)
    requires
        start <= end <= data@.len(),
    ensures
        r == integer_of(data@.subrange(start as int, end as int)),
{
    let ghost text = data@.subrange(start as int, end as int);
    if start == end {
        return None;
    }
    assert(text[0] == data@[start as int]);
    let negative = data[start] == MINUS;
    let first = if data[start] == PLUS || data[start] == MINUS {
        start + 1
    } else {
        start
    };
    let ghost digits = data@.subrange(first as int, end as int);
    assert(digits =~= if first > start {
        text.skip(1)
    } else {
        text
    });
    if first == end {
        return None;
    }
    let mut value: i64 = 0;
    let mut i: usize = first;
    assert(digits.take(0) =~= Seq::<u8>::empty());
    while i < end
        invariant
            start <= first <= i <= end <= data@.len(),
            text == data@.subrange(start as int, end as int),
            first > start <==> text.len() > 0 && (text[0] == PLUS || text[0] == MINUS),
            digits == data@.subrange(first as int, end as int),
            digits == if first > start {
                text.skip(1)
            } else {
                text
            },
            is_decimal(digits.take(i - first)),
            value == decimal_value(digits.take(i - first)),
            value <= 2147483648,
        decreases end - i,
    {
        let byte = data[i];
        assert(digits[i - first] == byte);
        if byte < DIGIT_ZERO || byte > DIGIT_NINE {
            assert(!is_decimal(digits));
            return None;
        }
        let ghost longer = digits.take(i - first + 1);
        assert(longer.drop_last() =~= digits.take(i - first));
        assert(longer.last() == byte);
        value = value * 10 + (byte - DIGIT_ZERO) as i64;
        if value > 2147483648 {
            proof {
                if is_decimal(digits) {
                    lemma_decimal_value_grows(digits, i - first + 1);
                    assert(decimal_value(digits) > 2147483648);
                }
            }
            return None;
        }
        i += 1;
    }
    assert(digits.take(end - first) =~= digits);
    if negative {
        Some((-value) as i32)
    } else if value <= 2147483647 {
        Some(value as i32)
    } else {
        None
    }
}

/// The build number that a game file gives.
pub fn build_number(data: &[u8]) -> (build: Option<i32>)
    ensures
        build == build_number_spec(data@),
{
    let mark = build_mark_bytes();
    let pos = match find_bytes(data, mark) {
        Some(pos) => pos,
        None => {
            return None;
        },
    };
    let mut end: usize = pos;
    while end < data.len() && data[end] != 0
        invariant
            pos <= end <= data@.len(),
            forall|j: int| pos <= j < end ==> data@[j] != 0,
        decreases data.len() - end,
    {
        end += 1;
    }
    if end == data.len() {
        assert forall|p: int, e: int|
            first_occurrence(data@, build_mark(), p) implies !first_zero(data@, p, e) by {
            assert(p == pos);
        }
        return None;
    }
    proof {
        assert(first_zero(data@, pos as int, end as int));
        let (p, e) = choose|p: int, e: int|
            first_occurrence(data@, build_mark(), p) && first_zero(data@, p, e);
        assert(p == pos);
        assert(e == end);
        assert forall|j: int| pos <= j < pos + 12 implies #[trigger] data@[j] != 0 by {
            assert(data@.subrange(pos as int, pos + 12)[j - pos] == mark@[j - pos]);
        }
    }
    parse_integer(data, pos + mark.len(), end)
}

/// Whether `data` is the game's own executable.
pub fn is_vanilla_executable(data: &[u8]) -> (b: bool)
    ensures
        b == occurs(data@, vanilla_mark()),
{
    find_bytes(data, vanilla_mark_bytes()).is_some()
}

/// Whether the library of the game has to be read to tell the build, from
/// what could be read of the executable.
pub fn library_is_asked(exe: Option<&[u8]>) -> (asked: bool)
    ensures
        asked == library_is_asked_spec(bytes_read(exe)),
{
    match exe {
        Some(data) => build_number(data).is_none() && !is_vanilla_executable(data),
        None => true,
    }
}

/// The build of the mod loader in a game folder, from the bytes of the
/// game's executable and of its library, each as far as it could be read.
pub fn get_everest_version(exe: Option<&[u8]>, dll: Option<&[u8]>) -> (version: Option<i32>)
    ensures
        version == everest_version_spec(bytes_read(exe), bytes_read(dll)),
{
    if library_is_asked(exe) {
        match dll {
            Some(data) => build_number(data),
            None => None,
        }
    } else {
        match exe {
            Some(data) => build_number(data),
            None => None,
        }
    }
}

/// The installer of the mod loader for each processor family that has one.
pub open spec fn installer_name_spec(arch: Seq<char>) -> Option<Seq<char>> {
    if arch == "x86_64"@ {
        Some("MiniInstaller-win64.exe"@)
    } else if arch == "x86"@ {
        Some("MiniInstaller-win.exe"@)
    } else {
        None
    }
}

/// The name of the installer of the mod loader for a processor family, where
/// there is one for it.
pub fn installer_name(arch: &str) -> (name: Option<&'static str>)
    ensures
        name.deep_view() == installer_name_spec(arch@),
{
    let arch = arch.to_owned();
    if arch == "x86_64".to_owned() {
        Some("MiniInstaller-win64.exe")
    } else if arch == "x86".to_owned() {
        Some("MiniInstaller-win.exe")
    } else {
        None
    }
}

} // verus!
