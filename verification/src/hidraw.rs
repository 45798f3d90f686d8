//! The Linux hidraw backend: the ioctl request numbers for feature reports,
//! and recognising the keyboard's control interface from the `uevent` text
//! that sysfs gives for each hidraw device.

use vstd::prelude::*;
use crate::protocol::{PRODUCT_ID, VENDOR_ID};
use crate::text::{chars_of, matches_at, occurs_at, parse_i32_chars, parse_integer, seq_contains, str_contains};

verus! {

/// The number of a Linux ioctl request `_IOC(_IOC_WRITE|_IOC_READ, 'H', nr, len)`:
/// direction 3 in bits 30-31, the size shifted to bit 16 (bits above the
/// word are lost), the type 'H' in bits 8-15 and `nr` in bits 0-7.
pub open spec fn hid_ioctl_request(nr: u64, len: u64) -> u64 {
    (3u64 << 30u64) | (len << 16u64) | (72u64 << 8u64) | nr
}

fn hid_ioctl(nr: u64, len: usize) -> (r: u64)
    ensures
        r == hid_ioctl_request(nr, len as u64),
{
    let dir: u64 = 3;
    let typ: u64 = 72;  // b'H'
    let size: u64 = len as u64;
    (dir << 30) | (size << 16) | (typ << 8) | nr
}

/// HIDIOCSFEATURE(len) = _IOC(_IOC_WRITE|_IOC_READ, 'H', 0x06, len)
pub fn hidiocsfeature(len: usize) -> (r: u64)
    ensures
        r == hid_ioctl_request(0x06, len as u64),
{
    hid_ioctl(0x06, len)
}

/// HIDIOCGFEATURE(len) = _IOC(_IOC_WRITE|_IOC_READ, 'H', 0x07, len)
pub fn hidiocgfeature(len: usize) -> (r: u64)
    ensures
        r == hid_ioctl_request(0x07, len as u64),
{
    hid_ioctl(0x07, len)
}

/// For a size that fits the 14-bit size field, the fields of the request
/// number read back as direction 3, the size, type 'H' and `nr`.
pub proof fn lemma_hid_ioctl_fields(nr: u64, len: u64)
    requires
        nr < 256,
        len < 0x4000,
    ensures
        hid_ioctl_request(nr, len) >> 30u64 == 3,
        (hid_ioctl_request(nr, len) >> 16u64) & 0x3FFF == len,
        (hid_ioctl_request(nr, len) >> 8u64) & 0xFF == 72,
        hid_ioctl_request(nr, len) & 0xFF == nr,
{
    assert(((3u64 << 30u64) | (len << 16u64) | (72u64 << 8u64) | nr) >> 30u64 == 3) by (bit_vector)
        requires
            nr < 256,
            len < 0x4000,
    ;
    assert((((3u64 << 30u64) | (len << 16u64) | (72u64 << 8u64) | nr) >> 16u64) & 0x3FFF == len)
        by (bit_vector)
        requires
            nr < 256,
            len < 0x4000,
    ;
    assert((((3u64 << 30u64) | (len << 16u64) | (72u64 << 8u64) | nr) >> 8u64) & 0xFF == 72)
        by (bit_vector)
        requires
            nr < 256,
            len < 0x4000,
    ;
    assert(((3u64 << 30u64) | (len << 16u64) | (72u64 << 8u64) | nr) & 0xFF == nr) by (bit_vector)
        requires
            nr < 256,
            len < 0x4000,
    ;
}

/// An upper-case hexadecimal digit.
pub open spec fn hex_digit_upper(d: int) -> char {
    if d < 10 {
        (48 + d) as char
    } else {
        (55 + d) as char
    }
}

/// The last `n` hexadecimal digits of `v`, upper case, zero padded
/// (`format!("{:0nX}", v)` for a value below 16^n).
pub open spec fn hex_upper(v: nat, n: nat) -> Seq<char>
    decreases n,
{
    if n == 0 {
        Seq::empty()
    } else {
        hex_upper(v / 16, (n - 1) as nat).push(hex_digit_upper((v % 16) as int))
    }
}

/// The line of a hidraw `uevent` that identifies the keyboard:
/// `format!("HID_ID=0003:{:08X}:{:08X}", VENDOR_ID as u32, PRODUCT_ID as u32)`.
pub open spec fn device_id_line() -> Seq<char> {
    "HID_ID=0003:"@ + hex_upper(VENDOR_ID as nat, 8) + ":"@ + hex_upper(PRODUCT_ID as nat, 8)
}

/// The text of `device_id_line`.
pub fn device_id_text() -> (s: &'static str)
    ensures
        s@ == device_id_line(),
{
    proof {
        lemma_device_id_line();
    }
    "HID_ID=0003:00000C45:00008009"
}

/// The identifying line is `HID_ID=0003:00000C45:00008009`: bus 0003 (USB),
/// then the vendor and product ids as eight upper-case hex digits each.
pub proof fn lemma_device_id_line()
    ensures
        device_id_line() == "HID_ID=0003:00000C45:00008009"@,
{
    reveal_strlit("HID_ID=0003:00000C45:00008009");
    reveal_strlit("HID_ID=0003:");
    reveal_strlit(":");
    reveal_with_fuel(hex_upper, 9);
    assert(hex_upper(0x0C45, 8) =~= seq!['0', '0', '0', '0', '0', 'C', '4', '5']);
    assert(hex_upper(0x8009, 8) =~= seq!['0', '0', '0', '0', '8', '0', '0', '9']);
    assert("HID_ID=0003:00000C45:00008009"@ =~= device_id_line());
}

/// The index of the first line feed in `s` at or after `i`, or the length of `s`.
pub open spec fn newline_from(s: Seq<char>, i: int) -> int
    decreases s.len() - i,
{
    if i < 0 || i >= s.len() {
        s.len() as int
    } else if s[i] == '\n' {
        i
    } else {
        newline_from(s, i + 1)
    }
}

/// The line that starts at `start` and ends at `end` (a line feed or the end
/// of the text), as `str::lines` gives it: without its line feed, and without
/// a carriage return before that line feed.
pub open spec fn line_text(s: Seq<char>, start: int, end: int) -> Seq<char> {
    let raw = s.subrange(start, end);
    if end < s.len() && raw.len() > 0 && raw.last() == '\r' {
        raw.drop_last()
    } else {
        raw
    }
}

/// `line` starts with `prefix`.
pub open spec fn starts_with(line: Seq<char>, prefix: Seq<char>) -> bool {
    occurs_at(line, prefix, 0)
}

/// The first of the lines of `s` from offset `start` on that starts with
/// `prefix` (`s.lines().find(|l| l.starts_with(prefix))`).
pub open spec fn first_line_with_prefix(s: Seq<char>, prefix: Seq<char>, start: int) -> Option<
    Seq<char>,
>
    decreases s.len() - start,
{
    if start < 0 || start >= s.len() {
        None
    } else {
        let end = newline_from(s, start);
        proof {
            lemma_newline_from_bounds(s, start);
        }
        if starts_with(line_text(s, start, end), prefix) {
            Some(line_text(s, start, end))
        } else if end >= s.len() {
            None
        } else {
            first_line_with_prefix(s, prefix, end + 1)
        }
    }
}

/// The largest position at or below `i` where `t` occurs in `s`, or -1.
pub open spec fn last_occurrence_from(s: Seq<char>, t: Seq<char>, i: int) -> int
    decreases i + 1,
{
    if i < 0 {
        -1
    } else if occurs_at(s, t, i) {
        i
    } else {
        last_occurrence_from(s, t, i - 1)
    }
}

/// What follows the last occurrence of `t` in `s`, or all of `s` when `t`
/// does not occur (`s.rsplit(t).next()`).
pub open spec fn after_last(s: Seq<char>, t: Seq<char>) -> Seq<char> {
    let k = last_occurrence_from(s, t, s.len() - t.len());
    if k >= 0 {
        s.subrange(k + t.len(), s.len() as int)
    } else {
        s
    }
}

/// The USB interface number that a hidraw `uevent` records: the number after
/// the last "/input" of its first `HID_PHYS=` line, when that parses as an `i32`.
pub open spec fn uevent_interface_spec(uevent: Seq<char>) -> Option<int> {
    match first_line_with_prefix(uevent, "HID_PHYS="@, 0) {
        Some(line) => parse_integer(
            after_last(line, "/input"@),
            i32::MIN as int,
            i32::MAX as int,
        ),
        None => None,
    }
}

/// The line feed found from `i` on lies between `i` and the end.
pub proof fn lemma_newline_from_bounds(s: Seq<char>, i: int)
    requires
        0 <= i <= s.len(),
    ensures
        i <= newline_from(s, i) <= s.len(),
        newline_from(s, i) < s.len() ==> s[newline_from(s, i)] == '\n',
    decreases s.len() - i,
{
    if i < s.len() && s[i] != '\n' {
        lemma_newline_from_bounds(s, i + 1);
    }
}

/// The first line of `s` that starts with `prefix` (`s.lines().find(..)`).
fn find_line_with_prefix(s: &Vec<char>, prefix: &Vec<char>) -> (r: Option<Vec<char>>)
    ensures
        r matches Some(l) ==> first_line_with_prefix(s@, prefix@, 0) == Some(l@),
        r is None ==> first_line_with_prefix(s@, prefix@, 0) is None,
{
    let mut start: usize = 0;
    while start < s.len()
        invariant
            start <= s.len(),
            first_line_with_prefix(s@, prefix@, 0) == first_line_with_prefix(
                s@,
                prefix@,
                start as int,
            ),
        decreases s.len() - start,
    {
        let mut end: usize = start;
        while end < s.len() && s[end] != '\n'
            invariant
                start <= end <= s.len(),
                newline_from(s@, start as int) == newline_from(s@, end as int),
            decreases s.len() - end,
        {
            end = end + 1;
        }
        proof {
            lemma_newline_from_bounds(s@, start as int);
        }
        assert(newline_from(s@, start as int) == end);
        let mut line_end = end;
        if end < s.len() && end > start && s[end - 1] == '\r' {
            line_end = end - 1;
        }
        let mut line: Vec<char> = Vec::new();
        let mut k: usize = start;
        while k < line_end
            invariant
                start <= k <= line_end <= s.len(),
                line@ == s@.subrange(start as int, k as int),
            decreases line_end - k,
        {
            line.push(s[k]);
            k = k + 1;
            assert(line@ =~= s@.subrange(start as int, k as int));
        }
        assert(line@ =~= line_text(s@, start as int, end as int));
        if matches_at(&line, prefix, 0) {
            return Some(line);
        }
        if end >= s.len() {
            return None;
        }
        start = end + 1;
    }
    None
}

/// What follows the last occurrence of `t` in `s`, or all of `s`.
fn text_after_last(s: &Vec<char>, t: &Vec<char>) -> (r: Vec<char>)
    ensures
        r@ == after_last(s@, t@),
{
    let mut found: bool = false;
    let mut k: usize = 0;
    if t.len() <= s.len() {
        let mut i: usize = s.len() - t.len();
        loop
            invariant_except_break
                !found,
            invariant
                t.len() <= s.len(),
                i <= s.len() - t.len(),
                last_occurrence_from(s@, t@, s.len() - t.len()) == last_occurrence_from(
                    s@,
                    t@,
                    i as int,
                ),
            ensures
                found ==> occurs_at(s@, t@, k as int),
                found ==> last_occurrence_from(s@, t@, s.len() - t.len()) == k,
                !found ==> last_occurrence_from(s@, t@, s.len() - t.len()) == -1,
            decreases i,
        {
            if matches_at(s, t, i) {
                found = true;
                k = i;
                break;
            }
            if i == 0 {
                assert(last_occurrence_from(s@, t@, -1) == -1);
                break;
            }
            i = i - 1;
        }
    } else {
        assert(last_occurrence_from(s@, t@, s.len() - t.len()) == -1);
    }
    if found {
        let mut r: Vec<char> = Vec::new();
        let mut j: usize = k + t.len();
        assert(occurs_at(s@, t@, k as int));
        while j < s.len()
            invariant
                k + t.len() <= j <= s.len(),
                r@ == s@.subrange(k + t.len(), j as int),
            decreases s.len() - j,
        {
            r.push(s[j]);
            j = j + 1;
            assert(r@ =~= s@.subrange(k + t.len(), j as int));
        }
        r
    } else {
        s.clone()
    }
}

/// The USB interface number that a hidraw `uevent` records, if any.
pub fn uevent_interface(uevent: &str) -> (r: Option<i32>)
    ensures
        r matches Some(v) ==> uevent_interface_spec(uevent@) == Some(v as int),
        r is None ==> uevent_interface_spec(uevent@) is None,
{
    let s = chars_of(uevent);
    let prefix = chars_of("HID_PHYS=");
    match find_line_with_prefix(&s, &prefix) {
        Some(line) => {
            let marker = chars_of("/input");
            let tail = text_after_last(&line, &marker);
            parse_i32_chars(&tail)
        },
        None => None,
    }
}

/// Whether a hidraw device with this `uevent` is the keyboard's interface
/// `iface`: the text holds the keyboard's `HID_ID` line and records
/// interface `iface`.
pub fn uevent_selects(uevent: &str, iface: i32) -> (r: bool)
    ensures
        r == (seq_contains(uevent@, device_id_line()) && uevent_interface_spec(uevent@) == Some(
            iface as int,
        )),
{
    let s = chars_of(uevent);
    if !str_contains(&s, device_id_text()) {
        return false;
    }
    match uevent_interface(uevent) {
        Some(v) => v == iface,
        None => false,
    }
}

} // verus!
