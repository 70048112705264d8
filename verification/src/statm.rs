//! Resident-memory figure from the text of a process status line: the
//! second whitespace-separated field is a page count, and the resident
//! size is that count times the page size. A line without a readable
//! second field, or one whose byte size cannot be represented, yields
//! 0, which reports the figure as unmeasured.

use vstd::prelude::*;

verus! {

/// Bytes per page assumed for the page count.
pub const PAGE_SIZE: u64 = 4096;

/// ASCII whitespace: space or one of the control characters tab through
/// carriage return.
pub open spec fn spec_is_ws(b: u8) -> bool {
    b == 32 || (9 <= b && b <= 13)
}

/// ASCII decimal digit.
pub open spec fn spec_is_digit(b: u8) -> bool {
    48 <= b && b <= 57
}

/// First position at or after `i` that is not whitespace (or the end).
pub open spec fn spec_skip_ws(s: Seq<u8>, i: nat) -> nat
    decreases s.len() - i,
{
    if i >= s.len() {
        s.len()
    } else if spec_is_ws(s[i as int]) {
        spec_skip_ws(s, i + 1)
    } else {
        i
    }
}

/// First position at or after `i` that is whitespace (or the end).
pub open spec fn spec_skip_field(s: Seq<u8>, i: nat) -> nat
    decreases s.len() - i,
{
    if i >= s.len() {
        s.len()
    } else if !spec_is_ws(s[i as int]) {
        spec_skip_field(s, i + 1)
    } else {
        i
    }
}

/// Whether every byte of `s[i..j]` is a digit.
pub open spec fn spec_all_digits(s: Seq<u8>, i: nat, j: nat) -> bool {
    forall|m: int| i <= m < j ==> spec_is_digit(#[trigger] s[m])
}

/// Decimal value of `s[i..j]` read left to right.
pub open spec fn spec_digits_value(s: Seq<u8>, i: nat, j: nat) -> int
    decreases j - i,
{
    if j <= i || j > s.len() {
        0
    } else {
        spec_digits_value(s, i, (j - 1) as nat) * 10 + (s[j - 1] as int - 48)
    }
}

/// Start of the second whitespace-separated field.
pub open spec fn spec_second_field_start(s: Seq<u8>) -> nat {
    spec_skip_ws(s, spec_skip_field(s, spec_skip_ws(s, 0)))
}

/// End of the second whitespace-separated field.
pub open spec fn spec_second_field_end(s: Seq<u8>) -> nat {
    spec_skip_field(s, spec_second_field_start(s))
}

/// The resident size read from a status line: the second field as a
/// page count times the page size, or 0 when the field is missing, not
/// a number, or too large to represent.
pub open spec fn spec_statm_resident_bytes(s: Seq<u8>) -> u64 {
    let a = spec_second_field_start(s);
    let b = spec_second_field_end(s);
    let v = spec_digits_value(s, a, b);
    if a < b && spec_all_digits(s, a, b) && v <= u64::MAX && v * PAGE_SIZE <= u64::MAX {
        (v * PAGE_SIZE) as u64
    } else {
        0
    }
}

/// A run of digits has a nonnegative value.
proof fn lemma_digits_value_nonneg(s: Seq<u8>, i: nat, j: nat)
    requires
        spec_all_digits(s, i, j),
    ensures
        spec_digits_value(s, i, j) >= 0,
    decreases j - i,
{
    if j > i && j <= s.len() {
        lemma_digits_value_nonneg(s, i, (j - 1) as nat);
    }
}

/// Reading further digits never shrinks the value.
proof fn lemma_digits_value_monotone(s: Seq<u8>, i: nat, j: nat, j2: nat)
    requires
        i <= j <= j2 <= s.len(),
        spec_all_digits(s, i, j2),
    ensures
        spec_digits_value(s, i, j) <= spec_digits_value(s, i, j2),
    decreases j2 - j,
{
    if j < j2 {
        lemma_digits_value_monotone(s, i, j, (j2 - 1) as nat);
        lemma_digits_value_nonneg(s, i, (j2 - 1) as nat);
    }
}

fn is_ws_byte(b: u8) -> (r: bool)
    ensures
        r == spec_is_ws(b),
{
    b == 32 || (9 <= b && b <= 13)
}

fn is_digit_byte(b: u8) -> (r: bool)
    ensures
        r == spec_is_digit(b),
{
    48 <= b && b <= 57
}

/// Read the resident size out of a status line's bytes.
pub fn statm_resident_bytes(data: &Vec<u8>) -> (r: u64)
    ensures
        r == spec_statm_resident_bytes(data@),
{
    let ghost s = data@;
    let n = data.len();
    // Skip whitespace before the first field.
    let mut i: usize = 0;
    loop
        invariant
            i <= n,
            n == s.len(),
            s == data@,
            spec_skip_ws(s, 0) == spec_skip_ws(s, i as nat),
        ensures
            i == spec_skip_ws(s, 0),
            i <= n,
        decreases n - i,
    {
        if i >= n {
            break ;
        }
        if !is_ws_byte(data[i]) {
            break ;
        }
        i = i + 1;
    }
    // Skip the first field.
    loop
        invariant
            i <= n,
            n == s.len(),
            s == data@,
            spec_skip_field(s, spec_skip_ws(s, 0)) == spec_skip_field(s, i as nat),
        ensures
            i == spec_skip_field(s, spec_skip_ws(s, 0)),
            i <= n,
        decreases n - i,
    {
        if i >= n {
            break ;
        }
        if is_ws_byte(data[i]) {
            break ;
        }
        i = i + 1;
    }
    // Skip whitespace before the second field.
    loop
        invariant
            i <= n,
            n == s.len(),
            s == data@,
            spec_second_field_start(s) == spec_skip_ws(s, i as nat),
        ensures
            i == spec_second_field_start(s),
            i <= n,
        decreases n - i,
    {
        if i >= n {
            break ;
        }
        if !is_ws_byte(data[i]) {
            break ;
        }
        i = i + 1;
    }
    let ghost a = spec_second_field_start(s);
    // Read the second field as a decimal page count.
    let mut j: usize = i;
    let mut val: u64 = 0;
    let mut ok = true;
    loop
        invariant
            i <= j <= n,
            n == s.len(),
            s == data@,
            a == spec_second_field_start(s),
            i == a,
            spec_second_field_end(s) == spec_skip_field(s, j as nat),
            ok ==> spec_all_digits(s, a, j as nat) && val == spec_digits_value(s, a, j as nat),
            !ok ==> !spec_all_digits(s, a, j as nat) || spec_digits_value(s, a, j as nat)
                > u64::MAX,
        ensures
            i <= j <= n,
            j == spec_second_field_end(s),
            ok ==> spec_all_digits(s, a, j as nat) && val == spec_digits_value(s, a, j as nat),
            !ok ==> !spec_all_digits(s, a, j as nat) || spec_digits_value(s, a, j as nat)
                > u64::MAX,
        decreases n - j,
    {
        if j >= n {
            break ;
        }
        let b = data[j];
        if is_ws_byte(b) {
            break ;
        }
        let ghost val_pre = spec_digits_value(s, a, j as nat);
        if ok {
            if is_digit_byte(b) {
                let d: u64 = (b - 48) as u64;
                if val <= (u64::MAX - d) / 10 {
                    val = val * 10 + d;
                } else {
                    ok = false;
                    proof {
                        assert(val_pre * 10 + d > u64::MAX);
                    }
                }
            } else {
                ok = false;
            }
        } else {
            proof {
                if spec_all_digits(s, a, j as nat) && spec_is_digit(s[j as int]) {
                    lemma_digits_value_monotone(s, a, j as nat, (j + 1) as nat);
                }
            }
        }
        j = j + 1;
    }
    if !ok || j == i {
        return 0;
    }
    // val holds the page count; scale it to bytes if that fits.
    if val <= u64::MAX / PAGE_SIZE {
        val * PAGE_SIZE
    } else {
        0
    }
}

} // verus!
