//! Formatting of a reading for the display, into a fixed-capacity text
//! buffer of 16 bytes with no dynamic allocation. The temperature is
//! rendered to one decimal place, ties rounding to even, behind the
//! fixed prefix `Temp: `. The buffer never overflows: the longest
//! rendering of any 16-bit reading is 13 bytes.

use vstd::prelude::*;

verus! {

/// The fixed-capacity byte string of the outside crate that holds the
/// formatted text. Opaque here: its contents are reached through
/// `hstring_bytes` and the trusted operations below.
#[verifier::external_type_specification]
#[verifier::external_body]
pub struct ExHeaplessString<const N: usize>(heapless::String<N>);

/// The bytes a fixed-capacity string holds, in order.
pub uninterp spec fn hstring_bytes(s: heapless::String<16>) -> Seq<u8>;

/// Relies on heapless::String::new: a fresh string is empty.
#[verifier::external_body]
pub fn hstring_new() -> (s: heapless::String<16>)
    ensures
        hstring_bytes(s) == Seq::<u8>::empty(),
{
    heapless::String::new()
}

/// Relies on heapless::String::push: a one-byte character is appended
/// when there is room, and the string is left unchanged, with an error,
/// when it is full.
#[verifier::external_body]
pub fn hstring_push(s: &mut heapless::String<16>, c: char) -> (r: Result<(), ()>)
    requires
        (c as u32) < 128,
    ensures
        hstring_bytes(*final(s)) == (if hstring_bytes(*old(s)).len() < 16 {
            hstring_bytes(*old(s)).push(c as u8)
        } else {
            hstring_bytes(*old(s))
        }),
        r == (if hstring_bytes(*old(s)).len() < 16 {
            Ok::<(), ()>(())
        } else {
            Err::<(), ()>(())
        }),
{
    s.push(c)
}

/// Relies on heapless::String::push_str: the bytes of the argument are
/// appended whole when they all fit, and the string is left unchanged,
/// with an error, when they do not.
#[verifier::external_body]
pub fn hstring_push_str(s: &mut heapless::String<16>, t: &str) -> (r: Result<(), ()>)
    requires
        forall|i: int| 0 <= i < t@.len() ==> (t@[i] as u32) < 128,
    ensures
        hstring_bytes(*final(s)) == (if hstring_bytes(*old(s)).len() + t@.len() <= 16 {
            hstring_bytes(*old(s)) + ascii_bytes(t@)
        } else {
            hstring_bytes(*old(s))
        }),
        r == (if hstring_bytes(*old(s)).len() + t@.len() <= 16 {
            Ok::<(), ()>(())
        } else {
            Err::<(), ()>(())
        }),
{
    s.push_str(t)
}

/// The bytes of a sequence of ASCII characters.
pub open spec fn ascii_bytes(s: Seq<char>) -> Seq<u8> {
    s.map_values(|c: char| c as u8)
}

/// Tenths of a degree nearest to `m` sixteenths, ties rounding to even.
pub open spec fn tenths_magnitude(m: nat) -> nat {
    let q = (m * 10) / 16;
    let r = (m * 10) % 16;
    if r > 8 || (r == 8 && q % 2 == 1) {
        q + 1
    } else {
        q
    }
}

/// Tenths of a degree nearest to `raw` sixteenths, ties rounding to
/// even. Rounding to even is symmetric, so a negative reading rounds as
/// the negation of its magnitude.
pub open spec fn tenths_of(raw: int) -> int {
    if raw >= 0 {
        tenths_magnitude(raw as nat) as int
    } else {
        -(tenths_magnitude((-raw) as nat) as int)
    }
}

/// The decimal digits of `n`, as ASCII bytes, most significant first.
pub open spec fn dec_digits(n: nat) -> Seq<u8>
    decreases n,
{
    if n < 10 {
        seq![(48 + n) as u8]
    } else {
        dec_digits(n / 10).push((48 + n % 10) as u8)
    }
}

/// The full rendering of a reading of `raw` sixteenths: the prefix
/// `Temp: `, a minus sign when the rounded value is below zero, the whole
/// tenths split around a decimal point.
pub open spec fn temp_text_bytes(raw: int) -> Seq<u8> {
    let t = tenths_of(raw);
    let mag = (if t < 0 {
        -t
    } else {
        t
    }) as nat;
    let digits = dec_digits(mag / 10) + seq![46u8] + seq![(48 + mag % 10) as u8];
    ascii_bytes("Temp: "@) + (if t < 0 {
        seq![45u8] + digits
    } else {
        digits
    })
}

/// `dec_digits` of a bound value is short: below `10^k`, at most `k`
/// digits.
proof fn lemma_dec_digits_len(n: nat, k: nat)
    requires
        1 <= k,
        n < pow10(k),
    ensures
        dec_digits(n).len() >= 1,
        dec_digits(n).len() <= k,
    decreases k,
{
    if n >= 10 {
        assert(pow10(0) == 1);
        assert(pow10(1) == 10 * pow10(0));
        assert(k >= 2);
        assert(pow10(k) == 10 * pow10((k - 1) as nat));
        lemma_dec_digits_len(n / 10, (k - 1) as nat);
    }
}

/// Powers of ten.
pub open spec fn pow10(k: nat) -> nat
    decreases k,
{
    if k == 0 {
        1
    } else {
        10 * pow10((k - 1) as nat)
    }
}

/// Append the decimal digits of `n`, most significant first.
fn push_decimal(buf: &mut heapless::String<16>, n: u32)
    requires
        hstring_bytes(*old(buf)).len() + dec_digits(n as nat).len() <= 16,
    ensures
        hstring_bytes(*final(buf)) == hstring_bytes(*old(buf)) + dec_digits(n as nat),
    decreases n,
{
    if n >= 10 {
        push_decimal(buf, n / 10);
        let d: u8 = (n % 10) as u8;
        proof {
            assert(((48 + d) as char) as u32 == (48 + d) as u32);
        }
        let _ok = hstring_push(buf, (48 + d) as char);
        proof {
            assert(hstring_bytes(*buf) =~= hstring_bytes(*old(buf)) + dec_digits(n as nat));
        }
    } else {
        let d: u8 = n as u8;
        proof {
            assert(((48 + d) as char) as u32 == (48 + d) as u32);
        }
        let _ok = hstring_push(buf, (48 + d) as char);
        proof {
            assert(hstring_bytes(*buf) =~= hstring_bytes(*old(buf)) + dec_digits(n as nat));
        }
    }
}

/// The fixed banner written to the display's first line.
pub open spec fn banner_bytes() -> Seq<u8> {
    ascii_bytes("## TINKERBELL ##"@)
}

/// Build the banner line in a fixed-capacity buffer. It is exactly 16
/// bytes, so it fills the buffer whole.
pub fn banner() -> (s: heapless::String<16>)
    ensures
        hstring_bytes(s) == banner_bytes(),
{
    let mut buf = hstring_new();
    proof {
        reveal_strlit("## TINKERBELL ##");
        assert("## TINKERBELL ##"@ =~= seq![
            '#', '#', ' ', 'T', 'I', 'N', 'K', 'E', 'R', 'B', 'E', 'L', 'L', ' ', '#', '#',
        ]);
    }
    let _ok = hstring_push_str(&mut buf, "## TINKERBELL ##");
    proof {
        assert(hstring_bytes(buf) =~= banner_bytes());
    }
    buf
}

/// Format a reading for the display's second line: `Temp: ` and the
/// value to one decimal place. No reading overflows the 16-byte buffer:
/// the longest rendering is 13 bytes.
pub fn format_temperature(t: crate::sensor::Temperature) -> (s: heapless::String<16>)
    ensures
        hstring_bytes(s) == temp_text_bytes(t.raw as int),
{
    let mut buf = hstring_new();
    proof {
        reveal_strlit("Temp: ");
        assert("Temp: "@ =~= seq!['T', 'e', 'm', 'p', ':', ' ']);
    }
    let _ok = hstring_push_str(&mut buf, "Temp: ");
    let raw = t.raw;
    let neg: bool = raw < 0;
    let m: u32 = if raw >= 0 {
        raw as u32
    } else {
        (-(raw as i32)) as u32
    };
    let q: u32 = (m * 10) / 16;
    let r: u32 = (m * 10) % 16;
    let mag10: u32 = if r > 8 || (r == 8 && q % 2 == 1) {
        q + 1
    } else {
        q
    };
    proof {
        assert(tenths_of(raw as int) == if neg {
            -(mag10 as int)
        } else {
            mag10 as int
        });
        assert(mag10 <= 20480);
        assert(neg ==> mag10 >= 1);
        assert(pow10(0) == 1);
        assert(pow10(1) == 10 * pow10(0));
        assert(pow10(2) == 10 * pow10(1));
        assert(pow10(3) == 10 * pow10(2));
        assert(pow10(4) == 10 * pow10(3));
        lemma_dec_digits_len((mag10 / 10) as nat, 4);
    }
    if neg {
        let _ok = hstring_push(&mut buf, '-');
    }
    push_decimal(&mut buf, mag10 / 10);
    let _ok = hstring_push(&mut buf, '.');
    let d: u8 = (mag10 % 10) as u8;
    proof {
        assert(((48 + d) as char) as u32 == (48 + d) as u32);
    }
    let _ok = hstring_push(&mut buf, (48 + d) as char);
    proof {
        assert(hstring_bytes(buf) =~= temp_text_bytes(t.raw as int));
    }
    buf
}

} // verus!
