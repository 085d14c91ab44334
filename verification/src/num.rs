//! Fixed-point lengths and their decimal rendering.
//!
//! The layout engine hands the renderer lengths in hundredths of its length
//! unit (`Px`).  Three renderings are needed for the SVG output: the shortest
//! form that drops trailing fractional zeros (`px_plain`), a form with
//! exactly two fractional digits (`px_two`), and a form truncated to one
//! fractional digit (`px_one`).

use vstd::prelude::*;
use vstd::string::StringExecFns;

verus! {

/// A length in hundredths of the layout's unit: `cents == 250` is two and a
/// half units.  Negative values are positions left of / above the origin.
#[derive(Clone, Copy, Debug, PartialEq, Eq, Structural)]
pub struct Px {
    pub cents: i64,
}

impl Px {
    /// The length of `units` whole units.
    pub fn from_units(units: i32) -> (r: Px)
        ensures
            r.cents == 100 * units as int,
    {
        Px { cents: 100 * (units as i64) }
    }

    /// The length of `cents` hundredths of a unit.
    pub fn from_cents(cents: i64) -> (r: Px)
        ensures
            r.cents == cents as int,
    {
        Px { cents }
    }
}

/// The decimal digit character for `d` (`d < 10`).
pub open spec fn digit_char(d: nat) -> char {
    if d == 0 {
        '0'
    } else if d == 1 {
        '1'
    } else if d == 2 {
        '2'
    } else if d == 3 {
        '3'
    } else if d == 4 {
        '4'
    } else if d == 5 {
        '5'
    } else if d == 6 {
        '6'
    } else if d == 7 {
        '7'
    } else if d == 8 {
        '8'
    } else {
        '9'
    }
}

/// The usual decimal rendering of `n`, most significant digit first, with no
/// leading zeros (`0` renders as `"0"`).
pub open spec fn dec_str(n: nat) -> Seq<char>
    decreases n,
{
    if n < 10 {
        seq![digit_char(n)]
    } else {
        dec_str(n / 10).push(digit_char(n % 10))
    }
}

/// The magnitude of a length, in hundredths.
pub open spec fn px_abs(p: Px) -> nat {
    if p.cents < 0 {
        (-p.cents) as nat
    } else {
        p.cents as nat
    }
}

/// A minus sign for negative lengths, nothing otherwise.
pub open spec fn px_sign(p: Px) -> Seq<char> {
    if p.cents < 0 {
        seq!['-']
    } else {
        Seq::empty()
    }
}

/// Shortest decimal rendering: fractional digits appear only when nonzero,
/// and a trailing fractional zero is dropped (`300` cents is `"3"`, `250`
/// is `"2.5"`, `347` is `"3.47"`).
pub open spec fn px_plain(p: Px) -> Seq<char> {
    let n = px_abs(p);
    if n % 100 == 0 {
        px_sign(p) + dec_str(n / 100)
    } else if n % 10 == 0 {
        px_sign(p) + dec_str(n / 100) + seq!['.', digit_char((n / 10) % 10)]
    } else {
        px_sign(p) + dec_str(n / 100) + seq!['.', digit_char((n / 10) % 10), digit_char(n % 10)]
    }
}

/// Rendering with exactly two fractional digits (`300` cents is `"3.00"`).
pub open spec fn px_two(p: Px) -> Seq<char> {
    let n = px_abs(p);
    px_sign(p) + dec_str(n / 100) + seq!['.', digit_char((n / 10) % 10), digit_char(n % 10)]
}

/// Rendering truncated to one fractional digit (`347` cents is `"3.4"`).
pub open spec fn px_one(p: Px) -> Seq<char> {
    let n = px_abs(p);
    px_sign(p) + dec_str(n / 100) + seq!['.', digit_char((n / 10) % 10)]
}

/// Appends the given character to the string.  Relies on `String::push`,
/// which appends exactly that character.
#[verifier::external_body]
pub(crate) fn push_char(s: &mut String, c: char)
    ensures
        final(s)@ == old(s)@.push(c),
{
    s.push(c);
}

/// The decimal digit character for `d`.
fn digit_to_char(d: u64) -> (c: char)
    requires
        d < 10,
    ensures
        c == digit_char(d as nat),
{
    match d {
        0 => '0',
        1 => '1',
        2 => '2',
        3 => '3',
        4 => '4',
        5 => '5',
        6 => '6',
        7 => '7',
        8 => '8',
        _ => '9',
    }
}

/// Appends the decimal rendering of `n` to `out`.
fn append_dec(out: &mut String, n: u64)
    ensures
        final(out)@ == old(out)@ + dec_str(n as nat),
    decreases n,
{
    if n < 10 {
        push_char(out, digit_to_char(n));
        proof {
            assert(out@ =~= old(out)@ + dec_str(n as nat));
        }
    } else {
        append_dec(out, n / 10);
        push_char(out, digit_to_char(n % 10));
        proof {
            assert(out@ =~= old(out)@ + dec_str(n as nat));
        }
    }
}

/// Appends `px_plain(p)` to `out`: the shortest decimal rendering of `p`.
pub fn append_px_plain(out: &mut String, p: Px)
    requires
        p.cents > i64::MIN,
    ensures
        final(out)@ == old(out)@ + px_plain(p),
{
    let n: u64 = if p.cents < 0 {
        push_char(out, '-');
        (-p.cents) as u64
    } else {
        p.cents as u64
    };
    proof {
        assert(n as nat == px_abs(p));
    }
    append_dec(out, n / 100);
    if n % 100 != 0 {
        push_char(out, '.');
        push_char(out, digit_to_char((n / 10) % 10));
        if n % 10 != 0 {
            push_char(out, digit_to_char(n % 10));
        }
    }
    proof {
        assert(out@ =~= old(out)@ + px_plain(p));
    }
}

/// Appends `px_two(p)` to `out`: two fractional digits, always.
pub fn append_px_two(out: &mut String, p: Px)
    requires
        p.cents > i64::MIN,
    ensures
        final(out)@ == old(out)@ + px_two(p),
{
    let n: u64 = if p.cents < 0 {
        push_char(out, '-');
        (-p.cents) as u64
    } else {
        p.cents as u64
    };
    proof {
        assert(n as nat == px_abs(p));
    }
    append_dec(out, n / 100);
    push_char(out, '.');
    push_char(out, digit_to_char((n / 10) % 10));
    push_char(out, digit_to_char(n % 10));
    proof {
        assert(out@ =~= old(out)@ + px_two(p));
    }
}

/// Appends `px_one(p)` to `out`: one fractional digit, truncated.
pub fn append_px_one(out: &mut String, p: Px)
    requires
        p.cents > i64::MIN,
    ensures
        final(out)@ == old(out)@ + px_one(p),
{
    let n: u64 = if p.cents < 0 {
        push_char(out, '-');
        (-p.cents) as u64
    } else {
        p.cents as u64
    };
    proof {
        assert(n as nat == px_abs(p));
    }
    append_dec(out, n / 100);
    push_char(out, '.');
    push_char(out, digit_to_char((n / 10) % 10));
    proof {
        assert(out@ =~= old(out)@ + px_one(p));
    }
}

} // verus!
