//! The date-derived filename key convention.
//!
//! Lookups address a track as `looptober-jaycie-YYYY-MM-DD.ext`: the year
//! zero-padded to four digits, month and day to two, and the extension
//! preserved from the remote name.  [`music_filename`] renders that key for
//! a given date.

use vstd::prelude::*;

verus! {

/// The character of one decimal digit.
pub open spec fn digit_char(d: nat) -> char {
    if d == 0 {
        '0'
    } else if d == 1 {
        '1'
    } else if d == 2 {
        '2'
    } else if d == 3 {
        '3'
    } else if d == 4 {
        '4'
    } else if d == 5 {
        '5'
    } else if d == 6 {
        '6'
    } else if d == 7 {
        '7'
    } else if d == 8 {
        '8'
    } else {
        '9'
    }
}

/// The decimal numeral of `n`, most significant digit first, without
/// leading zeros.
pub open spec fn dec_digits(n: nat) -> Seq<char>
    decreases n,
{
    if n < 10 {
        seq![digit_char(n)]
    } else {
        dec_digits(n / 10).push(digit_char(n % 10))
    }
}

/// The numeral of `n`, zero-padded on the left to at least `width`
/// characters; a numeral already that wide stands unchanged.
pub open spec fn zero_padded(n: nat, width: nat) -> Seq<char> {
    if dec_digits(n).len() >= width {
        dec_digits(n)
    } else {
        Seq::new((width - dec_digits(n).len()) as nat, |i: int| '0') + dec_digits(n)
    }
}

/// The catalog key for a date and an extension.
pub open spec fn spec_music_key(year: nat, month: nat, day: nat, ext: Seq<char>) -> Seq<char> {
    "looptober-jaycie-"@ + zero_padded(year, 4) + "-"@ + zero_padded(month, 2) + "-"@
        + zero_padded(day, 2) + "."@ + ext
}

/// The numeral is one character per decimal magnitude step.
proof fn lemma_dec_digits_len(n: nat)
    ensures
        1 <= dec_digits(n).len(),
        (n < 10) <==> dec_digits(n).len() == 1,
        (n < 100) <==> dec_digits(n).len() <= 2,
        (n < 1000) <==> dec_digits(n).len() <= 3,
    decreases n,
{
    if n >= 10 {
        lemma_dec_digits_len(n / 10);
    }
}

/// The one-character numeral of a single digit.
fn digit_str(d: usize) -> (r: &'static str)
    requires
        d < 10,
    ensures
        r@ == seq![digit_char(d as nat)],
{
    proof {
        reveal_strlit("0");
        reveal_strlit("1");
        reveal_strlit("2");
        reveal_strlit("3");
        reveal_strlit("4");
        reveal_strlit("5");
        reveal_strlit("6");
        reveal_strlit("7");
        reveal_strlit("8");
        reveal_strlit("9");
    }
    let r = if d == 0 {
        "0"
    } else if d == 1 {
        "1"
    } else if d == 2 {
        "2"
    } else if d == 3 {
        "3"
    } else if d == 4 {
        "4"
    } else if d == 5 {
        "5"
    } else if d == 6 {
        "6"
    } else if d == 7 {
        "7"
    } else if d == 8 {
        "8"
    } else {
        "9"
    };
    proof {
        assert(r@ =~= seq![digit_char(d as nat)]);
    }
    r
}

/// Append the decimal numeral of `n`.
fn push_decimal(out: &mut String, n: usize)
    ensures
        final(out)@ == old(out)@ + dec_digits(n as nat),
    decreases n,
{
    if n >= 10 {
        push_decimal(out, n / 10);
    }
    let ghost mid = out@;
    out.append(digit_str(n % 10));
    proof {
        if n < 10 {
            assert(out@ =~= old(out)@ + dec_digits(n as nat));
        } else {
            assert((n / 10) as nat == (n as nat) / 10);
            assert((n % 10) as nat == (n as nat) % 10);
            assert(mid == old(out)@ + dec_digits((n as nat) / 10));
            assert(out@ =~= old(out)@ + dec_digits(n as nat));
        }
    }
}

/// Append the numeral of `n` zero-padded to at least four characters.
fn push_padded4(out: &mut String, n: usize)
    ensures
        final(out)@ == old(out)@ + zero_padded(n as nat, 4),
{
    proof {
        reveal_strlit("000");
        reveal_strlit("00");
        reveal_strlit("0");
        lemma_dec_digits_len(n as nat);
    }
    if n < 10 {
        out.append("000");
    } else if n < 100 {
        out.append("00");
    } else if n < 1000 {
        out.append("0");
    }
    push_decimal(out, n);
    proof {
        assert(out@ =~= old(out)@ + zero_padded(n as nat, 4));
    }
}

/// Append the numeral of `n` zero-padded to at least two characters.
fn push_padded2(out: &mut String, n: usize)
    ensures
        final(out)@ == old(out)@ + zero_padded(n as nat, 2),
{
    proof {
        reveal_strlit("0");
        lemma_dec_digits_len(n as nat);
    }
    if n < 10 {
        out.append("0");
    }
    push_decimal(out, n);
    proof {
        assert(out@ =~= old(out)@ + zero_padded(n as nat, 2));
    }
}

/// Render the catalog key for the given date and extension.
pub fn music_filename(year: usize, month: usize, day: usize, ext: &str) -> (r: String)
    ensures
        r@ == spec_music_key(year as nat, month as nat, day as nat, ext@),
{
    let mut s = "looptober-jaycie-".to_owned();
    push_padded4(&mut s, year);
    s.append("-");
    push_padded2(&mut s, month);
    s.append("-");
    push_padded2(&mut s, day);
    s.append(".");
    s.append(ext);
    proof {
        assert(s@ =~= spec_music_key(year as nat, month as nat, day as nat, ext@));
    }
    s
}

} // verus!
