//! Numbers as text.
use vstd::prelude::*;
use vstd::string::{StrSliceExecFns, StringExecFns};

verus! {

/// A number in decimal digits.
pub open spec fn decimal(n: nat) -> Seq<char>
    decreases n,
{
    if n < 10 {
        seq![digit(n as int)]
    } else {
        decimal(n / 10).push(digit((n % 10) as int))
    }
}

pub open spec fn digit(d: int) -> char {
    if d == 0 {
        '0'
    } else if d == 1 {
        '1'
    } else if d == 2 {
        '2'
    } else if d == 3 {
        '3'
    } else if d == 4 {
        '4'
    } else if d == 5 {
        '5'
    } else if d == 6 {
        '6'
    } else if d == 7 {
        '7'
    } else if d == 8 {
        '8'
    } else {
        '9'
    }
}

/// A number in decimal digits, with a minus sign where it is negative.
pub open spec fn signed_decimal(n: int) -> Seq<char> {
    if n < 0 {
        "-"@ + decimal((-n) as nat)
    } else {
        decimal(n as nat)
    }
}

fn digit_text(d: u8) -> (r: &'static str)
    requires
        d < 10,
    ensures
        r@ == seq![digit(d as int)],
{
    let r = match d {
        0 => "0",
        1 => "1",
        2 => "2",
        3 => "3",
        4 => "4",
        5 => "5",
        6 => "6",
        7 => "7",
        8 => "8",
        _ => "9",
    };
    proof {
        reveal_strlit("0");
        reveal_strlit("1");
        reveal_strlit("2");
        reveal_strlit("3");
        reveal_strlit("4");
        reveal_strlit("5");
        reveal_strlit("6");
        reveal_strlit("7");
        reveal_strlit("8");
        reveal_strlit("9");
        assert(r@ =~= seq![digit(d as int)]);
    }
    r
}

pub fn append_number(out: &mut String, n: u128)
    ensures
        final(out)@ == old(out)@ + decimal(n as nat),
    decreases n,
{
    if n >= 10 {
        append_number(out, n / 10);
    }
    out.append(digit_text((n % 10) as u8));
    proof {
        assert(out@ =~= old(out)@ + decimal(n as nat));
    }
}

pub fn append_signed(out: &mut String, n: i64)
    ensures
        final(out)@ == old(out)@ + signed_decimal(n as int),
{
    if n < 0 {
        out.append("-");
        append_number(out, (-(n as i128)) as u128);
        proof {
            assert(out@ =~= old(out)@ + signed_decimal(n as int));
        }
    } else {
        append_number(out, n as u128);
    }
}

/// A number of hundredths with two decimals.
pub open spec fn hundredths(n: int) -> Seq<char> {
    let size = if n < 0 {
        -n
    } else {
        n
    };
    (if n < 0 {
        "-"@
    } else {
        Seq::empty()
    }) + decimal((size / 100) as nat) + "."@ + decimal((size / 10 % 10) as nat) + decimal(
        (size % 10) as nat,
    )
}

pub fn append_hundredths(out: &mut String, n: i64)
    ensures
        final(out)@ == old(out)@ + hundredths(n as int),
{
    let size: u128 = if n < 0 {
        out.append("-");
        (-(n as i128)) as u128
    } else {
        n as u128
    };
    append_number(out, size / 100);
    out.append(".");
    append_number(out, size / 10 % 10);
    append_number(out, size % 10);
    assert(out@ =~= old(out)@ + hundredths(n as int));
}

/// So many spaces.
pub open spec fn spaces(n: int) -> Seq<char> {
    Seq::new(
        if n > 0 {
            n as nat
        } else {
            0
        },
        |i: int| ' ',
    )
}

/// Text filled up with spaces behind it.
pub open spec fn pad_right(s: Seq<char>, width: int) -> Seq<char> {
    s + spaces(width - s.len())
}

/// Text filled up with spaces before it.
pub open spec fn pad_left(s: Seq<char>, width: int) -> Seq<char> {
    spaces(width - s.len()) + s
}

fn append_spaces(out: &mut String, n: usize)
    ensures
        final(out)@ == old(out)@ + spaces(n as int),
{
    let mut i: usize = 0;
    assert(out@ =~= old(out)@ + spaces(0));
    while i < n
        invariant
            i <= n,
            out@ == old(out)@ + spaces(i as int),
        decreases n - i,
    {
        out.append(" ");
        proof {
            reveal_strlit(" ");
            assert(out@ =~= old(out)@ + spaces(i + 1));
        }
        i += 1;
    }
}

pub fn append_right_padded(out: &mut String, s: &str, width: usize)
    ensures
        final(out)@ == old(out)@ + pad_right(s@, width as int),
{
    let len: usize = s.unicode_len();
    out.append(s);
    if len < width {
        append_spaces(out, width - len);
    }
    assert(out@ =~= old(out)@ + pad_right(s@, width as int));
}

pub fn append_left_padded(out: &mut String, s: &str, width: usize)
    ensures
        final(out)@ == old(out)@ + pad_left(s@, width as int),
{
    let len: usize = s.unicode_len();
    if len < width {
        append_spaces(out, width - len);
    }
    out.append(s);
    assert(out@ =~= old(out)@ + pad_left(s@, width as int));
}

} // verus!
