//! Synthesized placeholder file names: `file_<n>.txt` for each row.

use vstd::prelude::*;
use vstd::string::StringExecFns;

verus! {

/// The character for one decimal digit.
pub open spec fn digit_char(d: int) -> char {
    if d == 0 {
        '0'
    } else if d == 1 {
        '1'
    } else if d == 2 {
        '2'
    } else if d == 3 {
        '3'
    } else if d == 4 {
        '4'
    } else if d == 5 {
        '5'
    } else if d == 6 {
        '6'
    } else if d == 7 {
        '7'
    } else if d == 8 {
        '8'
    } else {
        '9'
    }
}

/// The usual decimal rendering of `n`, most significant digit first and
/// without leading zeroes (`0` renders as `"0"`).
pub open spec fn decimal_seq(n: nat) -> Seq<char>
    decreases n,
{
    if n < 10 {
        seq![digit_char(n as int)]
    } else {
        decimal_seq(n / 10).push(digit_char((n % 10) as int))
    }
}

/// Append the decimal rendering of `n` to `s`.
pub fn push_decimal(s: &mut String, n: usize)
    ensures
        final(s)@ == old(s)@ + decimal_seq(n as nat),
    decreases n,
{
    if n >= 10 {
        push_decimal(s, n / 10);
    }
    let d = n % 10;
    let ds: &str = if d == 0 {
        "0"
    } else if d == 1 {
        "1"
    } else if d == 2 {
        "2"
    } else if d == 3 {
        "3"
    } else if d == 4 {
        "4"
    } else if d == 5 {
        "5"
    } else if d == 6 {
        "6"
    } else if d == 7 {
        "7"
    } else if d == 8 {
        "8"
    } else {
        "9"
    };
    proof {
        reveal_strlit("0");
        reveal_strlit("1");
        reveal_strlit("2");
        reveal_strlit("3");
        reveal_strlit("4");
        reveal_strlit("5");
        reveal_strlit("6");
        reveal_strlit("7");
        reveal_strlit("8");
        reveal_strlit("9");
        assert(ds@ =~= seq![digit_char(d as int)]);
    }
    s.append(ds);
    assert(final(s)@ =~= old(s)@ + decimal_seq(n as nat));
}

/// The full synthesized name of row `n`.
pub open spec fn file_name_seq(n: nat) -> Seq<char> {
    "file_"@ + decimal_seq(n) + ".txt"@
}

/// Build the synthesized name of row `n`.
pub fn make_file_name(n: usize) -> (r: String)
    ensures
        r@ == file_name_seq(n as nat),
{
    let mut s = String::from_str("file_");
    push_decimal(&mut s, n);
    s.append(".txt");
    assert(s@ =~= file_name_seq(n as nat));
    s
}

/// Build the placeholder list: `count` rows of synthesized names.
pub fn make_file_list(count: usize) -> (r: Vec<String>)
    ensures
        r@.len() == count,
        forall|k: int| 0 <= k < count ==> #[trigger] r@[k]@ == file_name_seq(k as nat),
{
    let mut v: Vec<String> = Vec::new();
    let mut n: usize = 0;
    while n < count
        invariant
            n <= count,
            v@.len() == n,
            forall|k: int| 0 <= k < n ==> #[trigger] v@[k]@ == file_name_seq(k as nat),
        decreases count - n,
    {
        v.push(make_file_name(n));
        n += 1;
    }
    v
}

} // verus!
