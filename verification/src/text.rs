//! The score read-out. The displayed figure is the score in
//! thousandths, rendered as decimal ASCII digits and zero-padded to at
//! least three places, as in `Score: 042`.

use vstd::prelude::*;

verus! {

/// The ASCII decimal digits of `n`, most significant first.
pub open spec fn dec_digits(n: nat) -> Seq<u8>
    decreases n,
{
    if n < 10 {
        seq![(48 + n) as u8]
    } else {
        dec_digits(n / 10).push((48 + n % 10) as u8)
    }
}

/// The digits of the score figure, zero-padded to at least three.
pub open spec fn score_digits_spec(n: nat) -> Seq<u8> {
    if n < 10 {
        seq![48u8, 48u8] + dec_digits(n)
    } else if n < 100 {
        seq![48u8] + dec_digits(n)
    } else {
        dec_digits(n)
    }
}

/// Appends the decimal digits of `n`.
fn push_digits(n: u64, v: &mut Vec<u8>)
    ensures
        final(v)@ == old(v)@ + dec_digits(n as nat),
    decreases n,
{
    if n >= 10 {
        proof {
            vstd::arithmetic::div_mod::lemma_div_is_strictly_smaller(n as int, 10);
        }
        push_digits(n / 10, v);
    }
    let digit: u8 = 48 + (n % 10) as u8;
    v.push(digit);
    proof {
        if n < 10 {
            assert(v@ =~= old(v)@ + dec_digits(n as nat));
        } else {
            assert(v@ =~= old(v)@ + dec_digits((n / 10) as nat).push((48 + n % 10) as u8));
            assert(dec_digits(n as nat) == dec_digits((n as nat) / 10).push(
                (48 + (n as nat) % 10) as u8,
            ));
        }
    }
}

/// One decimal digit as a character.
pub open spec fn digit_char(d: nat) -> char {
    if d == 0 {
        '0'
    } else if d == 1 {
        '1'
    } else if d == 2 {
        '2'
    } else if d == 3 {
        '3'
    } else if d == 4 {
        '4'
    } else if d == 5 {
        '5'
    } else if d == 6 {
        '6'
    } else if d == 7 {
        '7'
    } else if d == 8 {
        '8'
    } else {
        '9'
    }
}

/// The decimal digits of `n` as characters, most significant first.
pub open spec fn dec_digit_chars(n: nat) -> Seq<char>
    decreases n,
{
    if n < 10 {
        seq![digit_char(n)]
    } else {
        dec_digit_chars(n / 10).push(digit_char(n % 10))
    }
}

/// The whole score read-out, score figure zero-padded to at least three
/// digits.
pub open spec fn spec_score_line(n: nat) -> Seq<char> {
    "Score: "@ + (if n < 10 {
        seq!['0', '0'] + dec_digit_chars(n)
    } else if n < 100 {
        seq!['0'] + dec_digit_chars(n)
    } else {
        dec_digit_chars(n)
    }) + "\n[Return] to go to main menu"@
}

fn digit_str(d: u64) -> (s: &'static str)
    requires
        d < 10,
    ensures
        s@ == seq![digit_char(d as nat)],
{
    let s = if d == 0 {
        "0"
    } else if d == 1 {
        "1"
    } else if d == 2 {
        "2"
    } else if d == 3 {
        "3"
    } else if d == 4 {
        "4"
    } else if d == 5 {
        "5"
    } else if d == 6 {
        "6"
    } else if d == 7 {
        "7"
    } else if d == 8 {
        "8"
    } else {
        "9"
    };
    proof {
        reveal_strlit("0");
        reveal_strlit("1");
        reveal_strlit("2");
        reveal_strlit("3");
        reveal_strlit("4");
        reveal_strlit("5");
        reveal_strlit("6");
        reveal_strlit("7");
        reveal_strlit("8");
        reveal_strlit("9");
        assert(s@ =~= seq![digit_char(d as nat)]);
    }
    s
}

/// Appends the decimal digits of `n` as characters.
fn push_digit_chars(n: u64, s: &mut String)
    ensures
        final(s)@ == old(s)@ + dec_digit_chars(n as nat),
    decreases n,
{
    if n >= 10 {
        proof {
            vstd::arithmetic::div_mod::lemma_div_is_strictly_smaller(n as int, 10);
        }
        push_digit_chars(n / 10, s);
    }
    s.append(digit_str(n % 10));
    proof {
        if n < 10 {
            assert(s@ =~= old(s)@ + dec_digit_chars(n as nat));
        } else {
            assert(s@ =~= old(s)@ + dec_digit_chars((n / 10) as nat).push(
                digit_char((n % 10) as nat),
            ));
        }
    }
}

/// The score text surface: `Score: DDD` and the return hint, with the
/// figure zero-padded to at least three digits.
pub fn score_line(score_millis: u64) -> (s: String)
    ensures
        s@ == spec_score_line(score_millis as nat),
{
    let mut s = String::from_str("Score: ");
    if score_millis < 10 {
        s.append("0");
        s.append("0");
    } else if score_millis < 100 {
        s.append("0");
    }
    push_digit_chars(score_millis, &mut s);
    s.append("\n[Return] to go to main menu");
    proof {
        reveal_strlit("0");
        assert(s@ =~= spec_score_line(score_millis as nat));
    }
    s
}

/// The score figure as ASCII digits, zero-padded to at least three
/// places.
pub fn score_digits(score_millis: u64) -> (s: Vec<u8>)
    ensures
        s@ == score_digits_spec(score_millis as nat),
{
    let mut s: Vec<u8> = Vec::new();
    if score_millis < 10 {
        s.push(48);
        s.push(48);
    } else if score_millis < 100 {
        s.push(48);
    }
    push_digits(score_millis, &mut s);
    proof {
        if score_millis < 10 {
            assert(s@ =~= seq![48u8, 48u8] + dec_digits(score_millis as nat));
        } else if score_millis < 100 {
            assert(s@ =~= seq![48u8] + dec_digits(score_millis as nat));
        } else {
            assert(s@ =~= dec_digits(score_millis as nat));
        }
    }
    s
}

} // verus!
