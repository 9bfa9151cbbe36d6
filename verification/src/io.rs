//! Interpretation of operator input lines: the quit sentinel and 1-based
//! menu selections.

use vstd::prelude::*;

verus! {

use vstd::string::*;

/// A line of operator input quits the current menu level exactly when it is
/// a single character `q` or `Q`: case-insensitive and exact.
pub open spec fn quit_spec(s: Seq<char>) -> bool {
    s.len() == 1 && (s[0] == 'q' || s[0] == 'Q')
}

/// Whether `input` is the quit sentinel.
pub fn is_quit(input: &str) -> (r: bool)
    ensures
        r == quit_spec(input@),
{
    if input.unicode_len() == 1 {
        let c = input.get_char(0);
        c == 'q' || c == 'Q'
    } else {
        false
    }
}

/// The quit sentinel is exactly the single letters `q` and `Q`:
/// case-insensitive, and nothing else — in particular nothing longer —
/// quits.
pub proof fn lemma_quit_sentinel_exact()
    ensures
        forall|s: Seq<char>| quit_spec(s) <==> (s == seq!['q'] || s == seq!['Q']),
{
    assert forall|s: Seq<char>| quit_spec(s) implies (s == seq!['q'] || s == seq!['Q']) by {
        if s[0] == 'q' {
            assert(s =~= seq!['q']);
        } else {
            assert(s =~= seq!['Q']);
        }
    }
    assert forall|s: Seq<char>| (s == seq!['q'] || s == seq!['Q']) implies quit_spec(s) by {
        assert(seq!['q'].len() == 1 && seq!['Q'].len() == 1);
    }
}

/// A character is a decimal digit.
pub open spec fn is_digit(c: char) -> bool {
    '0' as int <= c as int && c as int <= '9' as int
}

/// The numeric value of a digit character.
pub open spec fn digit_val(c: char) -> nat
    recommends
        is_digit(c),
{
    (c as int - '0' as int) as nat
}

pub open spec fn all_digits(s: Seq<char>) -> bool {
    forall|i: int| 0 <= i < s.len() ==> is_digit(#[trigger] s[i])
}

/// The value of a digit string read in base ten.
pub open spec fn dec_value(s: Seq<char>) -> nat
    decreases s.len(),
{
    if s.len() == 0 {
        0
    } else {
        dec_value(s.drop_last()) * 10 + digit_val(s.last())
    }
}

/// The digits of a numeral: everything after an optional single leading `+`.
pub open spec fn digits_of(s: Seq<char>) -> Seq<char> {
    if s.len() >= 1 && s[0] == '+' {
        s.subrange(1, s.len() as int)
    } else {
        s
    }
}

/// Whether a line parses as a `usize`, as `str::parse::<usize>` accepts one:
/// an optional leading `+`, then one or more digits, and a value in range.
pub open spec fn parses(s: Seq<char>) -> bool {
    digits_of(s).len() >= 1 && all_digits(digits_of(s)) && dec_value(digits_of(s)) <= usize::MAX
        as nat
}

pub open spec fn parsed_value(s: Seq<char>) -> nat
    recommends
        parses(s),
{
    dec_value(digits_of(s))
}

/// Whether a line selects an entry of a menu with `len` entries: it parses
/// as an integer `i` with `1 <= i <= len`.
pub open spec fn selects(s: Seq<char>, len: nat) -> bool {
    parses(s) && 1 <= parsed_value(s) && parsed_value(s) <= len
}

proof fn lemma_dec_value_take_succ(s: Seq<char>, i: int)
    requires
        0 <= i < s.len(),
    ensures
        dec_value(s.take(i + 1)) == dec_value(s.take(i)) * 10 + digit_val(s[i]),
{
    assert(s.take(i + 1).drop_last() =~= s.take(i));
    assert(s.take(i + 1).last() == s[i]);
}

proof fn lemma_dec_value_take_mono(s: Seq<char>, i: int, j: int)
    requires
        0 <= i <= j <= s.len(),
    ensures
        dec_value(s.take(i)) <= dec_value(s.take(j)),
    decreases j - i,
{
    if i < j {
        lemma_dec_value_take_mono(s, i, j - 1);
        lemma_dec_value_take_succ(s, j - 1);
    }
}

/// Parses `input` as a 1-based selection over a menu of `len` entries.
/// Returns the selected 1-based index, or `None` on any input that is not
/// an integer in `[1, len]`.
pub fn select_index(input: &str, len: usize) -> (r: Option<usize>)
    ensures
        selects(input@, len as nat) ==> r == Some(parsed_value(input@) as usize),
        !selects(input@, len as nat) ==> r is None,
{
    let n = input.unicode_len();
    let start: usize = if n >= 1 && input.get_char(0) == '+' {
        1
    } else {
        0
    };
    let ghost d = digits_of(input@);
    if n == start {
        return None;
    }
    let mut acc: usize = 0;
    let mut j: usize = start;
    while j < n
        invariant
            start <= j <= n,
            n == input@.len(),
            start == 1 ==> n >= 1 && input@[0] == '+',
            start == 0 ==> !(n >= 1 && input@[0] == '+'),
            d == digits_of(input@),
            d.len() == n - start,
            forall|k: int| 0 <= k < d.len() ==> d[k] == input@[k + start],
            all_digits(d.take(j - start)),
            acc as nat == dec_value(d.take(j - start)),
            n > start,
        decreases n - j,
    {
        let c = input.get_char(j);
        let cv = c as u32;
        if cv < 48 || cv > 57 {
            proof {
                assert(d[j - start] == input@[j as int]);
                assert(!is_digit(d[j - start]));
            }
            return None;
        }
        let dv = (cv - 48) as usize;
        proof {
            assert(is_digit(d[j - start]));
            assert(digit_val(d[j - start]) == dv as nat);
        }
        if acc > (usize::MAX - dv) / 10 {
            proof {
                let m = (usize::MAX - dv) as nat;
                vstd::arithmetic::div_mod::lemma_fundamental_div_mod(m as int, 10);
                assert(acc as nat * 10 + dv as nat > usize::MAX as nat) by (nonlinear_arith)
                    requires
                        acc as nat >= m / 10 + 1,
                        m as int == 10 * ((m as int) / 10) + (m as int) % 10,
                        0 <= (m as int) % 10 < 10,
                        m / 10 == (m as int) / 10,
                        usize::MAX as nat == m + dv as nat,
                ;
                lemma_dec_value_take_succ(d, j - start);
                lemma_dec_value_take_mono(d, j - start + 1, d.len() as int);
                assert(d.take(d.len() as int) =~= d);
                assert(dec_value(d) > usize::MAX as nat);
            }
            return None;
        }
        proof {
            let m = (usize::MAX - dv) as nat;
            vstd::arithmetic::div_mod::lemma_fundamental_div_mod(m as int, 10);
            assert(acc as nat * 10 + dv as nat <= usize::MAX as nat) by (nonlinear_arith)
                requires
                    acc as nat <= m / 10,
                    m as int == 10 * ((m as int) / 10) + (m as int) % 10,
                    0 <= (m as int) % 10 < 10,
                    m / 10 == (m as int) / 10,
                    usize::MAX as nat == m + dv as nat,
            ;
            lemma_dec_value_take_succ(d, j - start);
        }
        acc = acc * 10 + dv;
        j = j + 1;
    }
    proof {
        assert(d.take(d.len() as int) =~= d);
    }
    if acc >= 1 && acc <= len {
        Some(acc)
    } else {
        None
    }
}

} // verus!
