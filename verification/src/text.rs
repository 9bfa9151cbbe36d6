//! Verified text building: decimal numerals, string equality, and the
//! two-line-per-entry menu screens shared by both navigation levels.

use vstd::prelude::*;

verus! {

use vstd::string::*;

/// The character for a single decimal digit.
pub open spec fn digit_char(d: nat) -> char
    recommends
        d < 10,
{
    if d == 0 {
        '0'
    } else if d == 1 {
        '1'
    } else if d == 2 {
        '2'
    } else if d == 3 {
        '3'
    } else if d == 4 {
        '4'
    } else if d == 5 {
        '5'
    } else if d == 6 {
        '6'
    } else if d == 7 {
        '7'
    } else if d == 8 {
        '8'
    } else {
        '9'
    }
}

/// The decimal numeral for `n`, most significant digit first.
pub open spec fn dec_str(n: nat) -> Seq<char>
    decreases n,
{
    if n < 10 {
        seq![digit_char(n)]
    } else {
        dec_str(n / 10) + seq![digit_char(n % 10)]
    }
}

fn digit_str(d: usize) -> (r: &'static str)
    requires
        d < 10,
    ensures
        r@ == seq![digit_char(d as nat)],
{
    proof {
        reveal_strlit("0");
        reveal_strlit("1");
        reveal_strlit("2");
        reveal_strlit("3");
        reveal_strlit("4");
        reveal_strlit("5");
        reveal_strlit("6");
        reveal_strlit("7");
        reveal_strlit("8");
        reveal_strlit("9");
    }
    let r: &'static str = if d == 0 {
        "0"
    } else if d == 1 {
        "1"
    } else if d == 2 {
        "2"
    } else if d == 3 {
        "3"
    } else if d == 4 {
        "4"
    } else if d == 5 {
        "5"
    } else if d == 6 {
        "6"
    } else if d == 7 {
        "7"
    } else if d == 8 {
        "8"
    } else {
        "9"
    };
    proof {
        assert(r@ =~= seq![digit_char(d as nat)]);
    }
    r
}

/// Renders `n` as its decimal numeral.
pub fn fmt_usize(n: usize) -> (r: String)
    ensures
        r@ == dec_str(n as nat),
    decreases n,
{
    if n < 10 {
        digit_str(n).to_owned()
    } else {
        let mut s = fmt_usize(n / 10);
        s.append(digit_str(n % 10));
        s
    }
}

/// Whether two strings hold the same characters.
pub fn str_eq(a: &str, b: &str) -> (r: bool)
    ensures
        r == (a@ == b@),
{
    let n = a.unicode_len();
    if n != b.unicode_len() {
        return false;
    }
    let mut i: usize = 0;
    while i < n
        invariant
            i <= n,
            n == a@.len(),
            n == b@.len(),
            forall|k: int| 0 <= k < i ==> a@[k] == b@[k],
        decreases n - i,
    {
        if a.get_char(i) != b.get_char(i) {
            proof {
                assert(a@[i as int] != b@[i as int]);
            }
            return false;
        }
        i = i + 1;
    }
    proof {
        assert(a@ =~= b@);
    }
    true
}

/// The hint line printed under each menu header.
pub open spec fn quit_hint() -> Seq<char> {
    "Input Q to quit"@
}

/// The two lines a menu shows for the entry at 0-based position `i`:
/// `"<i+1>. <name>"` and `"  -<desc>"`.
pub open spec fn entry_block(i: nat, name: Seq<char>, desc: Seq<char>) -> Seq<Seq<char>> {
    seq![dec_str(i + 1) + ". "@ + name, "  -"@ + desc]
}

/// The entry lines of a whole menu, in order.
pub open spec fn entries_lines(entries: Seq<(Seq<char>, Seq<char>)>) -> Seq<Seq<char>>
    decreases entries.len(),
{
    if entries.len() == 0 {
        Seq::empty()
    } else {
        entries_lines(entries.drop_last()) + entry_block(
            (entries.len() - 1) as nat,
            entries.last().0,
            entries.last().1,
        )
    }
}

/// A full menu screen: header, quit hint, then two lines per entry.
pub open spec fn screen_lines(header: Seq<char>, entries: Seq<(Seq<char>, Seq<char>)>) -> Seq<
    Seq<char>,
> {
    seq![header, quit_hint()] + entries_lines(entries)
}

pub open spec fn strs_view(lines: Seq<String>) -> Seq<Seq<char>> {
    lines.map_values(|s: String| s@)
}

pub open spec fn pairs_view(entries: Seq<(String, String)>) -> Seq<(Seq<char>, Seq<char>)> {
    entries.map_values(|e: (String, String)| (e.0@, e.1@))
}

/// Renders a menu screen from a header and (name, description) entries.
pub fn render_screen(header: &str, entries: &Vec<(String, String)>) -> (lines: Vec<String>)
    ensures
        strs_view(lines@) == screen_lines(header@, pairs_view(entries@)),
{
    let mut lines: Vec<String> = Vec::new();
    lines.push(header.to_owned());
    lines.push("Input Q to quit".to_owned());
    proof {
        assert(pairs_view(entries@).take(0) =~= Seq::<(Seq<char>, Seq<char>)>::empty());
        assert(strs_view(lines@) =~~= screen_lines(header@, pairs_view(entries@).take(0)));
    }
    let n = entries.len();
    let mut i: usize = 0;
    while i < n
        invariant
            i <= n,
            n == entries@.len(),
            strs_view(lines@) == screen_lines(header@, pairs_view(entries@).take(i as int)),
        decreases n - i,
    {
        let ghost prev = lines@;
        let mut line1 = fmt_usize(i + 1);
        line1.append(". ");
        line1.append(entries[i].0.as_str());
        let mut line2 = "  -".to_owned();
        line2.append(entries[i].1.as_str());
        proof {
            assert(line1@ =~= dec_str((i + 1) as nat) + ". "@ + entries@[i as int].0@);
        }
        lines.push(line1);
        lines.push(line2);
        proof {
            let e = pairs_view(entries@);
            assert(e.take(i + 1).drop_last() =~= e.take(i as int));
            assert(e.take(i + 1).last() == e[i as int]);
            assert(entries_lines(e.take(i + 1)) == entries_lines(e.take(i as int)) + entry_block(
                i as nat,
                e[i as int].0,
                e[i as int].1,
            ));
            assert(strs_view(lines@) =~~= strs_view(prev) + seq![line1@, line2@]);
            assert(e[i as int].0 == entries@[i as int].0@);
            assert(e[i as int].1 == entries@[i as int].1@);
            assert(line2@ == "  -"@ + entries@[i as int].1@);
            assert(seq![line1@, line2@] =~~= entry_block(i as nat, e[i as int].0, e[i as int].1));
            assert(screen_lines(header@, e.take(i + 1)) =~~= screen_lines(header@, e.take(i as int))
                + entry_block(i as nat, e[i as int].0, e[i as int].1));
            assert(strs_view(lines@) =~~= screen_lines(header@, e.take(i + 1)));
        }
        i = i + 1;
    }
    proof {
        assert(pairs_view(entries@).take(n as int) =~= pairs_view(entries@));
    }
    lines
}

} // verus!
