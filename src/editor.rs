use vstd::prelude::*;

verus! {

/// How many times `c` occurs in `s`.
pub open spec fn count_char(s: Seq<char>, c: char) -> nat
    decreases s.len(),
{
    if s.len() == 0 {
        0
    } else {
        count_char(s.drop_last(), c) + if s.last() == c {
            1nat
        } else {
            0nat
        }
    }
}

/// A character occurs in `s` at most as often as `s` is long.
pub proof fn count_char_bound(s: Seq<char>, c: char)
    ensures
        count_char(s, c) <= s.len(),
    decreases s.len(),
{
    if s.len() > 0 {
        count_char_bound(s.drop_last(), c);
    }
}

/// The closing character typed for the user after `s`: an opening bracket
/// at the end is always closed; a quote at the end is closed when the
/// text holds an odd number of that quote.
pub open spec fn closing_for(s: Seq<char>) -> Seq<char> {
    if s.len() == 0 {
        Seq::empty()
    } else if s.last() == '(' {
        seq![')']
    } else if s.last() == '[' {
        seq![']']
    } else if s.last() == '{' {
        seq!['}']
    } else if s.last() == '"' && count_char(s, '"') % 2 == 1 {
        seq!['"']
    } else if s.last() == '\'' && count_char(s, '\'') % 2 == 1 {
        seq!['\'']
    } else {
        Seq::empty()
    }
}

/// Closes a bracket or quote the text ends with, as `closing_for` says.
pub fn auto_complete_brackets(text: &mut String)
    ensures
        final(text)@ == old(text)@ + closing_for(old(text)@),
{
    let ghost s = text@;
    let n = text.as_str().unicode_len();
    let mut doubles: usize = 0;
    let mut singles: usize = 0;
    let mut last: Option<char> = None;
    for c in it: text.as_str().chars()
        invariant
            it.seq() == s,
            doubles == count_char(s.take(it.index() as int), '"'),
            singles == count_char(s.take(it.index() as int), '\''),
            doubles <= it.index(),
            singles <= it.index(),
            it.index() <= s.len(),
            n == s.len(),
            last == if it.index() == 0 {
                None
            } else {
                Some(s[it.index() - 1])
            },
    {
        let ghost k = it.index();
        assert(s.take(k + 1).drop_last() =~= s.take(k));
        if c == '"' {
            doubles = doubles + 1;
        } else if c == '\'' {
            singles = singles + 1;
        }
        last = Some(c);
    }
    assert(s.take(s.len() as int) =~= s);
    proof {
        reveal_strlit(")");
        reveal_strlit("]");
        reveal_strlit("}");
        reveal_strlit("\"");
        reveal_strlit("'");
    }
    match last {
        Some('(') => text.append(")"),
        Some('[') => text.append("]"),
        Some('{') => text.append("}"),
        Some('"') => {
            if doubles % 2 == 1 {
                text.append("\"");
            }
        },
        Some('\'') => {
            if singles % 2 == 1 {
                text.append("'");
            }
        },
        _ => {},
    }
}

/// How many lines `s` has, as `str::lines` splits it: each line ends at a
/// newline, and a last line without one counts too.
pub open spec fn lines_in(s: Seq<char>) -> nat {
    if s.len() == 0 {
        0
    } else if s.last() == '\n' {
        count_char(s, '\n')
    } else {
        count_char(s, '\n') + 1
    }
}

/// The decimal digit `d`.
pub open spec fn digit_char(d: nat) -> char {
    if d == 0 {
        '0'
    } else if d == 1 {
        '1'
    } else if d == 2 {
        '2'
    } else if d == 3 {
        '3'
    } else if d == 4 {
        '4'
    } else if d == 5 {
        '5'
    } else if d == 6 {
        '6'
    } else if d == 7 {
        '7'
    } else if d == 8 {
        '8'
    } else {
        '9'
    }
}

/// `n` written in decimal, without leading zeros.
pub open spec fn digits(n: nat) -> Seq<char>
    decreases n,
{
    if n < 10 {
        seq![digit_char(n)]
    } else {
        digits(n / 10) + seq![digit_char(n % 10)]
    }
}

/// `n` in decimal, right-aligned in a field of `width` characters.
pub open spec fn padded(n: nat, width: nat) -> Seq<char> {
    let d = digits(n);
    let fill: nat = if d.len() < width {
        (width - d.len()) as nat
    } else {
        0
    };
    Seq::new(fill, |i: int| ' ') + d
}

/// The line numbers 1 to `n`, each right-aligned to `width`, one per line.
pub open spec fn numbered_lines(n: nat, width: nat) -> Seq<char>
    decreases n,
{
    if n == 0 {
        Seq::empty()
    } else if n == 1 {
        padded(1, width)
    } else {
        numbered_lines((n - 1) as nat, width) + seq!['\n'] + padded(n, width)
    }
}

/// The gutter shown beside a text: its line numbers, right-aligned to the
/// width of the largest (at least one digit wide).
pub open spec fn gutter(s: Seq<char>) -> Seq<char> {
    let n = lines_in(s);
    numbered_lines(n, digits(if n == 0 {
        1
    } else {
        n
    }).len())
}

/// The number of lines of `text`.
pub fn line_count(text: &str) -> (r: usize)
    ensures
        r == lines_in(text@),
{
    let ghost s = text@;
    let n = text.unicode_len();
    let mut newlines: usize = 0;
    let mut last: Option<char> = None;
    for c in it: text.chars()
        invariant
            it.seq() == s,
            it.index() <= s.len(),
            n == s.len(),
            newlines <= it.index(),
            newlines == count_char(s.take(it.index() as int), '\n'),
            last == if it.index() == 0 {
                None
            } else {
                Some(s[it.index() - 1])
            },
    {
        let ghost k = it.index();
        assert(s.take(k + 1).drop_last() =~= s.take(k));
        if c == '\n' {
            newlines = newlines + 1;
        }
        last = Some(c);
    }
    assert(s.take(s.len() as int) =~= s);
    proof {
        if s.len() > 0 {
            count_char_bound(s.drop_last(), '\n');
        }
    }
    match last {
        None => 0,
        Some('\n') => newlines,
        Some(_) => newlines + 1,
    }
}

fn digit_text(d: usize) -> (r: &'static str)
    requires
        d < 10,
    ensures
        r@ == seq![digit_char(d as nat)],
{
    proof {
        reveal_strlit("0");
        reveal_strlit("1");
        reveal_strlit("2");
        reveal_strlit("3");
        reveal_strlit("4");
        reveal_strlit("5");
        reveal_strlit("6");
        reveal_strlit("7");
        reveal_strlit("8");
        reveal_strlit("9");
    }
    if d == 0 {
        "0"
    } else if d == 1 {
        "1"
    } else if d == 2 {
        "2"
    } else if d == 3 {
        "3"
    } else if d == 4 {
        "4"
    } else if d == 5 {
        "5"
    } else if d == 6 {
        "6"
    } else if d == 7 {
        "7"
    } else if d == 8 {
        "8"
    } else {
        "9"
    }
}

/// `n` in decimal.
pub fn decimal(n: usize) -> (r: String)
    ensures
        r@ == digits(n as nat),
    decreases n,
{
    if n < 10 {
        digit_text(n).to_string()
    } else {
        let mut r = decimal(n / 10);
        r.append(digit_text(n % 10));
        r
    }
}

fn padded_number(n: usize, width: usize) -> (r: String)
    ensures
        r@ == padded(n as nat, width as nat),
{
    let d = decimal(n);
    let len = d.as_str().unicode_len();
    let mut r = String::new();
    let mut k: usize = len;
    assert(r@ =~= Seq::new(0, |i: int| ' '));
    while k < width
        invariant
            len == digits(n as nat).len(),
            len <= k,
            k <= width || k == len,
            r@ == Seq::new((k - len) as nat, |i: int| ' '),
        decreases width - k,
    {
        r.append(" ");
        proof {
            reveal_strlit(" ");
        }
        assert(r@ =~= Seq::new((k + 1 - len) as nat, |i: int| ' '));
        k = k + 1;
    }
    assert(r@ =~= Seq::new(if len < width { (width - len) as nat } else { 0 }, |i: int| ' '));
    r.append(d.as_str());
    r
}

/// The line-number gutter for `text`.
pub fn line_number_gutter(text: &str) -> (r: String)
    ensures
        r@ == gutter(text@),
{
    let n = line_count(text);
    let widest = decimal(if n == 0 {
        1
    } else {
        n
    });
    let width = widest.as_str().unicode_len();
    let mut r = String::new();
    let mut i: usize = 0;
    while i < n
        invariant
            i <= n,
            n == lines_in(text@),
            width == digits(if n == 0 { 1 } else { n as nat }).len(),
            r@ == numbered_lines(i as nat, width as nat),
        decreases n - i,
    {
        i = i + 1;
        if i > 1 {
            r.append("\n");
            proof {
                reveal_strlit("\n");
            }
        }
        let p = padded_number(i, width);
        r.append(p.as_str());
        assert(r@ =~= numbered_lines(i as nat, width as nat));
    }
    r
}

} // verus!
