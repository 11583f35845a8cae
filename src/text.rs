use vstd::prelude::*;
use vstd::string::*;

verus! {

/// The character of one decimal digit.
pub open spec fn digit_char(d: nat) -> char {
    if d == 0 { '0' }
    else if d == 1 { '1' }
    else if d == 2 { '2' }
    else if d == 3 { '3' }
    else if d == 4 { '4' }
    else if d == 5 { '5' }
    else if d == 6 { '6' }
    else if d == 7 { '7' }
    else if d == 8 { '8' }
    else { '9' }
}

/// The decimal digits of `n`, most significant first, with no leading zero.
pub open spec fn decimal(n: nat) -> Seq<char>
    decreases n,
{
    if n < 10 {
        seq![digit_char(n)]
    } else {
        decimal(n / 10).push(digit_char(n % 10))
    }
}

pub open spec fn spaces(k: nat) -> Seq<char> {
    Seq::new(k, |i: int| ' ')
}

/// `s` right-aligned in a field of `width` characters.
pub open spec fn pad_left(s: Seq<char>, width: nat) -> Seq<char> {
    if s.len() < width {
        spaces((width - s.len()) as nat) + s
    } else {
        s
    }
}

/// `s` left-aligned in a field of `width` characters.
pub open spec fn pad_right(s: Seq<char>, width: nat) -> Seq<char> {
    if s.len() < width {
        s + spaces((width - s.len()) as nat)
    } else {
        s
    }
}

/// The kind label of an item: pull requests and issues are told apart.
pub open spec fn kind_label(pull_request: bool) -> Seq<char> {
    if pull_request {
        seq!['P', 'R']
    } else {
        seq!['I', 's', 's', 'u', 'e']
    }
}

pub open spec fn dash() -> Seq<char> {
    seq![' ', '-', ' ']
}

/// The progress line of the `counter`-th item:
/// `{counter:>3} - {label:<5} {number:>3} - {title}`.
pub open spec fn log_line_of(counter: nat, number: nat, pull_request: bool, title: Seq<char>) -> Seq<char> {
    pad_left(decimal(counter), 3) + dash() + pad_right(kind_label(pull_request), 5) + seq![' ']
        + pad_left(decimal(number), 3) + dash() + title
}

fn digit_str(d: u64) -> (r: &'static str)
    requires
        d < 10,
    ensures
        r@ == seq![digit_char(d as nat)],
{
    proof {
        reveal_strlit("0");
        reveal_strlit("1");
        reveal_strlit("2");
        reveal_strlit("3");
        reveal_strlit("4");
        reveal_strlit("5");
        reveal_strlit("6");
        reveal_strlit("7");
        reveal_strlit("8");
        reveal_strlit("9");
    }
    if d == 0 { "0" }
    else if d == 1 { "1" }
    else if d == 2 { "2" }
    else if d == 3 { "3" }
    else if d == 4 { "4" }
    else if d == 5 { "5" }
    else if d == 6 { "6" }
    else if d == 7 { "7" }
    else if d == 8 { "8" }
    else { "9" }
}

fn push_decimal(out: &mut String, n: u64)
    ensures
        final(out)@ == old(out)@ + decimal(n as nat),
    decreases n,
{
    if n >= 10 {
        push_decimal(out, n / 10);
    }
    out.append(digit_str(n % 10));
    proof {
        assert(old(out)@ + decimal(n as nat) =~= final(out)@) by {
            if n >= 10 {
                assert(decimal(n as nat) == decimal((n / 10) as nat).push(digit_char((n % 10) as nat)));
            }
        }
    }
}

/// The decimal digits of `n`.
pub fn decimal_string(n: u64) -> (r: String)
    ensures
        r@ == decimal(n as nat),
{
    let mut s = String::new();
    push_decimal(&mut s, n);
    proof {
        assert(s@ =~= decimal(n as nat));
    }
    s
}

fn push_spaces(out: &mut String, k: usize)
    ensures
        final(out)@ == old(out)@ + spaces(k as nat),
{
    proof {
        reveal_strlit(" ");
    }
    let mut i: usize = 0;
    while i < k
        invariant
            i <= k,
            out@ == old(out)@ + spaces(i as nat),
        decreases k - i,
    {
        proof {
            reveal_strlit(" ");
        }
        out.append(" ");
        i = i + 1;
        assert(out@ =~= old(out)@ + spaces(i as nat));
    }
}

fn push_pad_left(out: &mut String, s: &str, width: usize)
    ensures
        final(out)@ == old(out)@ + pad_left(s@, width as nat),
{
    let len = s.unicode_len();
    if len < width {
        push_spaces(out, width - len);
    }
    out.append(s);
    proof {
        assert(final(out)@ =~= old(out)@ + pad_left(s@, width as nat));
    }
}

fn push_pad_right(out: &mut String, s: &str, width: usize)
    ensures
        final(out)@ == old(out)@ + pad_right(s@, width as nat),
{
    let len = s.unicode_len();
    out.append(s);
    if len < width {
        push_spaces(out, width - len);
    }
    proof {
        assert(final(out)@ =~= old(out)@ + pad_right(s@, width as nat));
    }
}

/// The progress line of the `counter`-th item of a run, for an item of the
/// given number, kind and title.
pub fn log_line(counter: u64, number: u64, pull_request: bool, title: &str) -> (r: String)
    ensures
        r@ == log_line_of(counter as nat, number as nat, pull_request, title@),
{
    proof {
        reveal_strlit(" - ");
        reveal_strlit(" ");
        reveal_strlit("PR");
        reveal_strlit("Issue");
    }
    let mut out = String::new();
    let c = decimal_string(counter);
    push_pad_left(&mut out, c.as_str(), 3);
    out.append(" - ");
    let label: &str = if pull_request { "PR" } else { "Issue" };
    assert(label@ == kind_label(pull_request));
    push_pad_right(&mut out, label, 5);
    out.append(" ");
    let n = decimal_string(number);
    push_pad_left(&mut out, n.as_str(), 3);
    out.append(" - ");
    out.append(title);
    proof {
        assert(out@ =~= log_line_of(counter as nat, number as nat, pull_request, title@));
    }
    out
}

} // verus!
