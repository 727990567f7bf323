//! Screen layout arithmetic and the captions the screens show.
//!
//! The terminal itself is driven outside the library; the columns at
//! which text is placed, and the text of the captions, are computed here.

use vstd::prelude::*;

use unicode_width::UnicodeWidthStr;

verus! {

use vstd::string::StringExecFns;

/// The terminal display width of a string, as unicode-width reports it: a
/// function of the characters alone.
pub uninterp spec fn display_width_of(s: Seq<char>) -> nat;

/// Relies on unicode-width's `UnicodeWidthStr::width`: the display width
/// of the string in terminal columns, a function of its characters alone.
#[verifier::external_body]
fn display_width(s: &str) -> (r: usize)
    ensures
        r as nat == display_width_of(s@),
{
    UnicodeWidthStr::width(s)
}

/// The column at which text of the given display width starts when
/// centred on a row of `cols` columns; the width is first narrowed to the
/// column type, and text wider than the row starts at the left edge.
pub open spec fn centered_of(cols: u16, width: nat) -> u16 {
    let w = (width % 0x10000) as u16;
    if w <= cols {
        (((cols - w) as u16) / 2) as u16
    } else {
        0
    }
}

/// The starting column that centres the text on a row of `cols` columns.
pub fn centered_start(cols: u16, text: &str) -> (r: u16)
    ensures
        r == centered_of(cols, display_width_of(text@)),
{
    let wide = display_width(text);
    let w: u16 = (wide % 0x10000) as u16;
    if w <= cols {
        (cols - w) / 2
    } else {
        0
    }
}

/// The column at which text of the given display width starts when set
/// against the right edge of a row of `cols` columns, one column in; text
/// that does not fit starts at the left edge.
pub open spec fn right_edge_of(cols: u16, width: nat) -> u16 {
    let w = (width % 0x10000) as u16;
    let rest = if w <= cols {
        (cols - w) as u16
    } else {
        0
    };
    if rest > 0 {
        (rest - 1) as u16
    } else {
        0
    }
}

/// The starting column that sets the text against the right edge of a row
/// of `cols` columns, one column in.
pub fn right_edge_start(cols: u16, text: &str) -> (r: u16)
    ensures
        r == right_edge_of(cols, display_width_of(text@)),
{
    let wide = display_width(text);
    let w: u16 = (wide % 0x10000) as u16;
    let rest = if w <= cols {
        cols - w
    } else {
        0
    };
    if rest > 0 {
        rest - 1
    } else {
        0
    }
}

/// The decimal digit characters.
pub open spec fn digit_char(d: nat) -> char {
    if d == 0 {
        '0'
    } else if d == 1 {
        '1'
    } else if d == 2 {
        '2'
    } else if d == 3 {
        '3'
    } else if d == 4 {
        '4'
    } else if d == 5 {
        '5'
    } else if d == 6 {
        '6'
    } else if d == 7 {
        '7'
    } else if d == 8 {
        '8'
    } else {
        '9'
    }
}

/// The decimal notation of a number, without leading zeroes.
pub open spec fn decimal_of(n: nat) -> Seq<char>
    decreases n,
{
    if n < 10 {
        seq![digit_char(n)]
    } else {
        decimal_of(n / 10).push(digit_char(n % 10))
    }
}

/// One decimal digit as text.
fn digit_str(d: u64) -> (r: &'static str)
    requires
        d < 10,
    ensures
        r@ == seq![digit_char(d as nat)],
{
    if d == 0 {
        proof {
            reveal_strlit("0");
            assert("0"@ =~= seq!['0']);
        }
        "0"
    } else if d == 1 {
        proof {
            reveal_strlit("1");
            assert("1"@ =~= seq!['1']);
        }
        "1"
    } else if d == 2 {
        proof {
            reveal_strlit("2");
            assert("2"@ =~= seq!['2']);
        }
        "2"
    } else if d == 3 {
        proof {
            reveal_strlit("3");
            assert("3"@ =~= seq!['3']);
        }
        "3"
    } else if d == 4 {
        proof {
            reveal_strlit("4");
            assert("4"@ =~= seq!['4']);
        }
        "4"
    } else if d == 5 {
        proof {
            reveal_strlit("5");
            assert("5"@ =~= seq!['5']);
        }
        "5"
    } else if d == 6 {
        proof {
            reveal_strlit("6");
            assert("6"@ =~= seq!['6']);
        }
        "6"
    } else if d == 7 {
        proof {
            reveal_strlit("7");
            assert("7"@ =~= seq!['7']);
        }
        "7"
    } else if d == 8 {
        proof {
            reveal_strlit("8");
            assert("8"@ =~= seq!['8']);
        }
        "8"
    } else {
        proof {
            reveal_strlit("9");
            assert("9"@ =~= seq!['9']);
        }
        "9"
    }
}

/// The decimal notation of a number as a string.
pub fn decimal_string(n: u64) -> (r: String)
    ensures
        r@ == decimal_of(n as nat),
    decreases n,
{
    if n < 10 {
        let d = digit_str(n);
        d.to_owned()
    } else {
        let mut s = decimal_string(n / 10);
        let d = digit_str(n % 10);
        s.append(d);
        proof {
            assert(decimal_of((n / 10) as nat) + seq![digit_char((n % 10) as nat)] =~= decimal_of(
                (n / 10) as nat,
            ).push(digit_char((n % 10) as nat)));
        }
        s
    }
}

/// The progress caption: the one-based position and the total, separated
/// by a slash.
pub fn progress_label(i: usize, total: usize) -> (r: String)
    requires
        i < total,
    ensures
        r@ == decimal_of((i + 1) as nat) + " / "@ + decimal_of(total as nat),
{
    let mut s = decimal_string((i + 1) as u64);
    s.append(" / ");
    let t = decimal_string(total as u64);
    s.append(t.as_str());
    s
}

/// The example caption: the sentence wrapped in parentheses.
pub fn parenthesized(s: &str) -> (r: String)
    ensures
        r@ == seq!['('] + s@ + seq![')'],
{
    let mut r = "(".to_owned();
    r.append(s);
    r.append(")");
    proof {
        reveal_strlit("(");
        reveal_strlit(")");
        assert("("@ + s@ + ")"@ =~= seq!['('] + s@ + seq![')']);
    }
    r
}

} // verus!
