//! The cat-style per-line formatter: decimal rendering of line numbers,
//! right alignment to a fixed width, tab separation, the optional end
//! marker, and the nonblank-line counter.

use vstd::prelude::*;
use vstd::string::*;
use crate::views_of;

verus! {

/// Width that line numbers are right-aligned to.
pub const NUMBER_WIDTH: usize = 6;

/// How lines are displayed by the cat-style pass.
#[derive(Clone, Copy, Debug, PartialEq, Eq, Structural)]
pub enum DisplayMode {
    /// Lines are emitted as they are.
    Plain,
    /// Every line is prefixed with its 1-based index.
    Numbered,
    /// Only nonblank lines are prefixed, with their own running counter.
    NumberedNonblank,
}

/// The character appended to a line when end markers are requested.
pub open spec fn end_marker_char() -> char {
    '$'
}

/// The decimal digit character for a value below ten.
pub open spec fn digit_char(d: nat) -> char
    recommends
        d < 10,
{
    if d == 0 { '0' }
    else if d == 1 { '1' }
    else if d == 2 { '2' }
    else if d == 3 { '3' }
    else if d == 4 { '4' }
    else if d == 5 { '5' }
    else if d == 6 { '6' }
    else if d == 7 { '7' }
    else if d == 8 { '8' }
    else { '9' }
}

/// The decimal numeral of `n`, most significant digit first, with no
/// leading zero (except for `n == 0` itself).
pub open spec fn decimal_rep(n: nat) -> Seq<char>
    decreases n,
{
    if n < 10 {
        seq![digit_char(n)]
    } else {
        decimal_rep(n / 10).push(digit_char(n % 10))
    }
}

/// `w` space characters.
pub open spec fn space_pad(w: nat) -> Seq<char> {
    Seq::new(w, |i: int| ' ')
}

/// The decimal numeral of `n`, right-aligned with spaces to width `w`
/// (wider numerals are kept whole).
pub open spec fn aligned_decimal(n: nat, w: nat) -> Seq<char> {
    if decimal_rep(n).len() >= w {
        decimal_rep(n)
    } else {
        space_pad((w - decimal_rep(n).len()) as nat) + decimal_rep(n)
    }
}

/// The end marker, or nothing, depending on the flag.
pub open spec fn marker_suffix(show_ends: bool) -> Seq<char> {
    if show_ends {
        seq![end_marker_char()]
    } else {
        Seq::<char>::empty()
    }
}

/// An unprefixed output line: the text plus the optional end marker.
pub open spec fn plain_line(t: Seq<char>, show_ends: bool) -> Seq<char> {
    t + marker_suffix(show_ends)
}

/// A numbered output line: the aligned number, a tab, the text, and the
/// optional end marker.
pub open spec fn numbered_line(n: nat, t: Seq<char>, show_ends: bool) -> Seq<char> {
    aligned_decimal(n, NUMBER_WIDTH as nat) + seq!['\t'] + t + marker_suffix(show_ends)
}

/// The nonblank-line counter after one more line of text `t`.
pub open spec fn counter_next(counter: nat, t: Seq<char>) -> nat {
    if t.len() > 0 {
        counter + 1
    } else {
        counter
    }
}

/// What one line of text `t` becomes on output, given the display mode,
/// the end-marker flag, the nonblank counter so far, and the 0-based
/// line index.
pub open spec fn line_output(
    mode: DisplayMode,
    show_ends: bool,
    counter: nat,
    index: nat,
    t: Seq<char>,
) -> Seq<char> {
    match mode {
        DisplayMode::Plain => plain_line(t, show_ends),
        DisplayMode::Numbered => numbered_line(index + 1, t, show_ends),
        DisplayMode::NumberedNonblank => if t.len() == 0 {
            plain_line(t, show_ends)
        } else {
            numbered_line(counter + 1, t, show_ends)
        },
    }
}

/// How many of the given lines are nonblank.
pub open spec fn nonblank_count(ls: Seq<Seq<char>>) -> nat
    decreases ls.len(),
{
    if ls.len() == 0 {
        0
    } else {
        nonblank_count(ls.drop_last()) + if ls.last().len() > 0 { 1nat } else { 0nat }
    }
}

/// Output line `i` of the cat-style pass over the lines `ls`.
pub open spec fn cat_line_at(
    mode: DisplayMode,
    show_ends: bool,
    ls: Seq<Seq<char>>,
    i: int,
) -> Seq<char>
    recommends
        0 <= i < ls.len(),
{
    line_output(mode, show_ends, nonblank_count(ls.take(i)), i as nat, ls[i])
}

/// The whole output of the cat-style pass over one source.
pub open spec fn cat_output(mode: DisplayMode, show_ends: bool, ls: Seq<Seq<char>>) -> Seq<
    Seq<char>,
> {
    Seq::new(ls.len(), |i: int| cat_line_at(mode, show_ends, ls, i))
}

proof fn lemma_nonblank_count_le(ls: Seq<Seq<char>>)
    ensures
        nonblank_count(ls) <= ls.len(),
    decreases ls.len(),
{
    if ls.len() > 0 {
        lemma_nonblank_count_le(ls.drop_last());
    }
}

/// Adding line `i` to a prefix adds one to the nonblank count exactly
/// when the line is nonblank.
pub proof fn lemma_nonblank_count_step(ls: Seq<Seq<char>>, i: int)
    requires
        0 <= i < ls.len(),
    ensures
        nonblank_count(ls.take(i + 1)) == nonblank_count(ls.take(i)) + if ls[i].len() > 0 {
            1nat
        } else {
            0nat
        },
{
    assert(ls.take(i + 1).drop_last() =~= ls.take(i));
    assert(ls.take(i + 1).last() == ls[i]);
}

/// A single decimal digit as a string slice.
fn digit_str(d: u64) -> (r: &'static str)
    requires
        d < 10,
    ensures
        r@ == seq![digit_char(d as nat)],
{
    if d == 0 {
        proof { reveal_strlit("0"); }
        let r = "0";
        proof { assert(r@ =~= seq![digit_char(d as nat)]); }
        r
    } else if d == 1 {
        proof { reveal_strlit("1"); }
        let r = "1";
        proof { assert(r@ =~= seq![digit_char(d as nat)]); }
        r
    } else if d == 2 {
        proof { reveal_strlit("2"); }
        let r = "2";
        proof { assert(r@ =~= seq![digit_char(d as nat)]); }
        r
    } else if d == 3 {
        proof { reveal_strlit("3"); }
        let r = "3";
        proof { assert(r@ =~= seq![digit_char(d as nat)]); }
        r
    } else if d == 4 {
        proof { reveal_strlit("4"); }
        let r = "4";
        proof { assert(r@ =~= seq![digit_char(d as nat)]); }
        r
    } else if d == 5 {
        proof { reveal_strlit("5"); }
        let r = "5";
        proof { assert(r@ =~= seq![digit_char(d as nat)]); }
        r
    } else if d == 6 {
        proof { reveal_strlit("6"); }
        let r = "6";
        proof { assert(r@ =~= seq![digit_char(d as nat)]); }
        r
    } else if d == 7 {
        proof { reveal_strlit("7"); }
        let r = "7";
        proof { assert(r@ =~= seq![digit_char(d as nat)]); }
        r
    } else if d == 8 {
        proof { reveal_strlit("8"); }
        let r = "8";
        proof { assert(r@ =~= seq![digit_char(d as nat)]); }
        r
    } else {
        proof { reveal_strlit("9"); }
        let r = "9";
        proof { assert(r@ =~= seq![digit_char(d as nat)]); }
        r
    }
}

/// The decimal numeral of `n` as a fresh string.
pub fn u64_decimal(n: u64) -> (r: String)
    ensures
        r@ == decimal_rep(n as nat),
    decreases n,
{
    if n < 10 {
        digit_str(n).to_owned()
    } else {
        let mut r = u64_decimal(n / 10);
        r.append(digit_str(n % 10));
        proof {
            assert(r@ =~= decimal_rep(n as nat));
        }
        r
    }
}

/// The decimal numeral of `n`, right-aligned with spaces to `width`.
pub fn aligned_number(n: u64, width: usize) -> (r: String)
    ensures
        r@ == aligned_decimal(n as nat, width as nat),
{
    let digits = u64_decimal(n);
    let dlen = digits.as_str().unicode_len();
    let mut r = String::new();
    if dlen < width {
        let pad: usize = width - dlen;
        let mut j: usize = 0;
        while j < pad
            invariant
                j <= pad,
                r@ =~= space_pad(j as nat),
            decreases pad - j,
        {
            proof { reveal_strlit(" "); }
            r.append(" ");
            j += 1;
            proof {
                assert(r@ =~= space_pad(j as nat));
            }
        }
    }
    r.append(digits.as_str());
    proof {
        assert(r@ =~= aligned_decimal(n as nat, width as nat));
    }
    r
}

/// Formats one line for the cat-style pass and advances the nonblank
/// counter. Returns the output line and the new counter.
pub fn format_line(
    mode: DisplayMode,
    show_ends: bool,
    counter: u64,
    index: u64,
    line: &str,
) -> (r: (String, u64))
    requires
        counter < u64::MAX,
        index < u64::MAX,
    ensures
        r.0@ == line_output(mode, show_ends, counter as nat, index as nat, line@),
        r.1 as nat == counter_next(counter as nat, line@),
{
    let next = if line.is_empty() { counter } else { counter + 1 };
    match mode {
        DisplayMode::Plain => {
            let mut s = line.to_owned();
            if show_ends {
                proof { reveal_strlit("$"); }
                s.append("$");
            }
            proof {
                assert(s@ =~= plain_line(line@, show_ends));
            }
            (s, next)
        },
        DisplayMode::Numbered => {
            let mut s = aligned_number(index + 1, NUMBER_WIDTH);
            proof { reveal_strlit("\t"); }
            s.append("\t");
            s.append(line);
            if show_ends {
                proof { reveal_strlit("$"); }
                s.append("$");
            }
            proof {
                assert(s@ =~= numbered_line((index + 1) as nat, line@, show_ends));
            }
            (s, next)
        },
        DisplayMode::NumberedNonblank => {
            if line.is_empty() {
                let mut s = line.to_owned();
                if show_ends {
                    proof { reveal_strlit("$"); }
                    s.append("$");
                }
                proof {
                    assert(s@ =~= plain_line(line@, show_ends));
                }
                (s, next)
            } else {
                let mut s = aligned_number(counter + 1, NUMBER_WIDTH);
                proof { reveal_strlit("\t"); }
                s.append("\t");
                s.append(line);
                if show_ends {
                    proof { reveal_strlit("$"); }
                    s.append("$");
                }
                proof {
                    assert(s@ =~= numbered_line((counter + 1) as nat, line@, show_ends));
                }
                (s, next)
            }
        },
    }
}

/// The cat-style pass over one whole source: every line formatted in
/// order, with the nonblank counter starting at zero.
pub fn cat_source(mode: DisplayMode, show_ends: bool, lines: &Vec<String>) -> (out: Vec<String>)
    ensures
        views_of(out@) == cat_output(mode, show_ends, views_of(lines@)),
{
    let ghost ls = views_of(lines@);
    let mut out: Vec<String> = Vec::new();
    let mut counter: u64 = 0;
    let mut i: usize = 0;
    while i < lines.len()
        invariant
            i <= lines.len(),
            ls == views_of(lines@),
            counter as nat == nonblank_count(ls.take(i as int)),
            counter <= i,
            out.len() == i,
            forall|j: int| 0 <= j < i ==> out@[j]@ == cat_line_at(mode, show_ends, ls, j),
        decreases lines.len() - i,
    {
        let (s, c2) = format_line(mode, show_ends, counter, i as u64, lines[i].as_str());
        out.push(s);
        proof {
            lemma_nonblank_count_step(ls, i as int);
            lemma_nonblank_count_le(ls.take(i + 1));
        }
        counter = c2;
        i += 1;
    }
    proof {
        assert(views_of(out@) =~= cat_output(mode, show_ends, ls));
    }
    out
}

/// In `Numbered` mode with no end marker, output line `i` is the
/// right-aligned numeral of `i + 1`, a tab, and line `i` unchanged.
pub proof fn lemma_numbered_line_shape(ls: Seq<Seq<char>>, i: int)
    requires
        0 <= i < ls.len(),
    ensures
        cat_output(DisplayMode::Numbered, false, ls)[i] == aligned_decimal(
            (i + 1) as nat,
            NUMBER_WIDTH as nat,
        ) + seq!['\t'] + ls[i],
{
    assert(cat_output(DisplayMode::Numbered, false, ls)[i] =~= aligned_decimal(
        (i + 1) as nat,
        NUMBER_WIDTH as nat,
    ) + seq!['\t'] + ls[i]);
}

/// In `NumberedNonblank` mode a blank line passes through with only the
/// optional marker, and the nonblank counter does not advance over it.
pub proof fn lemma_nonblank_blank_line(ls: Seq<Seq<char>>, show_ends: bool, i: int)
    requires
        0 <= i < ls.len(),
        ls[i].len() == 0,
    ensures
        cat_output(DisplayMode::NumberedNonblank, show_ends, ls)[i] == ls[i] + marker_suffix(
            show_ends,
        ),
        nonblank_count(ls.take(i + 1)) == nonblank_count(ls.take(i)),
{
    lemma_nonblank_count_step(ls, i);
}

proof fn lemma_all_blank_count_zero(ls: Seq<Seq<char>>)
    requires
        forall|j: int| 0 <= j < ls.len() ==> ls[j].len() == 0,
    ensures
        nonblank_count(ls) == 0,
    decreases ls.len(),
{
    if ls.len() > 0 {
        lemma_all_blank_count_zero(ls.drop_last());
    }
}

/// In `NumberedNonblank` mode the first nonblank line, after any number
/// of blank lines, is numbered 1.
pub proof fn lemma_first_nonblank_is_one(ls: Seq<Seq<char>>, show_ends: bool, i: int)
    requires
        0 <= i < ls.len(),
        forall|j: int| 0 <= j < i ==> ls[j].len() == 0,
        ls[i].len() > 0,
    ensures
        cat_output(DisplayMode::NumberedNonblank, show_ends, ls)[i] == numbered_line(
            1,
            ls[i],
            show_ends,
        ),
{
    lemma_all_blank_count_zero(ls.take(i));
}

/// The cat-style pass is a pure function of its input and configuration:
/// two runs over identical lines with an identical configuration yield
/// identical output.
pub proof fn lemma_cat_pass_idempotent(
    mode: DisplayMode,
    show_ends: bool,
    ls: Seq<Seq<char>>,
    out1: Seq<Seq<char>>,
    out2: Seq<Seq<char>>,
)
    requires
        out1 == cat_output(mode, show_ends, ls),
        out2 == cat_output(mode, show_ends, ls),
    ensures
        out1 == out2,
{
}

} // verus!
