//! Builder of the feature-toggle style sheet: one class per stylistic
//! set ("ss01".."ss20") and one per character variant ("cv01".."cv99"),
//! each switching the font-feature-settings of its feature on.

use vstd::prelude::*;
use vstd::string::StringExecFns;

verus! {

/// The character for the decimal digit `d`.
pub open spec fn spec_digit_char(d: int) -> char {
    if d == 0 {
        '0'
    } else if d == 1 {
        '1'
    } else if d == 2 {
        '2'
    } else if d == 3 {
        '3'
    } else if d == 4 {
        '4'
    } else if d == 5 {
        '5'
    } else if d == 6 {
        '6'
    } else if d == 7 {
        '7'
    } else if d == 8 {
        '8'
    } else {
        '9'
    }
}

/// `n` written as exactly two decimal digits, leading zero included.
pub open spec fn spec_two_digits(n: int) -> Seq<char> {
    seq![spec_digit_char(n / 10), spec_digit_char(n % 10)]
}

/// One style-sheet line for the feature `prefix` + two digits of `n`.
pub open spec fn spec_css_line(prefix: Seq<char>, n: int) -> Seq<char> {
    "."@ + prefix + spec_two_digits(n) + " { font-feature-settings: \""@ + prefix
        + spec_two_digits(n) + "\" }\n"@
}

/// The lines for `prefix` + "01" up to `prefix` + two digits of `n`, in
/// ascending order.
pub open spec fn spec_css_lines(prefix: Seq<char>, n: int) -> Seq<char>
    decreases n,
{
    if n <= 0 {
        Seq::empty()
    } else {
        spec_css_lines(prefix, n - 1) + spec_css_line(prefix, n)
    }
}

/// The whole style sheet: the twenty stylistic-set lines, then the
/// ninety-nine character-variant lines.
pub open spec fn spec_cv_ss_css() -> Seq<char> {
    spec_css_lines("ss"@, 20) + spec_css_lines("cv"@, 99)
}

/// Append the character for the decimal digit `d`.
fn append_digit(css: &mut String, d: u8)
    requires
        d < 10,
    ensures
        final(css)@ == old(css)@ + seq![spec_digit_char(d as int)],
{
    if d == 0 {
        css.append("0");
        proof {
            reveal_strlit("0");
            assert(final(css)@ =~= old(css)@ + seq![spec_digit_char(d as int)]);
        }
    } else if d == 1 {
        css.append("1");
        proof {
            reveal_strlit("1");
            assert(final(css)@ =~= old(css)@ + seq![spec_digit_char(d as int)]);
        }
    } else if d == 2 {
        css.append("2");
        proof {
            reveal_strlit("2");
            assert(final(css)@ =~= old(css)@ + seq![spec_digit_char(d as int)]);
        }
    } else if d == 3 {
        css.append("3");
        proof {
            reveal_strlit("3");
            assert(final(css)@ =~= old(css)@ + seq![spec_digit_char(d as int)]);
        }
    } else if d == 4 {
        css.append("4");
        proof {
            reveal_strlit("4");
            assert(final(css)@ =~= old(css)@ + seq![spec_digit_char(d as int)]);
        }
    } else if d == 5 {
        css.append("5");
        proof {
            reveal_strlit("5");
            assert(final(css)@ =~= old(css)@ + seq![spec_digit_char(d as int)]);
        }
    } else if d == 6 {
        css.append("6");
        proof {
            reveal_strlit("6");
            assert(final(css)@ =~= old(css)@ + seq![spec_digit_char(d as int)]);
        }
    } else if d == 7 {
        css.append("7");
        proof {
            reveal_strlit("7");
            assert(final(css)@ =~= old(css)@ + seq![spec_digit_char(d as int)]);
        }
    } else if d == 8 {
        css.append("8");
        proof {
            reveal_strlit("8");
            assert(final(css)@ =~= old(css)@ + seq![spec_digit_char(d as int)]);
        }
    } else {
        css.append("9");
        proof {
            reveal_strlit("9");
            assert(final(css)@ =~= old(css)@ + seq![spec_digit_char(d as int)]);
        }
    }
}

/// Append `n` as exactly two decimal digits.
fn append_two_digits(css: &mut String, n: u8)
    requires
        n < 100,
    ensures
        final(css)@ == old(css)@ + spec_two_digits(n as int),
{
    append_digit(css, n / 10);
    append_digit(css, n % 10);
    proof {
        assert(final(css)@ =~= old(css)@ + spec_two_digits(n as int));
    }
}

/// Append one style-sheet line for `prefix` + two digits of `n`.
fn append_css_line(css: &mut String, prefix: &str, n: u8)
    requires
        n < 100,
    ensures
        final(css)@ == old(css)@ + spec_css_line(prefix@, n as int),
{
    css.append(".");
    css.append(prefix);
    append_two_digits(css, n);
    css.append(" { font-feature-settings: \"");
    css.append(prefix);
    append_two_digits(css, n);
    css.append("\" }\n");
    proof {
        assert(final(css)@ =~= old(css)@ + spec_css_line(prefix@, n as int));
    }
}

/// Build the style sheet, exactly as `spec_cv_ss_css` states.
pub fn _create_cv_ss() -> (r: String)
    ensures
        r@ == spec_cv_ss_css(),
{
    let mut css = String::new();

    let mut i: u8 = 1;
    while i <= 20
        invariant
            1 <= i <= 21,
            css@ == spec_css_lines("ss"@, i - 1),
        decreases 21 - i,
    {
        append_css_line(&mut css, "ss", i);
        i = i + 1;
    }

    let mut i: u8 = 1;
    while i <= 99
        invariant
            1 <= i <= 100,
            css@ == spec_css_lines("ss"@, 20) + spec_css_lines("cv"@, i - 1),
        decreases 100 - i,
    {
        append_css_line(&mut css, "cv", i);
        proof {
            assert(css@ =~= spec_css_lines("ss"@, 20) + spec_css_lines("cv"@, i as int));
        }
        i = i + 1;
    }
    css
}

} // verus!
