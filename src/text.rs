use vstd::prelude::*;

use vstd::string::StringExecFns;

use crate::dense::Matrix;
use crate::scalar::Scalar;

verus! {

/// The decimal digit character for `d` in `0..10`.
pub open spec fn digit_char(d: int) -> char {
    if d == 0 {
        '0'
    } else if d == 1 {
        '1'
    } else if d == 2 {
        '2'
    } else if d == 3 {
        '3'
    } else if d == 4 {
        '4'
    } else if d == 5 {
        '5'
    } else if d == 6 {
        '6'
    } else if d == 7 {
        '7'
    } else if d == 8 {
        '8'
    } else {
        '9'
    }
}

/// The decimal digits of `n`, most significant first, without leading zeros
/// (`0` is written as one digit).
pub open spec fn digits(n: nat) -> Seq<char>
    decreases n,
{
    if n < 10 {
        seq![digit_char(n as int)]
    } else {
        digits(n / 10) + seq![digit_char((n % 10) as int)]
    }
}

/// `x` written in decimal, with a leading `-` when negative.
pub open spec fn decimal(x: int) -> Seq<char> {
    if x < 0 {
        seq!['-'] + digits((-x) as nat)
    } else {
        digits(x as nat)
    }
}

/// Appends the one-character string for digit `d`.
fn append_digit(s: &mut String, d: u128)
    requires
        d < 10,
    ensures
        final(s)@ == old(s)@ + seq![digit_char(d as int)],
{
    let lit: &str = if d == 0 {
        proof { reveal_strlit("0"); }
        "0"
    } else if d == 1 {
        proof { reveal_strlit("1"); }
        "1"
    } else if d == 2 {
        proof { reveal_strlit("2"); }
        "2"
    } else if d == 3 {
        proof { reveal_strlit("3"); }
        "3"
    } else if d == 4 {
        proof { reveal_strlit("4"); }
        "4"
    } else if d == 5 {
        proof { reveal_strlit("5"); }
        "5"
    } else if d == 6 {
        proof { reveal_strlit("6"); }
        "6"
    } else if d == 7 {
        proof { reveal_strlit("7"); }
        "7"
    } else if d == 8 {
        proof { reveal_strlit("8"); }
        "8"
    } else {
        proof { reveal_strlit("9"); }
        "9"
    };
    assert(lit@ =~= seq![digit_char(d as int)]);
    s.append(lit);
}

/// Appends the decimal digits of `n`.
fn append_digits(s: &mut String, n: u128)
    ensures
        final(s)@ == old(s)@ + digits(n as nat),
    decreases n,
{
    if n < 10 {
        append_digit(s, n);
    } else {
        append_digits(s, n / 10);
        append_digit(s, n % 10);
        assert(final(s)@ =~= old(s)@ + digits(n as nat));
    }
}

/// Appends `x` in decimal.
fn append_decimal(s: &mut String, x: i128)
    requires
        x > i128::MIN,
    ensures
        final(s)@ == old(s)@ + decimal(x as int),
{
    if x < 0 {
        proof {
            reveal_strlit("-");
        }
        s.append("-");
        let magnitude: u128 = (0 - x) as u128;
        append_digits(s, magnitude);
        assert(final(s)@ =~= old(s)@ + decimal(x as int));
    } else {
        append_digits(s, x as u128);
    }
}

impl<A: Scalar> Matrix<A> {
    /// The first `n` elements of row `i`, in decimal, separated by `", "`.
    pub open spec fn row_text(&self, i: int, n: int) -> Seq<char>
        decreases n,
    {
        if n <= 0 {
            Seq::empty()
        } else if n == 1 {
            decimal(self.at(i, 0).value())
        } else {
            self.row_text(i, n - 1) + seq![',', ' '] + decimal(self.at(i, n - 1).value())
        }
    }

    /// The first `n` rows, each as in `row_text`, separated by `"; "`.
    pub open spec fn rows_text(&self, n: int) -> Seq<char>
        decreases n,
    {
        if n <= 0 {
            Seq::empty()
        } else if n == 1 {
            self.row_text(0, self.ncols() as int)
        } else {
            self.rows_text(n - 1) + seq![';', ' '] + self.row_text(n - 1, self.ncols() as int)
        }
    }

    /// The whole matrix as text: `"[a, b; c, d]"`, with no trailing
    /// separators.
    pub open spec fn text(&self) -> Seq<char> {
        seq!['['] + self.rows_text(self.nrows() as int) + seq![']']
    }

    /// Renders the matrix as `[a, b; c, d]`: elements of a row separated by
    /// `", "`, rows separated by `"; "`, the whole enclosed in brackets.
    pub fn to_string(&self) -> (s: String)
        requires
            self.wf(),
        ensures
            s@ == self.text(),
    {
        let (rows, cols) = self.dimensions();
        proof {
            reveal_strlit("[");
            reveal_strlit("]");
        }
        let mut s: String = String::from_str("[");
        let mut i: usize = 0;
        while i < rows
            invariant
                self.wf(),
                rows == self.nrows(),
                cols == self.ncols(),
                i <= rows,
                s@ == seq!['['] + self.rows_text(i as int),
            decreases rows - i,
        {
            let ghost before: Seq<char> = s@;
            if i > 0 {
                proof {
                    reveal_strlit("; ");
                }
                s.append("; ");
            }
            let ghost row_start: Seq<char> = s@;
            let ghost sep: Seq<char> = if i > 0 {
                seq![';', ' ']
            } else {
                Seq::empty()
            };
            assert(row_start =~= before + sep);
            let mut j: usize = 0;
            while j < cols
                invariant
                    self.wf(),
                    rows == self.nrows(),
                    cols == self.ncols(),
                    i < rows,
                    j <= cols,
                    s@ == row_start + self.row_text(i as int, j as int),
                decreases cols - j,
            {
                let ghost prefix: Seq<char> = s@;
                if j > 0 {
                    proof {
                        reveal_strlit(", ");
                    }
                    s.append(", ");
                }
                let ghost sep: Seq<char> = if j > 0 {
                    seq![',', ' ']
                } else {
                    Seq::empty()
                };
                assert(s@ =~= prefix + sep);
                let x: A = self.get(i, j);
                let wide: i128 = x.to_i128();
                append_decimal(&mut s, wide);
                assert(self.row_text(i as int, j + 1) =~= self.row_text(i as int, j as int) + sep
                    + decimal(x.value()));
                assert(s@ =~= row_start + self.row_text(i as int, j + 1));
                j = j + 1;
            }
            assert(self.rows_text(i + 1) =~= self.rows_text(i as int) + sep + self.row_text(
                i as int,
                cols as int,
            ));
            assert(s@ =~= seq!['['] + self.rows_text(i + 1));
            i = i + 1;
        }
        s.append("]");
        s
    }
}

} // verus!
