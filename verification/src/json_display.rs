//! Rendering of samples as JSON text. A sample type states the exact
//! character sequence it renders to; verified decimal formatting and a join
//! helper let the snapshot envelope be specified character by character.

use vstd::prelude::*;
use vstd::string::*;

verus! {

/// The capability of rendering one value as one JSON object. `spec_json` is
/// the exact text the executable `json_item` appends.
pub trait JsonDisplay: Sized {
    /// The rendered characters of this value.
    spec fn spec_json(self) -> Seq<char>;

    fn json_item(&self, w: &mut String)
        ensures
            final(w)@ == old(w)@ + self.spec_json(),
    ;
}

/// The character for one decimal digit.
pub open spec fn digit_char(d: int) -> char {
    if d == 0 {
        '0'
    } else if d == 1 {
        '1'
    } else if d == 2 {
        '2'
    } else if d == 3 {
        '3'
    } else if d == 4 {
        '4'
    } else if d == 5 {
        '5'
    } else if d == 6 {
        '6'
    } else if d == 7 {
        '7'
    } else if d == 8 {
        '8'
    } else {
        '9'
    }
}

/// The decimal digits of `n`, most significant first.
pub open spec fn dec_chars(n: nat) -> Seq<char>
    decreases n,
{
    if n < 10 {
        seq![digit_char(n as int)]
    } else {
        dec_chars(n / 10).push(digit_char((n % 10) as int))
    }
}

/// The decimal rendering of `a`, with a leading minus sign when negative.
pub open spec fn int_chars(a: int) -> Seq<char> {
    if a < 0 {
        seq!['-'] + dec_chars((-a) as nat)
    } else {
        dec_chars(a as nat)
    }
}

/// `parts` joined by `sep`: no separator before the first part or after the
/// last, and none at all for a single part.
pub open spec fn join_chars(parts: Seq<Seq<char>>, sep: Seq<char>) -> Seq<char>
    decreases parts.len(),
{
    if parts.len() == 0 {
        Seq::<char>::empty()
    } else if parts.len() == 1 {
        parts[0]
    } else {
        parts[0] + sep + join_chars(parts.skip(1), sep)
    }
}

/// Appending one more part extends the join by one separator and the part,
/// except into an empty join.
pub proof fn lemma_join_push(parts: Seq<Seq<char>>, p: Seq<char>, sep: Seq<char>)
    ensures
        join_chars(parts.push(p), sep) == if parts.len() == 0 {
            p
        } else {
            join_chars(parts, sep) + sep + p
        },
    decreases parts.len(),
{
    if parts.len() == 0 {
        assert(parts.push(p) =~= seq![p]);
    } else if parts.len() == 1 {
        assert(parts.push(p).skip(1) =~= seq![p]);
        assert(parts.push(p)[0] == parts[0]);
        assert(join_chars(seq![p], sep) == p);
    } else {
        assert(parts.push(p).skip(1) =~= parts.skip(1).push(p));
        assert(parts.push(p)[0] == parts[0]);
        lemma_join_push(parts.skip(1), p, sep);
    }
}

/// The rendering of each item of `items`, in order.
pub open spec fn rendered_parts<T: JsonDisplay>(items: Seq<T>) -> Seq<Seq<char>> {
    items.map(|i: int, x: T| x.spec_json())
}

/// The items of one tier rendered oldest to newest, comma-separated.
pub open spec fn chunk_chars<T: JsonDisplay>(items: Seq<T>) -> Seq<char> {
    join_chars(rendered_parts(items), ","@)
}

/// Appends the digit `d`.
fn append_digit(w: &mut String, d: u64)
    requires
        d < 10,
    ensures
        final(w)@ == old(w)@ + seq![digit_char(d as int)],
{
    if d == 0 {
        w.append("0");
        proof {
            reveal_strlit("0");
            assert(final(w)@ =~= old(w)@ + seq![digit_char(d as int)]);
        }
    } else if d == 1 {
        w.append("1");
        proof {
            reveal_strlit("1");
            assert(final(w)@ =~= old(w)@ + seq![digit_char(d as int)]);
        }
    } else if d == 2 {
        w.append("2");
        proof {
            reveal_strlit("2");
            assert(final(w)@ =~= old(w)@ + seq![digit_char(d as int)]);
        }
    } else if d == 3 {
        w.append("3");
        proof {
            reveal_strlit("3");
            assert(final(w)@ =~= old(w)@ + seq![digit_char(d as int)]);
        }
    } else if d == 4 {
        w.append("4");
        proof {
            reveal_strlit("4");
            assert(final(w)@ =~= old(w)@ + seq![digit_char(d as int)]);
        }
    } else if d == 5 {
        w.append("5");
        proof {
            reveal_strlit("5");
            assert(final(w)@ =~= old(w)@ + seq![digit_char(d as int)]);
        }
    } else if d == 6 {
        w.append("6");
        proof {
            reveal_strlit("6");
            assert(final(w)@ =~= old(w)@ + seq![digit_char(d as int)]);
        }
    } else if d == 7 {
        w.append("7");
        proof {
            reveal_strlit("7");
            assert(final(w)@ =~= old(w)@ + seq![digit_char(d as int)]);
        }
    } else if d == 8 {
        w.append("8");
        proof {
            reveal_strlit("8");
            assert(final(w)@ =~= old(w)@ + seq![digit_char(d as int)]);
        }
    } else {
        w.append("9");
        proof {
            reveal_strlit("9");
            assert(final(w)@ =~= old(w)@ + seq![digit_char(d as int)]);
        }
    }
}

/// Appends `n` in decimal.
pub fn append_u64_dec(w: &mut String, n: u64)
    ensures
        final(w)@ == old(w)@ + dec_chars(n as nat),
    decreases n,
{
    if n < 10 {
        append_digit(w, n);
    } else {
        append_u64_dec(w, n / 10);
        append_digit(w, n % 10);
        proof {
            assert(dec_chars((n / 10) as nat) + seq![digit_char((n % 10) as int)] =~= dec_chars(
                n as nat,
            ));
            assert(final(w)@ =~= old(w)@ + dec_chars(n as nat));
        }
    }
}

/// Appends `n` in decimal, with a leading minus sign when negative.
pub fn append_i64_dec(w: &mut String, n: i64)
    ensures
        final(w)@ == old(w)@ + int_chars(n as int),
{
    if n >= 0 {
        append_u64_dec(w, n as u64);
    } else {
        w.append("-");
        let mag: u64 = ((-(n + 1)) as u64) + 1;
        append_u64_dec(w, mag);
        proof {
            reveal_strlit("-");
            assert("-"@ =~= seq!['-']);
            assert(final(w)@ =~= old(w)@ + int_chars(n as int));
        }
    }
}

} // verus!
