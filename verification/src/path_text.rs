//! Paths written out for a reader: `inputs[0].shape[1]` for `[0, 0, 2, 1]`.

use vstd::prelude::*;
use vstd::slice::slice_subrange;
use vstd::string::*;

verus! {

/// The character of a decimal digit.
pub open spec fn digit_char(d: nat) -> char {
    if d == 0 {
        '0'
    } else if d == 1 {
        '1'
    } else if d == 2 {
        '2'
    } else if d == 3 {
        '3'
    } else if d == 4 {
        '4'
    } else if d == 5 {
        '5'
    } else if d == 6 {
        '6'
    } else if d == 7 {
        '7'
    } else if d == 8 {
        '8'
    } else {
        '9'
    }
}

/// A natural number in decimal digits, without leading zeros.
pub open spec fn digits_of(n: nat) -> Seq<char>
    decreases n,
{
    if n < 10 {
        seq![digit_char(n)]
    } else {
        digits_of(n / 10).push(digit_char(n % 10))
    }
}

/// An integer in decimal digits, after a minus sign where it is negative.
pub open spec fn integer_text(n: int) -> Seq<char> {
    if n < 0 {
        seq!['-'] + digits_of((-n) as nat)
    } else {
        digits_of(n as nat)
    }
}

/// The indices of a path into a value, each in square brackets.
pub open spec fn value_path_text(path: Seq<isize>) -> Seq<char>
    decreases path.len(),
{
    if path.len() == 0 {
        Seq::empty()
    } else {
        value_path_text(path.drop_last()) + seq!['['] + integer_text(path.last() as int) + seq![
            ']',
        ]
    }
}

/// A path into a tensor fact: the name of the component, with the index of
/// the dimension or of the element where the path gives one.
pub open spec fn tensorfact_path_text(path: Seq<isize>) -> Seq<char> {
    if path.len() == 0 {
        Seq::empty()
    } else if path.len() == 1 && path[0] == 0 {
        ".datatype"@
    } else if path.len() == 1 && path[0] == 1 {
        ".rank"@
    } else if path.len() == 1 && path[0] == 2 {
        ".shape"@
    } else if path.len() == 2 && path[0] == 2 {
        ".shape["@ + integer_text(path[1] as int) + "]"@
    } else if path[0] == 3 {
        value_path_text(path.skip(1))
    } else {
        ".invalid"@
    }
}

/// A path into a list of tensor facts: `.len` for their number, and
/// otherwise the index of a fact and the path into it.
pub open spec fn tensorfacts_path_text(path: Seq<isize>) -> Seq<char> {
    if path[0] == -1 {
        ".len"@
    } else {
        "["@ + integer_text(path[0] as int) + "]"@ + tensorfact_path_text(path.skip(1))
    }
}

/// A path into a context: the list that it leads into, and the path into that list.
pub open spec fn path_text(path: Seq<isize>) -> Seq<char> {
    (if path[0] == 0 {
        "inputs"@
    } else if path[0] == 1 {
        "outputs"@
    } else {
        "buggy_path"@
    }) + tensorfacts_path_text(path.skip(1))
}

/// The string of one decimal digit.
fn digit_str(d: u64) -> (r: &'static str)
    requires
        d < 10,
    ensures
        r@ == seq![digit_char(d as nat)],
{
    proof {
        reveal_strlit("0");
        reveal_strlit("1");
        reveal_strlit("2");
        reveal_strlit("3");
        reveal_strlit("4");
        reveal_strlit("5");
        reveal_strlit("6");
        reveal_strlit("7");
        reveal_strlit("8");
        reveal_strlit("9");
    }
    let r = if d == 0 {
        "0"
    } else if d == 1 {
        "1"
    } else if d == 2 {
        "2"
    } else if d == 3 {
        "3"
    } else if d == 4 {
        "4"
    } else if d == 5 {
        "5"
    } else if d == 6 {
        "6"
    } else if d == 7 {
        "7"
    } else if d == 8 {
        "8"
    } else {
        "9"
    };
    assert(r@ =~= seq![digit_char(d as nat)]);
    r
}

/// Appends a natural number in decimal digits.
pub fn push_digits(out: &mut String, n: u64)
    ensures
        final(out)@ == old(out)@ + digits_of(n as nat),
    decreases n,
{
    if n >= 10 {
        push_digits(out, n / 10);
    }
    out.append(digit_str(n % 10));
    assert(out@ =~= old(out)@ + digits_of(n as nat));
}

/// Appends an integer in decimal digits, after a minus sign where it is negative.
pub fn push_integer(out: &mut String, n: isize)
    ensures
        final(out)@ == old(out)@ + integer_text(n as int),
{
    if n < 0 {
        proof {
            reveal_strlit("-");
        }
        out.append("-");
        let m: i128 = -(n as i128);
        push_digits(out, m as u64);
        assert(out@ =~= old(out)@ + integer_text(n as int));
    } else {
        push_digits(out, n as u64);
    }
}

/// Appends the indices of a path into a value, each in square brackets.
pub fn debug_value_path(path: &[isize], out: &mut String)
    ensures
        final(out)@ == old(out)@ + value_path_text(path@),
{
    proof {
        reveal_strlit("[");
        reveal_strlit("]");
    }
    let mut i: usize = 0;
    assert(path@.take(0) =~= Seq::<isize>::empty());
    assert(out@ =~= old(out)@ + value_path_text(path@.take(0)));
    while i < path.len()
        invariant
            0 <= i <= path@.len(),
            "["@ == seq!['['],
            "]"@ == seq![']'],
            out@ == old(out)@ + value_path_text(path@.take(i as int)),
        decreases path@.len() - i,
    {
        let ghost before = out@;
        out.append("[");
        push_integer(out, path[i]);
        out.append("]");
        proof {
            assert(path@.take(i + 1).drop_last() =~= path@.take(i as int));
            assert(path@.take(i + 1).last() == path@[i as int]);
            assert(out@ =~= old(out)@ + value_path_text(path@.take(i + 1)));
        }
        i += 1;
    }
    assert(path@.take(path@.len() as int) =~= path@);
}

/// Appends a path into a tensor fact.
pub fn debug_tensorfact_path(path: &[isize], out: &mut String)
    ensures
        final(out)@ == old(out)@ + tensorfact_path_text(path@),
{
    if path.len() == 0 {
        assert(out@ =~= old(out)@ + tensorfact_path_text(path@));
    } else if path.len() == 1 && path[0] == 0 {
        out.append(".datatype");
    } else if path.len() == 1 && path[0] == 1 {
        out.append(".rank");
    } else if path.len() == 1 && path[0] == 2 {
        out.append(".shape");
    } else if path.len() == 2 && path[0] == 2 {
        out.append(".shape[");
        push_integer(out, path[1]);
        out.append("]");
        assert(out@ =~= old(out)@ + tensorfact_path_text(path@));
    } else if path[0] == 3 {
        let rest = slice_subrange(path, 1, path.len());
        assert(rest@ =~= path@.skip(1));
        debug_value_path(rest, out);
    } else {
        out.append(".invalid");
    }
}

/// Appends a path into a list of tensor facts.
pub fn debug_tensorfacts_path(path: &[isize], out: &mut String)
    requires
        path@.len() > 0,
    ensures
        final(out)@ == old(out)@ + tensorfacts_path_text(path@),
{
    if path[0] == -1 {
        out.append(".len");
    } else {
        out.append("[");
        push_integer(out, path[0]);
        out.append("]");
        let rest = slice_subrange(path, 1, path.len());
        assert(rest@ =~= path@.skip(1));
        debug_tensorfact_path(rest, out);
        assert(out@ =~= old(out)@ + tensorfacts_path_text(path@));
    }
}

/// A path into a context, written out for a reader.
pub fn debug_path(path: &[isize]) -> (r: String)
    requires
        path@.len() > 1,
    ensures
        r@ == path_text(path@),
{
    let mut out = String::new();
    if path[0] == 0 {
        out.append("inputs");
    } else if path[0] == 1 {
        out.append("outputs");
    } else {
        out.append("buggy_path");
    }
    let rest = slice_subrange(path, 1, path.len());
    assert(rest@ =~= path@.skip(1));
    debug_tensorfacts_path(rest, &mut out);
    assert(out@ =~= path_text(path@));
    out
}

} // verus!
