//! Small operations on text that the models need.

use vstd::prelude::*;
use vstd::string::StringExecFns;
use vstd::string::StrSliceExecFns;

verus! {

/// The pieces into which `sep` cuts `s`. There is always at least one
/// piece; a separator at either end leaves an empty piece there.
pub open spec fn split_spec(s: Seq<char>, sep: char) -> Seq<Seq<char>>
    decreases s.len(),
{
    if s.len() == 0 {
        seq![Seq::<char>::empty()]
    } else {
        let before = split_spec(s.drop_last(), sep);
        if s.last() == sep {
            before.push(Seq::<char>::empty())
        } else {
            before.drop_last().push(before.last().push(s.last()))
        }
    }
}

/// Cutting a text always leaves at least one piece.
pub proof fn lemma_split_is_never_empty(s: Seq<char>, sep: char)
    ensures
        split_spec(s, sep).len() >= 1,
    decreases s.len(),
{
    if s.len() > 0 {
        lemma_split_is_never_empty(s.drop_last(), sep);
    }
}

/// Cuts `s` at every `sep`.
pub fn split_on(s: &str, sep: char) -> (pieces: Vec<String>)
    ensures
        pieces@.len() == split_spec(s@, sep).len(),
        forall|i: int| 0 <= i < pieces@.len() ==> (#[trigger] pieces@[i])@ == split_spec(s@, sep)[i],
{
    let n = s.unicode_len();
    let mut pieces: Vec<String> = Vec::new();
    let mut piece_start: usize = 0;
    let mut i: usize = 0;
    proof {
        assert(s@.take(0) =~= Seq::<char>::empty());
        assert(s@.subrange(0, 0) =~= Seq::<char>::empty());
    }
    while i < n
        invariant
            n == s@.len(),
            piece_start <= i <= n,
            split_spec(s@.take(i as int), sep).len() == pieces@.len() + 1,
            forall|j: int|
                0 <= j < pieces@.len() ==> (#[trigger] pieces@[j])@ == split_spec(
                    s@.take(i as int),
                    sep,
                )[j],
            split_spec(s@.take(i as int), sep).last() == s@.subrange(
                piece_start as int,
                i as int,
            ),
        decreases n - i,
    {
        let c = s.get_char(i);
        proof {
            assert(s@.take(i + 1).drop_last() =~= s@.take(i as int));
            assert(s@.take(i + 1).last() == s@[i as int]);
        }
        if c == sep {
            pieces.push(String::from_str(s.substring_char(piece_start, i)));
            piece_start = i + 1;
            proof {
                assert(s@.subrange(piece_start as int, i + 1) =~= Seq::<char>::empty());
            }
        } else {
            proof {
                assert(s@.subrange(piece_start as int, i + 1) =~= s@.subrange(
                    piece_start as int,
                    i as int,
                ).push(s@[i as int]));
            }
        }
        i += 1;
    }
    proof {
        assert(s@.take(n as int) =~= s@);
    }
    pieces.push(String::from_str(s.substring_char(piece_start, n)));
    pieces
}

/// The character of a decimal digit.
pub open spec fn digit_char(d: int) -> char {
    if d == 0 {
        '0'
    } else if d == 1 {
        '1'
    } else if d == 2 {
        '2'
    } else if d == 3 {
        '3'
    } else if d == 4 {
        '4'
    } else if d == 5 {
        '5'
    } else if d == 6 {
        '6'
    } else if d == 7 {
        '7'
    } else if d == 8 {
        '8'
    } else {
        '9'
    }
}

/// The decimal digits of a natural number, without leading zeros.
pub open spec fn digits(n: nat) -> Seq<char>
    decreases n,
{
    if n < 10 {
        seq![digit_char(n as int)]
    } else {
        digits(n / 10).push(digit_char((n % 10) as int))
    }
}

/// An integer written in decimal: a minus sign where it is negative, then
/// its digits.
pub open spec fn decimal(n: int) -> Seq<char> {
    if n < 0 {
        seq!['-'] + digits((-n) as nat)
    } else {
        digits(n as nat)
    }
}

fn digit_text(d: u64) -> (s: &'static str)
    requires
        d < 10,
    ensures
        s@ == seq![digit_char(d as int)],
{
    proof {
        reveal_strlit("0");
        reveal_strlit("1");
        reveal_strlit("2");
        reveal_strlit("3");
        reveal_strlit("4");
        reveal_strlit("5");
        reveal_strlit("6");
        reveal_strlit("7");
        reveal_strlit("8");
        reveal_strlit("9");
    }
    let s = if d == 0 {
        "0"
    } else if d == 1 {
        "1"
    } else if d == 2 {
        "2"
    } else if d == 3 {
        "3"
    } else if d == 4 {
        "4"
    } else if d == 5 {
        "5"
    } else if d == 6 {
        "6"
    } else if d == 7 {
        "7"
    } else if d == 8 {
        "8"
    } else {
        "9"
    };
    assert(s@ =~= seq![digit_char(d as int)]);
    s
}

/// The digits of `n` followed by `tail`.
fn digits_before(n: u64, tail: String) -> (s: String)
    ensures
        s@ == digits(n as nat) + tail@,
    decreases n,
{
    let last = String::from_str(digit_text(n % 10)).concat(tail.as_str());
    if n < 10 {
        last
    } else {
        let s = digits_before(n / 10, last);
        assert(s@ =~= digits(n as nat) + tail@);
        s
    }
}

/// `value` written in decimal.
pub fn u64_to_string(value: u64) -> (s: String)
    ensures
        s@ == decimal(value as int),
{
    let s = digits_before(value, String::new());
    assert(s@ =~= decimal(value as int));
    s
}

/// `value` written in decimal.
pub fn i64_to_string(value: i64) -> (s: String)
    ensures
        s@ == decimal(value as int),
{
    if value < 0 {
        let magnitude: u64 = ((-(value + 1)) as u64) + 1;
        let body = digits_before(magnitude, String::new());
        proof {
            reveal_strlit("-");
        }
        let s = String::from_str("-").concat(body.as_str());
        assert(s@ =~= decimal(value as int));
        s
    } else {
        let s = digits_before(value as u64, String::new());
        assert(s@ =~= decimal(value as int));
        s
    }
}

/// The numbers of a list in decimal, parted by a comma and a space.
pub open spec fn joined(ids: Seq<i64>) -> Seq<char>
    decreases ids.len(),
{
    if ids.len() == 0 {
        Seq::<char>::empty()
    } else if ids.len() == 1 {
        decimal(ids[0] as int)
    } else {
        joined(ids.drop_last()) + ", "@ + decimal(ids.last() as int)
    }
}

/// A list of numbers as it is written in messages: in square brackets.
pub open spec fn list_text(ids: Seq<i64>) -> Seq<char> {
    "["@ + joined(ids) + "]"@
}

/// `ids` as it is written in messages.
pub fn ids_to_string(ids: &Vec<i64>) -> (s: String)
    ensures
        s@ == list_text(ids@),
{
    let mut s = String::from_str("[");
    let mut i: usize = 0;
    proof {
        assert(ids@.take(0) =~= Seq::<i64>::empty());
        assert(s@ =~= "["@ + joined(ids@.take(0)));
    }
    while i < ids.len()
        invariant
            i <= ids.len(),
            s@ == "["@ + joined(ids@.take(i as int)),
        decreases ids.len() - i,
    {
        proof {
            assert(ids@.take(i + 1).drop_last() =~= ids@.take(i as int));
            assert(ids@.take(i + 1).last() == ids@[i as int]);
        }
        if i > 0 {
            s.append(", ");
        }
        s.append(i64_to_string(ids[i]).as_str());
        proof {
            assert(s@ =~= "["@ + joined(ids@.take(i + 1)));
        }
        i += 1;
    }
    proof {
        assert(ids@.take(ids.len() as int) =~= ids@);
    }
    s.append("]");
    s
}

} // verus!
