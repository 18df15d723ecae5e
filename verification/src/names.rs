//! Deterministic instance names.
//!
//! A case-derived instance is named `case_<row index>`; each value-list axis
//! contributes a segment `<parameter name>_<value index>`; both indices are
//! 1-based, and segments join with the nesting separator `::` in declaration
//! order.

use vstd::prelude::*;
use vstd::string::StrSliceExecFns;

verus! {

broadcast use vstd::string::group_string_axioms;

/// The decimal digit character for `d` (0 to 9).
pub open spec fn digit_char(d: nat) -> char {
    if d == 0 {
        '0'
    } else if d == 1 {
        '1'
    } else if d == 2 {
        '2'
    } else if d == 3 {
        '3'
    } else if d == 4 {
        '4'
    } else if d == 5 {
        '5'
    } else if d == 6 {
        '6'
    } else if d == 7 {
        '7'
    } else if d == 8 {
        '8'
    } else {
        '9'
    }
}

/// The decimal digits of `n`, most significant first, without leading
/// zeroes (`0` itself is `"0"`).
pub open spec fn dec_str(n: nat) -> Seq<char>
    decreases n,
{
    if n < 10 {
        seq![digit_char(n)]
    } else {
        dec_str(n / 10).push(digit_char(n % 10))
    }
}

/// The one-character text of a decimal digit.
fn digit_to_str(d: usize) -> (r: &'static str)
    requires
        d < 10,
    ensures
        r@ == seq![digit_char(d as nat)],
{
    if d == 0 {
        proof {
            reveal_strlit("0");
            assert("0"@ =~= seq![digit_char(0)]);
        }
        "0"
    } else if d == 1 {
        proof {
            reveal_strlit("1");
            assert("1"@ =~= seq![digit_char(1)]);
        }
        "1"
    } else if d == 2 {
        proof {
            reveal_strlit("2");
            assert("2"@ =~= seq![digit_char(2)]);
        }
        "2"
    } else if d == 3 {
        proof {
            reveal_strlit("3");
            assert("3"@ =~= seq![digit_char(3)]);
        }
        "3"
    } else if d == 4 {
        proof {
            reveal_strlit("4");
            assert("4"@ =~= seq![digit_char(4)]);
        }
        "4"
    } else if d == 5 {
        proof {
            reveal_strlit("5");
            assert("5"@ =~= seq![digit_char(5)]);
        }
        "5"
    } else if d == 6 {
        proof {
            reveal_strlit("6");
            assert("6"@ =~= seq![digit_char(6)]);
        }
        "6"
    } else if d == 7 {
        proof {
            reveal_strlit("7");
            assert("7"@ =~= seq![digit_char(7)]);
        }
        "7"
    } else if d == 8 {
        proof {
            reveal_strlit("8");
            assert("8"@ =~= seq![digit_char(8)]);
        }
        "8"
    } else {
        proof {
            reveal_strlit("9");
            assert("9"@ =~= seq![digit_char(9)]);
        }
        "9"
    }
}

/// Formats `n` in decimal.
pub fn usize_to_dec(n: usize) -> (r: String)
    ensures
        r@ == dec_str(n as nat),
    decreases n,
{
    if n < 10 {
        digit_to_str(n).to_owned()
    } else {
        let mut s = usize_to_dec(n / 10);
        s.append(digit_to_str(n % 10));
        proof {
            assert(s@ =~= dec_str((n / 10) as nat).push(digit_char((n % 10) as nat)));
        }
        s
    }
}

/// The segments joined with the nesting separator.
pub open spec fn join_segs(segs: Seq<Seq<char>>) -> Seq<char>
    decreases segs.len(),
{
    if segs.len() == 0 {
        Seq::empty()
    } else if segs.len() == 1 {
        segs[0]
    } else {
        join_segs(segs.drop_last()) + "::"@ + segs.last()
    }
}

/// Joins name segments with the nesting separator.
pub fn join_segments(segs: &Vec<String>) -> (r: String)
    ensures
        r@ == join_segs(segs.deep_view()),
{
    let ghost sg = segs.deep_view();
    let mut r = String::new();
    let n = segs.len();
    let mut i: usize = 0;
    proof {
        assert(sg.take(0) =~= Seq::<Seq<char>>::empty());
        assert(r@ =~= join_segs(sg.take(0)));
    }
    while i < n
        invariant
            i <= n,
            n == segs.len(),
            sg == segs.deep_view(),
            sg.len() == n,
            r@ == join_segs(sg.take(i as int)),
        decreases n - i,
    {
        proof {
            assert(sg.take(i as int + 1).drop_last() =~= sg.take(i as int));
            assert(sg.take(i as int + 1).last() == sg[i as int]);
        }
        if i > 0 {
            r.append("::");
        }
        r.append(segs[i].as_str());
        proof {
            if i == 0 {
                assert(sg.take(1).len() == 1);
                assert(r@ =~= join_segs(sg.take(1)));
            } else {
                assert(r@ =~= join_segs(sg.take(i as int)) + "::"@ + sg[i as int]);
                assert(r@ =~= join_segs(sg.take(i as int + 1)));
            }
        }
        i = i + 1;
    }
    proof {
        assert(sg.take(n as int) =~= sg);
    }
    r
}

/// The name segment of the `r`-th case row (0-based argument, 1-based name).
pub open spec fn case_seg(r: int) -> Seq<char> {
    "case_"@ + dec_str((r + 1) as nat)
}

/// The name segment of the `v`-th value (0-based) of the axis `name`.
pub open spec fn axis_seg(name: Seq<char>, v: int) -> Seq<char> {
    name + "_"@ + dec_str((v + 1) as nat)
}

/// Builds the case-row name segment.
pub fn case_segment(r: usize) -> (s: String)
    requires
        r < usize::MAX,
    ensures
        s@ == case_seg(r as int),
{
    let mut s = "case_".to_owned();
    let d = usize_to_dec(r + 1);
    s.append(d.as_str());
    proof {
        assert(s@ =~= case_seg(r as int));
    }
    s
}

/// Builds a value-axis name segment.
pub fn axis_segment(name: &str, v: usize) -> (s: String)
    requires
        v < usize::MAX,
    ensures
        s@ == axis_seg(name@, v as int),
{
    let mut s = name.to_owned();
    s.append("_");
    let d = usize_to_dec(v + 1);
    s.append(d.as_str());
    proof {
        assert(s@ =~= axis_seg(name@, v as int));
    }
    s
}

} // verus!
