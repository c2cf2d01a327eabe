//! Display labels for arena nodes.
//!
//! Every node carries a human-readable label derived from its descriptor:
//! the quoted name, the localized control type, and in parentheses the
//! class name, the framework id, and the runtime id rendered as decimal
//! numbers joined with `-`.

use vstd::prelude::*;
use vstd::string::StringExecFns;

use crate::uiexplore::{ElemModel, UIElementProps};

verus! {

/// The character for one decimal digit.
pub open spec fn digit_char(d: nat) -> char {
    if d == 0 {
        '0'
    } else if d == 1 {
        '1'
    } else if d == 2 {
        '2'
    } else if d == 3 {
        '3'
    } else if d == 4 {
        '4'
    } else if d == 5 {
        '5'
    } else if d == 6 {
        '6'
    } else if d == 7 {
        '7'
    } else if d == 8 {
        '8'
    } else {
        '9'
    }
}

/// Base-ten digits of `n`, most significant first, no leading zeros.
pub open spec fn dec_digits(n: nat) -> Seq<char>
    decreases n,
{
    if n < 10 {
        seq![digit_char(n)]
    } else {
        dec_digits(n / 10).push(digit_char(n % 10))
    }
}

/// Base-ten rendering of a signed value: a leading `-` for negative
/// values, no leading zeros.
pub open spec fn dec_i32(x: int) -> Seq<char> {
    if x < 0 {
        seq!['-'] + dec_digits((-x) as nat)
    } else {
        dec_digits(x as nat)
    }
}

/// The runtime id as text: its entries in base ten, joined with `-`.
pub open spec fn ids_text(ids: Seq<i32>) -> Seq<char>
    decreases ids.len(),
{
    if ids.len() == 0 {
        Seq::<char>::empty()
    } else if ids.len() == 1 {
        dec_i32(ids[0] as int)
    } else {
        ids_text(ids.drop_last()) + seq!['-'] + dec_i32(ids.last() as int)
    }
}

/// The display label of a descriptor.
pub open spec fn label_of(m: ElemModel) -> Seq<char> {
    "'"@ + m.name + "' "@ + m.localized_control_type + " ("@ + m.classname + " | "@
        + m.framework_id + " | "@ + ids_text(m.runtime_id) + ")"@
}

/// Relies on `i32::to_string`: the result is the base-ten rendering of
/// the value, with a leading `-` for negative values and no leading
/// zeros.
#[verifier::external_body]
fn i32_to_string(x: i32) -> (r: String)
    ensures
        r@ == dec_i32(x as int),
{
    x.to_string()
}

fn ids_to_string(ids: &Vec<i32>) -> (r: String)
    ensures
        r@ == ids_text(ids@),
{
    let mut s = String::new();
    let mut i: usize = 0;
    while i < ids.len()
        invariant
            i <= ids.len(),
            s@ == ids_text(ids@.subrange(0, i as int)),
        decreases ids.len() - i,
    {
        if i > 0 {
            s.append("-");
        }
        let d = i32_to_string(ids[i]);
        s.append(d.as_str());
        i = i + 1;
        proof {
            let prefix = ids@.subrange(0, i as int);
            assert(prefix.drop_last() =~= ids@.subrange(0, i as int - 1));
            assert(prefix.last() == ids@[i as int - 1]);
            if i > 1 {
                assert(seq!['-'] =~= "-"@) by {
                    reveal_strlit("-");
                }
            }
        }
    }
    proof {
        assert(ids@.subrange(0, ids@.len() as int) =~= ids@);
    }
    s
}

/// The label shown for one node of the snapshot tree.
pub fn make_label(e: &UIElementProps) -> (r: String)
    ensures
        r@ == label_of(e@),
{
    let mut s = String::new();
    s.append("'");
    s.append(e.name.as_str());
    s.append("' ");
    s.append(e.localized_control_type.as_str());
    s.append(" (");
    s.append(e.classname.as_str());
    s.append(" | ");
    s.append(e.framework_id.as_str());
    s.append(" | ");
    let ids = ids_to_string(&e.runtime_id);
    s.append(ids.as_str());
    s.append(")");
    s
}

} // verus!
