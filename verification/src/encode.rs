//! Storage-native textual encodings.
//!
//! Optional collections and the property bag are stored as single text
//! columns.  Integer sequences are encoded by this module's own verified
//! encoder; string escaping is delegated to `serde_json`, whose output is
//! named by the uninterpreted function [`json_string`].

use vstd::prelude::*;
use vstd::string::StringExecFns;

use crate::model::PropertyBag;

verus! {

/// The digit character of one decimal digit.
pub open spec fn digit_char(d: nat) -> char {
    if d == 0 {
        '0'
    } else if d == 1 {
        '1'
    } else if d == 2 {
        '2'
    } else if d == 3 {
        '3'
    } else if d == 4 {
        '4'
    } else if d == 5 {
        '5'
    } else if d == 6 {
        '6'
    } else if d == 7 {
        '7'
    } else if d == 8 {
        '8'
    } else {
        '9'
    }
}

/// Decimal representation of a natural number, most significant digit first.
pub open spec fn dec_nat(n: nat) -> Seq<char>
    decreases n,
{
    if n < 10 {
        seq![digit_char(n)]
    } else {
        dec_nat(n / 10) + seq![digit_char(n % 10)]
    }
}

/// Decimal representation of an integer, with a leading minus sign when
/// negative.
pub open spec fn dec_int(i: int) -> Seq<char> {
    if i < 0 {
        seq!['-'] + dec_nat((-i) as nat)
    } else {
        dec_nat(i as nat)
    }
}

/// What `serde_json` returns for a single string: the quoted, escaped JSON
/// string literal.  The result depends on the characters alone.
pub uninterp spec fn json_string(s: Seq<char>) -> Seq<char>;

/// Relies on `serde_json::to_string` on a string slice: it returns the JSON
/// string literal for `s`, a pure function of the characters of `s`.
/// Serializing a string slice cannot fail.
#[verifier::external_body]
fn escape_json_string(s: &str) -> (r: String)
    ensures
        r@ == json_string(s@),
{
    serde_json::to_string(s).unwrap_or_default()
}

pub open spec fn ints_of_u32s(s: Seq<u32>) -> Seq<int> {
    s.map_values(|x: u32| x as int)
}

pub open spec fn ints_of_i32s(s: Seq<i32>) -> Seq<int> {
    s.map_values(|x: i32| x as int)
}

pub open spec fn views_of_strings(s: Seq<String>) -> Seq<Seq<char>> {
    s.map_values(|x: String| x@)
}

/// The comma-separated body of a JSON array of integers.
pub open spec fn int_list_body(s: Seq<int>) -> Seq<char>
    decreases s.len(),
{
    if s.len() == 0 {
        Seq::empty()
    } else if s.len() == 1 {
        dec_int(s[0])
    } else {
        int_list_body(s.drop_last()) + seq![','] + dec_int(s.last())
    }
}

/// A JSON array of integers.
pub open spec fn json_int_list(s: Seq<int>) -> Seq<char> {
    seq!['['] + int_list_body(s) + seq![']']
}

/// The comma-separated body of a JSON array of strings.
pub open spec fn str_list_body(s: Seq<Seq<char>>) -> Seq<char>
    decreases s.len(),
{
    if s.len() == 0 {
        Seq::empty()
    } else if s.len() == 1 {
        json_string(s[0])
    } else {
        str_list_body(s.drop_last()) + seq![','] + json_string(s.last())
    }
}

/// A JSON array of strings.
pub open spec fn json_str_list(s: Seq<Seq<char>>) -> Seq<char> {
    seq!['['] + str_list_body(s) + seq![']']
}

/// One `"key":"value"` member of the property object.
pub open spec fn prop_entry(p: (Seq<char>, Seq<char>)) -> Seq<char> {
    json_string(p.0) + seq![':'] + json_string(p.1)
}

/// The comma-separated body of the property object.
pub open spec fn props_body(s: Seq<(Seq<char>, Seq<char>)>) -> Seq<char>
    decreases s.len(),
{
    if s.len() == 0 {
        Seq::empty()
    } else if s.len() == 1 {
        prop_entry(s[0])
    } else {
        props_body(s.drop_last()) + seq![','] + prop_entry(s.last())
    }
}

/// A property bag as one JSON object, entries in bag order.
pub open spec fn props_json(s: Seq<(Seq<char>, Seq<char>)>) -> Seq<char> {
    seq!['{'] + props_body(s) + seq!['}']
}

proof fn lemma_int_body_step(s: Seq<int>, i: int)
    requires
        0 <= i < s.len(),
    ensures
        int_list_body(s.take(i + 1)) == int_list_body(s.take(i)) + (if i == 0 {
            Seq::<char>::empty()
        } else {
            seq![',']
        }) + dec_int(s[i]),
{
    let t = s.take(i + 1);
    assert(t.drop_last() =~= s.take(i));
    assert(t.last() == s[i]);
    if i == 0 {
        assert(int_list_body(t) =~= int_list_body(s.take(0)) + Seq::<char>::empty() + dec_int(
            s[0],
        ));
    } else {
        assert(int_list_body(t) == int_list_body(s.take(i)) + seq![','] + dec_int(s[i]));
    }
}

proof fn lemma_str_body_step(s: Seq<Seq<char>>, i: int)
    requires
        0 <= i < s.len(),
    ensures
        str_list_body(s.take(i + 1)) == str_list_body(s.take(i)) + (if i == 0 {
            Seq::<char>::empty()
        } else {
            seq![',']
        }) + json_string(s[i]),
{
    let t = s.take(i + 1);
    assert(t.drop_last() =~= s.take(i));
    assert(t.last() == s[i]);
    if i == 0 {
        assert(str_list_body(t) =~= str_list_body(s.take(0)) + Seq::<char>::empty() + json_string(
            s[0],
        ));
    } else {
        assert(str_list_body(t) == str_list_body(s.take(i)) + seq![','] + json_string(s[i]));
    }
}

proof fn lemma_props_body_step(s: Seq<(Seq<char>, Seq<char>)>, i: int)
    requires
        0 <= i < s.len(),
    ensures
        props_body(s.take(i + 1)) == props_body(s.take(i)) + (if i == 0 {
            Seq::<char>::empty()
        } else {
            seq![',']
        }) + prop_entry(s[i]),
{
    let t = s.take(i + 1);
    assert(t.drop_last() =~= s.take(i));
    assert(t.last() == s[i]);
    if i == 0 {
        assert(props_body(t) =~= props_body(s.take(0)) + Seq::<char>::empty() + prop_entry(s[0]));
    } else {
        assert(props_body(t) == props_body(s.take(i)) + seq![','] + prop_entry(s[i]));
    }
}

fn digit_str(d: u64) -> (r: &'static str)
    requires
        d < 10,
    ensures
        r@ == seq![digit_char(d as nat)],
{
    if d == 0 {
        proof {
            reveal_strlit("0");
            assert("0"@ =~= seq![digit_char(0)]);
        }
        "0"
    } else if d == 1 {
        proof {
            reveal_strlit("1");
            assert("1"@ =~= seq![digit_char(1)]);
        }
        "1"
    } else if d == 2 {
        proof {
            reveal_strlit("2");
            assert("2"@ =~= seq![digit_char(2)]);
        }
        "2"
    } else if d == 3 {
        proof {
            reveal_strlit("3");
            assert("3"@ =~= seq![digit_char(3)]);
        }
        "3"
    } else if d == 4 {
        proof {
            reveal_strlit("4");
            assert("4"@ =~= seq![digit_char(4)]);
        }
        "4"
    } else if d == 5 {
        proof {
            reveal_strlit("5");
            assert("5"@ =~= seq![digit_char(5)]);
        }
        "5"
    } else if d == 6 {
        proof {
            reveal_strlit("6");
            assert("6"@ =~= seq![digit_char(6)]);
        }
        "6"
    } else if d == 7 {
        proof {
            reveal_strlit("7");
            assert("7"@ =~= seq![digit_char(7)]);
        }
        "7"
    } else if d == 8 {
        proof {
            reveal_strlit("8");
            assert("8"@ =~= seq![digit_char(8)]);
        }
        "8"
    } else {
        proof {
            reveal_strlit("9");
            assert("9"@ =~= seq![digit_char(9)]);
        }
        "9"
    }
}

/// Append the decimal representation of `n`.
fn push_dec(s: &mut String, n: u64)
    ensures
        final(s)@ == old(s)@ + dec_nat(n as nat),
    decreases n,
{
    if n >= 10 {
        push_dec(s, n / 10);
        s.append(digit_str(n % 10));
        proof {
            assert(s@ =~= old(s)@ + dec_nat(n as nat));
        }
    } else {
        s.append(digit_str(n));
        proof {
            assert(s@ =~= old(s)@ + dec_nat(n as nat));
        }
    }
}

/// Append the decimal representation of `n`, signed.
fn push_i32(s: &mut String, n: i32)
    ensures
        final(s)@ == old(s)@ + dec_int(n as int),
{
    if n < 0 {
        s.append("-");
        let m: u64 = (-(n as i64)) as u64;
        push_dec(s, m);
        proof {
            reveal_strlit("-");
            assert("-"@ =~= seq!['-']);
            assert(m as nat == (-(n as int)) as nat);
            assert(s@ =~= old(s)@ + dec_int(n as int));
        }
    } else {
        push_dec(s, n as u64);
    }
}

/// Encode an ordered sequence of raw 32-bit values as a JSON array of
/// integers.
pub fn encode_u32_list(v: &Vec<u32>) -> (r: String)
    ensures
        r@ == json_int_list(ints_of_u32s(v@)),
{
    let ghost elems = ints_of_u32s(v@);
    let mut s = String::new();
    s.append("[");
    proof {
        reveal_strlit("[");
        assert(s@ =~= seq!['[']);
        assert(elems.take(0) =~= Seq::<int>::empty());
    }
    let mut i: usize = 0;
    while i < v.len()
        invariant
            i <= v.len(),
            elems == ints_of_u32s(v@),
            elems.len() == v@.len(),
            s@ == seq!['['] + int_list_body(elems.take(i as int)),
        decreases v.len() - i,
    {
        if i > 0 {
            s.append(",");
            proof {
                reveal_strlit(",");
                assert(","@ =~= seq![',']);
            }
        }
        let x = v[i];
        push_dec(&mut s, x as u64);
        proof {
            lemma_int_body_step(elems, i as int);
            assert(elems[i as int] == x as int);
            assert(s@ =~= seq!['['] + int_list_body(elems.take(i as int + 1)));
        }
        i += 1;
    }
    s.append("]");
    proof {
        reveal_strlit("]");
        assert("]"@ =~= seq![']']);
        assert(elems.take(elems.len() as int) =~= elems);
        assert(s@ =~= json_int_list(elems));
    }
    s
}

/// Encode an ordered sequence of signed indices as a JSON array of
/// integers.
pub fn encode_i32_list(v: &Vec<i32>) -> (r: String)
    ensures
        r@ == json_int_list(ints_of_i32s(v@)),
{
    let ghost elems = ints_of_i32s(v@);
    let mut s = String::new();
    s.append("[");
    proof {
        reveal_strlit("[");
        assert(s@ =~= seq!['[']);
        assert(elems.take(0) =~= Seq::<int>::empty());
    }
    let mut i: usize = 0;
    while i < v.len()
        invariant
            i <= v.len(),
            elems == ints_of_i32s(v@),
            elems.len() == v@.len(),
            s@ == seq!['['] + int_list_body(elems.take(i as int)),
        decreases v.len() - i,
    {
        if i > 0 {
            s.append(",");
            proof {
                reveal_strlit(",");
                assert(","@ =~= seq![',']);
            }
        }
        let x = v[i];
        push_i32(&mut s, x);
        proof {
            lemma_int_body_step(elems, i as int);
            assert(elems[i as int] == x as int);
            assert(s@ =~= seq!['['] + int_list_body(elems.take(i as int + 1)));
        }
        i += 1;
    }
    s.append("]");
    proof {
        reveal_strlit("]");
        assert("]"@ =~= seq![']']);
        assert(elems.take(elems.len() as int) =~= elems);
        assert(s@ =~= json_int_list(elems));
    }
    s
}

/// Encode an ordered sequence of labels as a JSON array of strings.
pub fn encode_string_list(v: &Vec<String>) -> (r: String)
    ensures
        r@ == json_str_list(views_of_strings(v@)),
{
    let ghost elems = views_of_strings(v@);
    let mut s = String::new();
    s.append("[");
    proof {
        reveal_strlit("[");
        assert(s@ =~= seq!['[']);
        assert(elems.take(0) =~= Seq::<Seq<char>>::empty());
    }
    let mut i: usize = 0;
    while i < v.len()
        invariant
            i <= v.len(),
            elems == views_of_strings(v@),
            elems.len() == v@.len(),
            s@ == seq!['['] + str_list_body(elems.take(i as int)),
        decreases v.len() - i,
    {
        if i > 0 {
            s.append(",");
            proof {
                reveal_strlit(",");
                assert(","@ =~= seq![',']);
            }
        }
        let e = escape_json_string(v[i].as_str());
        s.append(e.as_str());
        proof {
            lemma_str_body_step(elems, i as int);
            assert(elems[i as int] == v@[i as int]@);
            assert(s@ =~= seq!['['] + str_list_body(elems.take(i as int + 1)));
        }
        i += 1;
    }
    s.append("]");
    proof {
        reveal_strlit("]");
        assert("]"@ =~= seq![']']);
        assert(elems.take(elems.len() as int) =~= elems);
        assert(s@ =~= json_str_list(elems));
    }
    s
}

/// Encode a property bag as one JSON object, entries in bag order.
pub fn encode_props(bag: &PropertyBag) -> (r: String)
    ensures
        r@ == props_json(bag@),
{
    let ghost elems = bag@;
    let mut s = String::new();
    s.append("{");
    proof {
        reveal_strlit("{");
        assert(s@ =~= seq!['{']);
        assert(elems.take(0) =~= Seq::<(Seq<char>, Seq<char>)>::empty());
    }
    let mut i: usize = 0;
    while i < bag.entries.len()
        invariant
            i <= bag.entries.len(),
            elems == bag@,
            elems.len() == bag.entries@.len(),
            s@ == seq!['{'] + props_body(elems.take(i as int)),
        decreases bag.entries.len() - i,
    {
        if i > 0 {
            s.append(",");
            proof {
                reveal_strlit(",");
                assert(","@ =~= seq![',']);
            }
        }
        let k = escape_json_string(bag.entries[i].0.as_str());
        s.append(k.as_str());
        s.append(":");
        let v = escape_json_string(bag.entries[i].1.as_str());
        s.append(v.as_str());
        proof {
            reveal_strlit(":");
            assert(":"@ =~= seq![':']);
            lemma_props_body_step(elems, i as int);
            assert(elems[i as int] == (bag.entries@[i as int].0@, bag.entries@[i as int].1@));
            assert(s@ =~= seq!['{'] + props_body(elems.take(i as int + 1)));
        }
        i += 1;
    }
    s.append("}");
    proof {
        reveal_strlit("}");
        assert("}"@ =~= seq!['}']);
        assert(elems.take(elems.len() as int) =~= elems);
        assert(s@ =~= props_json(elems));
    }
    s
}

} // verus!
