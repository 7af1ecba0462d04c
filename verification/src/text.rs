//! Small verified text helpers: decimal rendering of integers and
//! comma-joining of filter lists.
use vstd::prelude::*;
use vstd::string::StringExecFns;

verus! {

/// The character of a single decimal digit.
pub open spec fn dec_digit_char(d: int) -> char {
    if d == 0 { '0' }
    else if d == 1 { '1' }
    else if d == 2 { '2' }
    else if d == 3 { '3' }
    else if d == 4 { '4' }
    else if d == 5 { '5' }
    else if d == 6 { '6' }
    else if d == 7 { '7' }
    else if d == 8 { '8' }
    else { '9' }
}

/// The decimal rendering of a non-negative integer, without leading zeros.
pub open spec fn dec_str_of(n: int) -> Seq<char>
    decreases n,
{
    if n < 10 {
        seq![dec_digit_char(n)]
    } else {
        dec_str_of(n / 10).push(dec_digit_char(n % 10))
    }
}

/// A one-character string for a single decimal digit.
fn dec_digit_str(d: u64) -> (r: &'static str)
    requires
        d < 10,
    ensures
        r@ == seq![dec_digit_char(d as int)],
{
    proof {
        reveal_strlit("0");
        reveal_strlit("1");
        reveal_strlit("2");
        reveal_strlit("3");
        reveal_strlit("4");
        reveal_strlit("5");
        reveal_strlit("6");
        reveal_strlit("7");
        reveal_strlit("8");
        reveal_strlit("9");
    }
    let r = if d == 0 { "0" }
    else if d == 1 { "1" }
    else if d == 2 { "2" }
    else if d == 3 { "3" }
    else if d == 4 { "4" }
    else if d == 5 { "5" }
    else if d == 6 { "6" }
    else if d == 7 { "7" }
    else if d == 8 { "8" }
    else { "9" };
    proof {
        assert(r@ =~= seq![dec_digit_char(d as int)]);
    }
    r
}

/// Renders an integer in decimal, as the broker expects counts and offsets.
pub fn u64_to_string(n: u64) -> (r: String)
    ensures
        r@ == dec_str_of(n as int),
    decreases n,
{
    if n < 10 {
        dec_digit_str(n).to_owned()
    } else {
        let mut s = u64_to_string(n / 10);
        s.append(dec_digit_str(n % 10));
        proof {
            assert(s@ =~= dec_str_of(n as int));
        }
        s
    }
}

/// The members of `parts`, joined with a single comma between neighbours.
pub open spec fn comma_join(parts: Seq<Seq<char>>) -> Seq<char>
    decreases parts.len(),
{
    if parts.len() == 0 {
        Seq::empty()
    } else if parts.len() == 1 {
        parts[0]
    } else {
        parts[0] + seq![','] + comma_join(parts.drop_first())
    }
}

fn join_comma_from(parts: &Vec<String>, i: usize) -> (r: String)
    requires
        i <= parts@.len(),
    ensures
        r@ == comma_join(parts@.map_values(|s: String| s@).skip(i as int)),
    decreases parts@.len() - i,
{
    let ghost views = parts@.map_values(|s: String| s@);
    if i == parts.len() {
        proof {
            assert(views.skip(i as int) =~= Seq::<Seq<char>>::empty());
        }
        String::new()
    } else if i + 1 == parts.len() {
        proof {
            assert(views.skip(i as int) =~= seq![parts@[i as int]@]);
        }
        parts[i].clone()
    } else {
        let mut s = parts[i].clone();
        s.append(",");
        let rest = join_comma_from(parts, i + 1);
        s.append(rest.as_str());
        proof {
            reveal_strlit(",");
            assert(views.skip(i as int).drop_first() =~= views.skip(i as int + 1));
            assert(views.skip(i as int)[0] == parts@[i as int]@);
            assert(s@ =~= comma_join(views.skip(i as int)));
        }
        s
    }
}

/// Joins attribute names with commas, as the `attrs` query parameter wants.
pub fn join_comma(parts: &Vec<String>) -> (r: String)
    ensures
        r@ == comma_join(parts@.map_values(|s: String| s@)),
{
    let r = join_comma_from(parts, 0);
    proof {
        assert(parts@.map_values(|s: String| s@).skip(0) =~= parts@.map_values(
            |s: String| s@,
        ));
    }
    r
}

} // verus!
