use vstd::prelude::*;

verus! {

/// The character sequences of a sequence of owned strings.
pub open spec fn strs(v: Seq<String>) -> Seq<Seq<char>> {
    v.map_values(|s: String| s@)
}

pub proof fn lemma_strs_push(v: Seq<String>, s: String)
    ensures
        strs(v.push(s)) == strs(v).push(s@),
{
    assert(strs(v.push(s)) =~= strs(v).push(s@));
}

pub proof fn lemma_strs_take_push(v: Seq<String>, i: int)
    requires
        0 <= i < v.len(),
    ensures
        strs(v.take(i + 1)) == strs(v.take(i)).push(v[i]@),
{
    assert(strs(v.take(i + 1)) =~= strs(v.take(i)).push(v[i]@));
}

pub proof fn lemma_strs_take_all(v: Seq<String>)
    ensures
        strs(v.take(v.len() as int)) == strs(v),
{
    assert(v.take(v.len() as int) =~= v);
}


/// The characters of `s`, by `str::chars`.
/// Claimed: they are the characters of `s`, in order.
#[verifier::external_body]
pub fn chars_of(s: &str) -> (r: Vec<char>)
    ensures
        r@ == s@,
{
    s.chars().collect()
}

/// The string of the characters `cs`, by collecting them into a `String`.
/// Claimed: its characters are `cs`, in order.
#[verifier::external_body]
pub fn string_of(cs: &[char]) -> (r: String)
    ensures
        r@ == cs@,
{
    cs.iter().collect()
}

} // verus!
