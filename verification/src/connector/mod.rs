//! Connectors to the exchanges' live APIs: their endpoints and credentials, and the decisions
//! their connection loops make.
pub mod binancefutures;
pub mod bybit;

use vstd::prelude::*;

verus! {

/// The strings of a list, as a set.
pub open spec fn string_set(v: Seq<String>) -> Set<Seq<char>> {
    v.map_values(|s: String| s@).to_set()
}

/// Returns whether the list holds the string.
pub fn contains_string(v: &Vec<String>, s: &String) -> (r: bool)
    ensures
        r == string_set(v@).contains(s@),
{
    let mut i: usize = 0;
    while i < v.len()
        invariant
            i <= v@.len(),
            forall|j: int| 0 <= j < i ==> v@[j]@ != s@,
        decreases v@.len() - i,
    {
        if v[i] == *s {
            assert(v@.map_values(|t: String| t@)[i as int] == s@);
            return true;
        }
        i = i + 1;
    }
    assert forall|x: Seq<char>| string_set(v@).contains(x) implies x != s@ by {
        let m = v@.map_values(|t: String| t@);
        let k = choose|k: int| 0 <= k < m.len() && #[trigger] m[k] == x;
        assert(v@[k]@ == x);
    }
    false
}

/// Adds the string to the list unless the list already holds it.
pub fn insert_string(v: &mut Vec<String>, s: String)
    ensures
        string_set(final(v)@) == string_set(old(v)@).insert(s@),
{
    if !contains_string(v, &s) {
        let ghost prev = v@;
        let ghost sv = s@;
        v.push(s);
        assert(v@.map_values(|t: String| t@) =~= prev.map_values(|t: String| t@).push(sv));
        proof {
            prev.map_values(|t: String| t@).lemma_push_to_set_commute(sv);
        }
    } else {
        assert(string_set(v@) =~= string_set(v@).insert(s@));
    }
}


/// The seconds to wait before connecting again: none for the first attempt, five after an
/// error.
pub fn reconnect_delay_secs(error_count: u64) -> (r: u64)
    ensures
        r == (if error_count > 0 {
            5u64
        } else {
            0u64
        }),
{
    if error_count > 0 {
        5
    } else {
        0
    }
}

/// The parts joined with the separator between each two.
pub open spec fn joined(parts: Seq<Seq<char>>, sep: char) -> Seq<char>
    decreases parts.len(),
{
    if parts.len() == 0 {
        Seq::empty()
    } else if parts.len() == 1 {
        parts[0]
    } else {
        joined(parts.drop_last(), sep) + seq![sep] + parts.last()
    }
}

/// The views of the strings.
pub open spec fn views(v: Seq<String>) -> Seq<Seq<char>> {
    v.map_values(|s: String| s@)
}

/// The views of a list with one more string are the views of the list with its view.
pub proof fn lemma_views_push(v: Seq<String>, s: String)
    ensures
        views(v.push(s)) == views(v).push(s@),
{
    assert(views(v.push(s)) =~= views(v).push(s@));
}

/// Appends the parts to the text with the separator between each two.
pub fn append_joined(text: &mut String, parts: &Vec<String>, sep: &str)
    requires
        sep@.len() == 1,
    ensures
        final(text)@ == old(text)@ + joined(views(parts@), sep@[0]),
{
    let ghost base = old(text)@;
    let ghost vs = views(parts@);
    let mut i: usize = 0;
    while i < parts.len()
        invariant
            sep@.len() == 1,
            vs == views(parts@),
            i <= parts@.len(),
            text@ == base + joined(vs.take(i as int), sep@[0]),
        decreases parts@.len() - i,
    {
        if i > 0 {
            text.append(sep);
        }
        text.append(parts[i].as_str());
        proof {
            let t = vs.take(i + 1);
            assert(t.drop_last() =~= vs.take(i as int));
            assert(t.last() == parts@[i as int]@);
            assert(sep@ =~= seq![sep@[0]]);
            if i == 0 {
                assert(joined(t, sep@[0]) == t[0]);
                assert(joined(vs.take(0), sep@[0]) =~= Seq::<char>::empty());
            }
        }
        assert(text@ =~= base + joined(vs.take(i + 1), sep@[0]));
        i = i + 1;
    }
    assert(vs.take(parts@.len() as int) =~= vs);
}

} // verus!
