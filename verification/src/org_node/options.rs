//! Command-line values of the org node.
use vstd::prelude::*;

use crate::text::{
    chars_of, find_char, first_index, lemma_first_index, lower_seq, lowercase_ascii, split_on, split_str,
    string_of_range, views,
};

verus! {

/// The orgs to follow, from a comma-separated list: none for an empty
/// value, else each entry in ASCII lower case.
pub fn parse_orgs(value: &str) -> (r: Result<Vec<String>, String>)
    ensures
        value@.len() == 0 ==> (r matches Ok(v) && v@.len() == 0),
        value@.len() > 0 ==> (r matches Ok(v) && views(v@) == split_on(value@, ',').map_values(
            |s: Seq<char>| lower_seq(s),
        )),
{
    if value.is_empty() {
        return Ok(Vec::new());
    }
    let parts = split_str(value, ',');
    let mut out: Vec<String> = Vec::new();
    let mut i: usize = 0;
    while i < parts.len()
        invariant
            i <= parts@.len(),
            views(parts@) == split_on(value@, ','),
            views(out@) == views(parts@).take(i as int).map_values(|s: Seq<char>| lower_seq(s)),
        decreases parts@.len() - i,
    {
        let ghost before = out@;
        out.push(lowercase_ascii(parts[i].as_str()));
        proof {
            assert(views(out@) =~= views(before).push(lower_seq(parts@[i as int]@)));
            assert(views(parts@).take(i + 1).map_values(|s: Seq<char>| lower_seq(s)) =~= views(parts@).take(
                i as int,
            ).map_values(|s: Seq<char>| lower_seq(s)).push(lower_seq(views(parts@)[i as int])));
        }
        i = i + 1;
    }
    assert(views(parts@).take(i as int) =~= views(parts@));
    Ok(out)
}

/// Every comma-separated entry of `value` holds an `@`.
pub open spec fn entries_have_at(value: Seq<char>) -> bool {
    forall|i: int| 0 <= i < split_on(value, ',').len() ==> first_index(#[trigger] split_on(value, ',')[i], '@')
        < split_on(value, ',')[i].len()
}

/// The bootstrap peers of a comma-separated list of `peer@address` entries:
/// each entry cut at its first `@` into the peer id and the address, which
/// are then to be read.
pub fn split_bootstrap(value: &str) -> (r: Vec<(String, String)>)
    requires
        entries_have_at(value@),
    ensures
        r@.len() == split_on(value@, ',').len(),
        forall|i: int|
            0 <= i < r@.len() ==> {
                let e = split_on(value@, ',')[i];
                let k = first_index(e, '@');
                &&& (#[trigger] r@[i]).0@ == e.take(k)
                &&& r@[i].1@ == e.skip(k + 1)
            },
{
    let parts = split_str(value, ',');
    let mut out: Vec<(String, String)> = Vec::new();
    let mut i: usize = 0;
    while i < parts.len()
        invariant
            i <= parts@.len(),
            views(parts@) == split_on(value@, ','),
            entries_have_at(value@),
            out@.len() == i,
            forall|j: int|
                0 <= j < i ==> {
                    let e = split_on(value@, ',')[j];
                    let k = first_index(e, '@');
                    &&& (#[trigger] out@[j]).0@ == e.take(k)
                    &&& out@[j].1@ == e.skip(k + 1)
                },
        decreases parts@.len() - i,
    {
        let v = chars_of(parts[i].as_str());
        assert(views(parts@)[i as int] == parts@[i as int]@);
        assert(first_index(split_on(value@, ',')[i as int], '@') < split_on(value@, ',')[i as int].len());
        proof {
            lemma_first_index(v@, '@');
        }
        let k = match find_char(v.as_slice(), '@') {
            Some(k) => k,
            None => v.len(),
        };
        let peer = string_of_range(v.as_slice(), 0, k);
        let addr = string_of_range(v.as_slice(), k + 1, v.len());
        assert(peer@ =~= v@.take(k as int));
        assert(addr@ =~= v@.skip(k + 1));
        out.push((peer, addr));
        i = i + 1;
    }
    out
}

} // verus!
