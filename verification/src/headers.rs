//! Header lists: names are unique, and a repeated name in the source keeps
//! its last value.
use vstd::prelude::*;

verus! {

/// The value a header list gives a name: the last entry with that name wins.
pub open spec fn header_lookup(entries: Seq<(String, String)>, name: Seq<char>) -> Option<
    Seq<char>,
>
    decreases entries.len(),
{
    if entries.len() == 0 {
        None
    } else if entries.last().0@ == name {
        Some(entries.last().1@)
    } else {
        header_lookup(entries.drop_last(), name)
    }
}

/// No two entries share a name.
pub open spec fn unique_keys(entries: Seq<(String, String)>) -> bool {
    forall|i: int, j: int|
        0 <= i < j < entries.len() ==> entries[i].0@ != entries[j].0@
}

proof fn lemma_lookup_update(entries: Seq<(String, String)>, p: int, e: (String, String), name: Seq<char>)
    requires
        0 <= p < entries.len(),
        entries[p].0@ == e.0@,
        unique_keys(entries),
    ensures
        header_lookup(entries.update(p, e), name) == if name == e.0@ {
            Some(e.1@)
        } else {
            header_lookup(entries, name)
        },
    decreases entries.len(),
{
    let u = entries.update(p, e);
    if p == entries.len() - 1 {
        assert(u.last() == e);
        assert(u.drop_last() =~= entries.drop_last());
    } else {
        assert(u.last() == entries.last());
        assert(u.drop_last() =~= entries.drop_last().update(p, e));
        assert(unique_keys(entries.drop_last()));
        lemma_lookup_update(entries.drop_last(), p, e, name);
        assert(entries.last().0@ != e.0@);
    }
}

fn find_key(entries: &Vec<(String, String)>, name: &String) -> (r: Option<usize>)
    ensures
        match r {
            Some(p) => p < entries@.len() && entries@[p as int].0@ == name@,
            None => forall|j: int| 0 <= j < entries@.len() ==> entries@[j].0@ != name@,
        },
{
    let mut j: usize = 0;
    while j < entries.len()
        invariant
            j <= entries@.len(),
            forall|k: int| 0 <= k < j ==> entries@[k].0@ != name@,
        decreases entries@.len() - j,
    {
        if entries[j].0 == *name {
            return Some(j);
        }
        j = j + 1;
    }
    None
}

/// Collapses a header list so that each name appears once, the last value
/// for a repeated name winning; what every name resolves to is unchanged.
pub fn dedup_headers(src: &Vec<(String, String)>) -> (out: Vec<(String, String)>)
    ensures
        unique_keys(out@),
        forall|name: Seq<char>| header_lookup(out@, name) == header_lookup(src@, name),
{
    let mut out: Vec<(String, String)> = Vec::new();
    let mut i: usize = 0;
    while i < src.len()
        invariant
            i <= src@.len(),
            unique_keys(out@),
            forall|name: Seq<char>|
                header_lookup(out@, name) == header_lookup(src@.take(i as int), name),
        decreases src@.len() - i,
    {
        let k = src[i].0.clone();
        let v = src[i].1.clone();
        let ghost prev = out@;
        match find_key(&out, &k) {
            Some(p) => {
                out.remove(p);
                out.insert(p, (k, v));
                proof {
                    assert(out@ =~= prev.update(p as int, (k, v)));
                    assert forall|name: Seq<char>|
                        header_lookup(out@, name) == header_lookup(
                            src@.take(i + 1),
                            name,
                        ) by {
                        lemma_lookup_update(prev, p as int, (k, v), name);
                        assert(src@.take(i + 1).last() == src@[i as int]);
                        assert(src@.take(i + 1).drop_last() =~= src@.take(i as int));
                    }
                }
            },
            None => {
                let ghost gk = k@;
                let ghost gv = v@;
                out.push((k, v));
                proof {
                    assert forall|name: Seq<char>|
                        header_lookup(out@, name) == header_lookup(
                            src@.take(i + 1),
                            name,
                        ) by {
                        let t = src@.take(i + 1);
                        assert(out@.last().0@ == gk && out@.last().1@ == gv);
                        assert(out@.drop_last() =~= prev);
                        assert(t.last() == src@[i as int]);
                        assert(t.drop_last() =~= src@.take(i as int));
                        if name == gk {
                            assert(header_lookup(out@, name) == Some(gv));
                            assert(header_lookup(t, name) == Some(src@[i as int].1@));
                        } else {
                            assert(header_lookup(out@, name) == header_lookup(prev, name));
                            assert(header_lookup(t, name) == header_lookup(
                                src@.take(i as int),
                                name,
                            ));
                        }
                    }
                }
            },
        }
        i = i + 1;
    }
    proof {
        assert(src@.take(src@.len() as int) =~= src@);
    }
    out
}

} // verus!
