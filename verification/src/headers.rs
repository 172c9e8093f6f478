use vstd::prelude::*;

verus! {

/// The abstract value of a header list: name/value pairs in order.
pub type HeadersV = Seq<(Seq<char>, Seq<char>)>;

/// All entries of `hs` except those with the given name, in order.
pub open spec fn strip_header(hs: HeadersV, name: Seq<char>) -> HeadersV
    decreases hs.len(),
{
    if hs.len() == 0 {
        Seq::empty()
    } else if hs.last().0 == name {
        strip_header(hs.drop_last(), name)
    } else {
        strip_header(hs.drop_last(), name).push(hs.last())
    }
}

/// `hs` with the named header set to `value`: every earlier entry of that
/// name is removed, the other entries keep their order, and the new entry
/// stands last.
pub open spec fn set_header_spec(hs: HeadersV, name: Seq<char>, value: Seq<char>) -> HeadersV {
    strip_header(hs, name).push((name, value))
}

/// The value of the first entry with the given name, if any.
pub open spec fn get_header_spec(hs: HeadersV, name: Seq<char>) -> Option<Seq<char>>
    decreases hs.len(),
{
    if hs.len() == 0 {
        None
    } else if hs.first().0 == name {
        Some(hs.first().1)
    } else {
        get_header_spec(hs.drop_first(), name)
    }
}

/// Removes every entry with the given name, keeping the others in order.
pub fn remove_header(headers: &mut Vec<(String, String)>, name: &String)
    ensures
        final(headers).deep_view() == strip_header(old(headers).deep_view(), name@),
{
    let ghost orig: HeadersV = headers.deep_view();
    let mut kept: Vec<(String, String)> = Vec::new();
    let mut i: usize = 0;
    while i < headers.len()
        invariant
            i <= headers.len(),
            headers.deep_view() == orig,
            kept.deep_view() == strip_header(orig.take(i as int), name@),
        decreases headers.len() - i,
    {
        proof {
            assert(orig.take(i + 1).drop_last() =~= orig.take(i as int));
            assert(orig.take(i + 1).last() == orig[i as int]);
            assert(orig[i as int] == (headers[i as int].0@, headers[i as int].1@));
        }
        let keep = !(headers[i].0 == *name);
        if keep {
            let ghost kept0 = kept.deep_view();
            let entry = (headers[i].0.clone(), headers[i].1.clone());
            proof {
                assert(entry.deep_view() == orig[i as int]);
            }
            kept.push(entry);
            proof {
                assert(kept.deep_view() =~= kept0.push(orig[i as int]));
                assert(orig.take(i + 1).last().0 != name@);
                assert(kept.deep_view() == strip_header(orig.take(i + 1), name@));
            }
        } else {
            proof {
                assert(orig.take(i + 1).last().0 == name@);
                assert(strip_header(orig.take(i + 1), name@) == strip_header(
                    orig.take(i as int),
                    name@,
                ));
            }
        }
        i += 1;
    }
    proof {
        assert(orig.take(headers.len() as int) =~= orig);
    }
    *headers = kept;
}

/// Sets the named header to `value`, removing every earlier entry of that
/// name; the new entry stands last.
pub fn set_header(headers: &mut Vec<(String, String)>, name: &String, value: String)
    ensures
        final(headers).deep_view() == set_header_spec(old(headers).deep_view(), name@, value@),
{
    let ghost orig: HeadersV = headers.deep_view();
    remove_header(headers, name);
    let ghost stripped = headers.deep_view();
    let entry = (name.clone(), value);
    proof {
        assert(entry.deep_view() == (name@, value@));
    }
    headers.push(entry);
    proof {
        assert(headers.deep_view() =~= stripped.push((name@, value@)));
    }
}

/// Returns the value of the first entry with the given name, if any.
pub fn get_header(headers: &Vec<(String, String)>, name: &String) -> (r: Option<String>)
    ensures
        match r {
            Some(v) => get_header_spec(headers.deep_view(), name@) == Some(v@),
            None => get_header_spec(headers.deep_view(), name@) is None,
        },
{
    let ghost hv: HeadersV = headers.deep_view();
    proof {
        assert(hv.skip(0) =~= hv);
    }
    let mut i: usize = 0;
    while i < headers.len()
        invariant
            i <= headers.len(),
            headers.deep_view() == hv,
            get_header_spec(hv, name@) == get_header_spec(hv.skip(i as int), name@),
        decreases headers.len() - i,
    {
        proof {
            assert(hv.skip(i as int).first() == hv[i as int]);
            assert(hv[i as int] == (headers[i as int].0@, headers[i as int].1@));
            assert(hv.skip(i as int).drop_first() =~= hv.skip(i + 1));
        }
        if headers[i].0 == *name {
            let v = headers[i].1.clone();
            proof {
                assert(hv.skip(i as int).len() > 0);
                assert(get_header_spec(hv.skip(i as int), name@) == Some(hv[i as int].1));
            }
            return Some(v);
        }
        i += 1;
    }
    proof {
        assert(hv.skip(headers.len() as int) =~= Seq::<(Seq<char>, Seq<char>)>::empty());
    }
    None
}

} // verus!
