use vstd::prelude::*;
use vstd::string::{StrSliceExecFns, StringExecFns};

use crate::addr::{dec_rep, push_dec};
use crate::message::{UriParts, UriV};

verus! {

/// `s` with every trailing slash removed.
pub open spec fn trim_end_slashes(s: Seq<char>) -> Seq<char>
    decreases s.len(),
{
    if s.len() > 0 && s.last() == '/' {
        trim_end_slashes(s.drop_last())
    } else {
        s
    }
}

/// `s` with every leading slash removed.
pub open spec fn trim_start_slashes(s: Seq<char>) -> Seq<char>
    decreases s.len(),
{
    if s.len() > 0 && s.first() == '/' {
        trim_start_slashes(s.drop_first())
    } else {
        s
    }
}

/// The length that remains of the first `end` characters of `s` once the
/// trailing slashes are gone.
fn trim_end_count(s: &str, end: usize) -> (r: usize)
    requires
        end <= s@.len(),
    ensures
        r <= end,
        s@.take(r as int) == trim_end_slashes(s@.take(end as int)),
    decreases end,
{
    if end == 0 {
        proof {
            assert(s@.take(0) =~= Seq::<char>::empty());
        }
        0
    } else if s.get_char(end - 1) == '/' {
        proof {
            assert(s@.take(end as int).last() == s@[end - 1]);
            assert(s@.take(end as int).drop_last() =~= s@.take(end - 1));
        }
        trim_end_count(s, end - 1)
    } else {
        proof {
            assert(s@.take(end as int).last() == s@[end - 1]);
        }
        end
    }
}

/// The position where `s` goes on once the leading slashes, from `start`,
/// are gone.
fn trim_start_count(s: &str, start: usize) -> (r: usize)
    requires
        start <= s@.len(),
    ensures
        start <= r <= s@.len(),
        s@.skip(r as int) == trim_start_slashes(s@.skip(start as int)),
    decreases s@.len() - start,
{
    let n = s.unicode_len();
    if start == n {
        proof {
            assert(s@.skip(start as int) =~= Seq::<char>::empty());
        }
        start
    } else if s.get_char(start) == '/' {
        proof {
            assert(s@.skip(start as int).first() == s@[start as int]);
            assert(s@.skip(start as int).drop_first() =~= s@.skip(start + 1));
        }
        trim_start_count(s, start + 1)
    } else {
        proof {
            assert(s@.skip(start as int).first() == s@[start as int]);
        }
        start
    }
}

/// The authority written by a request target: the host, and the port after
/// a colon when one is named; empty without a host.
pub open spec fn authority_text_spec(u: UriV) -> Seq<char> {
    match u.host {
        Some(h) => h + (match u.port {
            Some(p) => seq![':'] + dec_rep(p as nat),
            None => Seq::<char>::empty(),
        }),
        None => Seq::<char>::empty(),
    }
}

/// The combination of a base target and an appended target: the two paths
/// joined by exactly one slash, the appended target's non-empty query after
/// a question mark, and, when the base names a scheme, the scheme and the
/// base's authority in front.
pub open spec fn combine_uris_spec(base: UriV, append: UriV) -> Seq<char> {
    let joined = trim_end_slashes(base.path) + seq!['/'] + trim_start_slashes(append.path);
    let with_query = match append.query {
        Some(q) => if q.len() > 0 {
            joined + seq!['?'] + q
        } else {
            joined
        },
        None => joined,
    };
    match base.scheme {
        Some(sch) => sch + seq![':', '/', '/'] + authority_text_spec(base) + with_query,
        None => with_query,
    }
}

/// Combines a base target with an appended one, as `combine_uris_spec` lays
/// it down: paths joined by one slash, the appended query kept, scheme and
/// authority taken from the base.
pub fn combine_uris(base: &UriParts, append: &UriParts) -> (r: String)
    ensures
        r@ == combine_uris_spec(base@, append@),
{
    let mut path = String::new();
    let bp: &str = base.path.as_str();
    let bn = bp.unicode_len();
    let bend = trim_end_count(bp, bn);
    path.append(bp.substring_char(0, bend));
    proof {
        assert(bp@.subrange(0, bend as int) =~= bp@.take(bend as int));
        reveal_strlit("/");
    }
    path.append("/");
    let ap: &str = append.path.as_str();
    let astart = trim_start_count(ap, 0);
    let an = ap.unicode_len();
    path.append(ap.substring_char(astart, an));
    proof {
        assert(ap@.subrange(astart as int, an as int) =~= ap@.skip(astart as int));
        assert(ap@.skip(0) =~= ap@);
        assert(bp@.take(bn as int) =~= bp@);
        reveal_strlit("/");
        assert("/"@ =~= seq!['/']);
        assert(path@ =~= trim_end_slashes(base@.path) + seq!['/'] + trim_start_slashes(
            append@.path,
        ));
    }
    match &append.query {
        Some(q) => {
            let qs: &str = q.as_str();
            if qs.unicode_len() > 0 {
                proof {
                    reveal_strlit("?");
                }
                path.append("?");
                path.append(qs);
            }
        },
        None => {},
    }
    let ghost with_query = path@;
    match &base.scheme {
        Some(sch) => {
            let mut full = String::new();
            full.append(sch.as_str());
            proof {
                reveal_strlit("://");
                assert("://"@ =~= seq![':', '/', '/']);
            }
            full.append("://");
            match &base.host {
                Some(h) => {
                    full.append(h.as_str());
                    match base.port {
                        Some(p) => {
                            proof {
                                reveal_strlit(":");
                            }
                            full.append(":");
                            push_dec(&mut full, p as u64);
                        },
                        None => {},
                    }
                },
                None => {},
            }
            proof {
                assert(full@ =~= sch@ + seq![':', '/', '/'] + authority_text_spec(base@));
            }
            full.append(path.as_str());
            proof {
                assert(full@ =~= combine_uris_spec(base@, append@));
            }
            full
        },
        None => path,
    }
}

} // verus!
