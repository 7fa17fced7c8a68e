//! Literal substring replacement, used to derive the share link from the
//! configured base URL.

use vstd::prelude::*;

verus! {

/// `s` with every non-overlapping occurrence of `pat`, found left to
/// right, replaced by `rep`.
pub open spec fn replaced(s: Seq<char>, pat: Seq<char>, rep: Seq<char>) -> Seq<char>
    decreases s.len(),
    when pat.len() > 0
{
    if s.len() < pat.len() {
        s
    } else if s.subrange(0, pat.len() as int) == pat {
        rep + replaced(s.subrange(pat.len() as int, s.len() as int), pat, rep)
    } else {
        seq![s[0]] + replaced(s.subrange(1, s.len() as int), pat, rep)
    }
}

/// Whether `pat` stands at position `i` of `v`.
fn match_at(v: &Vec<char>, pat: &Vec<char>, i: usize) -> (r: bool)
    requires
        i + pat@.len() <= v@.len(),
    ensures
        r == (v@.subrange(i as int, i as int + pat@.len() as int) == pat@),
{
    let vlen = v.len();
    let plen = pat.len();
    let mut t: usize = 0;
    while t < plen
        invariant
            vlen == v@.len(),
            plen == pat@.len(),
            i + plen <= vlen,
            t <= plen,
            forall|u: int| 0 <= u < t ==> v@[i + u] == pat@[u],
        decreases plen - t,
    {
        if v[i + t] != pat[t] {
            proof {
                assert(v@.subrange(i as int, i as int + pat@.len() as int)[t as int] == v@[i + t]);
            }
            return false;
        }
        t += 1;
    }
    proof {
        assert(v@.subrange(i as int, i as int + pat@.len() as int) =~= pat@);
    }
    true
}

/// `v` with every occurrence of `pat` replaced by `rep`.
pub(crate) fn replace_chars(v: &Vec<char>, pat: &Vec<char>, rep: &Vec<char>) -> (out: Vec<char>)
    requires
        pat@.len() > 0,
    ensures
        out@ == replaced(v@, pat@, rep@),
{
    let n = v.len();
    let mut out: Vec<char> = Vec::new();
    let mut i: usize = 0;
    proof {
        assert(v@.subrange(0, n as int) =~= v@);
        assert(Seq::<char>::empty() + replaced(v@, pat@, rep@) =~= replaced(v@, pat@, rep@));
    }
    while i < n
        invariant
            i <= n,
            n == v@.len(),
            pat@.len() > 0,
            replaced(v@, pat@, rep@) == out@ + replaced(
                v@.subrange(i as int, n as int),
                pat@,
                rep@,
            ),
        decreases n - i,
    {
        let ghost rest = v@.subrange(i as int, n as int);
        if n - i >= pat.len() && match_at(v, pat, i) {
            proof {
                assert(rest.subrange(0, pat@.len() as int) =~= v@.subrange(
                    i as int,
                    i as int + pat@.len() as int,
                ));
                assert(rest.subrange(pat@.len() as int, rest.len() as int) =~= v@.subrange(
                    i as int + pat@.len() as int,
                    n as int,
                ));
                assert(replaced(rest, pat@, rep@) == rep@ + replaced(
                    v@.subrange(i as int + pat@.len() as int, n as int),
                    pat@,
                    rep@,
                ));
            }
            let ghost out_before = out@;
            let mut t: usize = 0;
            while t < rep.len()
                invariant
                    t <= rep@.len(),
                    out@ == out_before + rep@.take(t as int),
                decreases rep@.len() - t,
            {
                out.push(rep[t]);
                proof {
                    assert(out@ =~= out_before + rep@.take(t as int + 1));
                }
                t += 1;
            }
            proof {
                assert(out@ =~= out_before + rep@);
                assert(out@ + replaced(v@.subrange(i as int + pat@.len() as int, n as int), pat@, rep@)
                    =~= out_before + replaced(rest, pat@, rep@));
            }
            i += pat.len();
        } else {
            proof {
                if rest.len() >= pat@.len() {
                    assert(rest.subrange(0, pat@.len() as int) =~= v@.subrange(
                        i as int,
                        i as int + pat@.len() as int,
                    ));
                    assert(replaced(rest, pat@, rep@) == seq![v@[i as int]] + replaced(
                        rest.subrange(1, rest.len() as int),
                        pat@,
                        rep@,
                    ));
                } else {
                    assert(replaced(rest, pat@, rep@) == rest);
                    assert(rest.subrange(1, rest.len() as int).len() < pat@.len());
                    assert(replaced(rest.subrange(1, rest.len() as int), pat@, rep@)
                        == rest.subrange(1, rest.len() as int));
                    assert(rest =~= seq![v@[i as int]] + rest.subrange(1, rest.len() as int));
                }
                assert(rest.subrange(1, rest.len() as int) =~= v@.subrange(i as int + 1, n as int));
            }
            let ghost out_before = out@;
            out.push(v[i]);
            proof {
                assert(out@ =~= out_before + seq![v@[i as int]]);
                assert(out@ + replaced(v@.subrange(i as int + 1, n as int), pat@, rep@)
                    =~= out_before + replaced(rest, pat@, rep@));
            }
            i += 1;
        }
    }
    proof {
        assert(v@.subrange(n as int, n as int) =~= Seq::<char>::empty());
        assert(replaced(Seq::<char>::empty(), pat@, rep@) == Seq::<char>::empty());
        assert(out@ + Seq::<char>::empty() =~= out@);
    }
    out
}

} // verus!
