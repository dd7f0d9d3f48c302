//! Joining written fragments with a separator. Every merged text of the
//! conversion — definition merges, synonym notes, pronunciation summaries,
//! variant-form listings and see-also lines — is such a join.
use vstd::prelude::*;
use vstd::string::StringExecFns;

verus! {

/// The fragments joined with the separator between each two neighbours.
pub open spec fn join_model(parts: Seq<Seq<char>>, sep: Seq<char>) -> Seq<char>
    decreases parts.len(),
{
    if parts.len() == 0 {
        Seq::empty()
    } else if parts.len() == 1 {
        parts[0]
    } else {
        parts[0] + sep + join_model(parts.drop_first(), sep)
    }
}

/// Appending one more fragment extends the join by the separator and the
/// fragment (or is the fragment alone, when nothing was there).
pub proof fn lemma_join_push(parts: Seq<Seq<char>>, sep: Seq<char>, x: Seq<char>)
    ensures
        join_model(parts.push(x), sep) == if parts.len() == 0 {
            x
        } else {
            join_model(parts, sep) + sep + x
        },
    decreases parts.len(),
{
    let p = parts.push(x);
    if parts.len() == 0 {
        assert(p[0] == x);
    } else if parts.len() == 1 {
        assert(p.drop_first() =~= seq![x]);
        assert(join_model(p.drop_first(), sep) == x);
    } else {
        assert(p.drop_first() =~= parts.drop_first().push(x));
        lemma_join_push(parts.drop_first(), sep, x);
        assert((parts[0] + sep + (join_model(parts.drop_first(), sep) + sep + x)) =~= ((parts[0]
            + sep + join_model(parts.drop_first(), sep)) + sep + x));
    }
}

/// Joins the given strings with the separator.
pub fn join(parts: &Vec<String>, sep: &str) -> (r: String)
    ensures
        r@ == join_model(parts.deep_view(), sep@),
{
    let mut r = String::new();
    let n = parts.len();
    for i in 0..n
        invariant
            n == parts@.len(),
            r@ == join_model(parts.deep_view().take(i as int), sep@),
    {
        if i > 0 {
            r.append(sep);
        }
        r.append(parts[i].as_str());
        proof {
            let dv = parts.deep_view();
            assert(dv.take(i + 1) =~= dv.take(i as int).push(dv[i as int]));
            lemma_join_push(dv.take(i as int), sep@, dv[i as int]);
        }
    }
    proof {
        assert(parts.deep_view().take(n as int) =~= parts.deep_view());
    }
    r
}

} // verus!
