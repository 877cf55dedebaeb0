//! Lists of items that fill a stretch of bytes from end to end.
use crate::der::{consumes, parsed};
use crate::error::X509Error;
use vstd::prelude::*;

verus! {

/// The views of the items of a sequence.
pub open spec fn views<T: View>(s: Seq<T>) -> Seq<T::V> {
    s.map_values(|x: T| x@)
}

/// The views of a sequence with one more item.
pub proof fn lemma_views_push<T: View>(s: Seq<T>, x: T)
    ensures
        views(s.push(x)) == views(s).push(x@),
{
    assert(views(s.push(x)) =~= views(s).push(x@));
}

/// What reading items with `f` until `i` is used up gives: the items in
/// order, or the first error. An item that takes no byte is an error.
pub open spec fn spec_many<V>(
    f: spec_fn(Seq<u8>) -> Result<(Seq<u8>, V), X509Error>,
    i: Seq<u8>,
) -> Result<Seq<V>, X509Error>
    decreases i.len(),
{
    if i.len() == 0 {
        Ok(Seq::empty())
    } else {
        match f(i) {
            Err(e) => Err(e),
            Ok((rest, v)) => if rest.len() < i.len() {
                match spec_many(f, rest) {
                    Ok(vs) => Ok(seq![v] + vs),
                    Err(e) => Err(e),
                }
            } else {
                Err(X509Error::Malformed)
            },
        }
    }
}

/// The items `done`, followed by what `r` gives.
pub open spec fn after<V>(done: Seq<V>, r: Result<Seq<V>, X509Error>) -> Result<
    Seq<V>,
    X509Error,
> {
    match r {
        Ok(vs) => Ok(done + vs),
        Err(e) => Err(e),
    }
}

/// Reading from nothing gives no item.
pub proof fn lemma_many_end<V>(
    f: spec_fn(Seq<u8>) -> Result<(Seq<u8>, V), X509Error>,
    i: Seq<u8>,
    done: Seq<V>,
)
    requires
        i.len() == 0,
    ensures
        after(done, spec_many(f, i)) == Ok::<Seq<V>, X509Error>(done),
{
    assert(done + Seq::<V>::empty() =~= done);
}

/// One item read: the items read so far grow by it, and the reading goes on
/// from what is left.
pub proof fn lemma_many_step<V>(
    f: spec_fn(Seq<u8>) -> Result<(Seq<u8>, V), X509Error>,
    i: Seq<u8>,
    rest: Seq<u8>,
    v: V,
    done: Seq<V>,
)
    requires
        i.len() > 0,
        f(i) == Ok::<(Seq<u8>, V), X509Error>((rest, v)),
        rest.len() < i.len(),
    ensures
        after(done, spec_many(f, i)) == after(done.push(v), spec_many(f, rest)),
{
    match spec_many(f, rest) {
        Ok(vs) => {
            assert(done + (seq![v] + vs) =~= done.push(v) + vs);
        },
        Err(_) => {},
    }
}

/// The reading stops at the first item that fails.
pub proof fn lemma_many_fail<V>(
    f: spec_fn(Seq<u8>) -> Result<(Seq<u8>, V), X509Error>,
    i: Seq<u8>,
    e: X509Error,
    done: Seq<V>,
)
    requires
        i.len() > 0,
        f(i) == Err::<(Seq<u8>, V), X509Error>(e),
    ensures
        after(done, spec_many(f, i)) == Err::<Seq<V>, X509Error>(e),
{
}

/// Nothing read yet: what is read from here on is the whole.
pub proof fn lemma_many_start<V>(r: Result<Seq<V>, X509Error>)
    ensures
        after(Seq::<V>::empty(), r) == r,
{
    match r {
        Ok(vs) => {
            assert(Seq::<V>::empty() + vs =~= vs);
        },
        Err(_) => {},
    }
}

/// Reads items with `f` until `c` is used up.
pub(crate) fn many<'a, T: View, F: Fn(&'a [u8]) -> Result<(&'a [u8], T), X509Error>>(
    c: &'a [u8],
    f: F,
    Ghost(reader): Ghost<spec_fn(Seq<u8>) -> Result<(Seq<u8>, T::V), X509Error>>,
) -> (r: Result<Vec<T>, X509Error>)
    requires
        forall|i: &'a [u8]| call_requires(f, (i,)),
        forall|i: &'a [u8], o: Result<(&'a [u8], T), X509Error>| #[trigger]
            call_ensures(f, (i,), o) ==> parsed(o) == reader(i@) && consumes(i@, o),
    ensures
        match r {
            Ok(v) => spec_many(reader, c@) == Ok::<Seq<T::V>, X509Error>(views(v@)),
            Err(e) => spec_many(reader, c@) == Err::<Seq<T::V>, X509Error>(e),
        },
{
    let mut out: Vec<T> = Vec::new();
    let mut cur = c;
    proof {
        lemma_many_start(spec_many(reader, c@));
        assert(views(out@) =~= Seq::<T::V>::empty());
    }
    while cur.len() > 0
        invariant
            forall|i: &'a [u8]| call_requires(f, (i,)),
            forall|i: &'a [u8], o: Result<(&'a [u8], T), X509Error>| #[trigger]
                call_ensures(f, (i,), o) ==> parsed(o) == reader(i@) && consumes(i@, o),
            spec_many(reader, c@) == after(views(out@), spec_many(reader, cur@)),
        decreases cur@.len(),
    {
        match f(cur) {
            Err(e) => {
                proof {
                    lemma_many_fail(reader, cur@, e, views(out@));
                }
                return Err(e);
            },
            Ok((next, v)) => {
                proof {
                    lemma_many_step(reader, cur@, next@, v@, views(out@));
                    lemma_views_push(out@, v);
                }
                out.push(v);
                cur = next;
            },
        }
    }
    proof {
        lemma_many_end(reader, cur@, views(out@));
    }
    Ok(out)
}

/// Where every item that `f` reads has the property `p`, so has every item
/// of a list read with `f`.
pub proof fn lemma_many_all<V>(
    f: spec_fn(Seq<u8>) -> Result<(Seq<u8>, V), X509Error>,
    i: Seq<u8>,
    p: spec_fn(V) -> bool,
)
    requires
        forall|j: Seq<u8>| (#[trigger] f(j)) matches Ok((_, v)) ==> p(v),
    ensures
        spec_many(f, i) matches Ok(vs) ==> forall|k: int| 0 <= k < vs.len() ==> p(#[trigger] vs[k]),
    decreases i.len(),
{
    if i.len() > 0 {
        match f(i) {
            Ok((rest, v)) => {
                if rest.len() < i.len() {
                    lemma_many_all(f, rest, p);
                    assert(p(v));
                }
            },
            Err(_) => {},
        }
    }
}

} // verus!
