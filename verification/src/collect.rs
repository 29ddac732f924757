use vstd::prelude::*;

verus! {

/// The values `f` yields over the key span `[a, b)`, in key order, keys at
/// which `f` yields nothing silently skipped. This is what every range
/// query over a segment returns: one decoded value per populated row.
pub open spec fn collect_present<T>(f: spec_fn(int) -> Option<T>, a: int, b: int) -> Seq<T>
    decreases b - a,
{
    if a >= b {
        Seq::<T>::empty()
    } else {
        match f(a) {
            Some(v) => seq![v] + collect_present(f, a + 1, b),
            None => collect_present(f, a + 1, b),
        }
    }
}

/// Peeling the last key off a span: the collection over `[a, b)` is the
/// collection over `[a, b - 1)`, extended by `f(b - 1)` when that is present.
pub proof fn lemma_collect_present_snoc<T>(f: spec_fn(int) -> Option<T>, a: int, b: int)
    requires
        a < b,
    ensures
        f(b - 1) matches Some(v) ==> collect_present(f, a, b) == collect_present(f, a, b - 1).push(
            v,
        ),
        f(b - 1) is None ==> collect_present(f, a, b) == collect_present(f, a, b - 1),
    decreases b - a,
{
    if a + 1 == b {
        match f(a) {
            Some(v) => {
                assert(collect_present(f, a + 1, b) =~= Seq::<T>::empty());
                assert(seq![v] + Seq::<T>::empty() =~= Seq::<T>::empty().push(v));
                assert(collect_present(f, a, b - 1) =~= Seq::<T>::empty());
            },
            None => {
                assert(collect_present(f, a + 1, b) =~= Seq::<T>::empty());
                assert(collect_present(f, a, b) =~= Seq::<T>::empty());
                assert(collect_present(f, a, b - 1) =~= Seq::<T>::empty());
            },
        }
    } else {
        lemma_collect_present_snoc(f, a + 1, b);
        match f(a) {
            Some(v) => {
                match f(b - 1) {
                    Some(w) => {
                        assert(seq![v] + collect_present(f, a + 1, b - 1).push(w) =~= (seq![v]
                            + collect_present(f, a + 1, b - 1)).push(w));
                    },
                    None => {},
                }
            },
            None => {},
        }
    }
}

/// Keys at which `f` yields nothing contribute nothing: a span whose head
/// `[a, m)` is all absent collects the same as `[m, b)`.
pub proof fn lemma_collect_present_absent_prefix<T>(
    f: spec_fn(int) -> Option<T>,
    a: int,
    m: int,
    b: int,
)
    requires
        a <= m,
        forall|k: int| a <= k < m ==> #[trigger] f(k) is None,
    ensures
        collect_present(f, a, b) == collect_present(f, m, b),
    decreases m - a,
{
    if a < m {
        if a >= b {
            assert(collect_present(f, a, b) =~= Seq::<T>::empty());
            assert(m >= b);
            assert(collect_present(f, m, b) =~= Seq::<T>::empty());
        } else {
            assert(f(a) is None);
            lemma_collect_present_absent_prefix(f, a + 1, m, b);
        }
    }
}

/// The mirror image: a span whose tail `[m, b)` is all absent collects the
/// same as `[a, m)`.
pub proof fn lemma_collect_present_absent_suffix<T>(
    f: spec_fn(int) -> Option<T>,
    a: int,
    m: int,
    b: int,
)
    requires
        m <= b,
        forall|k: int| m <= k < b ==> #[trigger] f(k) is None,
    ensures
        collect_present(f, a, b) == collect_present(f, a, m),
    decreases b - m,
{
    if m < b {
        if a >= b {
            assert(collect_present(f, a, b) =~= Seq::<T>::empty());
            assert(collect_present(f, a, m) =~= Seq::<T>::empty());
        } else {
            assert(f(b - 1) is None);
            lemma_collect_present_snoc(f, a, b);
            lemma_collect_present_absent_suffix(f, a, m, b - 1);
        }
    }
}

/// A collection never outgrows its span.
pub proof fn lemma_collect_present_len<T>(f: spec_fn(int) -> Option<T>, a: int, b: int)
    ensures
        a <= b ==> collect_present(f, a, b).len() <= b - a,
        a >= b ==> collect_present(f, a, b).len() == 0,
    decreases b - a,
{
    if a < b {
        lemma_collect_present_len(f, a + 1, b);
    }
}

/// Over a fully populated span nothing is skipped: the collection has one
/// value per key.
pub proof fn lemma_collect_present_all_present<T>(f: spec_fn(int) -> Option<T>, a: int, b: int)
    requires
        forall|k: int| a <= k < b ==> #[trigger] f(k) is Some,
    ensures
        a <= b ==> collect_present(f, a, b).len() == b - a,
    decreases b - a,
{
    if a < b {
        assert(f(a) is Some);
        lemma_collect_present_all_present(f, a + 1, b);
    }
}

/// Every collected value is witnessed by a key of the span at which `f`
/// yields exactly that value.
pub proof fn lemma_collect_present_membership<T>(
    f: spec_fn(int) -> Option<T>,
    a: int,
    b: int,
    i: int,
)
    requires
        0 <= i < collect_present(f, a, b).len(),
    ensures
        exists|k: int| a <= k < b && #[trigger] f(k) == Some(collect_present(f, a, b)[i]),
    decreases b - a,
{
    if a < b {
        match f(a) {
            Some(v) => {
                if i == 0 {
                    assert(collect_present(f, a, b)[0] == v);
                    assert(a <= a < b && f(a) == Some(collect_present(f, a, b)[0]));
                } else {
                    lemma_collect_present_membership(f, a + 1, b, i - 1);
                    let k = choose|k: int|
                        a + 1 <= k < b && #[trigger] f(k) == Some(collect_present(f, a + 1, b)[i - 1]);
                    assert(collect_present(f, a, b)[i] == collect_present(f, a + 1, b)[i - 1]);
                    assert(a <= k < b && f(k) == Some(collect_present(f, a, b)[i]));
                }
            },
            None => {
                lemma_collect_present_membership(f, a + 1, b, i);
                let k = choose|k: int|
                    a + 1 <= k < b && #[trigger] f(k) == Some(collect_present(f, a + 1, b)[i]);
                assert(a <= k < b && f(k) == Some(collect_present(f, a, b)[i]));
            },
        }
    }
}

} // verus!
