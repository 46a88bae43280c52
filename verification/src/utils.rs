//! Normalization of list values coming from the wire: absent lists become
//! empty lists, and `null` entries inside a list are filtered out rather
//! than rejected.

use vstd::prelude::*;

verus! {

/// The subsequence of present values of a sequence of options, in order.
pub open spec fn present_values<T>(s: Seq<Option<T>>) -> Seq<T>
    decreases s.len(),
{
    if s.len() == 0 {
        Seq::empty()
    } else {
        let rest = present_values(s.drop_first());
        match s[0] {
            Some(x) => seq![x] + rest,
            None => rest,
        }
    }
}

proof fn lemma_present_values_snoc<T>(s: Seq<Option<T>>, i: int)
    requires
        0 <= i < s.len(),
    ensures
        present_values(s.take(i + 1)) == match s[i] {
            Some(x) => present_values(s.take(i)) + seq![x],
            None => present_values(s.take(i)),
        },
    decreases i,
{
    let a = s.take(i + 1);
    assert(a[0] == s[0]);
    if i == 0 {
        assert(a.drop_first() =~= Seq::<Option<T>>::empty());
        assert(present_values(Seq::<Option<T>>::empty()) =~= Seq::<T>::empty());
        assert(s.take(0) =~= Seq::<Option<T>>::empty());
        match s[0] {
            Some(x) => {
                assert(present_values(a) =~= seq![x] + present_values(a.drop_first()));
                assert(seq![x] + Seq::<T>::empty() =~= seq![x]);
                assert(present_values(s.take(0)) + seq![x] =~= seq![x]);
            },
            None => {
                assert(present_values(a) =~= present_values(a.drop_first()));
            },
        }
    } else {
        let t = s.drop_first();
        lemma_present_values_snoc(t, i - 1);
        assert(a.drop_first() =~= t.take(i));
        assert(s.take(i).drop_first() =~= t.take(i - 1));
        assert(t[i - 1] == s[i]);
        match s[0] {
            Some(x) => {
                match s[i] {
                    Some(y) => {
                        assert(seq![x] + (present_values(t.take(i - 1)) + seq![y]) =~= (seq![x]
                            + present_values(t.take(i - 1))) + seq![y]);
                    },
                    None => {},
                }
            },
            None => {},
        }
    }
}

/// Turns a possibly missing list into a list, absent becoming empty.
pub fn optional_vector<T>(v: Option<Vec<T>>) -> (r: Vec<T>)
    ensures
        r@ == match v {
            Some(inner) => inner@,
            None => Seq::<T>::empty(),
        },
{
    match v {
        Some(inner) => inner,
        None => Vec::new(),
    }
}

/// Drops the `null` entries of a list, keeping the present values in order.
pub fn nullable_vector<T>(v: Vec<Option<T>>) -> (r: Vec<T>)
    ensures
        r@ == present_values(v@),
{
    let ghost full = v@;
    let mut out: Vec<T> = Vec::new();
    let mut rest = v;
    let n = rest.len();
    // consume from the front to move values out without cloning
    let mut i: usize = 0;
    while i < n
        invariant
            n == full.len(),
            i <= n,
            rest@ == full.skip(i as int),
            out@ == present_values(full.take(i as int)),
        decreases n - i,
    {
        proof {
            lemma_present_values_snoc(full, i as int);
        }
        let x = rest.remove(0);
        assert(x == full[i as int]);
        match x {
            Some(y) => out.push(y),
            None => (),
        }
        i = i + 1;
        assert(rest@ =~= full.skip(i as int));
    }
    assert(full.take(n as int) =~= full);
    out
}

} // verus!
