//! Sequences of executable values seen as sequences of their views, and how the two move together.
use vstd::prelude::*;

verus! {

/// The views of a sequence of values, in order.
pub open spec fn models<T: View>(s: Seq<T>) -> Seq<T::V> {
    Seq::new(s.len(), |i: int| s[i]@)
}

/// The view of an optional value.
pub open spec fn opt_model<T: View>(o: Option<T>) -> Option<T::V> {
    match o {
        Some(x) => Some(x@),
        None => None,
    }
}

pub broadcast proof fn models_push<T: View>(s: Seq<T>, x: T)
    ensures
        #[trigger] models(s.push(x)) == models(s).push(x@),
{
    assert(models(s.push(x)) =~= models(s).push(x@));
}

pub broadcast proof fn models_update<T: View>(s: Seq<T>, i: int, x: T)
    requires
        0 <= i < s.len(),
    ensures
        #[trigger] models(s.update(i, x)) == models(s).update(i, x@),
{
    assert(models(s.update(i, x)) =~= models(s).update(i, x@));
}

pub broadcast proof fn models_remove<T: View>(s: Seq<T>, i: int)
    requires
        0 <= i < s.len(),
    ensures
        #[trigger] models(s.remove(i)) == models(s).remove(i),
{
    assert(models(s.remove(i)) =~= models(s).remove(i));
}

pub broadcast proof fn models_insert<T: View>(s: Seq<T>, i: int, x: T)
    requires
        0 <= i <= s.len(),
    ensures
        #[trigger] models(s.insert(i, x)) == models(s).insert(i, x@),
{
    assert(models(s.insert(i, x)) =~= models(s).insert(i, x@));
}

pub broadcast proof fn models_subrange<T: View>(s: Seq<T>, i: int, j: int)
    requires
        0 <= i <= j <= s.len(),
    ensures
        #[trigger] models(s.subrange(i, j)) == models(s).subrange(i, j),
{
    assert(models(s.subrange(i, j)) =~= models(s).subrange(i, j));
}

pub broadcast proof fn models_add<T: View>(s: Seq<T>, t: Seq<T>)
    ensures
        #[trigger] models(s + t) == models(s) + models(t),
{
    assert(models(s + t) =~= models(s) + models(t));
}

pub broadcast proof fn models_empty<T: View>()
    ensures
        #[trigger] models(Seq::<T>::empty()) == Seq::<T::V>::empty(),
{
    assert(models(Seq::<T>::empty()) =~= Seq::<T::V>::empty());
}

pub broadcast group group_models {
    models_push,
    models_update,
    models_remove,
    models_insert,
    models_subrange,
    models_add,
    models_empty,
}

/// Where `x` first stands in `s`; the length when it does not.
pub open spec fn position<A>(s: Seq<A>, x: A) -> int
    decreases s.len(),
{
    if s.len() == 0 {
        0
    } else if s[0] == x {
        0
    } else {
        1 + position(s.subrange(1, s.len() as int), x)
    }
}

/// `position` is the least index of `x`, and the length when there is none.
pub proof fn lemma_position<A>(s: Seq<A>, x: A, i: int)
    requires
        0 <= i <= s.len(),
        forall|j: int| 0 <= j < i ==> s[j] != x,
        i < s.len() ==> s[i] == x,
    ensures
        position(s, x) == i,
    decreases s.len(),
{
    if s.len() > 0 && s[0] != x {
        let t = s.subrange(1, s.len() as int);
        assert forall|j: int| 0 <= j < i - 1 implies t[j] != x by {
            assert(t[j] == s[j + 1]);
        }
        lemma_position(t, x, i - 1);
    }
}

/// What `position` answers, whatever the sequence.
pub proof fn lemma_position_least<A>(s: Seq<A>, x: A)
    ensures
        0 <= position(s, x) <= s.len(),
        forall|j: int| 0 <= j < position(s, x) ==> s[j] != x,
        position(s, x) < s.len() ==> s[position(s, x)] == x,
        s.contains(x) == (position(s, x) < s.len()),
    decreases s.len(),
{
    if s.len() > 0 && s[0] != x {
        let t = s.subrange(1, s.len() as int);
        lemma_position_least(t, x);
        assert forall|j: int| 0 <= j < position(s, x) implies s[j] != x by {
            if j > 0 {
                assert(t[j - 1] == s[j]);
            }
        }
        if t.contains(x) {
            let k = choose|k: int| 0 <= k < t.len() && t[k] == x;
            assert(s[k + 1] == x);
        }
        if s.contains(x) {
            let k = choose|k: int| 0 <= k < s.len() && s[k] == x;
            assert(t[k - 1] == x);
        }
    } else if s.len() > 0 {
        assert(s[0] == x);
    }
}

/// Copy a list of strings.
pub fn clone_strings(v: &Vec<String>) -> (r: Vec<String>)
    ensures
        models(r@) == models(v@),
        r@.len() == v@.len(),
{
    let r: Vec<String> = v.clone();
    assert forall|i: int| 0 <= i < v@.len() implies #[trigger] r@[i]@ == v@[i]@ by {
        assert(cloned::<String>(v@[i], r@[i]));
    }
    assert(models(r@) =~= models(v@));
    r
}

} // verus!
