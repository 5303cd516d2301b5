use vstd::prelude::*;

verus! {

/// An element of a flattened sequence lies in one of the parts, and every
/// element of a part lies in the flattened sequence.
pub proof fn lemma_flatten_contains<T>(parts: Seq<Seq<T>>, x: T)
    ensures
        parts.flatten().contains(x) <==> exists|k: int|
            0 <= k < parts.len() && (#[trigger] parts[k]).contains(x),
    decreases parts.len(),
{
    if parts.len() == 0 {
        assert(parts.flatten() =~= Seq::<T>::empty());
    } else {
        let front = parts.drop_last();
        let last = parts.last();
        assert(parts =~= front.push(last));
        front.lemma_flatten_push(last);
        lemma_flatten_contains(front, x);
        let flat = parts.flatten();
        assert(flat == front.flatten() + last);
        if flat.contains(x) {
            let p = choose|p: int| 0 <= p < flat.len() && flat[p] == x;
            if p < front.flatten().len() {
                assert(front.flatten()[p] == x);
                assert(front.flatten().contains(x));
                let k = choose|k: int| 0 <= k < front.len() && (#[trigger] front[k]).contains(x);
                assert(parts[k].contains(x));
            } else {
                assert(last[p - front.flatten().len()] == x);
                assert(parts[parts.len() - 1].contains(x));
            }
        }
        if exists|k: int| 0 <= k < parts.len() && (#[trigger] parts[k]).contains(x) {
            let k = choose|k: int| 0 <= k < parts.len() && (#[trigger] parts[k]).contains(x);
            if k < front.len() {
                assert(front[k].contains(x));
                let p = choose|p: int| 0 <= p < front.flatten().len() && front.flatten()[p] == x;
                assert(flat[p] == x);
            } else {
                let p = choose|p: int| 0 <= p < last.len() && last[p] == x;
                assert(flat[front.flatten().len() + p] == x);
            }
        }
    }
}

/// `filter_map` keeps exactly the images of the elements that have one.
pub proof fn lemma_filter_map_contains_iff<A, B>(s: Seq<A>, f: spec_fn(A) -> Option<B>, b: B)
    ensures
        s.filter_map(f).contains(b) <==> exists|k: int|
            0 <= k < s.len() && f(#[trigger] s[k]) == Some(b),
    decreases s.len(),
{
    if s.len() == 0 {
    } else {
        let front = s.drop_last();
        let kept = front.filter_map(f);
        let all = s.filter_map(f);
        lemma_filter_map_contains_iff(front, f, b);
        if all.contains(b) {
            let p = choose|p: int| 0 <= p < all.len() && all[p] == b;
            if p < kept.len() {
                assert(kept[p] == b);
                assert(kept.contains(b));
                let k = choose|k: int| 0 <= k < front.len() && f(#[trigger] front[k]) == Some(b);
                assert(f(s[k]) == Some(b));
            } else {
                assert(f(s[s.len() - 1]) == Some(b));
            }
        }
        if exists|k: int| 0 <= k < s.len() && f(#[trigger] s[k]) == Some(b) {
            let k = choose|k: int| 0 <= k < s.len() && f(#[trigger] s[k]) == Some(b);
            if k < front.len() {
                assert(f(front[k]) == Some(b));
                let p = choose|p: int| 0 <= p < kept.len() && kept[p] == b;
                assert(all[p] == b);
            } else {
                assert(all[all.len() - 1] == b);
            }
        }
    }
}

/// `filter_map` yields no value twice where no two elements share an image.
pub proof fn lemma_filter_map_no_duplicates<A, B>(s: Seq<A>, f: spec_fn(A) -> Option<B>)
    requires
        forall|a: int, b: int|
            0 <= a < b < s.len() && f(#[trigger] s[a]) is Some ==> f(s[a]) != f(#[trigger] s[b]),
    ensures
        s.filter_map(f).no_duplicates(),
    decreases s.len(),
{
    if s.len() == 0 {
    } else {
        let front = s.drop_last();
        let kept = front.filter_map(f);
        assert forall|a: int, b: int|
            0 <= a < b < front.len() && f(#[trigger] front[a]) is Some implies f(front[a]) != f(
            #[trigger] front[b],
        ) by {
            assert(front[a] == s[a] && front[b] == s[b]);
        }
        lemma_filter_map_no_duplicates(front, f);
        match f(s.last()) {
            Some(image) => {
                if kept.contains(image) {
                    lemma_filter_map_contains_iff(front, f, image);
                    let k = choose|k: int|
                        0 <= k < front.len() && f(#[trigger] front[k]) == Some(image);
                    assert(front[k] == s[k]);
                    assert(f(s[k]) != f(s[s.len() - 1]));
                }
                assert forall|i: int, j: int|
                    0 <= i < kept.len() && 0 <= j < seq![image].len() implies kept[i]
                    != seq![image][j] by {
                    assert(kept.contains(kept[i]));
                }
                vstd::seq_lib::lemma_no_dup_in_concat(kept, seq![image]);
            },
            None => {},
        }
    }
}

/// Parts without a value twice that share no value flatten to a sequence
/// without a value twice.
pub proof fn lemma_flatten_no_duplicates<T>(parts: Seq<Seq<T>>)
    requires
        forall|k: int| 0 <= k < parts.len() ==> (#[trigger] parts[k]).no_duplicates(),
        forall|i: int, j: int, x: T|
            #![trigger parts[i].contains(x), parts[j].contains(x)]
            0 <= i < j < parts.len() && parts[i].contains(x) ==> !parts[j].contains(x),
    ensures
        parts.flatten().no_duplicates(),
    decreases parts.len(),
{
    if parts.len() == 0 {
        assert(parts.flatten() =~= Seq::<T>::empty());
    } else {
        let front = parts.drop_last();
        let last = parts.last();
        assert(parts =~= front.push(last));
        front.lemma_flatten_push(last);
        assert forall|k: int| 0 <= k < front.len() implies (
        #[trigger] front[k]).no_duplicates() by {
            assert(front[k] == parts[k]);
        }
        assert forall|i: int, j: int, x: T|
            #![trigger front[i].contains(x), front[j].contains(x)]
            0 <= i < j < front.len() && front[i].contains(x) implies !front[j].contains(x) by {
            assert(front[i] == parts[i] && front[j] == parts[j]);
            assert(parts[i].contains(x) ==> !parts[j].contains(x));
        }
        lemma_flatten_no_duplicates(front);
        let flat = front.flatten();
        assert forall|i: int, j: int| 0 <= i < flat.len() && 0 <= j < last.len() implies flat[i]
            != last[j] by {
            if flat[i] == last[j] {
                assert(flat.contains(last[j]));
                lemma_flatten_contains(front, last[j]);
                let k = choose|k: int|
                    0 <= k < front.len() && (#[trigger] front[k]).contains(last[j]);
                assert(parts[k].contains(last[j]));
                assert(parts[parts.len() - 1].contains(last[j]));
            }
        }
        assert(parts[parts.len() - 1].no_duplicates());
        vstd::seq_lib::lemma_no_dup_in_concat(flat, last);
    }
}

} // verus!
