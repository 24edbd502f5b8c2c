//! Lists of identifiers that stand for sets: every identifier occurs at most
//! once and the order is the order of insertion.
use vstd::prelude::*;

verus! {

/// Position of the first entry of `ids` that equals `id`.
pub open spec fn first_index(ids: Seq<Seq<char>>, id: Seq<char>) -> int
    decreases ids.len(),
{
    if ids.len() == 0 {
        0
    } else if ids[0] == id {
        0
    } else {
        1 + first_index(ids.drop_first(), id)
    }
}

/// `ids` with `id` appended unless it is already there.
pub open spec fn with_id(ids: Seq<Seq<char>>, id: Seq<char>) -> Seq<Seq<char>> {
    if ids.contains(id) {
        ids
    } else {
        ids.push(id)
    }
}

/// `ids` without the first entry that equals `id`.
pub open spec fn without_id(ids: Seq<Seq<char>>, id: Seq<char>) -> Seq<Seq<char>> {
    if ids.contains(id) {
        ids.remove(first_index(ids, id))
    } else {
        ids
    }
}

/// `first_index` is in range and points at `id` exactly when `id` occurs;
/// nothing before it equals `id`.
pub proof fn lemma_first_index(ids: Seq<Seq<char>>, id: Seq<char>)
    ensures
        0 <= first_index(ids, id) <= ids.len(),
        ids.contains(id) <==> first_index(ids, id) < ids.len(),
        ids.contains(id) ==> ids[first_index(ids, id)] == id,
        forall|j: int| 0 <= j < first_index(ids, id) ==> ids[j] != id,
    decreases ids.len(),
{
    if ids.len() == 0 {
    } else if ids[0] == id {
        assert(ids.contains(id));
    } else {
        let rest = ids.drop_first();
        lemma_first_index(rest, id);
        if rest.contains(id) {
            let k = choose|k: int| 0 <= k < rest.len() && rest[k] == id;
            assert(ids[k + 1] == id);
        }
        if ids.contains(id) {
            let k = choose|k: int| 0 <= k < ids.len() && ids[k] == id;
            assert(rest[k - 1] == id);
        }
        assert forall|j: int| 0 <= j < first_index(ids, id) implies ids[j] != id by {
            if j > 0 {
                assert(ids[j] == rest[j - 1]);
            }
        }
    }
}

/// An entry equal to `id` with none before it is the one that `first_index`
/// points at.
pub proof fn lemma_first_at(ids: Seq<Seq<char>>, id: Seq<char>, at: int)
    requires
        0 <= at < ids.len(),
        ids[at] == id,
        forall|j: int| 0 <= j < at ==> ids[j] != id,
    ensures
        ids.contains(id),
        first_index(ids, id) == at,
{
    lemma_first_index(ids, id);
    assert(ids.contains(id));
}

/// Adding an identifier keeps a list free of duplicates.
pub proof fn lemma_with_id_distinct(ids: Seq<Seq<char>>, id: Seq<char>)
    requires
        ids.no_duplicates(),
    ensures
        with_id(ids, id).no_duplicates(),
        with_id(ids, id).contains(id),
        forall|x: Seq<char>| #[trigger] with_id(ids, id).contains(x) <==> ids.contains(x) || x == id,
{
    let out = with_id(ids, id);
    if !ids.contains(id) {
        assert(out[ids.len() as int] == id);
        assert forall|x: Seq<char>| #[trigger] out.contains(x) <==> ids.contains(x) || x == id by {
            if out.contains(x) {
                let k = choose|k: int| 0 <= k < out.len() && out[k] == x;
                if k < ids.len() {
                    assert(ids[k] == x);
                }
            }
            if ids.contains(x) {
                let k = choose|k: int| 0 <= k < ids.len() && ids[k] == x;
                assert(out[k] == x);
            }
        }
    }
}

/// The entries of `a` that `b` does not hold, in the order of `a`.
pub open spec fn minus(a: Seq<Seq<char>>, b: Seq<Seq<char>>) -> Seq<Seq<char>>
    decreases a.len(),
{
    if a.len() == 0 {
        Seq::empty()
    } else if b.contains(a.last()) {
        minus(a.drop_last(), b)
    } else {
        minus(a.drop_last(), b).push(a.last())
    }
}

/// The entries of `a` that `b` holds too, in the order of `a`.
pub open spec fn common(a: Seq<Seq<char>>, b: Seq<Seq<char>>) -> Seq<Seq<char>>
    decreases a.len(),
{
    if a.len() == 0 {
        Seq::empty()
    } else if b.contains(a.last()) {
        common(a.drop_last(), b).push(a.last())
    } else {
        common(a.drop_last(), b)
    }
}

/// Is every entry of `a` an entry of `b`?
pub open spec fn within(a: Seq<Seq<char>>, b: Seq<Seq<char>>) -> bool {
    forall|x: Seq<char>| a.contains(x) ==> b.contains(x)
}

/// `minus(a, b)` holds `x` exactly when `a` holds it and `b` does not.
pub proof fn lemma_minus_holds(a: Seq<Seq<char>>, b: Seq<Seq<char>>, x: Seq<char>)
    ensures
        minus(a, b).contains(x) <==> a.contains(x) && !b.contains(x),
    decreases a.len(),
{
    broadcast use vstd::seq_lib::lemma_seq_contains_after_push;
    if a.len() > 0 {
        let front = a.drop_last();
        lemma_minus_holds(front, b, x);
        assert(a =~= front.push(a.last()));
    }
}

/// `minus(a, b)` holds exactly the entries of `a` outside `b`, once each where
/// `a` holds them once.
pub proof fn lemma_minus(a: Seq<Seq<char>>, b: Seq<Seq<char>>)
    ensures
        forall|x: Seq<char>| #[trigger] minus(a, b).contains(x) <==> a.contains(x) && !b.contains(x),
        minus(a, b).len() <= a.len(),
        a.no_duplicates() ==> minus(a, b).no_duplicates(),
    decreases a.len(),
{
    assert forall|x: Seq<char>| #[trigger] minus(a, b).contains(x) <==> a.contains(x) && !b.contains(x) by {
        lemma_minus_holds(a, b, x);
    }
    if a.len() > 0 {
        let front = a.drop_last();
        let last = a.last();
        lemma_minus(front, b);
        if a.no_duplicates() {
            assert(front.no_duplicates());
            if !b.contains(last) {
                lemma_minus_holds(front, b, last);
                assert(!front.contains(last)) by {
                    if front.contains(last) {
                        let m = choose|m: int| 0 <= m < front.len() && front[m] == last;
                        assert(a[m] == a[a.len() - 1]);
                    }
                }
            }
        }
    }
}

/// Removing a duplicate-free part of a duplicate-free list shortens it by the
/// length of that part.
pub proof fn lemma_minus_len(a: Seq<Seq<char>>, b: Seq<Seq<char>>)
    requires
        a.no_duplicates(),
        b.no_duplicates(),
        within(b, a),
    ensures
        minus(a, b).len() == a.len() - b.len(),
{
    broadcast use vstd::seq_lib::seq_to_set_is_finite;
    lemma_minus(a, b);
    let rest = minus(a, b);
    a.unique_seq_to_set();
    b.unique_seq_to_set();
    rest.unique_seq_to_set();
    assert(rest.to_set().disjoint(b.to_set()));
    assert(rest.to_set() + b.to_set() =~= a.to_set());
    vstd::set_lib::lemma_set_disjoint_lens(rest.to_set(), b.to_set());
}

/// A duplicate-free list inside another of the same length holds all of it.
pub proof fn lemma_within_same_len(a: Seq<Seq<char>>, b: Seq<Seq<char>>)
    requires
        a.no_duplicates(),
        b.no_duplicates(),
        within(a, b),
        a.len() == b.len(),
    ensures
        within(b, a),
{
    broadcast use vstd::seq_lib::seq_to_set_is_finite;
    a.unique_seq_to_set();
    b.unique_seq_to_set();
    assert(a.to_set().subset_of(b.to_set()));
    vstd::set_lib::lemma_subset_equality(a.to_set(), b.to_set());
    assert forall|x: Seq<char>| b.contains(x) implies a.contains(x) by {
        assert(b.to_set().contains(x));
        assert(a.to_set().contains(x));
    }
}

/// Does `ids` hold `id`?
pub fn contains_id(ids: &Vec<String>, id: &String) -> (found: bool)
    ensures
        found == ids.deep_view().contains(id@),
{
    let mut i: usize = 0;
    while i < ids.len()
        invariant
            i <= ids.len(),
            forall|j: int| 0 <= j < i ==> ids.deep_view()[j] != id@,
        decreases ids.len() - i,
    {
        if ids[i] == *id {
            assert(ids.deep_view()[i as int] == id@);
            return true;
        }
        i += 1;
    }
    false
}

/// Appends a copy of `id` unless the list holds it; says whether it was new.
pub fn insert_id(ids: &mut Vec<String>, id: &String) -> (added: bool)
    ensures
        added == !old(ids).deep_view().contains(id@),
        final(ids).deep_view() == with_id(old(ids).deep_view(), id@),
{
    if contains_id(ids, id) {
        false
    } else {
        ids.push(id.clone());
        assert(ids.deep_view() =~= old(ids).deep_view().push(id@));
        true
    }
}

/// Removes `id` from the list; says whether it was there.
pub fn remove_id(ids: &mut Vec<String>, id: &String) -> (removed: bool)
    ensures
        removed == old(ids).deep_view().contains(id@),
        final(ids).deep_view() == without_id(old(ids).deep_view(), id@),
{
    let mut i: usize = 0;
    while i < ids.len()
        invariant
            i <= ids.len(),
            ids == old(ids),
            forall|j: int| 0 <= j < i ==> ids.deep_view()[j] != id@,
        decreases ids.len() - i,
    {
        if ids[i] == *id {
            proof {
                lemma_first_index(ids.deep_view(), id@);
                assert(ids.deep_view()[i as int] == id@);
                assert(first_index(ids.deep_view(), id@) == i);
            }
            ids.remove(i);
            assert(ids.deep_view() =~= old(ids).deep_view().remove(i as int));
            return true;
        }
        i += 1;
    }
    false
}

/// The entries of `a` that `b` does not hold.
pub fn minus_ids(a: &Vec<String>, b: &Vec<String>) -> (out: Vec<String>)
    ensures
        out.deep_view() == minus(a.deep_view(), b.deep_view()),
{
    let mut out: Vec<String> = Vec::new();
    let mut i: usize = 0;
    assert(a.deep_view().take(0) =~= Seq::empty());
    while i < a.len()
        invariant
            i <= a.len(),
            out.deep_view() == minus(a.deep_view().take(i as int), b.deep_view()),
        decreases a.len() - i,
    {
        let ghost before = out.deep_view();
        assert(a.deep_view().take(i + 1).drop_last() =~= a.deep_view().take(i as int));
        assert(a.deep_view().take(i + 1).last() == a[i as int]@);
        if !contains_id(b, &a[i]) {
            out.push(a[i].clone());
            assert(out.deep_view() =~= before.push(a[i as int]@));
        }
        i += 1;
    }
    assert(a.deep_view().take(a.len() as int) =~= a.deep_view());
    out
}

/// The entries of `a` that `b` holds too.
pub fn common_ids(a: &Vec<String>, b: &Vec<String>) -> (out: Vec<String>)
    ensures
        out.deep_view() == common(a.deep_view(), b.deep_view()),
{
    let mut out: Vec<String> = Vec::new();
    let mut i: usize = 0;
    assert(a.deep_view().take(0) =~= Seq::empty());
    while i < a.len()
        invariant
            i <= a.len(),
            out.deep_view() == common(a.deep_view().take(i as int), b.deep_view()),
        decreases a.len() - i,
    {
        let ghost before = out.deep_view();
        assert(a.deep_view().take(i + 1).drop_last() =~= a.deep_view().take(i as int));
        assert(a.deep_view().take(i + 1).last() == a[i as int]@);
        if contains_id(b, &a[i]) {
            out.push(a[i].clone());
            assert(out.deep_view() =~= before.push(a[i as int]@));
        }
        i += 1;
    }
    assert(a.deep_view().take(a.len() as int) =~= a.deep_view());
    out
}

} // verus!
