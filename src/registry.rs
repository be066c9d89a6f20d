use vstd::prelude::*;
use crate::ledger::{AccountId, EscrowId};

verus! {

/// The number of entries of `s` that belong to escrow `id`.
pub open spec fn handler_count(s: Seq<(EscrowId, AccountId)>, id: EscrowId) -> nat
    decreases s.len(),
{
    if s.len() == 0 {
        0
    } else {
        handler_count(s.drop_last(), id) + if s.last().0 == id {
            1nat
        } else {
            0nat
        }
    }
}

/// `s` without the entries that belong to escrow `id`, in the same order.
pub open spec fn without_escrow(s: Seq<(EscrowId, AccountId)>, id: EscrowId) -> Seq<
    (EscrowId, AccountId),
>
    decreases s.len(),
{
    if s.len() == 0 {
        s
    } else if s.last().0 == id {
        without_escrow(s.drop_last(), id)
    } else {
        without_escrow(s.drop_last(), id).push(s.last())
    }
}

/// `s` after trusting each of `hs` for escrow `id` in turn: an entry is appended only
/// where it is not there yet.
pub open spec fn with_handlers(s: Seq<(EscrowId, AccountId)>, id: EscrowId, hs: Seq<AccountId>) -> Seq<
    (EscrowId, AccountId),
>
    decreases hs.len(),
{
    if hs.len() == 0 {
        s
    } else {
        let t = with_handlers(s, id, hs.drop_last());
        if t.contains((id, hs.last())) {
            t
        } else {
            t.push((id, hs.last()))
        }
    }
}

proof fn lemma_push_contains<A>(s: Seq<A>, x: A, y: A)
    ensures
        s.push(x).contains(y) <==> (s.contains(y) || y == x),
{
    if s.contains(y) {
        let i = choose|i: int| 0 <= i < s.len() && s[i] == y;
        assert(s.push(x)[i] == y);
    }
    if y == x {
        assert(s.push(x)[s.len() as int] == y);
    }
    if s.push(x).contains(y) {
        let i = choose|i: int| 0 <= i < s.len() + 1 && s.push(x)[i] == y;
        if i < s.len() {
            assert(s[i] == y);
        }
    }
}

proof fn lemma_drop_last_contains<A>(s: Seq<A>, y: A)
    requires
        s.len() > 0,
    ensures
        s.contains(y) <==> (s.drop_last().contains(y) || s.last() == y),
{
    assert(s =~= s.drop_last().push(s.last()));
    lemma_push_contains(s.drop_last(), s.last(), y);
}

/// After trusting `hs`, exactly the old entries and those of `hs` for `id` are present.
pub proof fn lemma_with_handlers_contains(
    s: Seq<(EscrowId, AccountId)>,
    id: EscrowId,
    hs: Seq<AccountId>,
    p: (EscrowId, AccountId),
)
    ensures
        with_handlers(s, id, hs).contains(p) <==> (s.contains(p) || (p.0 == id && hs.contains(p.1))),
    decreases hs.len(),
{
    if hs.len() > 0 {
        lemma_with_handlers_contains(s, id, hs.drop_last(), p);
        lemma_push_contains(with_handlers(s, id, hs.drop_last()), (id, hs.last()), p);
        lemma_drop_last_contains(hs, p.1);
    }
}

/// Trusting principals that are trusted already leaves the registry as it was.
pub proof fn lemma_with_handlers_present(s: Seq<(EscrowId, AccountId)>, id: EscrowId, hs: Seq<AccountId>)
    requires
        forall|k: int| 0 <= k < hs.len() ==> s.contains((id, #[trigger] hs[k])),
    ensures
        with_handlers(s, id, hs) == s,
    decreases hs.len(),
{
    if hs.len() > 0 {
        assert(forall|k: int| 0 <= k < hs.drop_last().len() ==> hs.drop_last()[k] == hs[k]);
        lemma_with_handlers_present(s, id, hs.drop_last());
        assert(s.contains((id, hs[hs.len() - 1])));
    }
}

/// Removing the entries of `id` keeps exactly the entries of the other escrows.
pub proof fn lemma_without_escrow_contains(s: Seq<(EscrowId, AccountId)>, id: EscrowId, p: (EscrowId, AccountId))
    ensures
        without_escrow(s, id).contains(p) <==> (s.contains(p) && p.0 != id),
    decreases s.len(),
{
    if s.len() > 0 {
        lemma_without_escrow_contains(s.drop_last(), id, p);
        lemma_drop_last_contains(s, p);
        lemma_push_contains(without_escrow(s.drop_last(), id), s.last(), p);
    }
}

/// Whether `r` holds the entry `(id, a)`.
pub fn registry_contains(r: &Vec<(EscrowId, AccountId)>, id: EscrowId, a: AccountId) -> (b: bool)
    ensures
        b == r@.contains((id, a)),
{
    let mut i: usize = 0;
    while i < r.len()
        invariant
            i <= r@.len(),
            forall|j: int| 0 <= j < i ==> r@[j] != (id, a),
        decreases r@.len() - i,
    {
        if r[i].0 == id && r[i].1 == a {
            assert(r@[i as int] == (id, a));
            return true;
        }
        i = i + 1;
    }
    false
}

/// Trusts each of `hs` for escrow `id`, adding only entries that are not there yet.
pub fn registry_add(r: &mut Vec<(EscrowId, AccountId)>, id: EscrowId, hs: &Vec<AccountId>)
    ensures
        final(r)@ == with_handlers(old(r)@, id, hs@),
{
    let mut i: usize = 0;
    while i < hs.len()
        invariant
            i <= hs@.len(),
            r@ == with_handlers(old(r)@, id, hs@.take(i as int)),
        decreases hs@.len() - i,
    {
        proof {
            assert(hs@.take(i + 1).drop_last() =~= hs@.take(i as int));
        }
        let h = hs[i];
        if !registry_contains(r, id, h) {
            r.push((id, h));
        }
        i = i + 1;
    }
    assert(hs@.take(i as int) =~= hs@);
}

/// The number of entries of `r` that belong to escrow `id`.
pub fn registry_count(r: &Vec<(EscrowId, AccountId)>, id: EscrowId) -> (c: usize)
    ensures
        c == handler_count(r@, id),
{
    let mut c: usize = 0;
    let mut i: usize = 0;
    while i < r.len()
        invariant
            i <= r@.len(),
            c == handler_count(r@.take(i as int), id),
            c <= i,
        decreases r@.len() - i,
    {
        assert(r@.take(i + 1).drop_last() =~= r@.take(i as int));
        if r[i].0 == id {
            c = c + 1;
        }
        i = i + 1;
    }
    assert(r@.take(i as int) =~= r@);
    c
}

/// `r` without the entries that belong to escrow `id`.
pub fn registry_without(r: &Vec<(EscrowId, AccountId)>, id: EscrowId) -> (out: Vec<(EscrowId, AccountId)>)
    ensures
        out@ == without_escrow(r@, id),
{
    let mut out: Vec<(EscrowId, AccountId)> = Vec::new();
    let mut i: usize = 0;
    while i < r.len()
        invariant
            i <= r@.len(),
            out@ == without_escrow(r@.take(i as int), id),
        decreases r@.len() - i,
    {
        assert(r@.take(i + 1).drop_last() =~= r@.take(i as int));
        if r[i].0 != id {
            out.push(r[i]);
        }
        i = i + 1;
    }
    assert(r@.take(i as int) =~= r@);
    out
}

/// A copy of `r`.
pub fn registry_copy(r: &Vec<(EscrowId, AccountId)>) -> (out: Vec<(EscrowId, AccountId)>)
    ensures
        out@ == r@,
{
    let mut out: Vec<(EscrowId, AccountId)> = Vec::new();
    let mut i: usize = 0;
    while i < r.len()
        invariant
            i <= r@.len(),
            out@ =~= r@.take(i as int),
        decreases r@.len() - i,
    {
        out.push(r[i]);
        i = i + 1;
        assert(out@ =~= r@.take(i as int));
    }
    assert(out@ =~= r@);
    out
}

/// The principals that `s` trusts for escrow `id`.
pub open spec fn principals_of(s: Seq<(EscrowId, AccountId)>, id: EscrowId) -> Set<AccountId> {
    Set::new(|a: AccountId| s.contains((id, a)))
}

proof fn lemma_push_no_dup<A>(t: Seq<A>, x: A)
    requires
        t.no_duplicates(),
        !t.contains(x),
    ensures
        t.push(x).no_duplicates(),
{
    let u = t.push(x);
    assert forall|i: int, j: int| 0 <= i < u.len() && 0 <= j < u.len() && i != j implies u[i] != u[j] by {
        if i == t.len() {
            assert(u[j] == t[j]);
        } else if j == t.len() {
            assert(u[i] == t[i]);
        } else {
            assert(u[i] == t[i] && u[j] == t[j]);
        }
    }
}

proof fn lemma_drop_last_no_dup<A>(s: Seq<A>)
    requires
        s.len() > 0,
        s.no_duplicates(),
    ensures
        s.drop_last().no_duplicates(),
        !s.drop_last().contains(s.last()),
{
    let t = s.drop_last();
    assert forall|i: int, j: int| 0 <= i < t.len() && 0 <= j < t.len() && i != j implies t[i] != t[j] by {
        assert(t[i] == s[i] && t[j] == s[j]);
    }
    if t.contains(s.last()) {
        let k = choose|k: int| 0 <= k < t.len() && t[k] == s.last();
        assert(s[k] == s[s.len() - 1]);
    }
}

/// Trusting principals keeps a registry free of repeated entries.
pub proof fn lemma_with_handlers_no_dup(s: Seq<(EscrowId, AccountId)>, id: EscrowId, hs: Seq<AccountId>)
    requires
        s.no_duplicates(),
    ensures
        with_handlers(s, id, hs).no_duplicates(),
    decreases hs.len(),
{
    if hs.len() > 0 {
        lemma_with_handlers_no_dup(s, id, hs.drop_last());
        let t = with_handlers(s, id, hs.drop_last());
        if !t.contains((id, hs.last())) {
            lemma_push_no_dup(t, (id, hs.last()));
        }
    }
}

/// Removing the entries of one escrow keeps a registry free of repeated entries.
pub proof fn lemma_without_escrow_no_dup(s: Seq<(EscrowId, AccountId)>, id: EscrowId)
    requires
        s.no_duplicates(),
    ensures
        without_escrow(s, id).no_duplicates(),
    decreases s.len(),
{
    if s.len() > 0 {
        lemma_drop_last_no_dup(s);
        lemma_without_escrow_no_dup(s.drop_last(), id);
        if s.last().0 != id {
            lemma_without_escrow_contains(s.drop_last(), id, s.last());
            lemma_push_no_dup(without_escrow(s.drop_last(), id), s.last());
        }
    }
}

/// In a registry free of repeated entries, the entries of escrow `id` are as many as the
/// principals it trusts for `id`.
pub proof fn lemma_count_is_principals(s: Seq<(EscrowId, AccountId)>, id: EscrowId)
    requires
        s.no_duplicates(),
    ensures
        principals_of(s, id).finite(),
        principals_of(s, id).len() == handler_count(s, id),
    decreases s.len(),
{
    if s.len() == 0 {
        assert(principals_of(s, id) =~= Set::<AccountId>::empty());
    } else {
        let t = s.drop_last();
        let x = s.last();
        lemma_drop_last_no_dup(s);
        lemma_count_is_principals(t, id);
        assert forall|a: AccountId| principals_of(s, id).contains(a) <==> (principals_of(t, id).contains(a) || (x.0 == id && x.1 == a)) by {
            lemma_drop_last_contains(s, (id, a));
        }
        if x.0 == id {
            assert(principals_of(s, id) =~= principals_of(t, id).insert(x.1));
            assert(!principals_of(t, id).contains(x.1));
        } else {
            assert(principals_of(s, id) =~= principals_of(t, id));
        }
    }
}

/// After trusting `hs` for `id`, the principals trusted for `id` are the earlier ones and
/// those of `hs`.
pub proof fn lemma_with_handlers_principals(s: Seq<(EscrowId, AccountId)>, id: EscrowId, hs: Seq<AccountId>)
    ensures
        principals_of(with_handlers(s, id, hs), id) == principals_of(s, id) + hs.to_set(),
{
    assert forall|a: AccountId| principals_of(with_handlers(s, id, hs), id).contains(a) <==> (principals_of(s, id) + hs.to_set()).contains(a) by {
        lemma_with_handlers_contains(s, id, hs, (id, a));
    }
    assert(principals_of(with_handlers(s, id, hs), id) =~= principals_of(s, id) + hs.to_set());
}

} // verus!
