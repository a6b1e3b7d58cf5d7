use vstd::prelude::*;

use crate::render::line_of;
use crate::store::StoreWrite;
use crate::todo::{
    added, all_in_range, edited, fresh, in_range, inserts, kept, listed, mark_writes, marked, rewrite, survivors,
};

verus! {

/// How many of the indexes `1..=n` occur in `idxs`.
pub open spec fn removed_count(n: nat, idxs: Seq<usize>) -> nat
    decreases n,
{
    if n == 0 {
        0
    } else if idxs.contains(n as usize) {
        removed_count((n - 1) as nat, idxs) + 1
    } else {
        removed_count((n - 1) as nat, idxs)
    }
}

/// Keeping the texts of two lists one after the other keeps those of each.
pub proof fn lemma_kept_concat(a: Seq<Seq<char>>, b: Seq<Seq<char>>)
    ensures
        kept(a + b) == kept(a) + kept(b),
    decreases b.len(),
{
    if b.len() == 0 {
        assert(a + b =~= a);
        assert(kept(b) =~= Seq::<Seq<char>>::empty());
        assert(kept(a) + kept(b) =~= kept(a));
    } else {
        lemma_kept_concat(a, b.drop_last());
        assert((a + b).drop_last() =~= a + b.drop_last());
        assert((a + b).last() == b.last());
        if !crate::render::is_blank(b.last()) {
            assert(kept(a) + kept(b.drop_last()).push(b.last()) =~= (kept(a) + kept(b.drop_last())).push(b.last()));
        }
    }
}

/// Adding `a` and then `b` gives the list that adding `a` followed by `b` at
/// once gives: ids keep counting on across calls.
pub proof fn lemma_add_twice(v: Seq<(Seq<char>, bool)>, a: Seq<Seq<char>>, b: Seq<Seq<char>>)
    ensures
        added(added(v, a), b) == added(v, a + b),
{
    lemma_kept_concat(a, b);
    let f = |t: Seq<char>| (t, false);
    assert(kept(a + b).map_values(f) =~= kept(a).map_values(f) + kept(b).map_values(f));
    assert(added(added(v, a), b) =~= added(v, a + b));
}

/// After adding texts to a list, a listing shows every kept text as a pending
/// task, numbered on from the list's length in the order added: starting
/// from an empty list, the lines are exactly `1..=N`.
pub proof fn lemma_add_then_list(
    v: Seq<(Seq<char>, bool)>,
    texts: Seq<Seq<char>>,
    lines: Seq<Seq<char>>,
)
    requires
        listed(added(v, texts), lines),
    ensures
        lines.len() == v.len() + kept(texts).len(),
        forall|k: int|
            0 <= k < kept(texts).len() ==> #[trigger] lines[v.len() + k] == line_of(
                (v.len() + k + 1) as nat,
                kept(texts)[k],
            ),
{
    let w = added(v, texts);
    assert forall|k: int| 0 <= k < kept(texts).len() implies #[trigger] lines[v.len() + k] == line_of(
        (v.len() + k + 1) as nat,
        kept(texts)[k],
    ) by {
        assert(w[v.len() + k] == (kept(texts)[k], false));
    }
}

/// Two listings of one list agree line for line, up to how the struck-out
/// text of a done task is styled.
pub proof fn lemma_list_stable(v: Seq<(Seq<char>, bool)>, a: Seq<Seq<char>>, b: Seq<Seq<char>>)
    requires
        listed(v, a),
        listed(v, b),
    ensures
        a.len() == b.len(),
        forall|i: int| 0 <= i < v.len() && !v[i].1 ==> #[trigger] a[i] == b[i],
{
}

/// Removing keeps one task for each index of `1..=n` that `idxs` does not
/// name, so the survivors, numbered from 1, run to `n - removed`.
pub proof fn lemma_remove_count(v: Seq<(Seq<char>, bool)>, idxs: Seq<usize>)
    ensures
        survivors(v, idxs).len() + removed_count(v.len(), idxs) == v.len(),
    decreases v.len(),
{
    if v.len() > 0 {
        lemma_remove_count(v.drop_last(), idxs);
    }
}

/// `pos` picks out `s` from `v` at strictly increasing positions.
pub open spec fn picks(pos: Seq<int>, v: Seq<(Seq<char>, bool)>, s: Seq<(Seq<char>, bool)>) -> bool {
    &&& pos.len() == s.len()
    &&& forall|k: int| 0 <= k < pos.len() ==> 0 <= #[trigger] pos[k] < v.len() && v[pos[k]] == s[k]
    &&& forall|k: int, m: int| 0 <= k < m < pos.len() ==> #[trigger] pos[k] < #[trigger] pos[m]
}

/// Every survivor of a removal is a task of the list before, in the same
/// relative order.
pub proof fn lemma_remove_keeps_order(v: Seq<(Seq<char>, bool)>, idxs: Seq<usize>)
    ensures
        exists|pos: Seq<int>| #[trigger] picks(pos, v, survivors(v, idxs)),
    decreases v.len(),
{
    if v.len() == 0 {
        assert(picks(Seq::<int>::empty(), v, survivors(v, idxs)));
    } else {
        let w = v.drop_last();
        lemma_remove_keeps_order(w, idxs);
        let pos = choose|pos: Seq<int>| #[trigger] picks(pos, w, survivors(w, idxs));
        if idxs.contains(v.len() as usize) {
            assert(picks(pos, v, survivors(v, idxs)));
        } else {
            let p2 = pos.push(v.len() - 1);
            assert(picks(p2, v, survivors(v, idxs)));
        }
    }
}

/// A done flag, once set, stays set: marking, editing and adding leave every
/// existing task that is done still done, and removing only drops tasks.
pub proof fn lemma_done_monotone(
    v: Seq<(Seq<char>, bool)>,
    idxs: Seq<usize>,
    index: usize,
    text: Seq<char>,
    texts: Seq<Seq<char>>,
    k: int,
)
    requires
        0 <= k < v.len(),
        v[k].1,
    ensures
        marked(v, idxs)[k].1,
        in_range(index, v.len()) ==> edited(v, index, text)[k].1,
        added(v, texts)[k].1,
{
}

/// The rows that hold `v`: row `k` has id `k + 1`.
pub open spec fn rows_of(v: Seq<(Seq<char>, bool)>) -> Seq<(nat, Seq<char>, bool)> {
    Seq::new(v.len(), |k: int| ((k + 1) as nat, v[k].0, v[k].1))
}

/// The table, in id order, after one write. Transaction boundaries leave
/// the rows as they are.
pub open spec fn apply_write(t: Seq<(nat, Seq<char>, bool)>, w: StoreWrite) -> Seq<(nat, Seq<char>, bool)> {
    match w {
        StoreWrite::DeleteAll => Seq::empty(),
        StoreWrite::Insert(id, text, done) => t.push((id, text, done)),
        StoreWrite::Update(id, text, done) => Seq::new(
            t.len(),
            |k: int| if t[k].0 == id { (id, text, done) } else { t[k] },
        ),
        _ => t,
    }
}

/// The table after the writes `ws`, in order, when every write succeeds.
pub open spec fn table_after(t: Seq<(nat, Seq<char>, bool)>, ws: Seq<StoreWrite>) -> Seq<(nat, Seq<char>, bool)>
    decreases ws.len(),
{
    if ws.len() == 0 {
        t
    } else {
        apply_write(table_after(t, ws.drop_last()), ws.last())
    }
}

/// Writing `a` and then `b` is writing `a + b`.
pub proof fn lemma_table_concat(t: Seq<(nat, Seq<char>, bool)>, a: Seq<StoreWrite>, b: Seq<StoreWrite>)
    ensures
        table_after(t, a + b) == table_after(table_after(t, a), b),
    decreases b.len(),
{
    if b.len() == 0 {
        assert(a + b =~= a);
    } else {
        lemma_table_concat(t, a, b.drop_last());
        assert((a + b).drop_last() =~= a + b.drop_last());
    }
}

proof fn lemma_table_inserts(t: Seq<(nat, Seq<char>, bool)>, start: nat, v: Seq<(Seq<char>, bool)>)
    ensures
        table_after(t, inserts(start, v)) =~= t + Seq::new(
            v.len(),
            |k: int| ((start + k + 1) as nat, v[k].0, v[k].1),
        ),
    decreases v.len(),
{
    if v.len() > 0 {
        lemma_table_inserts(t, start, v.drop_last());
        assert(inserts(start, v).drop_last() =~= inserts(start, v.drop_last()));
    }
}

/// The rows that adding `texts` writes, put after the rows of `v`, are the
/// rows of the list that `add` leaves: a reload numbers them on from `v`.
pub proof fn lemma_add_rows(v: Seq<(Seq<char>, bool)>, texts: Seq<Seq<char>>)
    ensures
        table_after(rows_of(v), inserts(v.len(), fresh(texts))) == rows_of(added(v, texts)),
{
    lemma_table_inserts(rows_of(v), v.len(), fresh(texts));
    assert(table_after(rows_of(v), inserts(v.len(), fresh(texts))) =~= rows_of(added(v, texts)));
}

/// Whatever the table held, the writes of a removal leave exactly the
/// survivors, with ids `1..=n` and no gap.
pub proof fn lemma_remove_rows(t: Seq<(nat, Seq<char>, bool)>, v: Seq<(Seq<char>, bool)>, idxs: Seq<usize>)
    ensures
        table_after(t, rewrite(survivors(v, idxs))) == rows_of(survivors(v, idxs)),
{
    let s = survivors(v, idxs);
    let head = seq![StoreWrite::Begin, StoreWrite::DeleteAll];
    lemma_table_concat(t, head + inserts(0, s), seq![StoreWrite::Commit]);
    lemma_table_concat(t, head, inserts(0, s));
    assert(head.drop_last() =~= seq![StoreWrite::Begin]);
    assert(seq![StoreWrite::Begin].drop_last() =~= Seq::<StoreWrite>::empty());
    assert(table_after(t, head) =~= Seq::empty());
    lemma_table_inserts(Seq::empty(), 0, s);
    let x = table_after(t, head + inserts(0, s));
    assert(x =~= rows_of(s));
    assert(seq![StoreWrite::Commit].drop_last() =~= Seq::<StoreWrite>::empty());
    assert(table_after(x, seq![StoreWrite::Commit].drop_last()) == x);
    assert(table_after(x, seq![StoreWrite::Commit]) == x);
    assert(rewrite(s) =~= head + inserts(0, s) + seq![StoreWrite::Commit]);
}

/// The update that an edit writes turns the rows of `v` into those of the
/// edited list.
pub proof fn lemma_edit_rows(v: Seq<(Seq<char>, bool)>, index: usize, text: Seq<char>)
    requires
        in_range(index, v.len()),
    ensures
        table_after(rows_of(v), seq![StoreWrite::Update(index as nat, text, v[index - 1].1)])
            == rows_of(edited(v, index, text)),
{
    let w = seq![StoreWrite::Update(index as nat, text, v[index - 1].1)];
    assert(w.drop_last() =~= Seq::<StoreWrite>::empty());
    assert(table_after(rows_of(v), w.drop_last()) == rows_of(v));
    assert(table_after(rows_of(v), w) =~= rows_of(edited(v, index, text)));
}

/// The updates that marking writes turn the rows of `v` into those of the
/// marked list; writing them again changes nothing more.
pub proof fn lemma_done_rows(v: Seq<(Seq<char>, bool)>, idxs: Seq<usize>)
    requires
        all_in_range(idxs, v.len()),
        v.len() <= usize::MAX,
    ensures
        table_after(rows_of(v), mark_writes(v, idxs)) == rows_of(marked(v, idxs)),
    decreases idxs.len(),
{
    if idxs.len() > 0 {
        let p = idxs.drop_last();
        assert(all_in_range(p, v.len())) by {
            assert forall|k: int| 0 <= k < p.len() implies in_range(#[trigger] p[k], v.len()) by {
                assert(p[k] == idxs[k]);
            }
        }
        lemma_done_rows(v, p);
        assert(mark_writes(v, idxs).drop_last() =~= mark_writes(v, p));
        let x = idxs.last();
        assert(mark_writes(v, idxs).last() == StoreWrite::Update(x as nat, v[x - 1].0, true));
        assert(in_range(idxs[idxs.len() - 1], v.len()));
        assert forall|k: int| 0 <= k < v.len() implies #[trigger] marked(v, idxs)[k] == (if (k + 1) as usize == x {
            (v[k].0, true)
        } else {
            marked(v, p)[k]
        }) by {
            if idxs.contains((k + 1) as usize) && (k + 1) as usize != x {
                let m = choose|m: int| 0 <= m < idxs.len() && idxs[m] == (k + 1) as usize;
                assert(p[m] == idxs[m]);
            }
            if p.contains((k + 1) as usize) {
                let m = choose|m: int| 0 <= m < p.len() && p[m] == (k + 1) as usize;
                assert(idxs[m] == p[m]);
            }
            if (k + 1) as usize == x {
                assert(idxs[idxs.len() - 1] == x);
            }
        }
        assert(table_after(rows_of(v), mark_writes(v, idxs)) =~= rows_of(marked(v, idxs)));
    } else {
        assert(rows_of(marked(v, idxs)) =~= rows_of(v));
    }
}

} // verus!
