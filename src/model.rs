//! The mathematical model of a dependency table and of what the trial-removal
//! engine does to it, with the laws that hold of it.

use vstd::prelude::*;

verus! {

/// One dependency entry: its key, and the text of its definition.
pub type Entry = (Seq<char>, Seq<char>);

/// The entries of `es` whose key is not `k`, in their order.
pub open spec fn without_key(es: Seq<Entry>, k: Seq<char>) -> Seq<Entry>
    decreases es.len(),
{
    if es.len() == 0 {
        es
    } else {
        let rest = without_key(es.drop_last(), k);
        if es.last().0 == k {
            rest
        } else {
            rest.push(es.last())
        }
    }
}

/// The texts of a list of strings.
pub open spec fn views(v: Seq<String>) -> Seq<Seq<char>> {
    v.map_values(|x: String| x@)
}

/// The keys of a table, in order.
pub open spec fn keys_of(es: Seq<Entry>) -> Seq<Seq<char>> {
    es.map_values(|e: Entry| e.0)
}

/// One trial: a valid answer commits the removal of `k`, an invalid one
/// leaves the table as it was.
pub open spec fn decide(cur: Seq<Entry>, k: Seq<char>, valid: bool) -> Seq<Entry> {
    if valid {
        without_key(cur, k)
    } else {
        cur
    }
}

/// The table after trying `keys` in order, where `answers[i]` is the oracle's
/// answer on the trial of `keys[i]`.
pub open spec fn apply_answers(cur: Seq<Entry>, keys: Seq<Seq<char>>, answers: Seq<bool>) -> Seq<
    Entry,
>
    recommends
        keys.len() == answers.len(),
    decreases keys.len(),
{
    if keys.len() == 0 {
        cur
    } else {
        decide(
            apply_answers(cur, keys.drop_last(), answers.drop_last()),
            keys.last(),
            answers.last(),
        )
    }
}

/// The table after trying `keys` in order against an oracle that judges the
/// table it is shown, where each trial shows it the table without the key.
pub open spec fn prune(cur: Seq<Entry>, keys: Seq<Seq<char>>, oracle: spec_fn(Seq<Entry>) -> bool) -> Seq<
    Entry,
>
    decreases keys.len(),
{
    if keys.len() == 0 {
        cur
    } else {
        let c = prune(cur, keys.drop_last(), oracle);
        decide(c, keys.last(), oracle(without_key(c, keys.last())))
    }
}

/// Every entry of `s` is an entry of `t`.
pub open spec fn included(s: Seq<Entry>, t: Seq<Entry>) -> bool {
    forall|x: Entry| s.contains(x) ==> t.contains(x)
}

/// An oracle for which a table with more entries is valid whenever one with
/// fewer is.
pub open spec fn monotone(oracle: spec_fn(Seq<Entry>) -> bool) -> bool {
    forall|s: Seq<Entry>, t: Seq<Entry>| included(s, t) && #[trigger] oracle(s) ==> #[trigger] oracle(t)
}

/// An entry survives the removal of a key exactly when its key is another.
pub proof fn lemma_without_key_contains(es: Seq<Entry>, k: Seq<char>, x: Entry)
    ensures
        without_key(es, k).contains(x) <==> es.contains(x) && x.0 != k,
    decreases es.len(),
{
    if es.len() > 0 {
        let d = es.drop_last();
        lemma_without_key_contains(d, k, x);
        assert(es =~= d.push(es.last()));
        if es.contains(x) && x.0 != k && x != es.last() {
            let i = choose|i: int| 0 <= i < es.len() && es[i] == x;
            assert(d[i] == x);
        }
        if d.contains(x) {
            let i = choose|i: int| 0 <= i < d.len() && d[i] == x;
            assert(es[i] == x);
        }
        let r = without_key(d, k);
        if es.last().0 != k {
            assert(r.push(es.last())[r.len() as int] == es.last());
            if r.push(es.last()).contains(x) && x != es.last() {
                let i = choose|i: int| 0 <= i < r.len() + 1 && r.push(es.last())[i] == x;
                assert(r[i] == x);
            }
            if r.contains(x) {
                let i = choose|i: int| 0 <= i < r.len() && r[i] == x;
                assert(r.push(es.last())[i] == x);
            }
        }
    }
}

/// Removing a key keeps inclusion between tables, and only shrinks a table.
pub proof fn lemma_without_included(s: Seq<Entry>, t: Seq<Entry>, k: Seq<char>)
    requires
        included(s, t),
    ensures
        included(without_key(s, k), without_key(t, k)),
        included(without_key(s, k), s),
{
    assert forall|x: Entry| #[trigger] without_key(s, k).contains(x) implies without_key(
        t,
        k,
    ).contains(x) by {
        lemma_without_key_contains(s, k, x);
        lemma_without_key_contains(t, k, x);
        assert(t.contains(x));
    }
    assert forall|x: Entry| #[trigger] without_key(s, k).contains(x) implies s.contains(x) by {
        lemma_without_key_contains(s, k, x);
    }
}

/// Pruning only removes entries.
pub proof fn lemma_prune_included(cur: Seq<Entry>, keys: Seq<Seq<char>>, oracle: spec_fn(Seq<Entry>) -> bool)
    ensures
        included(prune(cur, keys, oracle), cur),
    decreases keys.len(),
{
    if keys.len() > 0 {
        let c = prune(cur, keys.drop_last(), oracle);
        lemma_prune_included(cur, keys.drop_last(), oracle);
        lemma_without_included(c, c, keys.last());
    }
}

/// An entry that survives pruning against a monotone oracle could not be
/// removed from the pruned table either.
pub proof fn lemma_kept_is_required(
    cur: Seq<Entry>,
    keys: Seq<Seq<char>>,
    oracle: spec_fn(Seq<Entry>) -> bool,
    e: Entry,
)
    requires
        monotone(oracle),
        prune(cur, keys, oracle).contains(e),
        keys.contains(e.0),
    ensures
        !oracle(without_key(prune(cur, keys, oracle), e.0)),
    decreases keys.len(),
{
    let c = prune(cur, keys.drop_last(), oracle);
    let k = keys.last();
    let f = prune(cur, keys, oracle);
    if oracle(without_key(c, k)) {
        lemma_without_key_contains(c, k, e);
    }
    if k != e.0 {
        let i = choose|i: int| 0 <= i < keys.len() && keys[i] == e.0;
        assert(keys.drop_last()[i] == e.0);
        lemma_without_included(c, c, k);
        lemma_kept_is_required(cur, keys.drop_last(), oracle, e);
        lemma_without_included(f, c, e.0);
        if oracle(without_key(f, e.0)) {
            assert(oracle(without_key(c, e.0)));
        }
    }
}

/// Trying keys whose removal the oracle rejects leaves the table as it is.
pub proof fn lemma_prune_stable(f: Seq<Entry>, keys: Seq<Seq<char>>, oracle: spec_fn(Seq<Entry>) -> bool)
    requires
        forall|i: int| 0 <= i < keys.len() ==> !oracle(#[trigger] without_key(f, keys[i])),
    ensures
        prune(f, keys, oracle) == f,
    decreases keys.len(),
{
    if keys.len() > 0 {
        assert forall|i: int| 0 <= i < keys.drop_last().len() implies !oracle(
            #[trigger] without_key(f, keys.drop_last()[i]),
        ) by {
            assert(keys.drop_last()[i] == keys[i]);
        }
        lemma_prune_stable(f, keys.drop_last(), oracle);
        assert(!oracle(without_key(f, keys[keys.len() - 1])));
    }
}

/// Idempotence: against an oracle for which more dependencies never turn a
/// valid project invalid, pruning a table that was already pruned removes
/// nothing more.
pub proof fn lemma_prune_idempotent(es: Seq<Entry>, oracle: spec_fn(Seq<Entry>) -> bool)
    requires
        monotone(oracle),
    ensures
        prune(prune(es, keys_of(es), oracle), keys_of(prune(es, keys_of(es), oracle)), oracle)
            == prune(es, keys_of(es), oracle),
{
    let f = prune(es, keys_of(es), oracle);
    let ks = keys_of(f);
    lemma_prune_included(es, keys_of(es), oracle);
    assert forall|i: int| 0 <= i < ks.len() implies !oracle(#[trigger] without_key(f, ks[i])) by {
        let e = f[i];
        assert(f.contains(e));
        assert(es.contains(e));
        let j = choose|j: int| 0 <= j < es.len() && es[j] == e;
        assert(keys_of(es)[j] == e.0);
        lemma_kept_is_required(es, keys_of(es), oracle, e);
    }
    lemma_prune_stable(f, ks, oracle);
}

/// When every trial is judged invalid, every key is required and the table
/// ends exactly as it began.
pub proof fn lemma_all_required_keeps_table(cur: Seq<Entry>, keys: Seq<Seq<char>>, answers: Seq<bool>)
    requires
        keys.len() == answers.len(),
        forall|i: int| 0 <= i < answers.len() ==> !answers[i],
    ensures
        apply_answers(cur, keys, answers) == cur,
    decreases keys.len(),
{
    if keys.len() > 0 {
        lemma_all_required_keeps_table(cur, keys.drop_last(), answers.drop_last());
        assert(!answers[answers.len() - 1]);
    }
}

/// An entry whose key was judged required at each of its trials stands in the
/// final table with its definition unchanged.
pub proof fn lemma_required_entry_kept(
    cur: Seq<Entry>,
    keys: Seq<Seq<char>>,
    answers: Seq<bool>,
    e: Entry,
)
    requires
        keys.len() == answers.len(),
        cur.contains(e),
        forall|i: int| 0 <= i < keys.len() && keys[i] == e.0 ==> !answers[i],
    ensures
        apply_answers(cur, keys, answers).contains(e),
    decreases keys.len(),
{
    if keys.len() > 0 {
        let c = apply_answers(cur, keys.drop_last(), answers.drop_last());
        assert forall|i: int|
            0 <= i < keys.drop_last().len() && keys.drop_last()[i] == e.0 implies !answers.drop_last()[i] by {
            assert(keys[i] == e.0);
        }
        lemma_required_entry_kept(cur, keys.drop_last(), answers.drop_last(), e);
        lemma_without_key_contains(c, keys.last(), e);
        assert(keys[keys.len() - 1] == keys.last());
    }
}

/// When every trial is judged valid, no entry of a tried key is left.
pub proof fn lemma_useless_keys_gone(cur: Seq<Entry>, keys: Seq<Seq<char>>, answers: Seq<bool>, x: Entry)
    requires
        keys.len() == answers.len(),
        forall|i: int| 0 <= i < answers.len() ==> answers[i],
        apply_answers(cur, keys, answers).contains(x),
    ensures
        cur.contains(x),
        !keys.contains(x.0),
    decreases keys.len(),
{
    if keys.len() > 0 {
        let c = apply_answers(cur, keys.drop_last(), answers.drop_last());
        assert(answers[answers.len() - 1]);
        lemma_without_key_contains(c, keys.last(), x);
        lemma_useless_keys_gone(cur, keys.drop_last(), answers.drop_last(), x);
        if keys.contains(x.0) {
            let i = choose|i: int| 0 <= i < keys.len() && keys[i] == x.0;
            if i < keys.len() - 1 {
                assert(keys.drop_last()[i] == x.0);
            }
        }
    }
}

/// When every trial is judged valid, every key is removed and the table ends
/// empty.
pub proof fn lemma_all_useless_empties_table(cur: Seq<Entry>, answers: Seq<bool>)
    requires
        answers.len() == cur.len(),
        forall|i: int| 0 <= i < answers.len() ==> answers[i],
    ensures
        apply_answers(cur, keys_of(cur), answers) == Seq::<Entry>::empty(),
{
    let r = apply_answers(cur, keys_of(cur), answers);
    if r.len() > 0 {
        let x = r[0];
        assert(r.contains(x));
        lemma_useless_keys_gone(cur, keys_of(cur), answers, x);
        let j = choose|j: int| 0 <= j < cur.len() && cur[j] == x;
        assert(keys_of(cur)[j] == x.0);
    }
    assert(r =~= Seq::<Entry>::empty());
}

/// Answers that an oracle gave on the tables the trials showed it lead to the
/// same table as pruning against that oracle.
pub proof fn lemma_answers_follow_oracle(
    cur: Seq<Entry>,
    keys: Seq<Seq<char>>,
    answers: Seq<bool>,
    oracle: spec_fn(Seq<Entry>) -> bool,
)
    requires
        keys.len() == answers.len(),
        forall|i: int|
            0 <= i < keys.len() ==> answers[i] == oracle(
                without_key(apply_answers(cur, keys.take(i), answers.take(i)), keys[i]),
            ),
    ensures
        apply_answers(cur, keys, answers) == prune(cur, keys, oracle),
    decreases keys.len(),
{
    if keys.len() > 0 {
        let n = keys.len() - 1;
        let kd = keys.drop_last();
        let ad = answers.drop_last();
        assert forall|i: int| 0 <= i < kd.len() implies ad[i] == oracle(
            without_key(apply_answers(cur, kd.take(i), ad.take(i)), kd[i]),
        ) by {
            assert(kd.take(i) =~= keys.take(i));
            assert(ad.take(i) =~= answers.take(i));
        }
        lemma_answers_follow_oracle(cur, kd, ad, oracle);
        assert(keys.take(n) =~= kd);
        assert(answers.take(n) =~= ad);
    }
}

} // verus!
