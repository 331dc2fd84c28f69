//! Ordering of label names and the stable sort that puts a label set in the
//! order the wire protocol requires.
use vstd::prelude::*;
use crate::wire::{Label, LabelModel, labels_model};

verus! {

/// Lexicographic order on names, character by character (the order of the
/// names' UTF-8 bytes).
pub open spec fn name_le(a: Seq<char>, b: Seq<char>) -> bool
    decreases a.len(),
{
    if a.len() == 0 {
        true
    } else if b.len() == 0 {
        false
    } else if (a[0] as u32) != (b[0] as u32) {
        (a[0] as u32) < (b[0] as u32)
    } else {
        name_le(a.drop_first(), b.drop_first())
    }
}

/// Labels sorted by name.
pub open spec fn sorted_by_name(s: Seq<LabelModel>) -> bool {
    forall|i: int, j: int| 0 <= i < j < s.len() ==> name_le(s[i].name, s[j].name)
}

/// `x` placed after the last label of `s` whose name is not greater than its own.
pub open spec fn insert_label(s: Seq<LabelModel>, x: LabelModel) -> Seq<LabelModel>
    decreases s.len(),
{
    if s.len() == 0 {
        seq![x]
    } else if name_le(s.last().name, x.name) {
        s.push(x)
    } else {
        insert_label(s.drop_last(), x).push(s.last())
    }
}

/// The stable sort by name: labels of equal names keep their order.
pub open spec fn sort_labels(s: Seq<LabelModel>) -> Seq<LabelModel>
    decreases s.len(),
{
    if s.len() == 0 {
        s
    } else {
        insert_label(sort_labels(s.drop_last()), s.last())
    }
}

pub proof fn lemma_name_le_total(a: Seq<char>, b: Seq<char>)
    ensures
        name_le(a, b) || name_le(b, a),
    decreases a.len(),
{
    if a.len() > 0 && b.len() > 0 && (a[0] as u32) == (b[0] as u32) {
        lemma_name_le_total(a.drop_first(), b.drop_first());
    }
}

pub proof fn lemma_name_le_trans(a: Seq<char>, b: Seq<char>, c: Seq<char>)
    requires
        name_le(a, b),
        name_le(b, c),
    ensures
        name_le(a, c),
    decreases a.len(),
{
    if a.len() > 0 && b.len() > 0 && c.len() > 0 && (a[0] as u32) == (b[0] as u32) && (b[0] as u32) == (c[0] as u32) {
        lemma_name_le_trans(a.drop_first(), b.drop_first(), c.drop_first());
    }
}

proof fn lemma_insert_sorted(s: Seq<LabelModel>, x: LabelModel)
    requires
        sorted_by_name(s),
    ensures
        sorted_by_name(insert_label(s, x)),
    decreases s.len(),
{
    broadcast use vstd::seq_lib::group_to_multiset_ensures;

    if s.len() == 0 {
        assert(seq![x] == Seq::<LabelModel>::empty().push(x));
    } else if name_le(s.last().name, x.name) {
        let r = s.push(x);
        assert forall|i: int, j: int| 0 <= i < j < r.len() implies name_le(r[i].name, r[j].name) by {
            if j == r.len() - 1 && i < s.len() - 1 {
                lemma_name_le_trans(s[i].name, s.last().name, x.name);
            }
        }
    } else {
        let p = s.drop_last();
        let l = s.last();
        lemma_insert_sorted(p, x);
        lemma_insert_multiset(p, x);
        assert(s == p.push(l));
        let q = insert_label(p, x);
        let r = q.push(l);
        lemma_name_le_total(s.last().name, x.name);
        assert forall|k: int| 0 <= k < q.len() implies name_le(q[k].name, l.name) by {
            assert(q.to_multiset().contains(q[k]));
            assert(q.contains(q[k]));
            if q[k] == x {
            } else {
                assert(p.to_multiset().count(q[k]) > 0);
                assert(p.contains(q[k]));
                let m = choose|m: int| 0 <= m < p.len() && p[m] == q[k];
                assert(s[m] == p[m]);
            }
        }
        assert forall|i: int, j: int| 0 <= i < j < r.len() implies name_le(r[i].name, r[j].name) by {
            if j == r.len() - 1 {
                assert(r[i] == q[i]);
            } else {
                assert(r[i] == q[i] && r[j] == q[j]);
            }
        }
    }
}

/// The sort yields labels sorted by name that are a permutation of its input.
pub proof fn lemma_sort_labels(s: Seq<LabelModel>)
    ensures
        sorted_by_name(sort_labels(s)),
        sort_labels(s).to_multiset() == s.to_multiset(),
        sort_labels(s).len() == s.len(),
    decreases s.len(),
{
    broadcast use vstd::seq_lib::group_to_multiset_ensures;

    if s.len() > 0 {
        lemma_sort_labels(s.drop_last());
        lemma_insert_sorted(sort_labels(s.drop_last()), s.last());
        lemma_insert_multiset(sort_labels(s.drop_last()), s.last());
        assert(s == s.drop_last().push(s.last()));
    }
}

/// No two labels share a name.
pub open spec fn names_distinct(s: Seq<LabelModel>) -> bool {
    forall|i: int, j: int| 0 <= i < j < s.len() ==> s[i].name != s[j].name
}

proof fn lemma_member_of_insert(s: Seq<LabelModel>, x: LabelModel, y: LabelModel)
    requires
        insert_label(s, x).contains(y),
    ensures
        y == x || s.contains(y),
{
    broadcast use vstd::seq_lib::group_to_multiset_ensures;

    lemma_insert_multiset(s, x);
    assert(insert_label(s, x).to_multiset().count(y) > 0);
}

proof fn lemma_insert_multiset(s: Seq<LabelModel>, x: LabelModel)
    ensures
        insert_label(s, x).to_multiset() == s.to_multiset().insert(x),
        insert_label(s, x).len() == s.len() + 1,
    decreases s.len(),
{
    broadcast use vstd::seq_lib::group_to_multiset_ensures;

    if s.len() == 0 {
        assert(seq![x] == Seq::<LabelModel>::empty().push(x));
    } else if !name_le(s.last().name, x.name) {
        lemma_insert_multiset(s.drop_last(), x);
        assert(s == s.drop_last().push(s.last()));
    }
}

proof fn lemma_insert_distinct(s: Seq<LabelModel>, x: LabelModel)
    requires
        names_distinct(s),
        forall|k: int| 0 <= k < s.len() ==> s[k].name != x.name,
    ensures
        names_distinct(insert_label(s, x)),
    decreases s.len(),
{
    if s.len() > 0 && !name_le(s.last().name, x.name) {
        let p = s.drop_last();
        let l = s.last();
        lemma_insert_distinct(p, x);
        let q = insert_label(p, x);
        lemma_insert_multiset(p, x);
        assert forall|k: int| 0 <= k < q.len() implies q[k].name != l.name by {
            assert(q.contains(q[k]));
            lemma_member_of_insert(p, x, q[k]);
            if q[k] != x {
                let m = choose|m: int| 0 <= m < p.len() && p[m] == q[k];
                assert(s[m] == p[m]);
            }
        }
        let r = q.push(l);
        assert forall|i: int, j: int| 0 <= i < j < r.len() implies r[i].name != r[j].name by {
            if j == r.len() - 1 {
                assert(r[i] == q[i]);
            } else {
                assert(r[i] == q[i] && r[j] == q[j]);
            }
        }
    }
}

/// Sorting keeps label names distinct: a sorted label set holds a name twice
/// only where its input did.
pub proof fn lemma_sort_keeps_names_distinct(s: Seq<LabelModel>)
    requires
        names_distinct(s),
    ensures
        names_distinct(sort_labels(s)),
    decreases s.len(),
{
    broadcast use vstd::seq_lib::group_to_multiset_ensures;

    if s.len() > 0 {
        let p = s.drop_last();
        let l = s.last();
        lemma_sort_keeps_names_distinct(p);
        lemma_sort_labels(p);
        let q = sort_labels(p);
        assert forall|k: int| 0 <= k < q.len() implies q[k].name != l.name by {
            assert(q.contains(q[k]));
            assert(q.to_multiset().count(q[k]) > 0);
            assert(p.contains(q[k]));
            let m = choose|m: int| 0 <= m < p.len() && p[m] == q[k];
            assert(s[m] == p[m]);
        }
        lemma_insert_distinct(q, l);
    }
}

/// Whether `a` comes no later than `b` in name order.
pub fn name_le_exec(a: &String, b: &String) -> (r: bool)
    ensures
        r == name_le(a@, b@),
{
    let sa = a.as_str();
    let sb = b.as_str();
    let la = sa.unicode_len();
    let lb = sb.unicode_len();
    let mut i: usize = 0;
    assert(a@.skip(0) == a@);
    assert(b@.skip(0) == b@);
    while i < la && i < lb
        invariant
            sa@ == a@,
            sb@ == b@,
            la == a@.len(),
            lb == b@.len(),
            i <= la,
            i <= lb,
            name_le(a@, b@) == name_le(a@.skip(i as int), b@.skip(i as int)),
        decreases la - i,
    {
        let ca = sa.get_char(i) as u32;
        let cb = sb.get_char(i) as u32;
        assert(a@.skip(i as int)[0] == a@[i as int]);
        assert(b@.skip(i as int)[0] == b@[i as int]);
        if ca != cb {
            return ca < cb;
        }
        assert(a@.skip(i as int).drop_first() == a@.skip(i as int + 1));
        assert(b@.skip(i as int).drop_first() == b@.skip(i as int + 1));
        i = i + 1;
    }
    i == la
}

/// Inserts `x` into `v` at the place `insert_label` gives.
fn insert_label_exec(v: &mut Vec<Label>, x: Label)
    ensures
        labels_model(final(v)@) == insert_label(labels_model(old(v)@), x@),
{
    let ghost s = labels_model(v@);
    let mut j: usize = v.len();
    let mut done = false;
    assert(s.take(s.len() as int) == s);
    assert(s.skip(s.len() as int) == Seq::<LabelModel>::empty());
    while j > 0 && !done
        invariant
            s == labels_model(v@),
            j <= s.len(),
            done ==> j > 0 && name_le(s[j - 1].name, x@.name),
            insert_label(s, x@) == insert_label(s.take(j as int), x@) + s.skip(j as int),
        decreases j + if done { 0int } else { 1int },
    {
        if name_le_exec(&v[j - 1].name, &x.name) {
            done = true;
        } else {
            let ghost t = s.take(j as int);
            assert(t.drop_last() == s.take(j - 1));
            assert(s.skip(j - 1) == seq![s[j - 1]] + s.skip(j as int));
            assert(insert_label(t, x@) == insert_label(s.take(j - 1), x@).push(s[j - 1]));
            assert(insert_label(s.take(j - 1), x@).push(s[j - 1]) + s.skip(j as int)
                == insert_label(s.take(j - 1), x@) + s.skip(j - 1));
            j = j - 1;
        }
    }
    let ghost xm = x@;
    v.insert(j, x);
    assert(labels_model(v@) == insert_label(s, xm)) by {
        if j == 0 {
            assert(s.take(0) == Seq::<LabelModel>::empty());
            assert(insert_label(s.take(0), xm) == seq![xm]);
        } else {
            assert(s.take(j as int).last() == s[j - 1]);
            assert(insert_label(s.take(j as int), xm) == s.take(j as int).push(xm));
        }
        assert(labels_model(v@) == s.take(j as int).push(xm) + s.skip(j as int));
    }
}

/// The labels of `v` in the order of `sort_labels`.
pub fn sort_labels_exec(v: Vec<Label>) -> (r: Vec<Label>)
    ensures
        labels_model(r@) == sort_labels(labels_model(v@)),
{
    let ghost s = labels_model(v@);
    let mut out: Vec<Label> = Vec::new();
    let mut i: usize = 0;
    while i < v.len()
        invariant
            s == labels_model(v@),
            i <= v@.len(),
            labels_model(out@) == sort_labels(s.take(i as int)),
        decreases v@.len() - i,
    {
        assert(s.take(i as int + 1).drop_last() == s.take(i as int));
        insert_label_exec(&mut out, v[i].duplicate());
        i = i + 1;
    }
    assert(s.take(i as int) == s);
    out
}

} // verus!
