use vstd::prelude::*;
use crate::expr::{clone_expr, spec_and, and_expr, Expr};

verus! {

/// The key a predicate is accumulated under: the single column it reads, or,
/// for a comparison whose two sides each reduce to a distinct column, the
/// synthetic pair of those two column names.
#[derive(Debug, PartialEq)]
pub enum Key {
    Column(String),
    Binary(String, String),
}

/// Keys compare by the characters of their column names.
pub open spec fn spec_key_eq(a: Key, b: Key) -> bool {
    match (a, b) {
        (Key::Column(x), Key::Column(y)) => x@ == y@,
        (Key::Binary(x1, x2), Key::Binary(y1, y2)) => x1@ == y1@ && x2@ == y2@,
        _ => false,
    }
}

pub fn key_eq(a: &Key, b: &Key) -> (r: bool)
    ensures
        r == spec_key_eq(*a, *b),
{
    match (a, b) {
        (Key::Column(x), Key::Column(y)) => *x == *y,
        (Key::Binary(x1, x2), Key::Binary(y1, y2)) => *x1 == *y1 && *x2 == *y2,
        _ => false,
    }
}

pub fn clone_key(k: &Key) -> (r: Key)
    ensures
        r == *k,
{
    match k {
        Key::Column(x) => Key::Column(x.clone()),
        Key::Binary(x1, x2) => Key::Binary(x1.clone(), x2.clone()),
    }
}

/// One accumulated filter: the AND of every predicate merged under its key.
#[derive(Debug, PartialEq)]
pub struct PredicateEntry {
    pub key: Key,
    pub predicate: Expr,
}

/// The keyed set of not-yet-applied filters carried downward during the
/// rewrite: at most one entry per key, in the order the keys first appeared.
#[derive(Debug, PartialEq)]
pub struct PredicateAcc {
    pub entries: Vec<PredicateEntry>,
}

impl View for PredicateAcc {
    type V = Seq<PredicateEntry>;

    open spec fn view(&self) -> Seq<PredicateEntry> {
        self.entries@
    }
}

/// The index of the first entry whose key matches, or -1 when none does.
pub open spec fn acc_index_of(s: Seq<PredicateEntry>, k: Key) -> int
    decreases s.len(),
{
    if s.len() == 0 {
        -1
    } else if spec_key_eq(s[0].key, k) {
        0
    } else {
        let r = acc_index_of(s.drop_first(), k);
        if r < 0 {
            -1
        } else {
            r + 1
        }
    }
}

pub proof fn lemma_acc_index_of(s: Seq<PredicateEntry>, k: Key)
    ensures
        acc_index_of(s, k) == -1 ==> forall|j: int|
            0 <= j < s.len() ==> !spec_key_eq(s[j].key, k),
        acc_index_of(s, k) >= 0 ==> 0 <= acc_index_of(s, k) < s.len() && spec_key_eq(
            s[acc_index_of(s, k)].key,
            k,
        ) && forall|j: int| 0 <= j < acc_index_of(s, k) ==> !spec_key_eq(s[j].key, k),
    decreases s.len(),
{
    if s.len() > 0 && !spec_key_eq(s[0].key, k) {
        lemma_acc_index_of(s.drop_first(), k);
        assert forall|j: int| 1 <= j < s.len() implies s.drop_first()[j - 1] == s[j] by {}
    }
}

/// The entries with one merged in: an absent key is appended, a present key
/// keeps its place and its predicate becomes AND(existing, predicate).
pub open spec fn acc_insert(s: Seq<PredicateEntry>, k: Key, p: Expr) -> Seq<PredicateEntry> {
    let i = acc_index_of(s, k);
    if i >= 0 {
        s.update(i, PredicateEntry { key: s[i].key, predicate: spec_and(s[i].predicate, p) })
    } else {
        s.push(PredicateEntry { key: k, predicate: p })
    }
}

/// The entries with the first match of the key taken out, and that entry's
/// predicate; an absent key changes nothing.
pub open spec fn acc_take_out(s: Seq<PredicateEntry>, k: Key) -> (Option<Expr>, Seq<
    PredicateEntry,
>) {
    let i = acc_index_of(s, k);
    if i >= 0 {
        (Some(s[i].predicate), s.remove(i))
    } else {
        (None, s)
    }
}

/// The accumulated predicates in entry order.
pub open spec fn acc_preds(s: Seq<PredicateEntry>) -> Seq<Expr> {
    s.map_values(|e: PredicateEntry| e.predicate)
}

impl PredicateAcc {
    /// The empty accumulator every optimizer entry point and every fresh
    /// branch starts from.
    pub fn new() -> (r: PredicateAcc)
        ensures
            r@ == Seq::<PredicateEntry>::empty(),
    {
        PredicateAcc { entries: Vec::new() }
    }

    pub fn len(&self) -> (r: usize)
        ensures
            r == self@.len(),
    {
        self.entries.len()
    }

    /// The index of the first entry whose key matches, if one is there.
    fn find(&self, key: &Key) -> (r: Option<usize>)
        ensures
            match r {
                Some(i) => acc_index_of(self@, *key) == i && i < self@.len(),
                None => acc_index_of(self@, *key) == -1,
            },
    {
        let mut i: usize = 0;
        while i < self.entries.len()
            invariant
                0 <= i <= self@.len(),
                forall|j: int| 0 <= j < i ==> !spec_key_eq(self@[j].key, *key),
            decreases self@.len() - i,
        {
            if key_eq(&self.entries[i].key, key) {
                proof {
                    lemma_acc_index_of(self@, *key);
                }
                return Some(i);
            }
            i += 1;
        }
        proof {
            lemma_acc_index_of(self@, *key);
        }
        None
    }

    /// Merges a predicate under its key without overwriting: a key already
    /// present keeps one entry carrying the AND of both predicates.
    pub fn insert_and_combine(&mut self, key: Key, predicate: Expr)
        ensures
            final(self)@ == acc_insert(old(self)@, key, predicate),
    {
        let ghost s0 = self@;
        match self.find(&key) {
            Some(i) => {
                let entry = self.entries.remove(i);
                let combined = PredicateEntry {
                    key: entry.key,
                    predicate: and_expr(entry.predicate, predicate),
                };
                self.entries.insert(i, combined);
                proof {
                    assert(self@ =~= acc_insert(s0, key, predicate));
                }
            },
            None => {
                self.entries.push(PredicateEntry { key, predicate });
            },
        }
    }

    /// Takes out the entry stored under the key, if one is there.
    pub fn take_out(&mut self, key: &Key) -> (r: Option<Expr>)
        ensures
            (r, final(self)@) == acc_take_out(old(self)@, *key),
    {
        match self.find(key) {
            Some(i) => {
                let entry = self.entries.remove(i);
                Some(entry.predicate)
            },
            None => None,
        }
    }

    /// The accumulated predicates, cloned out in entry order.
    pub fn predicates(&self) -> (r: Vec<Expr>)
        ensures
            r@ == acc_preds(self@),
    {
        let mut out: Vec<Expr> = Vec::new();
        let mut i: usize = 0;
        while i < self.entries.len()
            invariant
                0 <= i <= self@.len(),
                out@ =~= acc_preds(self@).take(i as int),
            decreases self@.len() - i,
        {
            out.push(clone_expr(&self.entries[i].predicate));
            proof {
                assert(out@ =~= acc_preds(self@).take(i + 1));
            }
            i += 1;
        }
        proof {
            assert(acc_preds(self@).take(self@.len() as int) =~= acc_preds(self@));
        }
        out
    }
}

/// Folds a non-empty ordered sequence of predicates into their left-nested
/// conjunction.
pub open spec fn combine_seq(ps: Seq<Expr>) -> Expr
    recommends
        ps.len() > 0,
    decreases ps.len(),
{
    if ps.len() <= 1 {
        ps[0]
    } else {
        spec_and(combine_seq(ps.drop_last()), ps.last())
    }
}

/// Folds a non-empty ordered sequence of predicates into one AND-expression.
pub fn combine_predicates(preds: Vec<Expr>) -> (r: Expr)
    requires
        preds@.len() > 0,
    ensures
        r == combine_seq(preds@),
{
    let ghost all = preds@;
    let mut preds = preds;
    let mut combined = preds.remove(0);
    while preds.len() > 0
        invariant
            all.len() > 0,
            preds@.len() < all.len(),
            preds@ == all.skip(all.len() - preds@.len()),
            combined == combine_seq(all.take(all.len() - preds@.len())),
        decreases preds@.len(),
    {
        let ghost done = all.len() - preds@.len();
        let next = preds.remove(0);
        proof {
            assert(next == all[done]);
            assert(preds@ =~= all.skip(done + 1));
            assert(all.take(done + 1).drop_last() =~= all.take(done));
            assert(all.take(done + 1).last() == all[done]);
        }
        combined = and_expr(combined, next);
    }
    proof {
        assert(all.take(all.len() as int) =~= all);
    }
    combined
}

} // verus!
