//! Request parameters: a map from names to values, kept in ascending name order, and the
//! canonical `name=value&...` text that signatures are computed over.
use vstd::prelude::*;

use crate::order::{key_lt, key_order, lemma_key_lt_asymmetric, lemma_key_lt_irreflexive, lemma_key_lt_total, lemma_key_lt_transitive, KeyOrder};

verus! {

/// One parameter as the contracts see it: its name and its value.
pub type Entry = (Seq<char>, Seq<char>);

/// The name of the parameter that carries a signature.
pub open spec fn sign_key() -> Seq<char> {
    "sign"@
}

/// Names strictly ascend along the sequence, so no name occurs twice.
pub open spec fn strictly_sorted(s: Seq<Entry>) -> bool {
    forall|i: int, j: int| 0 <= i < j < s.len() ==> key_lt(#[trigger] s[i].0, #[trigger] s[j].0)
}

/// The value stored under `k`.
pub open spec fn lookup(s: Seq<Entry>, k: Seq<char>) -> Option<Seq<char>>
    decreases s.len(),
{
    if s.len() == 0 {
        None
    } else if s[0].0 == k {
        Some(s[0].1)
    } else {
        lookup(s.drop_first(), k)
    }
}

/// The entries after storing `v` under `k`: an entry with that name has its value
/// replaced, otherwise a new entry goes before the first name that follows `k`.
pub open spec fn insert_entry(s: Seq<Entry>, k: Seq<char>, v: Seq<char>) -> Seq<Entry>
    decreases s.len(),
{
    if s.len() == 0 {
        seq![(k, v)]
    } else if s[0].0 == k {
        s.update(0, (k, v))
    } else if key_lt(k, s[0].0) {
        seq![(k, v)] + s
    } else {
        seq![s[0]] + insert_entry(s.drop_first(), k, v)
    }
}

/// The entries whose name is not `k`, in their order.
pub open spec fn drop_key(s: Seq<Entry>, k: Seq<char>) -> Seq<Entry>
    decreases s.len(),
{
    if s.len() == 0 {
        Seq::empty()
    } else if s[0].0 == k {
        drop_key(s.drop_first(), k)
    } else {
        seq![s[0]] + drop_key(s.drop_first(), k)
    }
}

/// `name=value`.
pub open spec fn pair_text(e: Entry) -> Seq<char> {
    e.0 + seq!['='] + e.1
}

/// The pairs joined by `&`.
pub open spec fn joined(s: Seq<Entry>) -> Seq<char>
    decreases s.len(),
{
    if s.len() == 0 {
        Seq::empty()
    } else if s.len() == 1 {
        pair_text(s[0])
    } else {
        joined(s.drop_last()) + seq!['&'] + pair_text(s.last())
    }
}

/// The text that is signed and verified: every parameter but `sign`, as `name=value`, in
/// the order of the entries, joined by `&`.
pub open spec fn canonical_text(s: Seq<Entry>) -> Seq<char> {
    joined(drop_key(s, sign_key()))
}

/// Parameters of a request, in ascending name order (the byte order of the names), each
/// name once.
pub struct Params {
    entries: Vec<(String, String)>,
}

impl View for Params {
    type V = Seq<Entry>;

    closed spec fn view(&self) -> Seq<Entry> {
        self.entries@.map_values(|e: (String, String)| (e.0@, e.1@))
    }
}

impl Params {
    #[verifier::type_invariant]
    spec fn sorted(&self) -> bool {
        strictly_sorted(self@)
    }

    /// No parameters.
    pub fn new() -> (r: Params)
        ensures
            r@ == Seq::<Entry>::empty(),
    {
        let r = Params { entries: Vec::new() };
        assert(r@ =~= Seq::<Entry>::empty());
        r
    }

    /// The number of parameters.
    pub fn len(&self) -> (r: usize)
        ensures
            r == self@.len(),
            strictly_sorted(self@),
    {
        proof {
            use_type_invariant(self);
        }
        self.entries.len()
    }

    /// The name and value of the `i`-th parameter in name order.
    pub fn entry(&self, i: usize) -> (r: (&String, &String))
        requires
            i < self@.len(),
        ensures
            r.0@ == self@[i as int].0,
            r.1@ == self@[i as int].1,
            strictly_sorted(self@),
    {
        proof {
            use_type_invariant(self);
        }
        let e = &self.entries[i];
        (&e.0, &e.1)
    }
}


/// Storing at the slot of `k` (after every smaller name, at the first name that is not
/// smaller) is what `insert_entry` describes.
proof fn lemma_insert_entry_at(s: Seq<Entry>, k: Seq<char>, v: Seq<char>, i: int)
    requires
        0 <= i <= s.len(),
        forall|j: int| 0 <= j < i ==> key_lt(#[trigger] s[j].0, k),
        i < s.len() ==> !key_lt(s[i].0, k),
    ensures
        insert_entry(s, k, v) == if i < s.len() && s[i].0 == k {
            s.update(i, (k, v))
        } else {
            s.insert(i, (k, v))
        },
    decreases i,
{
    if i == 0 {
        if s.len() == 0 {
            assert(s.insert(0, (k, v)) =~= seq![(k, v)]);
        } else if s[0].0 == k {
        } else {
            lemma_key_lt_total(k, s[0].0);
            assert(s.insert(0, (k, v)) =~= seq![(k, v)] + s);
        }
    } else {
        let t = s.drop_first();
        assert forall|j: int| 0 <= j < i - 1 implies key_lt(#[trigger] t[j].0, k) by {
            assert(t[j] == s[j + 1]);
        }
        lemma_insert_entry_at(t, k, v, i - 1);
        assert(s[0].0 != k) by {
            lemma_key_lt_irreflexive(k);
        }
        assert(!key_lt(k, s[0].0)) by {
            lemma_key_lt_asymmetric(s[0].0, k);
        }
        if i < s.len() && s[i].0 == k {
            assert(seq![s[0]] + t.update(i - 1, (k, v)) =~= s.update(i, (k, v)));
        } else {
            assert(seq![s[0]] + t.insert(i - 1, (k, v)) =~= s.insert(i, (k, v)));
        }
    }
}

/// The slot of `k` among sorted entries, and whether an entry there has that name.
fn find_slot(entries: &Vec<(String, String)>, key: &str) -> (r: (usize, bool))
    ensures
        r.0 <= entries@.len(),
        forall|j: int| 0 <= j < r.0 ==> key_lt(#[trigger] entries@[j].0@, key@),
        r.0 < entries@.len() ==> !key_lt(entries@[r.0 as int].0@, key@),
        r.1 <==> (r.0 < entries@.len() && entries@[r.0 as int].0@ == key@),
{
    let n = entries.len();
    let mut i: usize = 0;
    while i < n
        invariant
            n == entries@.len(),
            i <= n,
            forall|j: int| 0 <= j < i ==> key_lt(#[trigger] entries@[j].0@, key@),
        decreases n - i,
    {
        match key_order(entries[i].0.as_str(), key) {
            KeyOrder::Before => {
                i = i + 1;
            },
            KeyOrder::Same => {
                proof {
                    lemma_key_lt_irreflexive(key@);
                }
                return (i, true);
            },
            KeyOrder::After => {
                proof {
                    lemma_key_lt_asymmetric(key@, entries@[i as int].0@);
                    lemma_key_lt_irreflexive(key@);
                }
                return (i, false);
            },
        }
    }
    (i, false)
}

impl Params {
    /// Stores `value` under `key` (`BTreeMap::insert`): a parameter of that name has its
    /// value replaced; otherwise the new one takes its place in name order.
    pub fn insert(&mut self, key: String, value: String)
        ensures
            final(self)@ == insert_entry(old(self)@, key@, value@),
            strictly_sorted(final(self)@),
    {
        proof {
            use_type_invariant(&*self);
        }
        let ghost s = self@;
        let (i, found) = find_slot(&self.entries, key.as_str());
        proof {
            assert forall|j: int| 0 <= j < i implies key_lt(#[trigger] s[j].0, key@) by {
                assert(s[j].0 == self.entries@[j].0@);
            }
            if i < s.len() {
                assert(s[i as int].0 == self.entries@[i as int].0@);
            }
            lemma_insert_entry_at(s, key@, value@, i as int);
        }
        let ghost k = key@;
        let ghost v = value@;
        let mut entries: Vec<(String, String)> = Vec::new();
        std::mem::swap(&mut entries, &mut self.entries);
        if found {
            entries.set(i, (key, value));
            assert(entries@.map_values(|e: (String, String)| (e.0@, e.1@)) =~= s.update(
                i as int,
                (k, v),
            ));
        } else {
            entries.insert(i, (key, value));
            assert(entries@.map_values(|e: (String, String)| (e.0@, e.1@)) =~= s.insert(
                i as int,
                (k, v),
            ));
        }
        proof {
            lemma_insert_entry_sorted(s, k, v);
        }
        self.entries = entries;
    }
}


proof fn lemma_lookup_skip(s: Seq<Entry>, k: Seq<char>, i: int)
    requires
        0 <= i < s.len(),
        s[i].0 != k,
    ensures
        lookup(s.skip(i), k) == lookup(s.skip(i + 1), k),
{
    assert(s.skip(i).drop_first() =~= s.skip(i + 1));
}

/// Removing entries of one name from a sequence with one more entry at its end.
pub proof fn lemma_drop_key_push(a: Seq<Entry>, x: Entry, k: Seq<char>)
    ensures
        drop_key(a.push(x), k) == drop_key(a, k) + if x.0 == k {
            Seq::<Entry>::empty()
        } else {
            seq![x]
        },
    decreases a.len(),
{
    if a.len() == 0 {
        assert(a.push(x).drop_first() =~= Seq::<Entry>::empty());
        assert(drop_key(a.push(x).drop_first(), k) =~= Seq::<Entry>::empty());
        if x.0 != k {
            assert(seq![x] + Seq::<Entry>::empty() =~= seq![x]);
        }
        assert(drop_key(a, k) =~= Seq::<Entry>::empty());
    } else {
        assert(a.push(x).drop_first() =~= a.drop_first().push(x));
        lemma_drop_key_push(a.drop_first(), x, k);
        if a[0].0 != k {
            assert(seq![a[0]] + (drop_key(a.drop_first(), k) + if x.0 == k {
                Seq::<Entry>::empty()
            } else {
                seq![x]
            }) =~= (seq![a[0]] + drop_key(a.drop_first(), k)) + if x.0 == k {
                Seq::<Entry>::empty()
            } else {
                seq![x]
            });
        }
    }
}

impl Params {
    /// The value stored under `key` (`BTreeMap::get`).
    pub fn get(&self, key: &str) -> (r: Option<&String>)
        ensures
            match r {
                Some(v) => lookup(self@, key@) == Some(v@),
                None => lookup(self@, key@) == None::<Seq<char>>,
            },
            strictly_sorted(self@),
    {
        proof {
            use_type_invariant(self);
        }
        let n = self.entries.len();
        let mut i: usize = 0;
        assert(self@.skip(0) =~= self@);
        while i < n
            invariant
                n == self@.len(),
                n == self.entries@.len(),
                i <= n,
                lookup(self@, key@) == lookup(self@.skip(i as int), key@),
                strictly_sorted(self@),
            decreases n - i,
        {
            let e = &self.entries[i];
            assert(self@[i as int] == (e.0@, e.1@));
            match key_order(e.0.as_str(), key) {
                KeyOrder::Same => {
                    assert(self@.skip(i as int)[0] == self@[i as int]);
                    return Some(&e.1);
                },
                _ => {
                    proof {
                        lemma_lookup_skip(self@, key@, i as int);
                    }
                    i = i + 1;
                },
            }
        }
        None
    }

    /// The parameters other than those named `key`.
    pub fn without(&self, key: &str) -> (r: Params)
        ensures
            r@ == drop_key(self@, key@),
            strictly_sorted(r@),
    {
        proof {
            use_type_invariant(self);
        }
        let n = self.entries.len();
        let mut entries: Vec<(String, String)> = Vec::new();
        let mut i: usize = 0;
        assert(self@.take(0) =~= Seq::<Entry>::empty());
        while i < n
            invariant
                n == self@.len(),
                n == self.entries@.len(),
                i <= n,
                strictly_sorted(self@),
                entries@.map_values(|e: (String, String)| (e.0@, e.1@)) == drop_key(
                    self@.take(i as int),
                    key@,
                ),
                forall|j: int|
                    0 <= j < entries@.len() ==> exists|l: int|
                        0 <= l < i && #[trigger] entries@[j].0@ == self@[l].0,
                strictly_sorted(entries@.map_values(|e: (String, String)| (e.0@, e.1@))),
            decreases n - i,
        {
            let e = &self.entries[i];
            assert(self@[i as int] == (e.0@, e.1@));
            proof {
                assert(self@.take(i + 1) =~= self@.take(i as int).push(self@[i as int]));
                lemma_drop_key_push(self@.take(i as int), self@[i as int], key@);
            }
            match key_order(e.0.as_str(), key) {
                KeyOrder::Same => {},
                _ => {
                    let ghost before = entries@.map_values(|e: (String, String)| (e.0@, e.1@));
                    entries.push((e.0.clone(), e.1.clone()));
                    proof {
                        let after = entries@.map_values(|e: (String, String)| (e.0@, e.1@));
                        assert(after =~= before.push(self@[i as int]));
                        assert forall|a: int, b: int| 0 <= a < b < after.len() implies key_lt(
                            #[trigger] after[a].0,
                            #[trigger] after[b].0,
                        ) by {
                            if b == after.len() - 1 {
                                assert(entries@[a].0@ == after[a].0);
                                let l = choose|l: int|
                                    0 <= l < i && #[trigger] entries@[a].0@ == self@[l].0;
                                assert(key_lt(self@[l].0, self@[i as int].0));
                            } else {
                                assert(before[a] == after[a]);
                                assert(before[b] == after[b]);
                            }
                        }
                        assert forall|j: int| 0 <= j < entries@.len() implies exists|l: int|
                            0 <= l < i + 1 && #[trigger] entries@[j].0@ == self@[l].0 by {
                            if j == entries@.len() - 1 {
                                assert(entries@[j].0@ == self@[i as int].0);
                            } else {
                                assert(entries@[j].0@ == before[j].0);
                                let l = choose|l: int|
                                    0 <= l < i && before[j].0 == self@[l].0;
                                assert(entries@[j].0@ == self@[l].0);
                            }
                        }
                    }
                },
            }
            i = i + 1;
        }
        assert(self@.take(n as int) =~= self@);
        Params { entries }
    }
}

/// Storing under `k` and then reading `k` gives what was stored.
pub proof fn lemma_lookup_inserted(s: Seq<Entry>, k: Seq<char>, v: Seq<char>)
    ensures
        lookup(insert_entry(s, k, v), k) == Some(v),
    decreases s.len(),
{
    if s.len() > 0 && s[0].0 != k && !key_lt(k, s[0].0) {
        lemma_lookup_inserted(s.drop_first(), k, v);
        assert((seq![s[0]] + insert_entry(s.drop_first(), k, v)).drop_first() =~= insert_entry(
            s.drop_first(),
            k,
            v,
        ));
    }
}

/// Storing under `k` leaves what every other name reads unchanged.
pub proof fn lemma_lookup_other(s: Seq<Entry>, k: Seq<char>, v: Seq<char>, other: Seq<char>)
    requires
        other != k,
    ensures
        lookup(insert_entry(s, k, v), other) == lookup(s, other),
    decreases s.len(),
{
    if s.len() == 0 {
        assert(seq![(k, v)].drop_first() =~= Seq::<Entry>::empty());
        assert(lookup(seq![(k, v)], other) == lookup(Seq::<Entry>::empty(), other));
    } else if s[0].0 == k {
        let u = s.update(0, (k, v));
        assert(u.drop_first() =~= s.drop_first());
        assert(u[0].0 == k);
        assert(lookup(u, other) == lookup(u.drop_first(), other));
    } else if key_lt(k, s[0].0) {
        let u = seq![(k, v)] + s;
        assert(u.drop_first() =~= s);
        assert(u[0].0 == k);
        assert(lookup(u, other) == lookup(u.drop_first(), other));
    } else {
        lemma_lookup_other(s.drop_first(), k, v, other);
        assert((seq![s[0]] + insert_entry(s.drop_first(), k, v)).drop_first() =~= insert_entry(
            s.drop_first(),
            k,
            v,
        ));
    }
}

/// Storing under `k` changes nothing among the entries of other names.
pub proof fn lemma_drop_key_inserted(s: Seq<Entry>, k: Seq<char>, v: Seq<char>)
    ensures
        drop_key(insert_entry(s, k, v), k) == drop_key(s, k),
    decreases s.len(),
{
    if s.len() == 0 {
        assert(seq![(k, v)].drop_first() =~= Seq::<Entry>::empty());
        assert(drop_key(Seq::<Entry>::empty(), k) =~= Seq::<Entry>::empty());
    } else if s[0].0 == k {
        assert(s.update(0, (k, v)).drop_first() =~= s.drop_first());
    } else if key_lt(k, s[0].0) {
        assert((seq![(k, v)] + s).drop_first() =~= s);
    } else {
        lemma_drop_key_inserted(s.drop_first(), k, v);
        assert((seq![s[0]] + insert_entry(s.drop_first(), k, v)).drop_first() =~= insert_entry(
            s.drop_first(),
            k,
            v,
        ));
    }
}

/// Removing the entries of a name twice is removing them once.
pub proof fn lemma_drop_key_idempotent(s: Seq<Entry>, k: Seq<char>)
    ensures
        drop_key(drop_key(s, k), k) == drop_key(s, k),
    decreases s.len(),
{
    if s.len() > 0 {
        lemma_drop_key_idempotent(s.drop_first(), k);
        if s[0].0 != k {
            assert((seq![s[0]] + drop_key(s.drop_first(), k)).drop_first() =~= drop_key(
                s.drop_first(),
                k,
            ));
        }
    }
}

/// The signed text does not depend on the `sign` parameter: setting it to any value, or
/// removing it, leaves the text unchanged.
pub proof fn lemma_canonical_text_ignores_sign(s: Seq<Entry>, v: Seq<char>)
    ensures
        canonical_text(insert_entry(s, sign_key(), v)) == canonical_text(s),
        canonical_text(drop_key(s, sign_key())) == canonical_text(s),
{
    lemma_drop_key_inserted(s, sign_key(), v);
    lemma_drop_key_idempotent(s, sign_key());
}


/// Every name other than `sign` appears in the signed text exactly as given, followed by
/// `=` and its value exactly as given: a single such parameter is signed as `name=value`.
pub proof fn lemma_single_parameter_text(k: Seq<char>, v: Seq<char>)
    requires
        k != sign_key(),
    ensures
        canonical_text(seq![(k, v)]) == k + seq!['='] + v,
{
    lemma_drop_key_push(Seq::<Entry>::empty(), (k, v), sign_key());
    assert(Seq::<Entry>::empty().push((k, v)) =~= seq![(k, v)]);
    assert(Seq::<Entry>::empty() + seq![(k, v)] =~= seq![(k, v)]);
}

/// A parameter other than `sign` placed after others adds `&name=value` to their signed
/// text, name and value exactly as given; placed after none (or after `sign` alone) it is
/// the whole text `name=value`.
pub proof fn lemma_appended_parameter_text(s: Seq<Entry>, k: Seq<char>, v: Seq<char>)
    requires
        k != sign_key(),
    ensures
        drop_key(s, sign_key()).len() == 0 ==> canonical_text(s.push((k, v))) == k + seq!['='] + v,
        drop_key(s, sign_key()).len() > 0 ==> canonical_text(s.push((k, v))) == canonical_text(s)
            + seq!['&'] + k + seq!['='] + v,
{
    lemma_drop_key_push(s, (k, v), sign_key());
    let d = drop_key(s, sign_key());
    let d2 = d + seq![(k, v)];
    assert(d2.drop_last() =~= d);
    assert(d2.last() == (k, v));
    if d.len() == 0 {
        assert(d2 =~= seq![(k, v)]);
    } else {
        assert(d2.len() > 1);
        assert(canonical_text(s.push((k, v))) == joined(d) + seq!['&'] + pair_text((k, v)));
        assert(pair_text((k, v)) == k + seq!['='] + v);
        assert(joined(d) + seq!['&'] + (k + seq!['='] + v) =~= joined(d) + seq!['&'] + k + seq![
            '=',
        ] + v);
    }
}

/// The entries after storing each pair in turn, starting from none.
pub open spec fn insert_all(pairs: Seq<Entry>) -> Seq<Entry>
    decreases pairs.len(),
{
    if pairs.len() == 0 {
        Seq::empty()
    } else {
        insert_entry(insert_all(pairs.drop_last()), pairs.last().0, pairs.last().1)
    }
}

impl Params {
    /// The parameters holding the pairs, each stored in turn (a later pair with the same
    /// name replaces an earlier one).
    pub fn from_pairs(pairs: Vec<(String, String)>) -> (r: Params)
        ensures
            r@ == insert_all(pairs@.map_values(|e: (String, String)| (e.0@, e.1@))),
            strictly_sorted(r@),
    {
        let ghost ps = pairs@.map_values(|e: (String, String)| (e.0@, e.1@));
        let mut r = Params::new();
        let n = pairs.len();
        let mut i: usize = 0;
        assert(r@ =~= insert_all(ps.take(0)));
        while i < n
            invariant
                n == pairs@.len(),
                ps == pairs@.map_values(|e: (String, String)| (e.0@, e.1@)),
                i <= n,
                r@ == insert_all(ps.take(i as int)),
            decreases n - i,
        {
            let k = pairs[i].0.clone();
            let v = pairs[i].1.clone();
            proof {
                assert(ps.take(i + 1).drop_last() =~= ps.take(i as int));
                assert(ps.take(i + 1).last() == (k@, v@));
            }
            r.insert(k, v);
            i = i + 1;
        }
        assert(ps.take(n as int) =~= ps);
        proof {
            use_type_invariant(&r);
        }
        r
    }
}

proof fn lemma_lookup_found(s: Seq<Entry>, i: int)
    requires
        strictly_sorted(s),
        0 <= i < s.len(),
    ensures
        lookup(s, s[i].0) == Some(s[i].1),
    decreases i,
{
    if i > 0 {
        let t = s.drop_first();
        assert(strictly_sorted(t)) by {
            assert forall|a: int, b: int| 0 <= a < b < t.len() implies key_lt(
                #[trigger] t[a].0,
                #[trigger] t[b].0,
            ) by {
                assert(key_lt(s[a + 1].0, s[b + 1].0));
            }
        }
        assert(key_lt(s[0].0, s[i].0));
        lemma_key_lt_irreflexive(s[i].0);
        lemma_lookup_found(t, i - 1);
    }
}

proof fn lemma_lookup_absent(s: Seq<Entry>, k: Seq<char>)
    requires
        forall|i: int| 0 <= i < s.len() ==> #[trigger] s[i].0 != k,
    ensures
        lookup(s, k) is None,
    decreases s.len(),
{
    if s.len() > 0 {
        let t = s.drop_first();
        assert forall|i: int| 0 <= i < t.len() implies #[trigger] t[i].0 != k by {
            assert(t[i] == s[i + 1]);
        }
        lemma_lookup_absent(t, k);
    }
}

/// Sorted entries are fixed by what each name reads: two sorted sequences that give the
/// same value for every name are the same, whatever order the pairs came in.
pub proof fn lemma_same_lookups_same_entries(a: Seq<Entry>, b: Seq<Entry>)
    requires
        strictly_sorted(a),
        strictly_sorted(b),
        forall|k: Seq<char>| #[trigger] lookup(a, k) == lookup(b, k),
    ensures
        a == b,
    decreases a.len() + b.len(),
{
    if a.len() == 0 && b.len() == 0 {
        assert(a =~= b);
    } else if a.len() == 0 {
        lemma_lookup_found(b, 0);
        assert(lookup(a, b[0].0) is None);
    } else if b.len() == 0 {
        lemma_lookup_found(a, 0);
        assert(lookup(b, a[0].0) is None);
    } else {
        let ka = a[0].0;
        let kb = b[0].0;
        lemma_lookup_found(a, 0);
        lemma_lookup_found(b, 0);
        if ka != kb {
            lemma_key_lt_total(ka, kb);
            if key_lt(ka, kb) {
                assert forall|i: int| 0 <= i < b.len() implies #[trigger] b[i].0 != ka by {
                    if i > 0 {
                        assert(key_lt(kb, b[i].0));
                        lemma_key_lt_transitive(ka, kb, b[i].0);
                    }
                    lemma_key_lt_irreflexive(ka);
                }
                lemma_lookup_absent(b, ka);
                assert(lookup(a, ka) == lookup(b, ka));
            } else {
                assert forall|i: int| 0 <= i < a.len() implies #[trigger] a[i].0 != kb by {
                    if i > 0 {
                        assert(key_lt(ka, a[i].0));
                        lemma_key_lt_transitive(kb, ka, a[i].0);
                    }
                    lemma_key_lt_irreflexive(kb);
                }
                lemma_lookup_absent(a, kb);
                assert(lookup(a, kb) == lookup(b, kb));
            }
        }
        assert(a[0] == b[0]) by {
            assert(lookup(a, ka) == lookup(b, ka));
        }
        let ta = a.drop_first();
        let tb = b.drop_first();
        assert(strictly_sorted(ta)) by {
            assert forall|x: int, y: int| 0 <= x < y < ta.len() implies key_lt(
                #[trigger] ta[x].0,
                #[trigger] ta[y].0,
            ) by {
                assert(key_lt(a[x + 1].0, a[y + 1].0));
            }
        }
        assert(strictly_sorted(tb)) by {
            assert forall|x: int, y: int| 0 <= x < y < tb.len() implies key_lt(
                #[trigger] tb[x].0,
                #[trigger] tb[y].0,
            ) by {
                assert(key_lt(b[x + 1].0, b[y + 1].0));
            }
        }
        assert forall|k: Seq<char>| #[trigger] lookup(ta, k) == lookup(tb, k) by {
            if k == ka {
                assert forall|i: int| 0 <= i < ta.len() implies #[trigger] ta[i].0 != k by {
                    assert(key_lt(ka, a[i + 1].0));
                    lemma_key_lt_irreflexive(ka);
                }
                assert forall|i: int| 0 <= i < tb.len() implies #[trigger] tb[i].0 != k by {
                    assert(key_lt(kb, b[i + 1].0));
                    lemma_key_lt_irreflexive(kb);
                }
                lemma_lookup_absent(ta, k);
                lemma_lookup_absent(tb, k);
            } else {
                assert(lookup(a, k) == lookup(b, k));
            }
        }
        lemma_same_lookups_same_entries(ta, tb);
        assert(a =~= seq![a[0]] + ta);
        assert(b =~= seq![b[0]] + tb);
    }
}


/// Every name after storing under `k` is `k` or a name that was there before.
proof fn lemma_insert_entry_names(s: Seq<Entry>, k: Seq<char>, v: Seq<char>)
    ensures
        forall|i: int|
            0 <= i < insert_entry(s, k, v).len() ==> (#[trigger] insert_entry(s, k, v)[i]).0 == k
                || exists|j: int| 0 <= j < s.len() && s[j].0 == insert_entry(s, k, v)[i].0,
    decreases s.len(),
{
    let t = insert_entry(s, k, v);
    if s.len() == 0 {
    } else if s[0].0 == k {
        assert forall|i: int| 0 <= i < t.len() implies (#[trigger] t[i]).0 == k || exists|j: int|
            0 <= j < s.len() && s[j].0 == t[i].0 by {
            if i > 0 {
                assert(s[i].0 == t[i].0);
            }
        }
    } else if key_lt(k, s[0].0) {
        assert forall|i: int| 0 <= i < t.len() implies (#[trigger] t[i]).0 == k || exists|j: int|
            0 <= j < s.len() && s[j].0 == t[i].0 by {
            if i > 0 {
                assert(s[i - 1].0 == t[i].0);
            }
        }
    } else {
        let r = s.drop_first();
        lemma_insert_entry_names(r, k, v);
        assert forall|i: int| 0 <= i < t.len() implies (#[trigger] t[i]).0 == k || exists|j: int|
            0 <= j < s.len() && s[j].0 == t[i].0 by {
            if i == 0 {
                assert(s[0].0 == t[0].0);
            } else {
                assert(t[i] == insert_entry(r, k, v)[i - 1]);
                if insert_entry(r, k, v)[i - 1].0 != k {
                    let j = choose|j: int| 0 <= j < r.len() && r[j].0 == insert_entry(r, k, v)[i - 1].0;
                    assert(s[j + 1].0 == t[i].0);
                }
            }
        }
    }
}

/// Storing keeps the names in strictly ascending order.
pub proof fn lemma_insert_entry_sorted(s: Seq<Entry>, k: Seq<char>, v: Seq<char>)
    requires
        strictly_sorted(s),
    ensures
        strictly_sorted(insert_entry(s, k, v)),
    decreases s.len(),
{
    let t = insert_entry(s, k, v);
    if s.len() == 0 {
    } else if s[0].0 == k {
        assert forall|a: int, b: int| 0 <= a < b < t.len() implies key_lt(
            #[trigger] t[a].0,
            #[trigger] t[b].0,
        ) by {
            assert(key_lt(s[a].0, s[b].0));
        }
    } else if key_lt(k, s[0].0) {
        assert forall|a: int, b: int| 0 <= a < b < t.len() implies key_lt(
            #[trigger] t[a].0,
            #[trigger] t[b].0,
        ) by {
            if a == 0 {
                if b > 1 {
                    assert(key_lt(s[0].0, s[b - 1].0));
                    lemma_key_lt_transitive(k, s[0].0, s[b - 1].0);
                }
            } else {
                assert(key_lt(s[a - 1].0, s[b - 1].0));
            }
        }
    } else {
        let r = s.drop_first();
        assert(strictly_sorted(r)) by {
            assert forall|a: int, b: int| 0 <= a < b < r.len() implies key_lt(
                #[trigger] r[a].0,
                #[trigger] r[b].0,
            ) by {
                assert(key_lt(s[a + 1].0, s[b + 1].0));
            }
        }
        lemma_insert_entry_sorted(r, k, v);
        lemma_insert_entry_names(r, k, v);
        lemma_key_lt_total(k, s[0].0);
        let u = insert_entry(r, k, v);
        assert forall|a: int, b: int| 0 <= a < b < t.len() implies key_lt(
            #[trigger] t[a].0,
            #[trigger] t[b].0,
        ) by {
            assert(t[b] == u[b - 1]);
            if a == 0 {
                assert(t[0] == s[0]);
                if u[b - 1].0 != k {
                    let j = choose|j: int| 0 <= j < r.len() && r[j].0 == u[b - 1].0;
                    assert(key_lt(s[0].0, s[j + 1].0));
                }
            } else {
                assert(t[a] == u[a - 1]);
            }
        }
    }
}

/// The last value that the pairs give to `k`.
pub open spec fn last_value(pairs: Seq<Entry>, k: Seq<char>) -> Option<Seq<char>>
    decreases pairs.len(),
{
    if pairs.len() == 0 {
        None
    } else if pairs.last().0 == k {
        Some(pairs.last().1)
    } else {
        last_value(pairs.drop_last(), k)
    }
}

/// Storing pairs in turn gives a sorted map in which each name reads its last value.
pub proof fn lemma_insert_all(pairs: Seq<Entry>)
    ensures
        strictly_sorted(insert_all(pairs)),
        forall|k: Seq<char>| #[trigger] lookup(insert_all(pairs), k) == last_value(pairs, k),
    decreases pairs.len(),
{
    if pairs.len() > 0 {
        let p = pairs.drop_last();
        lemma_insert_all(p);
        let e = pairs.last();
        lemma_insert_entry_sorted(insert_all(p), e.0, e.1);
        assert forall|k: Seq<char>| #[trigger] lookup(insert_all(pairs), k) == last_value(pairs, k) by {
            if k == e.0 {
                lemma_lookup_inserted(insert_all(p), e.0, e.1);
            } else {
                lemma_lookup_other(insert_all(p), e.0, e.1, k);
            }
        }
    }
}

/// The parameters built from pairs depend only on the last value each name gets, not on
/// the order in which the names come: they are always kept in ascending name order.
pub proof fn lemma_insert_all_order_independent(a: Seq<Entry>, b: Seq<Entry>)
    requires
        forall|k: Seq<char>| #[trigger] last_value(a, k) == last_value(b, k),
    ensures
        insert_all(a) == insert_all(b),
{
    lemma_insert_all(a);
    lemma_insert_all(b);
    assert forall|k: Seq<char>| #[trigger] lookup(insert_all(a), k) == lookup(insert_all(b), k) by {
        assert(last_value(a, k) == last_value(b, k));
    }
    lemma_same_lookups_same_entries(insert_all(a), insert_all(b));
}

} // verus!
