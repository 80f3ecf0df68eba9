use vstd::prelude::*;

verus! {

/// A table row: it has an identity (its primary key) and an order key, the one a
/// table's listings are sorted by.
pub trait Row: Sized {
    /// The row's primary key.
    spec fn row_id(self) -> Seq<char>;

    /// Strict order of the rows' sort keys.
    spec fn key_lt(self, other: Self) -> bool;

    proof fn lemma_key_lt_transitive(a: Self, b: Self, c: Self)
        requires
            a.key_lt(b),
            b.key_lt(c),
        ensures
            a.key_lt(c),
    ;

    proof fn lemma_key_lt_asymmetric(a: Self, b: Self)
        requires
            a.key_lt(b),
        ensures
            !b.key_lt(a),
    ;

    fn comes_before(&self, other: &Self) -> (r: bool)
        ensures
            r == self.key_lt(*other),
    ;

    fn has_id(&self, id: &str) -> (r: bool)
        ensures
            r == (self.row_id() == id@),
    ;

    fn copy_row(&self) -> (r: Self)
        ensures
            r == *self,
    ;

    fn id_text(&self) -> (r: &str)
        ensures
            r@ == self.row_id(),
    ;
}

/// No row is placed after a row whose key is greater than its own.
pub open spec fn sorted<T: Row>(s: Seq<T>) -> bool {
    forall|i: int, j: int| 0 <= i < j < s.len() ==> !(#[trigger] s[j]).key_lt(#[trigger] s[i])
}

/// No two rows share a primary key.
pub open spec fn unique<T: Row>(s: Seq<T>) -> bool {
    forall|i: int, j: int|
        0 <= i < s.len() && 0 <= j < s.len() && i != j ==> (#[trigger] s[i]).row_id() != (
        #[trigger] s[j]).row_id()
}

/// A table: sorted by its key and without duplicate primary keys.
pub open spec fn table_ok<T: Row>(s: Seq<T>) -> bool {
    sorted(s) && unique(s)
}

/// Whether some row has the given primary key.
pub open spec fn has_row<T: Row>(s: Seq<T>, id: Seq<char>) -> bool {
    exists|i: int| 0 <= i < s.len() && (#[trigger] s[i]).row_id() == id
}

/// No two rows share a primary key.
pub open spec fn keys_distinct<T: Row>(s: Seq<T>) -> bool {
    forall|i: int, j: int|
        0 <= i < j < s.len() ==> (#[trigger] s[i]).row_id() != (#[trigger] s[j]).row_id()
}

/// Where a row goes in a sorted table: before the first row whose key is greater.
pub open spec fn insert_pos<T: Row>(s: Seq<T>, x: T) -> int
    decreases s.len(),
{
    if s.len() == 0 {
        0
    } else if x.key_lt(s[0]) {
        0
    } else {
        1 + insert_pos(s.drop_first(), x)
    }
}

/// The table after a row is inserted at its place.
pub open spec fn insert_sorted<T: Row>(s: Seq<T>, x: T) -> Seq<T> {
    s.insert(insert_pos(s, x), x)
}

proof fn lemma_insert_pos<T: Row>(s: Seq<T>, x: T, p: int)
    requires
        0 <= p <= s.len(),
        forall|j: int| 0 <= j < p ==> !x.key_lt(#[trigger] s[j]),
        p == s.len() || x.key_lt(s[p]),
    ensures
        insert_pos(s, x) == p,
    decreases p,
{
    if p > 0 {
        assert(!x.key_lt(s[0]));
        assert forall|j: int| 0 <= j < p - 1 implies !x.key_lt(#[trigger] s.drop_first()[j]) by {
            assert(s.drop_first()[j] == s[j + 1]);
        }
        lemma_insert_pos(s.drop_first(), x, p - 1);
    }
}

pub proof fn lemma_insert_pos_bounds<T: Row>(s: Seq<T>, x: T)
    ensures
        0 <= insert_pos(s, x) <= s.len(),
    decreases s.len(),
{
    if s.len() > 0 && !x.key_lt(s[0]) {
        lemma_insert_pos_bounds(s.drop_first(), x);
    }
}

/// A table that a row was put into has the row's key, and every key it had before.
pub proof fn lemma_insert_sorted_keys<T: Row>(s: Seq<T>, x: T)
    ensures
        has_row(insert_sorted(s, x), x.row_id()),
        forall|id: Seq<char>| has_row(s, id) ==> #[trigger] has_row(insert_sorted(s, x), id),
        forall|id: Seq<char>|
            #[trigger] has_row(insert_sorted(s, x), id) ==> has_row(s, id) || x.row_id() == id,
{
    let p = insert_pos(s, x);
    lemma_insert_pos_bounds(s, x);
    let t = s.insert(p, x);
    s.insert_ensures(p, x);
    assert(t[p] == x);
    assert forall|id: Seq<char>| has_row(s, id) implies #[trigger] has_row(t, id) by {
        let i = choose|i: int| 0 <= i < s.len() && (#[trigger] s[i]).row_id() == id;
        if i < p {
            assert(t[i] == s[i]);
        } else {
            assert(t[i + 1] == s[i]);
        }
    }
    assert forall|id: Seq<char>| #[trigger] has_row(t, id) implies has_row(s, id) || x.row_id()
        == id by {
        let i = choose|i: int| 0 <= i < t.len() && (#[trigger] t[i]).row_id() == id;
        if i < p {
            assert(t[i] == s[i]);
        } else if i > p {
            assert(t[i] == s[i - 1]);
        }
    }
}

/// Replacing a row by one with the same key keeps the table's keys.
pub proof fn lemma_update_keys<T: Row>(s: Seq<T>, i: int, x: T)
    requires
        0 <= i < s.len(),
        x.row_id() == s[i].row_id(),
    ensures
        forall|id: Seq<char>| #[trigger] has_row(s.update(i, x), id) <==> has_row(s, id),
{
    let t = s.update(i, x);
    assert forall|id: Seq<char>| #[trigger] has_row(t, id) <==> has_row(s, id) by {
        if has_row(s, id) {
            let j = choose|j: int| 0 <= j < s.len() && (#[trigger] s[j]).row_id() == id;
            assert(t[j].row_id() == id);
        }
        if has_row(t, id) {
            let j = choose|j: int| 0 <= j < t.len() && (#[trigger] t[j]).row_id() == id;
            assert(s[j].row_id() == id);
        }
    }
}

/// Inserting a row whose key is new keeps a table sorted and unique.
pub proof fn lemma_insert_sorted_ok<T: Row>(s: Seq<T>, x: T)
    requires
        table_ok(s),
        !has_row(s, x.row_id()),
    ensures
        table_ok(insert_sorted(s, x)),
        insert_sorted(s, x).len() == s.len() + 1,
        forall|r: T| #[trigger] insert_sorted(s, x).contains(r) <==> (s.contains(r) || r == x),
{
    let p = insert_pos(s, x);
    lemma_insert_pos_bounds(s, x);
    lemma_insert_pos_facts(s, x);
    let t = s.insert(p, x);
    s.insert_ensures(p, x);
    assert forall|i: int, j: int| 0 <= i < j < t.len() implies !(#[trigger] t[j]).key_lt(
        #[trigger] t[i],
    ) by {
        if j < p {
        } else if j == p {
            assert(t[i] == s[i]);
        } else if i == p {
            assert(t[j] == s[j - 1]);
            if p < s.len() {
                assert(x.key_lt(s[p]));
                if j - 1 > p {
                    assert(!s[j - 1].key_lt(s[p]));
                }
                if s[j - 1].key_lt(x) {
                    T::lemma_key_lt_transitive(s[j - 1], x, s[p]);
                    if j - 1 == p {
                        T::lemma_key_lt_asymmetric(s[p], x);
                    }
                }
            }
        } else if i < p {
            assert(t[i] == s[i]);
            assert(t[j] == s[j - 1]);
        } else {
            assert(t[i] == s[i - 1]);
            assert(t[j] == s[j - 1]);
        }
    }
    assert forall|i: int, j: int|
        0 <= i < t.len() && 0 <= j < t.len() && i != j implies (#[trigger] t[i]).row_id() != (
        #[trigger] t[j]).row_id() by {
        if i != p && j != p {
            let si = if i < p { i } else { i - 1 };
            let sj = if j < p { j } else { j - 1 };
            assert(t[i] == s[si]);
            assert(t[j] == s[sj]);
        } else if i == p {
            let sj = if j < p { j } else { j - 1 };
            assert(t[j] == s[sj]);
        } else {
            let si = if i < p { i } else { i - 1 };
            assert(t[i] == s[si]);
        }
    }
    assert forall|r: T| #[trigger] t.contains(r) <==> (s.contains(r) || r == x) by {
        if t.contains(r) {
            let k = choose|k: int| 0 <= k < t.len() && t[k] == r;
            if k < p {
                assert(s[k] == r);
            } else if k > p {
                assert(s[k - 1] == r);
            }
        }
        if s.contains(r) {
            let k = choose|k: int| 0 <= k < s.len() && s[k] == r;
            if k < p {
                assert(t[k] == r);
            } else {
                assert(t[k + 1] == r);
            }
        }
        if r == x {
            assert(t[p] == r);
        }
    }
}

proof fn lemma_insert_pos_facts<T: Row>(s: Seq<T>, x: T)
    ensures
        forall|j: int| 0 <= j < insert_pos(s, x) ==> !x.key_lt(#[trigger] s[j]),
        insert_pos(s, x) == s.len() || x.key_lt(s[insert_pos(s, x)]),
    decreases s.len(),
{
    lemma_insert_pos_bounds(s, x);
    if s.len() > 0 && !x.key_lt(s[0]) {
        lemma_insert_pos_facts(s.drop_first(), x);
        lemma_insert_pos_bounds(s.drop_first(), x);
        assert forall|j: int| 0 <= j < insert_pos(s, x) implies !x.key_lt(#[trigger] s[j]) by {
            if j > 0 {
                assert(s[j] == s.drop_first()[j - 1]);
            }
        }
        if insert_pos(s, x) < s.len() {
            assert(s[insert_pos(s, x)] == s.drop_first()[insert_pos(s.drop_first(), x)]);
        }
    }
}

/// Inserts a row at its place in a sorted table.
pub fn sorted_insert<T: Row>(v: &mut Vec<T>, x: T)
    ensures
        final(v)@ == insert_sorted(old(v)@, x),
{
    let n = v.len();
    let mut p: usize = 0;
    while p < n && !x.comes_before(&v[p])
        invariant
            n == v@.len(),
            p <= n,
            forall|j: int| 0 <= j < p ==> !x.key_lt(#[trigger] v@[j]),
        decreases n - p,
    {
        p += 1;
    }
    proof {
        lemma_insert_pos(v@, x, p as int);
    }
    v.insert(p, x);
}

/// The index of the row with the given primary key, if any.
pub fn find_row<T: Row>(v: &Vec<T>, id: &str) -> (r: Option<usize>)
    ensures
        match r {
            Some(i) => i < v@.len() && v@[i as int].row_id() == id@,
            None => !has_row(v@, id@),
        },
{
    let mut i: usize = 0;
    while i < v.len()
        invariant
            i <= v@.len(),
            forall|j: int| 0 <= j < i ==> (#[trigger] v@[j]).row_id() != id@,
        decreases v@.len() - i,
    {
        if v[i].has_id(id) {
            return Some(i);
        }
        i += 1;
    }
    None
}

/// In a table without duplicate keys, the row found for a key is the only one with it.
pub proof fn lemma_unique_index<T: Row>(s: Seq<T>, i: int, j: int)
    requires
        unique(s),
        0 <= i < s.len(),
        0 <= j < s.len(),
        s[i].row_id() == s[j].row_id(),
    ensures
        i == j,
{
}

/// A predicate on rows, with an executable test.
pub trait RowPred<T> {
    spec fn holds(&self, r: T) -> bool;

    fn test(&self, r: &T) -> (b: bool)
        ensures
            b == self.holds(*r),
    ;
}

/// The rows that satisfy `p`, in their table order.
pub fn filter_rows<T: Row, P: RowPred<T>>(v: &Vec<T>, p: &P) -> (r: Vec<T>)
    ensures
        r@ == v@.filter(|x: T| p.holds(x)),
        sorted(v@) ==> sorted(r@),
        unique(v@) ==> unique(r@),
{
    let ghost pred = |x: T| p.holds(x);
    let mut r: Vec<T> = Vec::new();
    let n = v.len();
    let mut k: usize = 0;
    while k < n
        invariant
            n == v@.len(),
            k <= n,
            pred == (|x: T| p.holds(x)),
            r@ == v@.take(k as int).filter(pred),
            sorted(v@) ==> sorted(r@),
            sorted(v@) ==> forall|m: int, j: int|
                0 <= m < r@.len() && k <= j < n ==> !(#[trigger] v@[j]).key_lt(#[trigger] r@[m]),
            unique(v@) ==> unique(r@),
            unique(v@) ==> forall|m: int, j: int|
                0 <= m < r@.len() && k <= j < n ==> (#[trigger] v@[j]).row_id() != (
                #[trigger] r@[m]).row_id(),
        decreases n - k,
    {
        let ghost old_r = r@;
        proof {
            assert(v@.take(k + 1) =~= v@.take(k as int).push(v@[k as int]));
            v@.take(k as int).lemma_filter_push(v@[k as int], pred);
        }
        if p.test(&v[k]) {
            r.push(v[k].copy_row());
            proof {
                if sorted(v@) {
                    assert forall|i: int, j: int| 0 <= i < j < r@.len() implies !(
                    #[trigger] r@[j]).key_lt(#[trigger] r@[i]) by {
                        if j == r@.len() - 1 {
                            assert(r@[i] == old_r[i]);
                        } else {
                            assert(r@[i] == old_r[i]);
                            assert(r@[j] == old_r[j]);
                        }
                    }
                    assert forall|m: int, j: int|
                        0 <= m < r@.len() && k + 1 <= j < n implies !(
                        #[trigger] v@[j]).key_lt(#[trigger] r@[m]) by {
                        if m < old_r.len() {
                            assert(r@[m] == old_r[m]);
                        } else {
                            assert(r@[m] == v@[k as int]);
                        }
                    }
                }
                if unique(v@) {
                    assert forall|i: int, j: int|
                        0 <= i < r@.len() && 0 <= j < r@.len() && i != j implies (
                    #[trigger] r@[i]).row_id() != (#[trigger] r@[j]).row_id() by {
                        if i < old_r.len() && j < old_r.len() {
                            assert(r@[i] == old_r[i]);
                            assert(r@[j] == old_r[j]);
                        } else if i < old_r.len() {
                            assert(r@[i] == old_r[i]);
                            assert(r@[j] == v@[k as int]);
                        } else {
                            assert(r@[j] == old_r[j]);
                            assert(r@[i] == v@[k as int]);
                        }
                    }
                    assert forall|m: int, j: int|
                        0 <= m < r@.len() && k + 1 <= j < n implies (#[trigger] v@[j]).row_id()
                        != (#[trigger] r@[m]).row_id() by {
                        if m < old_r.len() {
                            assert(r@[m] == old_r[m]);
                        } else {
                            assert(r@[m] == v@[k as int]);
                        }
                    }
                }
            }
        }
        k += 1;
    }
    proof {
        assert(v@.take(n as int) =~= v@);
    }
    r
}


/// A table from rows in any order: each row is put at its place. Two rows with one primary
/// key are refused.
#[verifier::loop_isolation(false)]
pub fn build_table<T: Row>(rows: Vec<T>) -> (r: Option<Vec<T>>)
    ensures
        r matches Some(t) ==> table_ok(t@) && t@.len() == rows@.len() && forall|x: T|
            #[trigger] t@.contains(x) <==> rows@.contains(x),
        r is None <==> !keys_distinct(rows@),
{
    let ghost all = rows@;
    let mut rows = rows;
    let mut table: Vec<T> = Vec::new();
    let mut k: usize = 0;
    let n = rows.len();
    proof {
        assert(all.skip(0) =~= all);
    }
    while k < n
        invariant
            n == all.len(),
            rows@ == all.skip(k as int),
            k <= n,
            table_ok(table@),
            table@.len() == k,
            forall|x: T| #[trigger] table@.contains(x) <==> all.take(k as int).contains(x),
            forall|i: int, j: int|
                0 <= i < j < k ==> (#[trigger] all[i]).row_id() != (#[trigger] all[j]).row_id(),
        decreases n - k,
    {
        let x = rows.remove(0);
        proof {
            assert(x == all[k as int]);
            assert(rows@ =~= all.skip(k + 1));
        }
        match find_row(&table, x.id_text()) {
            Some(i) => {
                proof {
                    let y = table@[i as int];
                    assert(table@.contains(y));
                    assert(all.take(k as int).contains(y));
                    let t0 = all.take(k as int);
                    let a = choose|a: int| 0 <= a < t0.len() && t0[a] == y;
                    assert(all[a] == y);
                    assert(all[k as int] == x);
                    assert(0 <= a < k < all.len());
                    assert(all[a].row_id() == all[k as int].row_id());
                }
                return None;
            },
            None => {
                proof {
                    lemma_insert_sorted_ok(table@, x);
                    assert forall|z: T| #[trigger] insert_sorted(table@, x).contains(z) <==> all.take(
                        k + 1,
                    ).contains(z) by {
                        assert(all.take(k + 1) =~= all.take(k as int).push(x));
                        if all.take(k + 1).contains(z) && z != x {
                            let t1 = all.take(k + 1);
                            let j = choose|j: int| 0 <= j < t1.len() && t1[j] == z;
                            assert(j < k);
                            assert(all.take(k as int)[j] == z);
                        }
                        if all.take(k as int).contains(z) {
                            let t0 = all.take(k as int);
                            let j = choose|j: int| 0 <= j < t0.len() && t0[j] == z;
                            assert(all.take(k + 1)[j] == z);
                        }
                        if z == x {
                            assert(all.take(k + 1)[k as int] == x);
                        }
                    }
                    assert forall|i: int| 0 <= i < k implies (#[trigger] all[i]).row_id()
                        != all[k as int].row_id() by {
                        assert(all.take(k as int)[i] == all[i]);
                        assert(all.take(k as int).contains(all[i]));
                        assert(table@.contains(all[i]));
                        if all[i].row_id() == x.row_id() {
                            let p = choose|p: int| 0 <= p < table@.len() && table@[p] == all[i];
                            assert(has_row(table@, x.row_id()));
                        }
                    }
                }
                sorted_insert(&mut table, x);
            },
        }
        k += 1;
    }
    proof {
        assert(all.take(n as int) =~= all);
    }
    Some(table)
}

/// Filtering twice keeps what both predicates keep.
pub proof fn lemma_filter_twice<A>(s: Seq<A>, p: spec_fn(A) -> bool, q: spec_fn(A) -> bool)
    ensures
        s.filter(p).filter(q) == s.filter(|x: A| p(x) && q(x)),
    decreases s.len(),
{
    let pq = |x: A| p(x) && q(x);
    if s.len() == 0 {
        reveal(Seq::filter);
        assert(s.filter(p) =~= s);
        assert(s.filter(pq) =~= s);
        assert(s.filter(p).filter(q) =~= s);
    } else {
        let init = s.drop_last();
        let x = s.last();
        lemma_filter_twice(init, p, q);
        assert(s =~= init.push(x));
        init.lemma_filter_push(x, p);
        init.lemma_filter_push(x, pq);
        if p(x) {
            init.filter(p).lemma_filter_push(x, q);
        }
    }
}

/// A filter that keeps every item keeps the sequence.
pub proof fn lemma_filter_keeps_all<A>(s: Seq<A>, p: spec_fn(A) -> bool)
    requires
        forall|x: A| #[trigger] p(x),
    ensures
        s.filter(p) == s,
    decreases s.len(),
{
    if s.len() == 0 {
        reveal(Seq::filter);
        assert(s.filter(p) =~= s);
    } else {
        lemma_filter_keeps_all(s.drop_last(), p);
        assert(s =~= s.drop_last().push(s.last()));
        s.drop_last().lemma_filter_push(s.last(), p);
    }
}

} // verus!
