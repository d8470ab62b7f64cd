//! What every table's records have in common: named text fields by which rows
//! are selected, a way to copy a row, and (for the listed kinds) the order in
//! which they are listed. The generic selection, deletion, lookup and sorting
//! of rows are proved here once for all tables.

use vstd::prelude::*;

verus! {

broadcast use vstd::seq_lib::group_seq_properties;

/// The text fields by which rows are selected. `Id` is the table's primary
/// key (the key of a setting).
#[derive(Debug, Clone, Copy, PartialEq, Eq)]
pub enum Field {
    Id,
    TeamId,
    ProjectId,
    ColumnId,
    TaskId,
    UserId,
    TagId,
}

/// A record of a table.
pub trait Row: Sized {
    /// The value of field `f`, where the record has that field.
    spec fn field_spec(&self, f: Field) -> Option<Seq<char>>;

    fn field(&self, f: Field) -> (r: Option<&String>)
        ensures
            match r {
                Some(s) => self.field_spec(f) == Some(s@),
                None => self.field_spec(f) is None,
            },
    ;

    fn duplicate(&self) -> (r: Self)
        ensures
            r == *self,
    ;
}

/// A record kind with the order in which a listing returns it.
pub trait Ordered: Sized {
    /// `self` may be listed before `other`.
    spec fn ord_le(&self, other: &Self) -> bool;

    fn ord_le_exec(&self, other: &Self) -> (r: bool)
        ensures
            r == self.ord_le(other),
    ;

    proof fn ord_le_total(a: &Self, b: &Self)
        ensures
            a.ord_le(b) || b.ord_le(a),
    ;

    proof fn ord_le_transitive(a: &Self, b: &Self, c: &Self)
        requires
            a.ord_le(b),
            b.ord_le(c),
        ensures
            a.ord_le(c),
    ;
}

/// The rows whose field `f` holds `v`.
pub open spec fn field_is<T: Row>(f: Field, v: Seq<char>) -> spec_fn(T) -> bool {
    |r: T| r.field_spec(f) == Some(v)
}

/// The rows whose field `f` does not hold `v`.
pub open spec fn field_is_not<T: Row>(f: Field, v: Seq<char>) -> spec_fn(T) -> bool {
    |r: T| r.field_spec(f) != Some(v)
}

/// No two rows have the same `key`.
pub open spec fn distinct_by<T, K>(s: Seq<T>, key: spec_fn(T) -> K) -> bool {
    forall|i: int, j: int|
        #![trigger s[i], s[j]]
        0 <= i < s.len() && 0 <= j < s.len() && i != j ==> key(s[i]) != key(s[j])
}

/// The primary key of a row.
pub open spec fn primary_key<T: Row>() -> spec_fn(T) -> Option<Seq<char>> {
    |r: T| r.field_spec(Field::Id)
}

/// The pair of fields `f` and `g` of a row.
pub open spec fn pair_key<T: Row>(f: Field, g: Field) -> spec_fn(T) -> (
    Option<Seq<char>>,
    Option<Seq<char>>,
) {
    |r: T| (r.field_spec(f), r.field_spec(g))
}

/// No two rows share a primary key.
pub open spec fn keys_unique<T: Row>(s: Seq<T>) -> bool {
    distinct_by(s, primary_key::<T>())
}

/// No two rows share both field `f` and field `g`.
pub open spec fn pairs_unique<T: Row>(s: Seq<T>, f: Field, g: Field) -> bool {
    distinct_by(s, pair_key::<T>(f, g))
}

/// Some row has primary key `v`.
pub open spec fn has_key<T: Row>(s: Seq<T>, v: Seq<char>) -> bool {
    exists|i: int| 0 <= i < s.len() && #[trigger] s[i].field_spec(Field::Id) == Some(v)
}

/// `i` is the first row whose field `f` holds `v`.
pub open spec fn is_first_match<T: Row>(s: Seq<T>, f: Field, v: Seq<char>, i: int) -> bool {
    &&& 0 <= i < s.len()
    &&& s[i].field_spec(f) == Some(v)
    &&& forall|j: int| 0 <= j < i ==> #[trigger] s[j].field_spec(f) != Some(v)
}

/// No row's field `f` holds `v`.
pub open spec fn no_match<T: Row>(s: Seq<T>, f: Field, v: Seq<char>) -> bool {
    forall|j: int| 0 <= j < s.len() ==> #[trigger] s[j].field_spec(f) != Some(v)
}

/// The rows are in listing order.
pub open spec fn rows_sorted<T: Ordered>(s: Seq<T>) -> bool {
    forall|i: int, j: int| 0 <= i < j < s.len() ==> #[trigger] s[i].ord_le(&s[j])
}

/// Keeping a subset of rows keeps them distinct.
pub proof fn lemma_filter_keeps_distinct<T, K>(s: Seq<T>, key: spec_fn(T) -> K, p: spec_fn(T) -> bool)
    requires
        distinct_by(s, key),
    ensures
        distinct_by(s.filter(p), key),
    decreases s.len(),
{
    reveal(Seq::filter);
    if s.len() > 0 {
        let init = s.drop_last();
        assert(distinct_by(init, key)) by {
            assert forall|i: int, j: int|
                #![trigger init[i], init[j]]
                0 <= i < init.len() && 0 <= j < init.len() && i != j implies key(init[i]) != key(
                init[j],
            ) by {
                assert(init[i] == s[i] && init[j] == s[j]);
            }
        }
        lemma_filter_keeps_distinct(init, key, p);
        let f = init.filter(p);
        if p(s.last()) {
            let g = f.push(s.last());
            assert forall|i: int, j: int|
                #![trigger g[i], g[j]]
                0 <= i < g.len() && 0 <= j < g.len() && i != j implies key(g[i]) != key(g[j]) by {
                if i == g.len() - 1 || j == g.len() - 1 {
                    let k = if i == g.len() - 1 {
                        j
                    } else {
                        i
                    };
                    assert(f.contains(g[k]));
                    init.lemma_filter_contains_rev(p, g[k]);
                    let m = choose|m: int| 0 <= m < init.len() && init[m] == g[k];
                    assert(s[m] == g[k]);
                    assert(s[s.len() - 1] == g[g.len() - 1]);
                } else {
                    assert(g[i] == f[i] && g[j] == f[j]);
                }
            }
        }
    }
}

/// The rows of `v` whose field `f` holds `val`, in table order.
pub fn rows_where<T: Row>(v: &Vec<T>, f: Field, val: &String) -> (r: Vec<T>)
    ensures
        r@ == v@.filter(field_is(f, val@)),
{
    let ghost p = field_is::<T>(f, val@);
    let mut out: Vec<T> = Vec::new();
    let mut i: usize = 0;
    while i < v.len()
        invariant
            i <= v.len(),
            p == field_is::<T>(f, val@),
            out@ == v@.take(i as int).filter(p),
        decreases v.len() - i,
    {
        proof {
            assert(v@.take(i + 1) =~= v@.take(i as int).push(v@[i as int]));
            v@.take(i as int).lemma_filter_push(v@[i as int], p);
        }
        let matches = match v[i].field(f) {
            Some(s) => String::eq(s, val),
            None => false,
        };
        if matches {
            out.push(v[i].duplicate());
        }
        i = i + 1;
    }
    assert(v@.take(v@.len() as int) =~= v@);
    out
}

/// Deletes the rows of `v` whose field `f` holds `val`, keeping the others in
/// order.
pub fn delete_rows_where<T: Row>(v: &mut Vec<T>, f: Field, val: &String)
    ensures
        final(v)@ == old(v)@.filter(field_is_not(f, val@)),
{
    let ghost p = field_is_not::<T>(f, val@);
    let mut out: Vec<T> = Vec::new();
    let mut i: usize = 0;
    while i < v.len()
        invariant
            i <= v.len(),
            v@ == old(v)@,
            p == field_is_not::<T>(f, val@),
            out@ == v@.take(i as int).filter(p),
        decreases v.len() - i,
    {
        proof {
            assert(v@.take(i + 1) =~= v@.take(i as int).push(v@[i as int]));
            v@.take(i as int).lemma_filter_push(v@[i as int], p);
        }
        let matches = match v[i].field(f) {
            Some(s) => String::eq(s, val),
            None => false,
        };
        if !matches {
            out.push(v[i].duplicate());
        }
        i = i + 1;
    }
    assert(v@.take(v@.len() as int) =~= v@);
    *v = out;
}

/// The index of the first row of `v` whose field `f` holds `val`.
pub fn find_row<T: Row>(v: &Vec<T>, f: Field, val: &String) -> (r: Option<usize>)
    ensures
        match r {
            Some(i) => is_first_match(v@, f, val@, i as int),
            None => no_match(v@, f, val@),
        },
{
    let mut i: usize = 0;
    while i < v.len()
        invariant
            i <= v.len(),
            forall|j: int| 0 <= j < i ==> #[trigger] v@[j].field_spec(f) != Some(val@),
        decreases v.len() - i,
    {
        let matches = match v[i].field(f) {
            Some(s) => String::eq(s, val),
            None => false,
        };
        if matches {
            return Some(i);
        }
        i = i + 1;
    }
    None
}

/// Whether some row of `v` has primary key `val`.
pub fn key_taken<T: Row>(v: &Vec<T>, val: &String) -> (r: bool)
    ensures
        r == has_key(v@, val@),
{
    match find_row(v, Field::Id, val) {
        Some(i) => {
            assert(v@[i as int].field_spec(Field::Id) == Some(val@));
            true
        },
        None => false,
    }
}

/// Sorts rows into listing order: the same rows, each no later in the order
/// than the next. The order among rows that the order does not tell apart is
/// left open, as a listing leaves it.
pub fn sort_rows<T: Ordered>(v: Vec<T>) -> (r: Vec<T>)
    ensures
        r@.to_multiset() == v@.to_multiset(),
        rows_sorted(r@),
{
    broadcast use vstd::multiset::group_multiset_axioms;
    broadcast use vstd::seq_lib::to_multiset_insert, vstd::seq_lib::to_multiset_remove;

    let ghost orig = v@;
    let mut out: Vec<T> = Vec::new();
    let mut rest = v;
    proof {
        assert(out@.to_multiset() =~= vstd::multiset::Multiset::empty());
    }
    while rest.len() > 0
        invariant
            out@.to_multiset().add(rest@.to_multiset()) == orig.to_multiset(),
            rows_sorted(out@),
        decreases rest.len(),
    {
        let ghost rest0 = rest@;
        let x = rest.remove(0);
        let mut k: usize = 0;
        while k < out.len() && out[k].ord_le_exec(&x)
            invariant
                k <= out.len(),
                forall|m: int| 0 <= m < k ==> #[trigger] out@[m].ord_le(&x),
            decreases out.len() - k,
        {
            k = k + 1;
        }
        let ghost before = out@;
        out.insert(k, x);
        proof {
            assert(rest0.remove(0) == rest@);
            assert(rest0.to_multiset().remove(x) == rest@.to_multiset());
            assert(out@.to_multiset() == before.to_multiset().insert(x));
            assert(rest0.to_multiset().contains(x)) by {
                assert(rest0[0] == x);
                vstd::seq_lib::to_multiset_contains(rest0, x);
            }
            assert(out@.to_multiset().add(rest@.to_multiset()) =~= before.to_multiset().add(
                rest0.to_multiset(),
            ));
            assert forall|i: int, j: int| 0 <= i < j < out@.len() implies #[trigger] out@[i].ord_le(
                &out@[j],
            ) by {
                if j < k {
                    assert(out@[i] == before[i] && out@[j] == before[j]);
                } else if j == k {
                    assert(out@[i] == before[i]);
                } else if i < k {
                    assert(out@[i] == before[i] && out@[j] == before[j - 1]);
                } else if i == k {
                    assert(out@[j] == before[j - 1]);
                    T::ord_le_total(&before[k as int], &x);
                    if j - 1 > k {
                        T::ord_le_transitive(&x, &before[k as int], &before[j - 1]);
                    }
                } else {
                    assert(out@[i] == before[i - 1] && out@[j] == before[j - 1]);
                }
            }
        }
    }
    proof {
        assert(rest@.to_multiset() =~= vstd::multiset::Multiset::empty());
        assert(out@.to_multiset().add(rest@.to_multiset()) =~= out@.to_multiset());
    }
    out
}

/// The rows whose fields `f` and `g` do not both hold `a` and `b`.
pub open spec fn fields_are_not<T: Row>(f: Field, a: Seq<char>, g: Field, b: Seq<char>) -> spec_fn(
    T,
) -> bool {
    |r: T| !(r.field_spec(f) == Some(a) && r.field_spec(g) == Some(b))
}

fn field_holds<T: Row>(r: &T, f: Field, val: &String) -> (b: bool)
    ensures
        b == (r.field_spec(f) == Some(val@)),
{
    match r.field(f) {
        Some(s) => String::eq(s, val),
        None => false,
    }
}

/// A copy of all rows of `v`.
pub fn copy_rows<T: Row>(v: &Vec<T>) -> (r: Vec<T>)
    ensures
        r@ == v@,
{
    let mut out: Vec<T> = Vec::new();
    let mut i: usize = 0;
    while i < v.len()
        invariant
            i <= v.len(),
            out@ == v@.take(i as int),
        decreases v.len() - i,
    {
        out.push(v[i].duplicate());
        assert(out@ =~= v@.take(i + 1));
        i = i + 1;
    }
    assert(out@ =~= v@);
    out
}

/// Deletes the rows of `v` whose fields `f` and `g` hold `a` and `b`, keeping
/// the others in order.
pub fn delete_rows_where_both<T: Row>(v: &mut Vec<T>, f: Field, a: &String, g: Field, b: &String)
    ensures
        final(v)@ == old(v)@.filter(fields_are_not(f, a@, g, b@)),
{
    let ghost p = fields_are_not::<T>(f, a@, g, b@);
    let mut out: Vec<T> = Vec::new();
    let mut i: usize = 0;
    while i < v.len()
        invariant
            i <= v.len(),
            v@ == old(v)@,
            p == fields_are_not::<T>(f, a@, g, b@),
            out@ == v@.take(i as int).filter(p),
        decreases v.len() - i,
    {
        proof {
            assert(v@.take(i + 1) =~= v@.take(i as int).push(v@[i as int]));
            v@.take(i as int).lemma_filter_push(v@[i as int], p);
        }
        if !(field_holds(&v[i], f, a) && field_holds(&v[i], g, b)) {
            out.push(v[i].duplicate());
        }
        i = i + 1;
    }
    assert(v@.take(v@.len() as int) =~= v@);
    *v = out;
}

/// Some row's fields `f` and `g` hold `a` and `b`.
pub open spec fn has_pair<T: Row>(s: Seq<T>, f: Field, a: Seq<char>, g: Field, b: Seq<char>) -> bool {
    exists|i: int| 0 <= i < s.len() && #[trigger] s[i].field_spec(f) == Some(a) && s[i].field_spec(g) == Some(b)
}

/// Whether some row of `v` has fields `f` and `g` holding `a` and `b`.
pub fn has_row_with_both<T: Row>(v: &Vec<T>, f: Field, a: &String, g: Field, b: &String) -> (r: bool)
    ensures
        r == has_pair(v@, f, a@, g, b@),
{
    let mut i: usize = 0;
    while i < v.len()
        invariant
            i <= v.len(),
            forall|j: int|
                0 <= j < i ==> !(#[trigger] v@[j].field_spec(f) == Some(a@) && v@[j].field_spec(g)
                    == Some(b@)),
        decreases v.len() - i,
    {
        if field_holds(&v[i], f, a) && field_holds(&v[i], g, b) {
            return true;
        }
        i = i + 1;
    }
    false
}

/// Whether no two rows of `v` share a primary key.
pub fn keys_are_unique<T: Row>(v: &Vec<T>) -> (r: bool)
    ensures
        r == keys_unique(v@),
{
    let mut i: usize = 0;
    while i < v.len()
        invariant
            i <= v.len(),
            forall|a: int, b: int|
                #![trigger v@[a], v@[b]]
                0 <= a < i && 0 <= b < v@.len() && a != b ==> v@[a].field_spec(Field::Id)
                    != v@[b].field_spec(Field::Id),
        decreases v.len() - i,
    {
        let mut j: usize = 0;
        while j < v.len()
            invariant
                i < v.len(),
                j <= v.len(),
                forall|b: int|
                    #![trigger v@[b]]
                    0 <= b < j && b != i ==> v@[i as int].field_spec(Field::Id) != v@[b].field_spec(
                        Field::Id,
                    ),
            decreases v.len() - j,
        {
            if j != i {
                let same = match (v[i].field(Field::Id), v[j].field(Field::Id)) {
                    (Some(x), Some(y)) => String::eq(x, y),
                    (None, None) => true,
                    _ => false,
                };
                if same {
                    assert(v@[i as int].field_spec(Field::Id) == v@[j as int].field_spec(Field::Id));
                    assert(!keys_unique(v@)) by {
                        assert(primary_key::<T>()(v@[i as int]) == primary_key::<T>()(
                            v@[j as int],
                        ));
                    }
                    return false;
                }
            }
            j = j + 1;
        }
        i = i + 1;
    }
    true
}

/// Whether no two rows of `v` share both field `f` and field `g`.
pub fn pairs_are_unique<T: Row>(v: &Vec<T>, f: Field, g: Field) -> (r: bool)
    ensures
        r == pairs_unique(v@, f, g),
{
    let mut i: usize = 0;
    while i < v.len()
        invariant
            i <= v.len(),
            forall|a: int, b: int|
                #![trigger v@[a], v@[b]]
                0 <= a < i && 0 <= b < v@.len() && a != b ==> (v@[a].field_spec(f), v@[a].field_spec(g))
                    != (v@[b].field_spec(f), v@[b].field_spec(g)),
        decreases v.len() - i,
    {
        let mut j: usize = 0;
        while j < v.len()
            invariant
                i < v.len(),
                j <= v.len(),
                forall|b: int|
                    #![trigger v@[b]]
                    0 <= b < j && b != i ==> (v@[i as int].field_spec(f), v@[i as int].field_spec(g))
                        != (v@[b].field_spec(f), v@[b].field_spec(g)),
            decreases v.len() - j,
        {
            if j != i {
                let same_f = match (v[i].field(f), v[j].field(f)) {
                    (Some(x), Some(y)) => String::eq(x, y),
                    (None, None) => true,
                    _ => false,
                };
                let same_g = match (v[i].field(g), v[j].field(g)) {
                    (Some(x), Some(y)) => String::eq(x, y),
                    (None, None) => true,
                    _ => false,
                };
                if same_f && same_g {
                    assert(!pairs_unique(v@, f, g)) by {
                        assert(pair_key::<T>(f, g)(v@[i as int]) == pair_key::<T>(f, g)(
                            v@[j as int],
                        ));
                    }
                    return false;
                }
            }
            j = j + 1;
        }
        i = i + 1;
    }
    true
}

/// The message of an insertion into `table` whose primary key is taken.
pub open spec fn unique_violation(table: Seq<char>) -> Seq<char> {
    "UNIQUE constraint failed: "@ + table + ".id"@
}

/// Appends `row` unless its primary key is taken, in which case `v` is left
/// as it is and the error names the table.
pub fn insert_row<T: Row>(v: &mut Vec<T>, row: T, key: &String, table: &str) -> (r: Result<
    (),
    String,
>)
    requires
        row.field_spec(Field::Id) == Some(key@),
    ensures
        match r {
            Ok(()) => !has_key(old(v)@, key@) && final(v)@ == old(v)@.push(row),
            Err(e) => has_key(old(v)@, key@) && final(v)@ == old(v)@ && e@ == unique_violation(
                table@,
            ),
        },
        keys_unique(old(v)@) ==> keys_unique(final(v)@),
{
    if key_taken(v, key) {
        let mut msg = "UNIQUE constraint failed: ".to_owned();
        msg.append(table);
        msg.append(".id");
        return Err(msg);
    }
    v.push(row);
    proof {
        if keys_unique(old(v)@) {
            assert forall|i: int| 0 <= i < old(v)@.len() implies primary_key::<T>()(
                #[trigger] old(v)@[i],
            ) != primary_key::<T>()(row) by {
                if primary_key::<T>()(old(v)@[i]) == primary_key::<T>()(row) {
                    assert(old(v)@[i].field_spec(Field::Id) == Some(key@));
                }
            }
            lemma_push_keeps_distinct(old(v)@, primary_key::<T>(), row);
        }
    }
    Ok(())
}

/// A record kind with a position within its column, project or task.
pub trait Positioned: Sized {
    spec fn pos(&self) -> i32;

    fn position(&self) -> (r: i32)
        ensures
            r == self.pos(),
    ;
}

/// The greatest position among the rows whose field `f` holds `v`.
pub open spec fn max_position<T: Row + Positioned>(s: Seq<T>, f: Field, v: Seq<char>) -> Option<int>
    decreases s.len(),
{
    if s.len() == 0 {
        None
    } else {
        let rest = max_position(s.drop_last(), f, v);
        let p = s.last().pos() as int;
        if s.last().field_spec(f) == Some(v) {
            match rest {
                Some(m) => Some(if m >= p { m } else { p }),
                None => Some(p),
            }
        } else {
            rest
        }
    }
}

/// The position after the last one among the rows whose field `f` holds `v`
/// (0 where there are none).
pub open spec fn next_position<T: Row + Positioned>(s: Seq<T>, f: Field, v: Seq<char>) -> int {
    match max_position(s, f, v) {
        Some(m) => m + 1,
        None => 0,
    }
}

/// The greatest position among the rows of `v` whose field `f` holds `val`.
pub fn find_max_position<T: Row + Positioned>(v: &Vec<T>, f: Field, val: &String) -> (r: Option<i32>)
    ensures
        match r {
            Some(m) => max_position(v@, f, val@) == Some(m as int),
            None => max_position(v@, f, val@) is None,
        },
{
    let mut best: Option<i32> = None;
    let mut i: usize = 0;
    while i < v.len()
        invariant
            i <= v.len(),
            match best {
                Some(m) => max_position(v@.take(i as int), f, val@) == Some(m as int),
                None => max_position(v@.take(i as int), f, val@) is None,
            },
        decreases v.len() - i,
    {
        assert(v@.take(i + 1).drop_last() =~= v@.take(i as int));
        if field_holds(&v[i], f, val) {
            let p = v[i].position();
            best = match best {
                Some(m) => Some(if m >= p { m } else { p }),
                None => Some(p),
            };
        }
        i = i + 1;
    }
    assert(v@.take(v@.len() as int) =~= v@);
    best
}

/// `k` is the first row, among those whose field `f` holds `v`, with the
/// least position.
pub open spec fn is_first_least<T: Row + Positioned>(s: Seq<T>, f: Field, v: Seq<char>, k: int) -> bool {
    &&& 0 <= k < s.len()
    &&& s[k].field_spec(f) == Some(v)
    &&& forall|j: int|
        0 <= j < s.len() && #[trigger] s[j].field_spec(f) == Some(v) ==> s[k].pos() <= s[j].pos()
    &&& forall|j: int|
        0 <= j < k && #[trigger] s[j].field_spec(f) == Some(v) ==> s[k].pos() < s[j].pos()
}

/// The first row, among those of `v` whose field `f` holds `val`, with the
/// least position.
pub fn find_first_least<T: Row + Positioned>(v: &Vec<T>, f: Field, val: &String) -> (r: Option<usize>)
    ensures
        match r {
            Some(k) => is_first_least(v@, f, val@, k as int),
            None => no_match(v@, f, val@),
        },
{
    let mut best: Option<usize> = None;
    let mut i: usize = 0;
    while i < v.len()
        invariant
            i <= v.len(),
            match best {
                Some(k) => {
                    &&& k < i
                    &&& v@[k as int].field_spec(f) == Some(val@)
                    &&& forall|j: int|
                        0 <= j < i && #[trigger] v@[j].field_spec(f) == Some(val@) ==> v@[k as int].pos()
                            <= v@[j].pos()
                    &&& forall|j: int|
                        0 <= j < k && #[trigger] v@[j].field_spec(f) == Some(val@) ==> v@[k as int].pos()
                            < v@[j].pos()
                },
                None => forall|j: int| 0 <= j < i ==> #[trigger] v@[j].field_spec(f) != Some(val@),
            },
        decreases v.len() - i,
    {
        if field_holds(&v[i], f, val) {
            match best {
                Some(k) => {
                    if v[i].position() < v[k].position() {
                        best = Some(i);
                    }
                },
                None => {
                    best = Some(i);
                },
            }
        }
        i = i + 1;
    }
    best
}

/// The rows linked to `x` by a link row whose field `f` holds `a` and whose
/// field `g` holds the key of `x`.
pub open spec fn linked_to<T: Row, L: Row>(links: Seq<L>, f: Field, a: Seq<char>, g: Field) -> spec_fn(
    T,
) -> bool {
    |x: T|
        exists|i: int|
            0 <= i < links.len() && #[trigger] links[i].field_spec(f) == Some(a) && links[i].field_spec(
                g,
            ) == x.field_spec(Field::Id)
}

/// The rows of `rows`, in order, that some link of `links` with field `f` =
/// `a` points to through its field `g`.
pub fn rows_linked<T: Row, L: Row>(rows: &Vec<T>, links: &Vec<L>, f: Field, a: &String, g: Field) -> (r:
    Vec<T>)
    requires
        forall|i: int| 0 <= i < rows@.len() ==> (#[trigger] rows@[i]).field_spec(Field::Id) is Some,
    ensures
        r@ == rows@.filter(linked_to::<T, L>(links@, f, a@, g)),
{
    let ghost p = linked_to::<T, L>(links@, f, a@, g);
    let mut out: Vec<T> = Vec::new();
    let mut i: usize = 0;
    while i < rows.len()
        invariant
            i <= rows.len(),
            p == linked_to::<T, L>(links@, f, a@, g),
            forall|k: int| 0 <= k < rows@.len() ==> (#[trigger] rows@[k]).field_spec(Field::Id) is Some,
            out@ == rows@.take(i as int).filter(p),
        decreases rows.len() - i,
    {
        proof {
            assert(rows@.take(i + 1) =~= rows@.take(i as int).push(rows@[i as int]));
            rows@.take(i as int).lemma_filter_push(rows@[i as int], p);
        }
        let key = rows[i].field(Field::Id).unwrap();
        if has_row_with_both(links, f, a, g, key) {
            out.push(rows[i].duplicate());
        }
        i = i + 1;
    }
    assert(rows@.take(rows@.len() as int) =~= rows@);
    out
}

/// A change applied to every row of a table.
pub trait Edit<T> {
    spec fn edited(&self, row: T) -> T;

    fn apply(&self, row: &T) -> (r: T)
        ensures
            r == self.edited(*row),
    ;
}

/// The rows of `v`, each changed by `e`.
pub fn edit_rows<T, E: Edit<T>>(v: &Vec<T>, e: &E) -> (r: Vec<T>)
    ensures
        r@ == v@.map_values(|t: T| e.edited(t)),
{
    let mut out: Vec<T> = Vec::new();
    let mut i: usize = 0;
    while i < v.len()
        invariant
            i <= v.len(),
            out@ == v@.take(i as int).map_values(|t: T| e.edited(t)),
        decreases v.len() - i,
    {
        out.push(e.apply(&v[i]));
        assert(out@ =~= v@.take(i + 1).map_values(|t: T| e.edited(t)));
        i = i + 1;
    }
    assert(v@.take(v@.len() as int) =~= v@);
    out
}



/// Appending a row whose key differs from every other keeps the rows
/// distinct.
pub proof fn lemma_push_keeps_distinct<T, K>(s: Seq<T>, key: spec_fn(T) -> K, x: T)
    requires
        distinct_by(s, key),
        forall|i: int| 0 <= i < s.len() ==> key(#[trigger] s[i]) != key(x),
    ensures
        distinct_by(s.push(x), key),
{
    let t = s.push(x);
    assert forall|i: int, j: int|
        #![trigger t[i], t[j]]
        0 <= i < t.len() && 0 <= j < t.len() && i != j implies key(t[i]) != key(t[j]) by {
        if i < s.len() {
            assert(t[i] == s[i]);
        }
        if j < s.len() {
            assert(t[j] == s[j]);
        }
    }
}

/// No row left by deleting the rows whose field `f` holds `v` has `f` = `v`.
pub proof fn lemma_filter_not_field<T: Row>(s: Seq<T>, f: Field, v: Seq<char>)
    ensures
        forall|i: int|
            0 <= i < s.filter(field_is_not::<T>(f, v)).len() ==> (#[trigger] s.filter(
                field_is_not::<T>(f, v),
            )[i]).field_spec(f) != Some(v),
{
    assert forall|i: int| 0 <= i < s.filter(field_is_not::<T>(f, v)).len() implies (
    #[trigger] s.filter(field_is_not::<T>(f, v))[i]).field_spec(f) != Some(v) by {
        s.lemma_filter_pred(field_is_not::<T>(f, v), i);
    }
}


/// Replacing rows by rows with the same keys keeps them distinct.
pub proof fn lemma_same_keys_keep_distinct<T, K>(a: Seq<T>, b: Seq<T>, key: spec_fn(T) -> K)
    requires
        distinct_by(a, key),
        a.len() == b.len(),
        forall|i: int| 0 <= i < a.len() ==> key(#[trigger] a[i]) == key(b[i]),
    ensures
        distinct_by(b, key),
{
    assert forall|i: int, j: int|
        #![trigger b[i], b[j]]
        0 <= i < b.len() && 0 <= j < b.len() && i != j implies key(b[i]) != key(b[j]) by {
        assert(key(a[i]) == key(b[i]));
        assert(key(a[j]) == key(b[j]));
    }
}


/// The position after the last one among the rows of `v` whose field `f`
/// holds `val`, or `None` where it lies beyond the range of `i32`.
pub fn find_next_position<T: Row + Positioned>(v: &Vec<T>, f: Field, val: &String) -> (r: Option<i32>)
    ensures
        match r {
            Some(p) => p == next_position(v@, f, val@),
            None => next_position(v@, f, val@) > i32::MAX,
        },
{
    match find_max_position(v, f, val) {
        Some(m) => {
            if m < i32::MAX {
                Some(m + 1)
            } else {
                None
            }
        },
        None => Some(0),
    }
}

/// There is only one first match.
pub proof fn lemma_first_match_unique<T: Row>(s: Seq<T>, f: Field, v: Seq<char>, i: int, j: int)
    requires
        is_first_match(s, f, v, i),
        is_first_match(s, f, v, j),
    ensures
        i == j,
{
    if i < j {
        assert(s[i].field_spec(f) == Some(v));
    } else if j < i {
        assert(s[j].field_spec(f) == Some(v));
    }
}

/// There is only one first row with the least position.
pub proof fn lemma_first_least_unique<T: Row + Positioned>(s: Seq<T>, f: Field, v: Seq<char>, i: int, j: int)
    requires
        is_first_least(s, f, v, i),
        is_first_least(s, f, v, j),
    ensures
        i == j,
{
    if i < j {
        assert(s[i].field_spec(f) == Some(v));
    } else if j < i {
        assert(s[j].field_spec(f) == Some(v));
    }
}

} // verus!
