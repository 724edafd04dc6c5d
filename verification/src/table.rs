//! Tables of records found by their identifier: what a lookup, an insertion and a
//! replacement mean, stated once for every kind of record.
use vstd::prelude::*;

verus! {

/// A record that is found by a 128-bit identifier.
pub trait Record: DeepView + Sized {
    /// The identifier of a record's value.
    spec fn view_key(view: Self::V) -> u128;

    /// The identifier of this record.
    fn key(&self) -> (k: u128)
        ensures
            k == Self::view_key(self.deep_view()),
    ;

    /// A copy of this record.
    fn duplicate(&self) -> (copy: Self)
        ensures
            copy.deep_view() == self.deep_view(),
    ;
}

/// A record that belongs to a tenant.
pub trait Owned: Record {
    /// The tenant that owns a record's value.
    spec fn view_owner(view: Self::V) -> u128;

    /// The tenant that owns this record.
    fn owner(&self) -> (tenant: u128)
        ensures
            tenant == Self::view_owner(self.deep_view()),
    ;
}

/// The rows that belong to `tenant`, in table order.
pub open spec fn owned_by<T: Owned>(rows: Seq<T::V>, tenant: u128) -> Seq<T::V>
    decreases rows.len(),
{
    if rows.len() == 0 {
        Seq::empty()
    } else {
        let earlier = owned_by::<T>(rows.drop_last(), tenant);
        if T::view_owner(rows.last()) == tenant {
            earlier.push(rows.last())
        } else {
            earlier
        }
    }
}

/// A record with a place in listings: `before` is a total preorder on the values.
pub trait Ranked: DeepView + Sized {
    /// Whether a value may stand before another in a listing.
    spec fn view_before(a: Self::V, b: Self::V) -> bool;

    /// Whether this record may stand before `other` in a listing.
    fn before(&self, other: &Self) -> (r: bool)
        ensures
            r == Self::view_before(self.deep_view(), other.deep_view()),
    ;

    /// Of two values one may stand before the other.
    proof fn before_total(a: Self::V, b: Self::V)
        ensures
            Self::view_before(a, b) || Self::view_before(b, a),
    ;

    /// What may stand before a value may stand before whatever that value stands before.
    proof fn before_transitive(a: Self::V, b: Self::V, c: Self::V)
        requires
            Self::view_before(a, b),
            Self::view_before(b, c),
        ensures
            Self::view_before(a, c),
    ;
}

/// `sorted` with `row` put behind the last row that may stand before it.
pub open spec fn inserted<T: Ranked>(sorted: Seq<T::V>, row: T::V) -> Seq<T::V>
    decreases sorted.len(),
{
    if sorted.len() == 0 {
        seq![row]
    } else if T::view_before(sorted.last(), row) {
        sorted.push(row)
    } else {
        inserted::<T>(sorted.drop_last(), row).push(sorted.last())
    }
}

/// The rows in listing order: sorted, rows of equal rank in table order.
pub open spec fn arranged<T: Ranked>(rows: Seq<T::V>) -> Seq<T::V>
    decreases rows.len(),
{
    if rows.len() == 0 {
        Seq::empty()
    } else {
        inserted::<T>(arranged::<T>(rows.drop_last()), rows.last())
    }
}

/// Every row may stand before every later row.
pub open spec fn ordered<T: Ranked>(rows: Seq<T::V>) -> bool {
    forall|i: int, j: int|
        0 <= i < j < rows.len() ==> T::view_before(#[trigger] rows[i], #[trigger] rows[j])
}

/// Where `inserted` puts a row: behind the last row that may stand before it.
pub proof fn lemma_inserted_at<T: Ranked>(sorted: Seq<T::V>, row: T::V, at: int)
    requires
        0 <= at <= sorted.len(),
        at > 0 ==> T::view_before(sorted[at - 1], row),
        forall|k: int| at <= k < sorted.len() ==> !T::view_before(#[trigger] sorted[k], row),
    ensures
        inserted::<T>(sorted, row) == sorted.insert(at, row),
    decreases sorted.len() - at,
{
    if sorted.len() == 0 {
        assert(sorted.insert(at, row) =~= seq![row]);
    } else if at == sorted.len() {
        assert(sorted.insert(at, row) =~= sorted.push(row));
    } else {
        assert(!T::view_before(sorted.last(), row));
        let shorter = sorted.drop_last();
        assert forall|k: int| at <= k < shorter.len() implies !T::view_before(
            #[trigger] shorter[k],
            row,
        ) by {
            assert(shorter[k] == sorted[k]);
        }
        lemma_inserted_at::<T>(shorter, row, at);
        assert(shorter.insert(at, row).push(sorted.last()) =~= sorted.insert(at, row));
    }
}

/// Inserting keeps a listing ordered, and the result holds the old rows and the new one.
pub proof fn lemma_inserted_ordered<T: Ranked>(sorted: Seq<T::V>, row: T::V)
    requires
        ordered::<T>(sorted),
    ensures
        ordered::<T>(inserted::<T>(sorted, row)),
        inserted::<T>(sorted, row).len() == sorted.len() + 1,
        inserted::<T>(sorted, row).to_multiset() == sorted.to_multiset().insert(row),
    decreases sorted.len(),
{
    broadcast use vstd::seq_lib::group_to_multiset_ensures;

    if sorted.len() == 0 {
        assert(sorted =~= Seq::empty());
        assert(seq![row] =~= Seq::<T::V>::empty().push(row));
    } else if T::view_before(sorted.last(), row) {
        let out = sorted.push(row);
        assert forall|i: int, j: int| 0 <= i < j < out.len() implies T::view_before(
            #[trigger] out[i],
            #[trigger] out[j],
        ) by {
            if j == sorted.len() {
                if i < sorted.len() - 1 {
                    assert(T::view_before(sorted[i], sorted[sorted.len() - 1]));
                    T::before_transitive(sorted[i], sorted.last(), row);
                }
            } else {
                assert(T::view_before(sorted[i], sorted[j]));
            }
        }
    } else {
        let shorter = sorted.drop_last();
        let last = sorted.last();
        assert forall|i: int, j: int| 0 <= i < j < shorter.len() implies T::view_before(
            #[trigger] shorter[i],
            #[trigger] shorter[j],
        ) by {
            assert(T::view_before(sorted[i], sorted[j]));
        }
        lemma_inserted_ordered::<T>(shorter, row);
        let inner = inserted::<T>(shorter, row);
        let out = inner.push(last);
        T::before_total(last, row);
        assert forall|i: int, j: int| 0 <= i < j < out.len() implies T::view_before(
            #[trigger] out[i],
            #[trigger] out[j],
        ) by {
            if j == inner.len() {
                // out[i] is a row of `inner`: the new row or a row of `shorter`.
                assert(inner.to_multiset().count(inner[i]) > 0);
                if inner[i] != row {
                    assert(shorter.to_multiset().count(inner[i]) > 0);
                    let k = choose|k: int| 0 <= k < shorter.len() && shorter[k] == inner[i];
                    assert(T::view_before(sorted[k], sorted[sorted.len() - 1]));
                }
            } else {
                assert(T::view_before(inner[i], inner[j]));
            }
        }
        assert(sorted =~= shorter.push(last));
        assert(out.to_multiset() =~= sorted.to_multiset().insert(row));
    }
}

/// A listing is ordered and holds exactly the rows it was made of.
pub proof fn lemma_arranged<T: Ranked>(rows: Seq<T::V>)
    ensures
        ordered::<T>(arranged::<T>(rows)),
        arranged::<T>(rows).len() == rows.len(),
        arranged::<T>(rows).to_multiset() == rows.to_multiset(),
    decreases rows.len(),
{
    broadcast use vstd::seq_lib::group_to_multiset_ensures;

    if rows.len() == 0 {
        assert(rows =~= Seq::empty());
    } else {
        lemma_arranged::<T>(rows.drop_last());
        lemma_inserted_ordered::<T>(arranged::<T>(rows.drop_last()), rows.last());
        assert(rows =~= rows.drop_last().push(rows.last()));
    }
}

/// The position of the first row with identifier `id`, or the number of rows if no row
/// has it.
pub open spec fn position<T: Record>(rows: Seq<T::V>, id: u128) -> int
    decreases rows.len(),
{
    if rows.len() == 0 {
        0
    } else if T::view_key(rows[0]) == id {
        0
    } else {
        1 + position::<T>(rows.drop_first(), id)
    }
}

/// Whether some row has identifier `id`.
pub open spec fn present<T: Record>(rows: Seq<T::V>, id: u128) -> bool {
    position::<T>(rows, id) < rows.len()
}

/// The first row with identifier `id`.
pub open spec fn lookup<T: Record>(rows: Seq<T::V>, id: u128) -> Option<T::V> {
    if present::<T>(rows, id) {
        Some(rows[position::<T>(rows, id)])
    } else {
        None
    }
}

/// No two rows share an identifier.
pub open spec fn distinct<T: Record>(rows: Seq<T::V>) -> bool {
    forall|i: int, j: int|
        0 <= i < j < rows.len() ==> T::view_key(#[trigger] rows[i]) != T::view_key(
            #[trigger] rows[j],
        )
}

/// `rows` with `row` in the place of the first row of the same identifier.
pub open spec fn replaced<T: Record>(rows: Seq<T::V>, row: T::V) -> Seq<T::V> {
    let at = position::<T>(rows, T::view_key(row));
    if at < rows.len() {
        rows.update(at, row)
    } else {
        rows
    }
}

/// `rows` without the first row of identifier `id`.
pub open spec fn without<T: Record>(rows: Seq<T::V>, id: u128) -> Seq<T::V> {
    let at = position::<T>(rows, id);
    if at < rows.len() {
        rows.remove(at)
    } else {
        rows
    }
}

/// What `position` returns: an index within bounds that holds the identifier with no
/// earlier index holding it, or the length when no index holds it.
pub proof fn lemma_position<T: Record>(rows: Seq<T::V>, id: u128)
    ensures
        0 <= position::<T>(rows, id) <= rows.len(),
        position::<T>(rows, id) < rows.len() ==> T::view_key(rows[position::<T>(rows, id)])
            == id,
        forall|j: int|
            0 <= j < position::<T>(rows, id) ==> T::view_key(#[trigger] rows[j]) != id,
    decreases rows.len(),
{
    if rows.len() > 0 && T::view_key(rows[0]) != id {
        let rest = rows.drop_first();
        lemma_position::<T>(rest, id);
        assert forall|j: int| 0 <= j < position::<T>(rows, id) implies T::view_key(
            #[trigger] rows[j],
        ) != id by {
            if j > 0 {
                assert(rows[j] == rest[j - 1]);
            }
        }
    }
}

/// An index that holds `id` with no earlier index holding it is the position of `id`.
pub proof fn lemma_position_is<T: Record>(rows: Seq<T::V>, id: u128, at: int)
    requires
        0 <= at <= rows.len(),
        at < rows.len() ==> T::view_key(rows[at]) == id,
        forall|j: int| 0 <= j < at ==> T::view_key(#[trigger] rows[j]) != id,
    ensures
        position::<T>(rows, id) == at,
{
    lemma_position::<T>(rows, id);
    let p = position::<T>(rows, id);
    if p < at {
        assert(T::view_key(rows[p]) == id);
    } else if p > at {
        assert(T::view_key(rows[at]) == id);
    }
}

/// In a table without repeated identifiers, the row at an index is the one that a lookup
/// of its identifier finds.
pub proof fn lemma_lookup_at<T: Record>(rows: Seq<T::V>, at: int)
    requires
        distinct::<T>(rows),
        0 <= at < rows.len(),
    ensures
        position::<T>(rows, T::view_key(rows[at])) == at,
        lookup::<T>(rows, T::view_key(rows[at])) == Some(rows[at]),
{
    let id = T::view_key(rows[at]);
    assert forall|j: int| 0 <= j < at implies T::view_key(#[trigger] rows[j]) != id by {}
    lemma_position_is::<T>(rows, id, at);
}

/// A row of a table is found under its identifier.
pub proof fn lemma_contains_present<T: Record>(rows: Seq<T::V>, row: T::V)
    requires
        rows.contains(row),
    ensures
        present::<T>(rows, T::view_key(row)),
        distinct::<T>(rows) ==> lookup::<T>(rows, T::view_key(row)) == Some(row),
{
    let k = choose|k: int| 0 <= k < rows.len() && rows[k] == row;
    lemma_position::<T>(rows, T::view_key(row));
    if distinct::<T>(rows) {
        lemma_lookup_at::<T>(rows, k);
    }
}

/// The rows that belong to a tenant are rows of the table, and belong to the tenant.
pub proof fn lemma_owned_by<T: Owned>(rows: Seq<T::V>, tenant: u128)
    ensures
        forall|row: T::V|
            #[trigger] owned_by::<T>(rows, tenant).contains(row) <==> (rows.contains(row)
                && T::view_owner(row) == tenant),
    decreases rows.len(),
{
    if rows.len() > 0 {
        let shorter = rows.drop_last();
        lemma_owned_by::<T>(shorter, tenant);
        let last = rows.last();
        assert forall|row: T::V|
            #[trigger] owned_by::<T>(rows, tenant).contains(row) <==> (rows.contains(row)
                && T::view_owner(row) == tenant) by {
            let earlier = owned_by::<T>(shorter, tenant);
            if rows.contains(row) {
                let k = choose|k: int| 0 <= k < rows.len() && rows[k] == row;
                if k < shorter.len() {
                    assert(shorter[k] == row);
                    assert(shorter.contains(row));
                }
            }
            if shorter.contains(row) {
                let k = choose|k: int| 0 <= k < shorter.len() && shorter[k] == row;
                assert(rows[k] == row);
            }
            assert(rows[rows.len() - 1] == last);
            if T::view_owner(last) == tenant {
                let grown = earlier.push(last);
                assert(grown[earlier.len() as int] == last);
                if earlier.contains(row) {
                    let k = choose|k: int| 0 <= k < earlier.len() && earlier[k] == row;
                    assert(grown[k] == row);
                }
                if grown.contains(row) {
                    let k = choose|k: int| 0 <= k < grown.len() && grown[k] == row;
                    if k < earlier.len() {
                        assert(earlier[k] == row);
                    }
                }
            }
        }
    }
}

/// Appending a row with a new identifier keeps identifiers distinct, makes the new row
/// found, and leaves every other lookup as it was.
pub proof fn lemma_push<T: Record>(rows: Seq<T::V>, row: T::V)
    requires
        distinct::<T>(rows),
        !present::<T>(rows, T::view_key(row)),
    ensures
        distinct::<T>(rows.push(row)),
        lookup::<T>(rows.push(row), T::view_key(row)) == Some(row),
        forall|id: u128|
            id != T::view_key(row) ==> #[trigger] lookup::<T>(rows.push(row), id) == lookup::<T>(
                rows,
                id,
            ),
{
    let key = T::view_key(row);
    let grown = rows.push(row);
    lemma_position::<T>(rows, key);
    assert forall|i: int, j: int| 0 <= i < j < grown.len() implies T::view_key(
        #[trigger] grown[i],
    ) != T::view_key(#[trigger] grown[j]) by {
        if j == rows.len() {
            assert(grown[i] == rows[i]);
        } else {
            assert(grown[i] == rows[i]);
            assert(grown[j] == rows[j]);
        }
    }
    assert forall|j: int| 0 <= j < rows.len() implies T::view_key(#[trigger] grown[j])
        != key by {
        assert(grown[j] == rows[j]);
    }
    lemma_position_is::<T>(grown, key, rows.len() as int);
    assert forall|id: u128| id != key implies #[trigger] lookup::<T>(grown, id) == lookup::<T>(
        rows,
        id,
    ) by {
        lemma_position::<T>(rows, id);
        let p = position::<T>(rows, id);
        assert forall|j: int| 0 <= j < p implies T::view_key(#[trigger] grown[j]) != id by {
            assert(grown[j] == rows[j]);
        }
        if p < rows.len() {
            assert(grown[p] == rows[p]);
            lemma_position_is::<T>(grown, id, p);
        } else {
            lemma_position_is::<T>(grown, id, grown.len() as int);
        }
    }
}

/// Replacing a row by one of the same identifier keeps identifiers distinct, makes the
/// new row found, and leaves every other lookup as it was.
pub proof fn lemma_replaced<T: Record>(rows: Seq<T::V>, row: T::V)
    requires
        distinct::<T>(rows),
        present::<T>(rows, T::view_key(row)),
    ensures
        distinct::<T>(replaced::<T>(rows, row)),
        replaced::<T>(rows, row).len() == rows.len(),
        lookup::<T>(replaced::<T>(rows, row), T::view_key(row)) == Some(row),
        forall|id: u128|
            id != T::view_key(row) ==> #[trigger] lookup::<T>(replaced::<T>(rows, row), id)
                == lookup::<T>(rows, id),
        forall|id: u128| #[trigger] present::<T>(replaced::<T>(rows, row), id) == present::<T>(rows, id),
{
    let key = T::view_key(row);
    let at = position::<T>(rows, key);
    let changed = replaced::<T>(rows, row);
    lemma_position::<T>(rows, key);
    assert forall|j: int| 0 <= j < rows.len() implies T::view_key(#[trigger] changed[j])
        == T::view_key(rows[j]) by {}
    assert forall|i: int, j: int| 0 <= i < j < changed.len() implies T::view_key(
        #[trigger] changed[i],
    ) != T::view_key(#[trigger] changed[j]) by {
        assert(T::view_key(changed[i]) == T::view_key(rows[i]));
        assert(T::view_key(changed[j]) == T::view_key(rows[j]));
    }
    assert forall|id: u128|
        position::<T>(changed, id) == position::<T>(rows, id) by {
        lemma_position::<T>(rows, id);
        let p = position::<T>(rows, id);
        assert forall|j: int| 0 <= j < p implies T::view_key(#[trigger] changed[j]) != id by {
            assert(T::view_key(changed[j]) == T::view_key(rows[j]));
        }
        if p < rows.len() {
            assert(T::view_key(changed[p]) == T::view_key(rows[p]));
        }
        lemma_position_is::<T>(changed, id, p);
    }
    assert forall|id: u128| id != key implies #[trigger] lookup::<T>(changed, id) == lookup::<T>(
        rows,
        id,
    ) by {
        lemma_position::<T>(rows, id);
        assert(position::<T>(changed, id) == position::<T>(rows, id));
    }
    assert forall|id: u128| #[trigger] present::<T>(changed, id) == present::<T>(rows, id) by {
        assert(position::<T>(changed, id) == position::<T>(rows, id));
    }
    assert(position::<T>(changed, key) == at);
}

/// `rows` with `row` in the place of the row of the same identifier, or at the end if
/// there is none.
pub open spec fn put<T: Record>(rows: Seq<T::V>, row: T::V) -> Seq<T::V> {
    if present::<T>(rows, T::view_key(row)) {
        replaced::<T>(rows, row)
    } else {
        rows.push(row)
    }
}

/// Putting a row keeps identifiers distinct, makes the row found, and leaves every other
/// lookup as it was.
pub proof fn lemma_put<T: Record>(rows: Seq<T::V>, row: T::V)
    requires
        distinct::<T>(rows),
    ensures
        distinct::<T>(put::<T>(rows, row)),
        lookup::<T>(put::<T>(rows, row), T::view_key(row)) == Some(row),
        forall|id: u128|
            id != T::view_key(row) ==> #[trigger] lookup::<T>(put::<T>(rows, row), id)
                == lookup::<T>(rows, id),
{
    if present::<T>(rows, T::view_key(row)) {
        lemma_replaced::<T>(rows, row);
    } else {
        lemma_push::<T>(rows, row);
    }
}

/// Removing the row of an identifier keeps identifiers distinct, makes the identifier
/// absent, and leaves every other lookup as it was.
pub proof fn lemma_without<T: Record>(rows: Seq<T::V>, id: u128)
    requires
        distinct::<T>(rows),
    ensures
        distinct::<T>(without::<T>(rows, id)),
        !present::<T>(without::<T>(rows, id), id),
        forall|other: u128|
            other != id ==> #[trigger] lookup::<T>(without::<T>(rows, id), other) == lookup::<T>(
                rows,
                other,
            ),
{
    let at = position::<T>(rows, id);
    let rest = without::<T>(rows, id);
    lemma_position::<T>(rows, id);
    if at < rows.len() {
        assert forall|j: int| 0 <= j < rest.len() implies #[trigger] rest[j] == (if j < at {
            rows[j]
        } else {
            rows[j + 1]
        }) by {}
        assert forall|i: int, j: int| 0 <= i < j < rest.len() implies T::view_key(
            #[trigger] rest[i],
        ) != T::view_key(#[trigger] rest[j]) by {
            let a = if i < at { i } else { i + 1 };
            let b = if j < at { j } else { j + 1 };
            assert(T::view_key(rows[a]) != T::view_key(rows[b]));
        }
        assert forall|j: int| 0 <= j < rest.len() implies T::view_key(#[trigger] rest[j])
            != id by {
            let a = if j < at { j } else { j + 1 };
            if a < at {
            } else {
                assert(T::view_key(rows[at]) != T::view_key(rows[a]));
            }
        }
        lemma_position_is::<T>(rest, id, rest.len() as int);
        assert forall|other: u128| other != id implies #[trigger] lookup::<T>(rest, other)
            == lookup::<T>(rows, other) by {
            lemma_position::<T>(rows, other);
            let p = position::<T>(rows, other);
            if p < rows.len() {
                let q = if p < at { p } else { p - 1 };
                assert(rest[q] == rows[p]);
                assert forall|j: int| 0 <= j < q implies T::view_key(#[trigger] rest[j])
                    != other by {
                    let a = if j < at { j } else { j + 1 };
                    assert(rest[j] == rows[a]);
                }
                lemma_position_is::<T>(rest, other, q);
            } else {
                assert forall|j: int| 0 <= j < rest.len() implies T::view_key(
                    #[trigger] rest[j],
                ) != other by {
                    let a = if j < at { j } else { j + 1 };
                    assert(rest[j] == rows[a]);
                }
                lemma_position_is::<T>(rest, other, rest.len() as int);
            }
        }
    }
}

/// Finds the index of the row with identifier `id`.
pub fn find<T: Record>(rows: &Vec<T>, id: u128) -> (found: Option<usize>)
    ensures
        match found {
            Some(at) => at < rows.len() && position::<T>(rows.deep_view(), id) == at,
            None => !present::<T>(rows.deep_view(), id),
        },
{
    let mut i: usize = 0;
    while i < rows.len()
        invariant
            i <= rows.len(),
            forall|j: int| 0 <= j < i ==> T::view_key(#[trigger] rows@[j].deep_view()) != id,
        decreases rows.len() - i,
    {
        if rows[i].key() == id {
            proof {
                let views = rows.deep_view();
                assert forall|j: int| 0 <= j < i implies T::view_key(#[trigger] views[j])
                    != id by {
                    assert(views[j] == rows@[j].deep_view());
                }
                lemma_position_is::<T>(views, id, i as int);
            }
            return Some(i);
        }
        i = i + 1;
    }
    proof {
        let views = rows.deep_view();
        assert forall|j: int| 0 <= j < views.len() implies T::view_key(#[trigger] views[j])
            != id by {
            assert(views[j] == rows@[j].deep_view());
        }
        lemma_position_is::<T>(views, id, views.len() as int);
    }
    None
}

/// A copy of the row with identifier `id`.
pub fn fetch<T: Record>(rows: &Vec<T>, id: u128) -> (found: Option<T>)
    ensures
        found.deep_view() == lookup::<T>(rows.deep_view(), id),
{
    match find(rows, id) {
        Some(at) => Some(rows[at].duplicate()),
        None => None,
    }
}

/// Appends a row.
pub fn push_row<T: DeepView>(rows: &mut Vec<T>, row: T)
    ensures
        final(rows).deep_view() == old(rows).deep_view().push(row.deep_view()),
        final(rows).len() == old(rows).len() + 1,
{
    let ghost before = rows.deep_view();
    let ghost added = row.deep_view();
    rows.push(row);
    assert(rows.deep_view() =~= before.push(added));
}

/// Puts a row in the place of the row at `at`.
pub fn set_row<T: DeepView>(rows: &mut Vec<T>, at: usize, row: T)
    requires
        at < old(rows).len(),
    ensures
        final(rows).deep_view() == old(rows).deep_view().update(at as int, row.deep_view()),
        final(rows).len() == old(rows).len(),
{
    let ghost before = rows.deep_view();
    let ghost added = row.deep_view();
    rows.set(at, row);
    assert(rows.deep_view() =~= before.update(at as int, added));
}

/// Puts a row in the place of the row of the same identifier, or at the end if there is
/// none.
pub fn put_row<T: Record>(rows: &mut Vec<T>, row: T)
    ensures
        final(rows).deep_view() == put::<T>(old(rows).deep_view(), row.deep_view()),
{
    match find(rows, row.key()) {
        Some(at) => set_row(rows, at, row),
        None => push_row(rows, row),
    }
}

/// Removes the row with identifier `id`, if there is one.
pub fn remove_row<T: Record>(rows: &mut Vec<T>, id: u128)
    ensures
        final(rows).deep_view() == without::<T>(old(rows).deep_view(), id),
{
    match find(rows, id) {
        Some(at) => {
            let ghost before = rows.deep_view();
            let _ = rows.remove(at);
            assert(rows.deep_view() =~= before.remove(at as int));
        },
        None => {},
    }
}

/// Puts a row into a listing, behind the last row that may stand before it.
pub fn insert_ranked<T: Ranked>(sorted: &mut Vec<T>, row: T)
    ensures
        final(sorted).deep_view() == inserted::<T>(old(sorted).deep_view(), row.deep_view()),
{
    let mut at: usize = sorted.len();
    while at > 0 && !sorted[at - 1].before(&row)
        invariant
            at <= sorted.len(),
            sorted == old(sorted),
            forall|k: int|
                at <= k < sorted.len() ==> !T::view_before(
                    #[trigger] sorted@[k].deep_view(),
                    row.deep_view(),
                ),
        decreases at,
    {
        at = at - 1;
    }
    proof {
        let views = sorted.deep_view();
        assert forall|k: int| at <= k < views.len() implies !T::view_before(
            #[trigger] views[k],
            row.deep_view(),
        ) by {
            assert(views[k] == sorted@[k].deep_view());
        }
        lemma_inserted_at::<T>(views, row.deep_view(), at as int);
    }
    let ghost before = sorted.deep_view();
    let ghost added = row.deep_view();
    sorted.insert(at, row);
    assert(sorted.deep_view() =~= before.insert(at as int, added));
}

/// Copies of the rows that belong to `tenant`, in listing order.
pub fn list_owned<T: Owned + Ranked>(rows: &Vec<T>, tenant: u128) -> (listing: Vec<T>)
    ensures
        listing.deep_view() == arranged::<T>(owned_by::<T>(rows.deep_view(), tenant)),
{
    let mut listing: Vec<T> = Vec::new();
    let mut i: usize = 0;
    assert(rows.deep_view().take(0) =~= Seq::empty());
    assert(listing.deep_view() =~= Seq::empty());
    while i < rows.len()
        invariant
            i <= rows.len(),
            listing.deep_view() == arranged::<T>(
                owned_by::<T>(rows.deep_view().take(i as int), tenant),
            ),
        decreases rows.len() - i,
    {
        proof {
            let views = rows.deep_view();
            assert(views.take(i + 1).drop_last() =~= views.take(i as int));
            assert(views.take(i + 1).last() == rows@[i as int].deep_view());
            let chosen = owned_by::<T>(views.take(i as int), tenant);
            assert(chosen.push(views[i as int]).drop_last() =~= chosen);
        }
        if rows[i].owner() == tenant {
            insert_ranked(&mut listing, rows[i].duplicate());
        }
        i = i + 1;
    }
    assert(rows.deep_view().take(rows.len() as int) =~= rows.deep_view());
    listing
}

/// Copies of all rows, in listing order.
pub fn list_all<T: Record + Ranked>(rows: &Vec<T>) -> (listing: Vec<T>)
    ensures
        listing.deep_view() == arranged::<T>(rows.deep_view()),
{
    let mut listing: Vec<T> = Vec::new();
    let mut i: usize = 0;
    assert(rows.deep_view().take(0) =~= Seq::empty());
    assert(listing.deep_view() =~= Seq::empty());
    while i < rows.len()
        invariant
            i <= rows.len(),
            listing.deep_view() == arranged::<T>(rows.deep_view().take(i as int)),
        decreases rows.len() - i,
    {
        proof {
            let views = rows.deep_view();
            assert(views.take(i + 1).drop_last() =~= views.take(i as int));
            assert(views.take(i + 1).last() == rows@[i as int].deep_view());
        }
        insert_ranked(&mut listing, rows[i].duplicate());
        i = i + 1;
    }
    assert(rows.deep_view().take(rows.len() as int) =~= rows.deep_view());
    listing
}

/// Copies of all rows, in table order.
pub fn copy_rows<T: Record>(rows: &Vec<T>) -> (copy: Vec<T>)
    ensures
        copy.deep_view() == rows.deep_view(),
{
    let mut copy: Vec<T> = Vec::new();
    let mut i: usize = 0;
    while i < rows.len()
        invariant
            i <= rows.len(),
            copy@.len() == i,
            forall|j: int| 0 <= j < i ==> (#[trigger] copy@[j]).deep_view() == rows@[j].deep_view(),
        decreases rows.len() - i,
    {
        copy.push(rows[i].duplicate());
        i = i + 1;
    }
    assert(copy.deep_view() =~= rows.deep_view());
    copy
}

/// A page of a listing: the rows from `offset` on, at most `limit` of them; from the
/// start where no offset is given, to the end where no limit is given.
pub open spec fn page<V>(rows: Seq<V>, offset: Option<u32>, limit: Option<u32>) -> Seq<V> {
    let from = match offset {
        Some(n) => if n <= rows.len() {
            n as int
        } else {
            rows.len() as int
        },
        None => 0,
    };
    let to = match limit {
        Some(n) => if from + n <= rows.len() {
            from + n
        } else {
            rows.len() as int
        },
        None => rows.len() as int,
    };
    rows.subrange(from, to)
}

/// Cuts a listing down to a page.
pub fn page_rows<T: DeepView>(rows: Vec<T>, offset: Option<u32>, limit: Option<u32>) -> (cut: Vec<T>)
    ensures
        cut.deep_view() == page(rows.deep_view(), offset, limit),
{
    let mut rows = rows;
    let ghost all = rows.deep_view();
    let ghost items = rows@;
    let len = rows.len();
    let from: usize = match offset {
        Some(n) => if (n as u64) <= (len as u64) {
            n as usize
        } else {
            len
        },
        None => 0,
    };
    let to: usize = match limit {
        Some(n) => if (n as u64) <= ((len - from) as u64) {
            from + n as usize
        } else {
            len
        },
        None => len,
    };
    rows.truncate(to);
    let cut = rows.split_off(from);
    assert(cut@ =~= items.subrange(from as int, to as int));
    assert(cut.deep_view() =~= all.subrange(from as int, to as int));
    cut
}

} // verus!
