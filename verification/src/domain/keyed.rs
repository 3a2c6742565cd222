//! Rows that are found again by a textual key, and tables of such rows.
//!
//! A table is a sequence of rows in which no key occurs twice. Writing a
//! row replaces the row of the same key, if there is one, and puts the new
//! row last.

use vstd::prelude::*;

verus! {

/// A row with the key by which it is stored.
pub trait Keyed {
    spec fn key(&self) -> Seq<char>;
}

/// No two rows share a key.
pub open spec fn unique<R: Keyed>(rows: Seq<R>) -> bool {
    forall|i: int, j: int| 0 <= i < j < rows.len() ==> rows[i].key() != rows[j].key()
}

/// Some row has the key `key`.
pub open spec fn holds<R: Keyed>(rows: Seq<R>, key: Seq<char>) -> bool {
    exists|i: int| 0 <= i < rows.len() && #[trigger] rows[i].key() == key
}

/// The place of a row with the key `key`, where there is one.
pub open spec fn index_of<R: Keyed>(rows: Seq<R>, key: Seq<char>) -> int {
    choose|i: int| 0 <= i < rows.len() && #[trigger] rows[i].key() == key
}

/// The row stored under `key`.
pub open spec fn lookup<R: Keyed>(rows: Seq<R>, key: Seq<char>) -> Option<R> {
    if holds(rows, key) {
        Some(rows[index_of(rows, key)])
    } else {
        None
    }
}

/// The table without the row stored under `key`.
pub open spec fn without<R: Keyed>(rows: Seq<R>, key: Seq<char>) -> Seq<R> {
    if holds(rows, key) {
        rows.remove(index_of(rows, key))
    } else {
        rows
    }
}

/// The table after `row` was written to it.
pub open spec fn upsert<R: Keyed>(rows: Seq<R>, row: R) -> Seq<R> {
    without(rows, row.key()).push(row)
}

/// The number of rows stored under `key`.
pub open spec fn count<R: Keyed>(rows: Seq<R>, key: Seq<char>) -> nat
    decreases rows.len(),
{
    if rows.len() == 0 {
        0
    } else {
        count(rows.drop_last(), key) + if rows.last().key() == key {
            1nat
        } else {
            0nat
        }
    }
}

/// In a table, the place of a key is the only place where it occurs.
pub proof fn lemma_index_of<R: Keyed>(rows: Seq<R>, i: int)
    requires
        unique(rows),
        0 <= i < rows.len(),
    ensures
        holds(rows, rows[i].key()),
        index_of(rows, rows[i].key()) == i,
        lookup(rows, rows[i].key()) == Some(rows[i]),
{
    let key = rows[i].key();
    assert(rows[i].key() == key);
    let j = index_of(rows, key);
    assert(0 <= j < rows.len() && rows[j].key() == key);
    if j < i {
        assert(rows[j].key() != rows[i].key());
    } else if i < j {
        assert(rows[i].key() != rows[j].key());
    }
}

/// Taking a key out of a table leaves a table that does not hold the key.
pub proof fn lemma_without<R: Keyed>(rows: Seq<R>, key: Seq<char>)
    requires
        unique(rows),
    ensures
        unique(without(rows, key)),
        !holds(without(rows, key), key),
        forall|other: Seq<char>|
            other != key ==> lookup(without(rows, key), other) == lookup(rows, other),
{
    let rest = without(rows, key);
    if holds(rows, key) {
        let at = index_of(rows, key);
        assert(0 <= at < rows.len() && rows[at].key() == key);
        assert forall|i: int, j: int| 0 <= i < j < rest.len() implies rest[i].key()
            != rest[j].key() by {
            let a = if i < at { i } else { i + 1 };
            let b = if j < at { j } else { j + 1 };
            assert(rest[i] == rows[a]);
            assert(rest[j] == rows[b]);
        }
        if holds(rest, key) {
            let i = index_of(rest, key);
            assert(0 <= i < rest.len() && rest[i].key() == key);
            let a = if i < at { i } else { i + 1 };
            assert(rest[i] == rows[a]);
            if a < at {
                assert(rows[a].key() != rows[at].key());
            } else {
                assert(rows[at].key() != rows[a].key());
            }
        }
        assert forall|other: Seq<char>| other != key implies lookup(rest, other) == lookup(
            rows,
            other,
        ) by {
            if holds(rows, other) {
                let i = index_of(rows, other);
                assert(0 <= i < rows.len() && rows[i].key() == other);
                let a = if i < at { i } else { i - 1 };
                assert(rest[a] == rows[i]);
                lemma_index_of(rest, a);
            } else if holds(rest, other) {
                let i = index_of(rest, other);
                assert(0 <= i < rest.len() && rest[i].key() == other);
                let a = if i < at { i } else { i + 1 };
                assert(rest[i] == rows[a]);
                assert(rows[a].key() == other);
            }
        }
    }
}

/// Writing a row keeps the table a table.
pub proof fn lemma_upsert_unique<R: Keyed>(rows: Seq<R>, row: R)
    requires
        unique(rows),
    ensures
        unique(upsert(rows, row)),
{
    lemma_without(rows, row.key());
    let rest = without(rows, row.key());
    let next = upsert(rows, row);
    assert forall|i: int, j: int| 0 <= i < j < next.len() implies next[i].key()
        != next[j].key() by {
        if j == rest.len() {
            assert(next[i] == rest[i]);
            if rest[i].key() == row.key() {
                assert(holds(rest, row.key()));
            }
        } else {
            assert(next[i] == rest[i] && next[j] == rest[j]);
        }
    }
}

/// A row that was written is the row that is read under its key, and the
/// rows under other keys are read as before.
pub proof fn law_read_after_write<R: Keyed>(rows: Seq<R>, row: R)
    requires
        unique(rows),
    ensures
        lookup(upsert(rows, row), row.key()) == Some(row),
        forall|other: Seq<char>|
            other != row.key() ==> lookup(upsert(rows, row), other) == lookup(rows, other),
{
    lemma_without(rows, row.key());
    lemma_upsert_unique(rows, row);
    let rest = without(rows, row.key());
    let next = upsert(rows, row);
    assert(next[rest.len() as int] == row);
    lemma_index_of(next, rest.len() as int);
    assert forall|other: Seq<char>| other != row.key() implies lookup(next, other) == lookup(
        rows,
        other,
    ) by {
        assert(lookup(rest, other) == lookup(rows, other));
        if holds(rest, other) {
            let i = index_of(rest, other);
            assert(0 <= i < rest.len() && rest[i].key() == other);
            assert(next[i] == rest[i]);
            lemma_index_of(next, i);
            lemma_index_of(rest, i);
        } else if holds(next, other) {
            let i = index_of(next, other);
            assert(0 <= i < next.len() && next[i].key() == other);
            assert(i < rest.len());
            assert(next[i] == rest[i]);
            assert(rest[i].key() == other);
        }
    }
}

/// In a table a key that is held is held once, and any other key not at all.
pub proof fn lemma_count<R: Keyed>(rows: Seq<R>, key: Seq<char>)
    requires
        unique(rows),
    ensures
        count(rows, key) == if holds(rows, key) { 1nat } else { 0nat },
    decreases rows.len(),
{
    if rows.len() > 0 {
        let front = rows.drop_last();
        assert forall|i: int, j: int| 0 <= i < j < front.len() implies front[i].key()
            != front[j].key() by {
            assert(front[i] == rows[i] && front[j] == rows[j]);
        }
        lemma_count(front, key);
        if holds(front, key) {
            let i = index_of(front, key);
            assert(0 <= i < front.len() && front[i].key() == key);
            assert(front[i] == rows[i]);
            assert(rows[i].key() != rows[rows.len() - 1].key());
            assert(rows[i].key() == key);
        } else if rows.last().key() == key {
            assert(rows[rows.len() - 1].key() == key);
        } else if holds(rows, key) {
            let i = index_of(rows, key);
            assert(0 <= i < rows.len() && rows[i].key() == key);
            assert(i < front.len());
            assert(front[i] == rows[i]);
            assert(front[i].key() == key);
        }
    }
}

/// Writing twice under one key leaves what writing the second row alone
/// would have left: one row under that key, the second one.
pub proof fn law_last_write_wins<R: Keyed>(rows: Seq<R>, first: R, second: R)
    requires
        unique(rows),
        first.key() == second.key(),
    ensures
        upsert(upsert(rows, first), second) == upsert(rows, second),
        lookup(upsert(upsert(rows, first), second), second.key()) == Some(second),
        count(upsert(upsert(rows, first), second), second.key()) == 1,
{
    let key = first.key();
    lemma_without(rows, key);
    lemma_upsert_unique(rows, first);
    let rest = without(rows, key);
    let once = upsert(rows, first);
    assert(once[rest.len() as int] == first);
    lemma_index_of(once, rest.len() as int);
    assert(once.remove(rest.len() as int) =~= rest);
    assert(without(once, key) == rest);
    law_read_after_write(rows, second);
    lemma_upsert_unique(rows, second);
    lemma_count(upsert(rows, second), key);
}

} // verus!
