//! The matrices section as it is written, and the law that reading gives
//! back what was written.
//!
//! Nothing here runs: key stores are written elsewhere. The encoding is
//! stated so that the reader of [`crate::matrices`] can be held to it.

use crate::field::{limb_radix, modulus};
use crate::matrices::{
    count_at, entries_at, entry_at, matrices_at, matrix_at, row_at, rows_at, EntryModel,
    MatricesModel, MatrixModel,
};
use crate::wire::{
    le_bytes, lemma_le_bytes_len, lemma_le_round_trip, lemma_pow256_word, pow256, u64_at,
};
use vstd::prelude::*;

verus! {

/// An entry as it is written: the coefficient in 32 bytes, the column in eight.
pub open spec fn entry_encoding(entry: EntryModel) -> Seq<u8> {
    le_bytes(entry.0, 32) + le_bytes(entry.1, 8)
}

/// Entries as they are written, one after the other.
pub open spec fn entries_encoding(entries: Seq<EntryModel>) -> Seq<u8>
    decreases entries.len(),
{
    if entries.len() == 0 {
        Seq::empty()
    } else {
        entries_encoding(entries.drop_last()) + entry_encoding(entries.last())
    }
}

/// A row as it is written: the number of its entries, then the entries.
pub open spec fn row_encoding(row: Seq<EntryModel>) -> Seq<u8> {
    le_bytes(row.len(), 8) + entries_encoding(row)
}

/// Rows as they are written, one after the other.
pub open spec fn rows_encoding(rows: MatrixModel) -> Seq<u8>
    decreases rows.len(),
{
    if rows.len() == 0 {
        Seq::empty()
    } else {
        rows_encoding(rows.drop_last()) + row_encoding(rows.last())
    }
}

/// A matrix as it is written: the number of its rows, then the rows.
pub open spec fn matrix_encoding(rows: MatrixModel) -> Seq<u8> {
    le_bytes(rows.len(), 8) + rows_encoding(rows)
}

/// The six counts as they are written.
pub open spec fn counts_encoding(matrices: MatricesModel) -> Seq<u8> {
    le_bytes(matrices.num_instance_variables, 8) + le_bytes(matrices.num_witness_variables, 8)
        + le_bytes(matrices.num_constraints, 8) + le_bytes(matrices.a_num_non_zero, 8) + le_bytes(
        matrices.b_num_non_zero,
        8,
    ) + le_bytes(matrices.c_num_non_zero, 8)
}

/// The matrices section as it is written: the counts, then A, B and C.
pub open spec fn matrices_encoding(matrices: MatricesModel) -> Seq<u8> {
    counts_encoding(matrices) + matrix_encoding(matrices.a) + matrix_encoding(matrices.b)
        + matrix_encoding(matrices.c)
}

/// Whether an entry can be written: the coefficient is below the field's
/// order and a machine word holds the column.
pub open spec fn entry_writable(entry: EntryModel) -> bool {
    entry.0 < modulus() && entry.1 <= usize::MAX
}

/// Whether a row can be written.
pub open spec fn row_writable(row: Seq<EntryModel>) -> bool {
    &&& row.len() < limb_radix()
    &&& forall|j: int| 0 <= j < row.len() ==> entry_writable(#[trigger] row[j])
}

/// Whether a matrix can be written.
pub open spec fn matrix_writable(rows: MatrixModel) -> bool {
    &&& rows.len() < limb_radix()
    &&& forall|i: int| 0 <= i < rows.len() ==> row_writable(#[trigger] rows[i])
}

/// Whether counts and matrices can be written: a machine word holds each
/// count, and each matrix can be written.
pub open spec fn matrices_writable(matrices: MatricesModel) -> bool {
    &&& matrices.num_instance_variables <= usize::MAX
    &&& matrices.num_witness_variables <= usize::MAX
    &&& matrices.num_constraints <= usize::MAX
    &&& matrices.a_num_non_zero <= usize::MAX
    &&& matrices.b_num_non_zero <= usize::MAX
    &&& matrices.c_num_non_zero <= usize::MAX
    &&& matrix_writable(matrices.a)
    &&& matrix_writable(matrices.b)
    &&& matrix_writable(matrices.c)
}

/// Whether a byte string holds given bytes at a place.
pub open spec fn holds_at(bytes: Seq<u8>, at: int, part: Seq<u8>) -> bool {
    &&& 0 <= at
    &&& at + part.len() <= bytes.len()
    &&& bytes.subrange(at, at + part.len()) == part
}

/// Where a byte string holds two parts in a row, it holds each of them.
pub proof fn lemma_holds_both(bytes: Seq<u8>, at: int, first: Seq<u8>, second: Seq<u8>)
    requires
        holds_at(bytes, at, first + second),
    ensures
        holds_at(bytes, at, first),
        holds_at(bytes, at + first.len(), second),
{
    let whole = first + second;
    assert(bytes.subrange(at, at + first.len()) =~= whole.subrange(0, first.len() as int));
    assert(whole.subrange(0, first.len() as int) =~= first);
    assert(bytes.subrange(at + first.len(), at + first.len() + second.len()) =~= whole.subrange(
        first.len() as int,
        whole.len() as int,
    ));
    assert(whole.subrange(first.len() as int, whole.len() as int) =~= second);
}

/// A written number is read back.
pub proof fn lemma_read_word(bytes: Seq<u8>, at: int, n: nat)
    requires
        n < limb_radix(),
        holds_at(bytes, at, le_bytes(n, 8)),
    ensures
        le_bytes(n, 8).len() == 8,
        u64_at(bytes, at) == Some(n),
{
    lemma_pow256_word();
    lemma_le_bytes_len(n, 8);
    lemma_le_round_trip(n, 8);
}

/// A written count is read back.
pub proof fn lemma_read_count(bytes: Seq<u8>, at: int, n: nat)
    requires
        n <= usize::MAX,
        holds_at(bytes, at, le_bytes(n, 8)),
    ensures
        le_bytes(n, 8).len() == 8,
        count_at(bytes, at) == Some(n),
{
    lemma_read_word(bytes, at, n);
}

/// A written entry is read back.
pub proof fn lemma_read_entry(bytes: Seq<u8>, at: int, entry: EntryModel)
    requires
        entry_writable(entry),
        holds_at(bytes, at, entry_encoding(entry)),
    ensures
        entry_encoding(entry).len() == 40,
        entry_at(bytes, at) == Some(entry),
{
    reveal_with_fuel(pow256, 33);
    lemma_le_bytes_len(entry.0, 32);
    lemma_le_round_trip(entry.0, 32);
    lemma_holds_both(bytes, at, le_bytes(entry.0, 32), le_bytes(entry.1, 8));
    lemma_read_word(bytes, at + 32, entry.1);
}

/// Written entries are read back.
pub proof fn lemma_read_entries(bytes: Seq<u8>, at: int, entries: Seq<EntryModel>)
    requires
        forall|j: int| 0 <= j < entries.len() ==> entry_writable(#[trigger] entries[j]),
        holds_at(bytes, at, entries_encoding(entries)),
    ensures
        entries_encoding(entries).len() == 40 * entries.len(),
        entries_at(bytes, at, entries.len()) == Some(entries),
    decreases entries.len(),
{
    if entries.len() > 0 {
        let front = entries.drop_last();
        lemma_holds_both(bytes, at, entries_encoding(front), entry_encoding(entries.last()));
        lemma_read_entries(bytes, at, front);
        lemma_read_entry(bytes, at + 40 * front.len(), entries.last());
        assert(front.push(entries.last()) =~= entries);
    }
}

/// A written row is read back.
pub proof fn lemma_read_row(bytes: Seq<u8>, at: int, row: Seq<EntryModel>)
    requires
        row_writable(row),
        holds_at(bytes, at, row_encoding(row)),
    ensures
        row_at(bytes, at) == Some((row, at + row_encoding(row).len())),
{
    lemma_holds_both(bytes, at, le_bytes(row.len(), 8), entries_encoding(row));
    lemma_read_word(bytes, at, row.len());
    lemma_read_entries(bytes, at + 8, row);
}

/// Written rows are read back.
pub proof fn lemma_read_rows(bytes: Seq<u8>, at: int, rows: MatrixModel)
    requires
        forall|i: int| 0 <= i < rows.len() ==> row_writable(#[trigger] rows[i]),
        holds_at(bytes, at, rows_encoding(rows)),
    ensures
        rows_at(bytes, at, rows.len()) == Some((rows, at + rows_encoding(rows).len())),
    decreases rows.len(),
{
    if rows.len() > 0 {
        let front = rows.drop_last();
        lemma_holds_both(bytes, at, rows_encoding(front), row_encoding(rows.last()));
        lemma_read_rows(bytes, at, front);
        lemma_read_row(bytes, at + rows_encoding(front).len(), rows.last());
        assert(front.push(rows.last()) =~= rows);
    }
}

/// A written matrix is read back.
pub proof fn lemma_read_matrix(bytes: Seq<u8>, at: int, rows: MatrixModel)
    requires
        matrix_writable(rows),
        holds_at(bytes, at, matrix_encoding(rows)),
    ensures
        matrix_at(bytes, at) == Some((rows, at + matrix_encoding(rows).len())),
{
    lemma_holds_both(bytes, at, le_bytes(rows.len(), 8), rows_encoding(rows));
    lemma_read_word(bytes, at, rows.len());
    lemma_read_rows(bytes, at + 8, rows);
}

/// Reading gives back what was written: where a byte string holds the
/// encoding of counts and matrices at a place, the reader finds there
/// exactly those counts and matrices, and ends where the encoding ends.
pub proof fn lemma_matrices_round_trip(bytes: Seq<u8>, at: int, matrices: MatricesModel)
    requires
        matrices_writable(matrices),
        holds_at(bytes, at, matrices_encoding(matrices)),
    ensures
        matrices_at(bytes, at) == Some((matrices, at + matrices_encoding(matrices).len())),
{
    let w0 = le_bytes(matrices.num_instance_variables, 8);
    let w1 = le_bytes(matrices.num_witness_variables, 8);
    let w2 = le_bytes(matrices.num_constraints, 8);
    let w3 = le_bytes(matrices.a_num_non_zero, 8);
    let w4 = le_bytes(matrices.b_num_non_zero, 8);
    let w5 = le_bytes(matrices.c_num_non_zero, 8);
    let counts = counts_encoding(matrices);
    let a = matrix_encoding(matrices.a);
    let b = matrix_encoding(matrices.b);
    let c = matrix_encoding(matrices.c);
    lemma_le_bytes_len(matrices.num_instance_variables, 8);
    lemma_le_bytes_len(matrices.num_witness_variables, 8);
    lemma_le_bytes_len(matrices.num_constraints, 8);
    lemma_le_bytes_len(matrices.a_num_non_zero, 8);
    lemma_le_bytes_len(matrices.b_num_non_zero, 8);
    lemma_le_bytes_len(matrices.c_num_non_zero, 8);
    lemma_holds_both(bytes, at, counts + a + b, c);
    lemma_holds_both(bytes, at, counts + a, b);
    lemma_holds_both(bytes, at, counts, a);
    lemma_holds_both(bytes, at, w0 + w1 + w2 + w3 + w4, w5);
    lemma_holds_both(bytes, at, w0 + w1 + w2 + w3, w4);
    lemma_holds_both(bytes, at, w0 + w1 + w2, w3);
    lemma_holds_both(bytes, at, w0 + w1, w2);
    lemma_holds_both(bytes, at, w0, w1);
    lemma_read_count(bytes, at, matrices.num_instance_variables);
    lemma_read_count(bytes, at + 8, matrices.num_witness_variables);
    lemma_read_count(bytes, at + 16, matrices.num_constraints);
    lemma_read_count(bytes, at + 24, matrices.a_num_non_zero);
    lemma_read_count(bytes, at + 32, matrices.b_num_non_zero);
    lemma_read_count(bytes, at + 40, matrices.c_num_non_zero);
    lemma_read_matrix(bytes, at + 48, matrices.a);
    lemma_read_matrix(bytes, at + 48 + a.len(), matrices.b);
    lemma_read_matrix(bytes, at + 48 + a.len() + b.len(), matrices.c);
}

} // verus!
