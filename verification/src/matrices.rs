//! The constraint matrices of a circuit and their section of the key store.
//!
//! The section holds six counts and then the matrices A, B and C. A count is
//! a 64-bit number; a matrix is the number of its rows and then the rows; a
//! row is the number of its entries and then the entries; an entry is a
//! coefficient, 32 bytes, and the column it stands in, a 64-bit number. All
//! numbers are little-endian.

use crate::field::FieldElement;
use crate::wire::{
    field_at, lemma_field_same, lemma_u64_same, read_field, read_u64, same_start, u64_at,
};
use vstd::prelude::*;

verus! {

/// The width in bytes of an encoded entry.
pub const ENTRY_BYTES: usize = 40;

/// One entry of a sparse row.
#[derive(Clone, Copy, Debug, PartialEq, Eq)]
pub struct Entry {
    /// The coefficient that the variable is multiplied by.
    pub coefficient: FieldElement,
    /// The place of the variable in the assignment.
    pub column: usize,
}

/// An entry in specifications: the coefficient and the column.
pub type EntryModel = (nat, nat);

/// A sparse matrix in specifications: rows of entries.
pub type MatrixModel = Seq<Seq<EntryModel>>;

impl Entry {
    /// The coefficient and the column as numbers.
    pub open spec fn model(self) -> EntryModel {
        (self.coefficient@, self.column as nat)
    }
}

/// A row as numbers.
pub open spec fn row_model(row: Seq<Entry>) -> Seq<EntryModel> {
    row.map_values(|e: Entry| e.model())
}

/// A matrix as numbers.
pub open spec fn rows_model(rows: Seq<Vec<Entry>>) -> MatrixModel {
    rows.map_values(|r: Vec<Entry>| row_model(r@))
}

/// The number of entries in a matrix.
pub open spec fn entry_count<T>(rows: Seq<Seq<T>>) -> nat
    decreases rows.len(),
{
    if rows.len() == 0 {
        0
    } else {
        entry_count(rows.drop_last()) + rows.last().len()
    }
}

/// The counts and the matrices of a circuit in specifications.
pub struct MatricesModel {
    /// The number of public variables, the constant one among them.
    pub num_instance_variables: nat,
    /// The number of private variables.
    pub num_witness_variables: nat,
    /// The number of constraints.
    pub num_constraints: nat,
    /// The declared number of entries of A.
    pub a_num_non_zero: nat,
    /// The declared number of entries of B.
    pub b_num_non_zero: nat,
    /// The declared number of entries of C.
    pub c_num_non_zero: nat,
    /// The matrix A, row by row.
    pub a: MatrixModel,
    /// The matrix B, row by row.
    pub b: MatrixModel,
    /// The matrix C, row by row.
    pub c: MatrixModel,
}

impl MatricesModel {
    /// Each declared number of entries is the number of entries present.
    pub open spec fn counts_agree(self) -> bool {
        &&& self.a_num_non_zero == entry_count(self.a)
        &&& self.b_num_non_zero == entry_count(self.b)
        &&& self.c_num_non_zero == entry_count(self.c)
    }
}

/// The counts and the matrices as they were read, not yet checked against
/// each other.
#[derive(Debug)]
pub struct MatricesParts {
    /// The number of public variables, the constant one among them.
    pub num_instance_variables: usize,
    /// The number of private variables.
    pub num_witness_variables: usize,
    /// The number of constraints.
    pub num_constraints: usize,
    /// The declared number of entries of A.
    pub a_num_non_zero: usize,
    /// The declared number of entries of B.
    pub b_num_non_zero: usize,
    /// The declared number of entries of C.
    pub c_num_non_zero: usize,
    /// The matrix A, row by row.
    pub a: Vec<Vec<Entry>>,
    /// The matrix B, row by row.
    pub b: Vec<Vec<Entry>>,
    /// The matrix C, row by row.
    pub c: Vec<Vec<Entry>>,
}

impl View for MatricesParts {
    type V = MatricesModel;

    open spec fn view(&self) -> MatricesModel {
        MatricesModel {
            num_instance_variables: self.num_instance_variables as nat,
            num_witness_variables: self.num_witness_variables as nat,
            num_constraints: self.num_constraints as nat,
            a_num_non_zero: self.a_num_non_zero as nat,
            b_num_non_zero: self.b_num_non_zero as nat,
            c_num_non_zero: self.c_num_non_zero as nat,
            a: rows_model(self.a@),
            b: rows_model(self.b@),
            c: rows_model(self.c@),
        }
    }
}

/// The entry encoded at a place: a coefficient below the field's order and
/// a column that a machine word holds.
pub open spec fn entry_at(bytes: Seq<u8>, at: int) -> Option<EntryModel> {
    match (field_at(bytes, at), u64_at(bytes, at + 32)) {
        (Some(coefficient), Some(column)) => if column <= usize::MAX {
            Some((coefficient, column))
        } else {
            None
        },
        _ => None,
    }
}

/// The first `count` entries encoded from a place on.
pub open spec fn entries_at(bytes: Seq<u8>, at: int, count: nat) -> Option<Seq<EntryModel>>
    decreases count,
{
    if count == 0 {
        Some(Seq::empty())
    } else {
        match entries_at(bytes, at, (count - 1) as nat) {
            Some(entries) => match entry_at(bytes, at + 40 * (count - 1)) {
                Some(entry) => Some(entries.push(entry)),
                None => None,
            },
            None => None,
        }
    }
}

/// The row encoded at a place, and the place after it.
pub open spec fn row_at(bytes: Seq<u8>, at: int) -> Option<(Seq<EntryModel>, int)> {
    match u64_at(bytes, at) {
        Some(count) => match entries_at(bytes, at + 8, count) {
            Some(entries) => Some((entries, at + 8 + 40 * count)),
            None => None,
        },
        None => None,
    }
}

/// The first `count` rows encoded from a place on, and the place after them.
pub open spec fn rows_at(bytes: Seq<u8>, at: int, count: nat) -> Option<(MatrixModel, int)>
    decreases count,
{
    if count == 0 {
        Some((Seq::empty(), at))
    } else {
        match rows_at(bytes, at, (count - 1) as nat) {
            Some((rows, next)) => match row_at(bytes, next) {
                Some((row, after)) => Some((rows.push(row), after)),
                None => None,
            },
            None => None,
        }
    }
}

/// The matrix encoded at a place, and the place after it.
pub open spec fn matrix_at(bytes: Seq<u8>, at: int) -> Option<(MatrixModel, int)> {
    match u64_at(bytes, at) {
        Some(count) => rows_at(bytes, at + 8, count),
        None => None,
    }
}

/// The count encoded at a place, where a machine word holds it.
pub open spec fn count_at(bytes: Seq<u8>, at: int) -> Option<nat> {
    match u64_at(bytes, at) {
        Some(value) => if value <= usize::MAX {
            Some(value)
        } else {
            None
        },
        None => None,
    }
}

/// The matrices section encoded at a place, and the place after it.
pub open spec fn matrices_at(bytes: Seq<u8>, at: int) -> Option<(MatricesModel, int)> {
    match (
        count_at(bytes, at),
        count_at(bytes, at + 8),
        count_at(bytes, at + 16),
        count_at(bytes, at + 24),
        count_at(bytes, at + 32),
        count_at(bytes, at + 40),
    ) {
        (
            Some(num_instance_variables),
            Some(num_witness_variables),
            Some(num_constraints),
            Some(a_num_non_zero),
            Some(b_num_non_zero),
            Some(c_num_non_zero),
        ) => match matrix_at(bytes, at + 48) {
            Some((a, after_a)) => match matrix_at(bytes, after_a) {
                Some((b, after_b)) => match matrix_at(bytes, after_b) {
                    Some((c, after_c)) => Some(
                        (
                            MatricesModel {
                                num_instance_variables,
                                num_witness_variables,
                                num_constraints,
                                a_num_non_zero,
                                b_num_non_zero,
                                c_num_non_zero,
                                a,
                                b,
                                c,
                            },
                            after_c,
                        ),
                    ),
                    None => None,
                },
                None => None,
            },
            None => None,
        },
        _ => None,
    }
}

/// Whether every entry of a matrix stands in a column below a bound.
pub open spec fn columns_below(matrix: MatrixModel, bound: nat) -> bool {
    forall|i: int, j: int|
        0 <= i < matrix.len() && 0 <= j < matrix[i].len() ==> (#[trigger] matrix[i][j]).1 < bound
}

/// The counts and the matrices of a circuit, with each declared number of
/// entries equal to the number of entries present.
#[derive(Debug)]
pub struct ConstraintMatrices {
    parts: MatricesParts,
}

impl View for ConstraintMatrices {
    type V = MatricesModel;

    closed spec fn view(&self) -> MatricesModel {
        self.parts@
    }
}

impl ConstraintMatrices {
    #[verifier::type_invariant]
    spec fn counts_hold(self) -> bool {
        self.parts@.counts_agree()
    }

    /// Accepts the parts where each declared number of entries is the
    /// number of entries present.
    pub fn new(parts: MatricesParts) -> (out: Option<ConstraintMatrices>)
        ensures
            out is Some <==> parts@.counts_agree(),
            out matches Some(matrices) ==> matrices@ == parts@,
    {
        if holds_entries(&parts.a, parts.a_num_non_zero) && holds_entries(
            &parts.b,
            parts.b_num_non_zero,
        ) && holds_entries(&parts.c, parts.c_num_non_zero) {
            Some(ConstraintMatrices { parts })
        } else {
            None
        }
    }

    /// The counts and the matrices.
    pub fn parts(&self) -> (out: &MatricesParts)
        ensures
            out@ == self@,
            self@.counts_agree(),
    {
        proof {
            use_type_invariant(self);
        }
        &self.parts
    }

    /// The number of public variables, the constant one among them.
    pub fn num_instance_variables(&self) -> (out: usize)
        ensures
            out == self@.num_instance_variables,
    {
        self.parts.num_instance_variables
    }

    /// The number of private variables.
    pub fn num_witness_variables(&self) -> (out: usize)
        ensures
            out == self@.num_witness_variables,
    {
        self.parts.num_witness_variables
    }

    /// The number of constraints.
    pub fn num_constraints(&self) -> (out: usize)
        ensures
            out == self@.num_constraints,
    {
        self.parts.num_constraints
    }

    /// Whether every entry of A and of B stands in a column below a bound.
    pub fn columns_within(&self, bound: usize) -> (out: bool)
        ensures
            out == (columns_below(self@.a, bound as nat) && columns_below(self@.b, bound as nat)),
    {
        rows_within(&self.parts.a, bound) && rows_within(&self.parts.b, bound)
    }
}

/// The entries of the first rows are among the entries of all rows.
pub proof fn lemma_entry_count_prefix<T>(rows: Seq<Seq<T>>, k: int)
    requires
        0 <= k <= rows.len(),
    ensures
        entry_count(rows.take(k)) <= entry_count(rows),
    decreases rows.len() - k,
{
    if k < rows.len() {
        lemma_entry_count_prefix(rows, k + 1);
        lemma_entry_count_step(rows, k);
    } else {
        assert(rows.take(k) =~= rows);
    }
}

/// One more row adds its entries.
pub proof fn lemma_entry_count_step<T>(rows: Seq<Seq<T>>, k: int)
    requires
        0 <= k < rows.len(),
    ensures
        entry_count(rows.take(k + 1)) == entry_count(rows.take(k)) + rows[k].len(),
{
    assert(rows.take(k + 1).drop_last() =~= rows.take(k));
}

/// Whether a matrix holds a given number of entries.
pub fn holds_entries(rows: &Vec<Vec<Entry>>, expected: usize) -> (out: bool)
    ensures
        out == (entry_count(rows_model(rows@)) == expected),
{
    let ghost model = rows_model(rows@);
    let mut total: usize = 0;
    let mut i: usize = 0;
    while i < rows.len()
        invariant
            i <= rows.len(),
            model == rows_model(rows@),
            total == entry_count(model.take(i as int)),
            total <= expected,
        decreases rows.len() - i,
    {
        let width = rows[i].len();
        proof {
            lemma_entry_count_step(model, i as int);
            assert(model[i as int].len() == width);
        }
        if width > expected - total {
            proof {
                lemma_entry_count_prefix(model, i + 1);
            }
            return false;
        }
        total = total + width;
        i += 1;
    }
    proof {
        assert(model.take(rows.len() as int) =~= model);
    }
    total == expected
}

/// Whether every entry of a matrix stands in a column below a bound.
pub fn rows_within(rows: &Vec<Vec<Entry>>, bound: usize) -> (out: bool)
    ensures
        out == columns_below(rows_model(rows@), bound as nat),
{
    let ghost model = rows_model(rows@);
    let mut i: usize = 0;
    while i < rows.len()
        invariant
            i <= rows.len(),
            model == rows_model(rows@),
            forall|p: int, q: int|
                0 <= p < i && 0 <= q < model[p].len() ==> (#[trigger] model[p][q]).1 < bound,
        decreases rows.len() - i,
    {
        let row = &rows[i];
        let mut j: usize = 0;
        while j < row.len()
            invariant
                j <= row.len(),
                i < rows.len(),
                row == rows[i as int],
                model == rows_model(rows@),
                forall|q: int| 0 <= q < j ==> (#[trigger] model[i as int][q]).1 < bound,
            decreases row.len() - j,
        {
            if row[j].column >= bound {
                assert(model[i as int][j as int].1 == row[j as int].column);
                return false;
            }
            assert(model[i as int][j as int].1 == row[j as int].column);
            j += 1;
        }
        i += 1;
    }
    true
}

/// Where fewer entries cannot be read, more cannot either.
pub proof fn lemma_entries_fail_on(bytes: Seq<u8>, at: int, fewer: nat, more: nat)
    requires
        fewer <= more,
        entries_at(bytes, at, fewer) is None,
    ensures
        entries_at(bytes, at, more) is None,
    decreases more,
{
    if fewer < more {
        lemma_entries_fail_on(bytes, at, fewer, (more - 1) as nat);
    }
}

/// Where fewer rows cannot be read, more cannot either.
pub proof fn lemma_rows_fail_on(bytes: Seq<u8>, at: int, fewer: nat, more: nat)
    requires
        fewer <= more,
        rows_at(bytes, at, fewer) is None,
    ensures
        rows_at(bytes, at, more) is None,
    decreases more,
{
    if fewer < more {
        lemma_rows_fail_on(bytes, at, fewer, (more - 1) as nat);
    }
}

/// Entries that were read lie inside the byte string.
pub proof fn lemma_entries_fit(bytes: Seq<u8>, at: int, count: nat)
    requires
        entries_at(bytes, at, count) is Some,
        0 <= at <= bytes.len(),
    ensures
        at + 40 * count <= bytes.len(),
        entries_at(bytes, at, count).unwrap().len() == count,
    decreases count,
{
    if count > 0 {
        lemma_entries_fit(bytes, at, (count - 1) as nat);
    }
}

/// Rows that were read end inside the byte string, no earlier than they began.
pub proof fn lemma_rows_fit(bytes: Seq<u8>, at: int, count: nat)
    requires
        rows_at(bytes, at, count) is Some,
        0 <= at <= bytes.len(),
    ensures
        at + 8 * count <= rows_at(bytes, at, count).unwrap().1 <= bytes.len(),
        rows_at(bytes, at, count).unwrap().0.len() == count,
    decreases count,
{
    if count > 0 {
        lemma_rows_fit(bytes, at, (count - 1) as nat);
        let next = rows_at(bytes, at, (count - 1) as nat).unwrap().1;
        let entries = u64_at(bytes, next).unwrap();
        lemma_entries_fit(bytes, next + 8, entries);
    }
}

/// A matrix that was read ends inside the byte string, after its own start.
pub proof fn lemma_matrix_fits(bytes: Seq<u8>, at: int)
    requires
        matrix_at(bytes, at) is Some,
    ensures
        at + 8 <= matrix_at(bytes, at).unwrap().1 <= bytes.len(),
{
    lemma_rows_fit(bytes, at + 8, u64_at(bytes, at).unwrap());
}

/// A section that was read ends inside the byte string, after its own start.
pub proof fn lemma_matrices_fit(bytes: Seq<u8>, at: int)
    requires
        matrices_at(bytes, at) is Some,
    ensures
        at + 72 <= matrices_at(bytes, at).unwrap().1 <= bytes.len(),
{
    lemma_matrix_fits(bytes, at + 48);
    let after_a = matrix_at(bytes, at + 48).unwrap().1;
    lemma_matrix_fits(bytes, after_a);
    let after_b = matrix_at(bytes, after_a).unwrap().1;
    lemma_matrix_fits(bytes, after_b);
}

/// Entries that are read inside the common start of two byte strings are
/// the same in both.
pub proof fn lemma_entries_same(first: Seq<u8>, second: Seq<u8>, n: int, at: int, count: nat)
    requires
        same_start(first, second, n),
        entries_at(first, at, count) is Some,
        0 <= at,
        at + 40 * count <= n,
    ensures
        entries_at(second, at, count) == entries_at(first, at, count),
    decreases count,
{
    if count > 0 {
        lemma_entries_same(first, second, n, at, (count - 1) as nat);
        let place = at + 40 * (count - 1);
        lemma_field_same(first, second, n, place);
        lemma_u64_same(first, second, n, place + 32);
    }
}

/// A row that is read inside the common start of two byte strings is the
/// same in both.
pub proof fn lemma_row_same(first: Seq<u8>, second: Seq<u8>, n: int, at: int)
    requires
        same_start(first, second, n),
        row_at(first, at) is Some,
        row_at(first, at).unwrap().1 <= n,
    ensures
        row_at(second, at) == row_at(first, at),
{
    let count = u64_at(first, at).unwrap();
    lemma_u64_same(first, second, n, at);
    lemma_entries_same(first, second, n, at + 8, count);
}

/// Rows that are read inside the common start of two byte strings are the
/// same in both.
pub proof fn lemma_rows_same(first: Seq<u8>, second: Seq<u8>, n: int, at: int, count: nat)
    requires
        same_start(first, second, n),
        rows_at(first, at, count) is Some,
        0 <= at <= first.len(),
        rows_at(first, at, count).unwrap().1 <= n,
    ensures
        rows_at(second, at, count) == rows_at(first, at, count),
    decreases count,
{
    if count > 0 {
        let next = rows_at(first, at, (count - 1) as nat).unwrap().1;
        lemma_rows_fit(first, at, (count - 1) as nat);
        lemma_entries_fit(first, next + 8, u64_at(first, next).unwrap());
        lemma_rows_same(first, second, n, at, (count - 1) as nat);
        lemma_row_same(first, second, n, next);
    }
}

/// A matrix that is read inside the common start of two byte strings is
/// the same in both.
pub proof fn lemma_matrix_same(first: Seq<u8>, second: Seq<u8>, n: int, at: int)
    requires
        same_start(first, second, n),
        matrix_at(first, at) is Some,
        matrix_at(first, at).unwrap().1 <= n,
    ensures
        matrix_at(second, at) == matrix_at(first, at),
{
    let count = u64_at(first, at).unwrap();
    lemma_rows_fit(first, at + 8, count);
    lemma_u64_same(first, second, n, at);
    lemma_rows_same(first, second, n, at + 8, count);
}

/// A section that is read inside the common start of two byte strings is
/// the same in both.
pub proof fn lemma_matrices_same(first: Seq<u8>, second: Seq<u8>, n: int, at: int)
    requires
        same_start(first, second, n),
        matrices_at(first, at) is Some,
        matrices_at(first, at).unwrap().1 <= n,
    ensures
        matrices_at(second, at) == matrices_at(first, at),
{
    let after_a = matrix_at(first, at + 48).unwrap().1;
    let after_b = matrix_at(first, after_a).unwrap().1;
    lemma_matrix_fits(first, at + 48);
    lemma_matrix_fits(first, after_a);
    lemma_matrix_fits(first, after_b);
    lemma_u64_same(first, second, n, at);
    lemma_u64_same(first, second, n, at + 8);
    lemma_u64_same(first, second, n, at + 16);
    lemma_u64_same(first, second, n, at + 24);
    lemma_u64_same(first, second, n, at + 32);
    lemma_u64_same(first, second, n, at + 40);
    lemma_matrix_same(first, second, n, at + 48);
    lemma_matrix_same(first, second, n, after_a);
    lemma_matrix_same(first, second, n, after_b);
}

/// A section that is cut short is not read: where a section ends at a
/// place, no byte string that stops before that place holds a section.
pub proof fn lemma_cut_matrices_fail(bytes: Seq<u8>, at: int, length: int)
    requires
        matrices_at(bytes, at) is Some,
        0 <= length < matrices_at(bytes, at).unwrap().1,
    ensures
        matrices_at(bytes.take(length), at) is None,
{
    lemma_matrices_fit(bytes, at);
    let cut = bytes.take(length);
    if matrices_at(cut, at) is Some {
        let after = matrices_at(cut, at).unwrap().1;
        lemma_matrices_fit(cut, at);
        assert(cut.subrange(0, after) =~= bytes.subrange(0, after));
        lemma_matrices_same(cut, bytes, after, at);
    }
}

/// Reads the entry at a place.
pub fn read_entry(bytes: &[u8], at: usize) -> (out: Option<Entry>)
    ensures
        match out {
            Some(entry) => entry_at(bytes@, at as int) == Some(entry.model()),
            None => entry_at(bytes@, at as int) is None,
        },
{
    let coefficient = match read_field(bytes, at) {
        Some(coefficient) => coefficient,
        None => {
            return None;
        },
    };
    let size = bytes.len();
    assert(at + 32 <= size);
    let column = match read_u64(bytes, at + 32) {
        Some(column) => column,
        None => {
            return None;
        },
    };
    if column > usize::MAX as u64 {
        return None;
    }
    Some(Entry { coefficient, column: column as usize })
}

/// Reads `count` entries from a place on.
pub fn read_entries(bytes: &[u8], at: usize, count: u64) -> (out: Option<Vec<Entry>>)
    ensures
        match out {
            Some(entries) => entries_at(bytes@, at as int, count as nat) == Some(
                row_model(entries@),
            ),
            None => entries_at(bytes@, at as int, count as nat) is None,
        },
{
    let size = bytes.len();
    let mut entries: Vec<Entry> = Vec::new();
    let mut done: u64 = 0;
    let mut place: usize = at;
    assert(row_model(entries@) =~= Seq::<EntryModel>::empty());
    if at > size {
        if count == 0 {
            return Some(entries);
        }
        proof {
            assert(entries_at(bytes@, at as int, 1) is None);
            lemma_entries_fail_on(bytes@, at as int, 1, count as nat);
        }
        return None;
    }
    while done < count
        invariant
            done <= count,
            place == at + 40 * done,
            place <= bytes@.len(),
            size == bytes@.len(),
            entries_at(bytes@, at as int, done as nat) == Some(row_model(entries@)),
        decreases count - done,
    {
        let entry = match read_entry(bytes, place) {
            Some(entry) => entry,
            None => {
                proof {
                    lemma_entries_fail_on(bytes@, at as int, (done + 1) as nat, count as nat);
                }
                return None;
            },
        };
        proof {
            assert(row_model(entries@.push(entry)) =~= row_model(entries@).push(entry.model()));
            assert(u64_at(bytes@, place + 32) is Some);
            assert(place + 40 <= size);
        }
        entries.push(entry);
        place = place + ENTRY_BYTES;
        done = done + 1;
    }
    Some(entries)
}

/// Reads the row at a place, and says where the next item starts.
pub fn read_row(bytes: &[u8], at: usize) -> (out: Option<(Vec<Entry>, usize)>)
    ensures
        match out {
            Some((entries, after)) => row_at(bytes@, at as int) == Some(
                (row_model(entries@), after as int),
            ),
            None => row_at(bytes@, at as int) is None,
        },
{
    let count = match read_u64(bytes, at) {
        Some(count) => count,
        None => {
            return None;
        },
    };
    let size = bytes.len();
    assert(at + 8 <= size);
    let entries = match read_entries(bytes, at + 8, count) {
        Some(entries) => entries,
        None => {
            return None;
        },
    };
    proof {
        lemma_entries_fit(bytes@, at + 8, count as nat);
        assert(entries@.len() == count);
        assert(at + 8 + 40 * count <= size);
    }
    let after = at + 8 + ENTRY_BYTES * entries.len();
    Some((entries, after))
}

/// Reads `count` rows from a place on, and says where the next item starts.
pub fn read_rows(bytes: &[u8], at: usize, count: u64) -> (out: Option<(Vec<Vec<Entry>>, usize)>)
    ensures
        match out {
            Some((rows, after)) => rows_at(bytes@, at as int, count as nat) == Some(
                (rows_model(rows@), after as int),
            ),
            None => rows_at(bytes@, at as int, count as nat) is None,
        },
{
    let mut rows: Vec<Vec<Entry>> = Vec::new();
    let mut done: u64 = 0;
    let mut place: usize = at;
    assert(rows_model(rows@) =~= Seq::<Seq<EntryModel>>::empty());
    if at > bytes.len() {
        if count == 0 {
            return Some((rows, at));
        }
        proof {
            assert(rows_at(bytes@, at as int, 1) is None);
            lemma_rows_fail_on(bytes@, at as int, 1, count as nat);
        }
        return None;
    }
    while done < count
        invariant
            done <= count,
            at <= place <= bytes@.len(),
            rows_at(bytes@, at as int, done as nat) == Some((rows_model(rows@), place as int)),
        decreases count - done,
    {
        let (row, after) = match read_row(bytes, place) {
            Some(read) => read,
            None => {
                proof {
                    lemma_rows_fail_on(bytes@, at as int, (done + 1) as nat, count as nat);
                }
                return None;
            },
        };
        proof {
            assert(rows_model(rows@.push(row)) =~= rows_model(rows@).push(row_model(row@)));
            lemma_rows_fit(bytes@, at as int, (done + 1) as nat);
        }
        rows.push(row);
        place = after;
        done = done + 1;
    }
    Some((rows, place))
}

/// Reads the matrix at a place, and says where the next item starts.
pub fn read_matrix(bytes: &[u8], at: usize) -> (out: Option<(Vec<Vec<Entry>>, usize)>)
    ensures
        match out {
            Some((rows, after)) => matrix_at(bytes@, at as int) == Some(
                (rows_model(rows@), after as int),
            ) && at <= after <= bytes@.len(),
            None => matrix_at(bytes@, at as int) is None,
        },
{
    let count = match read_u64(bytes, at) {
        Some(count) => count,
        None => {
            return None;
        },
    };
    let size = bytes.len();
    assert(at + 8 <= size);
    let read = read_rows(bytes, at + 8, count);
    proof {
        if read is Some {
            lemma_rows_fit(bytes@, at + 8, count as nat);
        }
    }
    read
}

/// Reads the count at a place.
pub fn read_count(bytes: &[u8], at: usize) -> (out: Option<usize>)
    ensures
        match out {
            Some(value) => count_at(bytes@, at as int) == Some(value as nat),
            None => count_at(bytes@, at as int) is None,
        },
{
    match read_u64(bytes, at) {
        Some(value) => if value > usize::MAX as u64 {
            None
        } else {
            Some(value as usize)
        },
        None => None,
    }
}

/// Reads the matrices section at a place, and says where it ends.
pub fn read_matrices(bytes: &[u8], at: usize) -> (out: Option<(MatricesParts, usize)>)
    ensures
        match out {
            Some((parts, after)) => matrices_at(bytes@, at as int) == Some((parts@, after as int))
                && at <= after <= bytes@.len(),
            None => matrices_at(bytes@, at as int) is None,
        },
{
    if at > bytes.len() || bytes.len() - at < 48 {
        return None;
    }
    let num_instance_variables = match read_count(bytes, at) {
        Some(value) => value,
        None => {
            return None;
        },
    };
    let num_witness_variables = match read_count(bytes, at + 8) {
        Some(value) => value,
        None => {
            return None;
        },
    };
    let num_constraints = match read_count(bytes, at + 16) {
        Some(value) => value,
        None => {
            return None;
        },
    };
    let a_num_non_zero = match read_count(bytes, at + 24) {
        Some(value) => value,
        None => {
            return None;
        },
    };
    let b_num_non_zero = match read_count(bytes, at + 32) {
        Some(value) => value,
        None => {
            return None;
        },
    };
    let c_num_non_zero = match read_count(bytes, at + 40) {
        Some(value) => value,
        None => {
            return None;
        },
    };
    let (a, after_a) = match read_matrix(bytes, at + 48) {
        Some(read) => read,
        None => {
            return None;
        },
    };
    let (b, after_b) = match read_matrix(bytes, after_a) {
        Some(read) => read,
        None => {
            return None;
        },
    };
    let (c, after_c) = match read_matrix(bytes, after_b) {
        Some(read) => read,
        None => {
            return None;
        },
    };
    let parts = MatricesParts {
        num_instance_variables,
        num_witness_variables,
        num_constraints,
        a_num_non_zero,
        b_num_non_zero,
        c_num_non_zero,
        a,
        b,
        c,
    };
    Some((parts, after_c))
}

} // verus!
