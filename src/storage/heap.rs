//! Heap files: a table's rows as concatenated fixed-layout records.
//!
//! A row occupies the sum of its columns' declared lengths; there is no
//! length prefix, null bitmap or tombstone. Rows are only appended, and read
//! back by a full sequential scan.

use vstd::prelude::*;
use vstd::slice::slice_subrange;
use crate::catalog::column::Column;
use crate::catalog::table::Table;
use crate::codec::{CodecError, decode_value, encode_value, fits_text, lemma_round_trip, type_id_of};
use crate::types::{DataValue, ValueView, values_view};

verus! {

/// Bytes of the first `n` value/column pairs of a row.
pub open spec fn encode_prefix(values: Seq<ValueView>, cols: Seq<Column>, n: nat) -> Seq<u8>
    decreases n,
{
    if n == 0 {
        Seq::empty()
    } else {
        encode_prefix(values, cols, (n - 1) as nat) + encode_value(
            values[n - 1],
            cols[n - 1].att_len as nat,
        )
    }
}

/// Bytes of a row: values paired with columns by position, as far as the
/// shorter of the two lists goes.
pub open spec fn encode_row(values: Seq<ValueView>, cols: Seq<Column>) -> Seq<u8> {
    encode_prefix(
        values,
        cols,
        if values.len() <= cols.len() {
            values.len()
        } else {
            cols.len()
        },
    )
}

/// Offset of column `k` within a row: the declared lengths before it.
pub open spec fn col_offset(cols: Seq<Column>, k: nat) -> nat
    decreases k,
{
    if k == 0 {
        0
    } else {
        col_offset(cols, (k - 1) as nat) + cols[k - 1].att_len as nat
    }
}

/// Bytes of one stored row of a table with columns `cols`.
pub open spec fn row_size(cols: Seq<Column>) -> nat {
    col_offset(cols, cols.len())
}

/// The first `k` values of the row whose bytes are `b`.
pub open spec fn decode_cols(b: Seq<u8>, cols: Seq<Column>, k: nat) -> Result<
    Seq<ValueView>,
    CodecError,
>
    decreases k,
{
    if k == 0 {
        Ok(Seq::empty())
    } else {
        match decode_cols(b, cols, (k - 1) as nat) {
            Err(e) => Err(e),
            Ok(vs) => match decode_value(
                b.subrange(col_offset(cols, (k - 1) as nat) as int, col_offset(cols, k) as int),
                cols[k - 1].att_type_id,
                cols[k - 1].att_len as nat,
            ) {
                Err(e) => Err(e),
                Ok(v) => Ok(vs.push(v)),
            },
        }
    }
}

/// The values of the row whose bytes are `b`.
pub open spec fn decode_row(b: Seq<u8>, cols: Seq<Column>) -> Result<Seq<ValueView>, CodecError> {
    decode_cols(b, cols, cols.len())
}

/// The first `n` rows stored in `b`.
pub open spec fn scan_prefix(b: Seq<u8>, cols: Seq<Column>, n: nat) -> Result<
    Seq<Seq<ValueView>>,
    CodecError,
>
    decreases n,
{
    if n == 0 {
        Ok(Seq::empty())
    } else {
        match scan_prefix(b, cols, (n - 1) as nat) {
            Err(e) => Err(e),
            Ok(rows) => match decode_row(
                b.subrange(((n - 1) * row_size(cols)) as int, (n * row_size(cols)) as int),
                cols,
            ) {
                Err(e) => Err(e),
                Ok(row) => Ok(rows.push(row)),
            },
        }
    }
}

/// Number of complete rows in a file of `len` bytes; a trailing partial row
/// does not count, and rows of no bytes are never delimited.
pub open spec fn complete_rows(len: nat, cols: Seq<Column>) -> nat {
    if row_size(cols) == 0 {
        0
    } else {
        len / row_size(cols)
    }
}

/// Rows that a full scan of the file contents `b` yields, in file order.
pub open spec fn scan(b: Seq<u8>, cols: Seq<Column>) -> Result<Seq<Seq<ValueView>>, CodecError> {
    scan_prefix(b, cols, complete_rows(b.len(), cols))
}

/// Bytes of the first `n` rows of `rows`, one after the other.
pub open spec fn encode_rows(rows: Seq<Seq<ValueView>>, cols: Seq<Column>, n: nat) -> Seq<u8>
    decreases n,
{
    if n == 0 {
        Seq::empty()
    } else {
        encode_rows(rows, cols, (n - 1) as nat) + encode_row(rows[n - 1], cols)
    }
}

/// Whether column `c` stores `v` so that it reads back unchanged: the
/// value's type is the column's, a fixed-width value fills exactly the
/// column's declared length, and a CHAR/VARCHAR payload fits that length
/// and does not end in a zero byte.
pub open spec fn stores_exactly(v: ValueView, c: Column) -> bool {
    &&& type_id_of(v) == c.att_type_id
    &&& match v {
        ValueView::Char(b) => fits_text(b, c.att_len as nat),
        ValueView::VarChar(b) => fits_text(b, c.att_len as nat),
        ValueView::Uuid(b) => b.len() == 16 && c.att_len == 16,
        _ => encode_value(v, c.att_len as nat).len() == c.att_len,
    }
}

/// Whether `vals` is a row that the columns `cols` store exactly.
pub open spec fn row_fits(vals: Seq<ValueView>, cols: Seq<Column>) -> bool {
    &&& vals.len() == cols.len()
    &&& forall|i: int| 0 <= i < cols.len() ==> stores_exactly(#[trigger] vals[i], cols[i])
}

proof fn lemma_encode_prefix_shape(vals: Seq<ValueView>, cols: Seq<Column>, k: nat, n: nat)
    requires
        k <= n <= vals.len(),
        n <= cols.len(),
        forall|i: int| 0 <= i < n ==> stores_exactly(#[trigger] vals[i], cols[i]),
    ensures
        encode_prefix(vals, cols, n).len() == col_offset(cols, n),
        encode_prefix(vals, cols, n).take(col_offset(cols, k) as int) == encode_prefix(vals, cols, k),
    decreases n,
{
    if n > 0 {
        let m = (n - 1) as nat;
        let v = vals[m as int];
        let c = cols[m as int];
        assert(stores_exactly(v, c));
        assert(encode_value(v, c.att_len as nat).len() == c.att_len) by {
            match v {
                ValueView::Char(b) => {},
                ValueView::VarChar(b) => {},
                ValueView::Uuid(b) => {},
                _ => {},
            }
        }
        if k <= m {
            lemma_encode_prefix_shape(vals, cols, k, m);
            lemma_col_offset_mono(cols, k, m);
            assert(encode_prefix(vals, cols, n).take(col_offset(cols, k) as int) =~= encode_prefix(
                vals,
                cols,
                m,
            ).take(col_offset(cols, k) as int));
        } else {
            lemma_encode_prefix_shape(vals, cols, m, m);
            assert(encode_prefix(vals, cols, n).take(col_offset(cols, k) as int) =~= encode_prefix(
                vals,
                cols,
                n,
            ));
        }
    }
}

proof fn lemma_decode_encoded_cols(vals: Seq<ValueView>, cols: Seq<Column>, k: nat)
    requires
        row_fits(vals, cols),
        k <= cols.len(),
    ensures
        decode_cols(encode_row(vals, cols), cols, k) == Ok::<Seq<ValueView>, CodecError>(
            vals.take(k as int),
        ),
    decreases k,
{
    let n = cols.len();
    let b = encode_row(vals, cols);
    if k > 0 {
        let j = (k - 1) as nat;
        lemma_decode_encoded_cols(vals, cols, j);
        lemma_encode_prefix_shape(vals, cols, k, n);
        lemma_encode_prefix_shape(vals, cols, j, k);
        lemma_col_offset_mono(cols, k, n);
        let v = vals[j as int];
        let c = cols[j as int];
        assert(stores_exactly(v, c));
        let part = encode_value(v, c.att_len as nat);
        lemma_encode_prefix_shape(vals, cols, j, j);
        let oj = col_offset(cols, j) as int;
        let ok = col_offset(cols, k) as int;
        let pk = encode_prefix(vals, cols, k);
        assert(b == encode_prefix(vals, cols, n));
        assert(pk == encode_prefix(vals, cols, j) + part);
        assert(b.take(ok) == pk);
        assert(b.subrange(oj, ok) =~= pk.subrange(oj, ok));
        assert(pk.subrange(oj, ok) =~= part);
        lemma_round_trip(v, c.att_len as nat);
        assert(vals.take(k as int) =~= vals.take(j as int).push(v));
    } else {
        assert(vals.take(0) =~= Seq::<ValueView>::empty());
    }
}

/// The values of a row that its columns store exactly read back unchanged.
proof fn lemma_decode_encoded_row(vals: Seq<ValueView>, cols: Seq<Column>)
    requires
        row_fits(vals, cols),
    ensures
        encode_row(vals, cols).len() == row_size(cols),
        decode_row(encode_row(vals, cols), cols) == Ok::<Seq<ValueView>, CodecError>(vals),
{
    lemma_encode_prefix_shape(vals, cols, cols.len(), cols.len());
    lemma_decode_encoded_cols(vals, cols, cols.len());
    assert(vals.take(cols.len() as int) =~= vals);
}

proof fn lemma_encode_rows_shape(rows: Seq<Seq<ValueView>>, cols: Seq<Column>, k: nat, n: nat)
    requires
        k <= n <= rows.len(),
        forall|i: int| 0 <= i < n ==> row_fits(#[trigger] rows[i], cols),
    ensures
        encode_rows(rows, cols, n).len() == n * row_size(cols),
        encode_rows(rows, cols, n).take((k * row_size(cols)) as int) == encode_rows(rows, cols, k),
    decreases n,
{
    let rs = row_size(cols);
    if n > 0 {
        let m = (n - 1) as nat;
        lemma_decode_encoded_row(rows[m as int], cols);
        assert(n * rs == m * rs + rs) by (nonlinear_arith)
            requires
                n == m + 1,
        ;
        if k <= m {
            lemma_encode_rows_shape(rows, cols, k, m);
            assert(k * rs <= m * rs) by (nonlinear_arith)
                requires
                    k <= m,
            ;
            assert(encode_rows(rows, cols, n).take((k * rs) as int) =~= encode_rows(rows, cols, m).take(
                (k * rs) as int,
            ));
        } else {
            lemma_encode_rows_shape(rows, cols, m, m);
            assert(encode_rows(rows, cols, n).take((k * rs) as int) =~= encode_rows(rows, cols, n));
        }
    }
}

proof fn lemma_scan_encoded_rows(rows: Seq<Seq<ValueView>>, cols: Seq<Column>, k: nat)
    requires
        k <= rows.len(),
        forall|i: int| 0 <= i < rows.len() ==> row_fits(#[trigger] rows[i], cols),
    ensures
        scan_prefix(encode_rows(rows, cols, rows.len()), cols, k) == Ok::<
            Seq<Seq<ValueView>>,
            CodecError,
        >(rows.take(k as int)),
    decreases k,
{
    if k > 0 {
        let j = (k - 1) as nat;
        let n = rows.len();
        let rs = row_size(cols);
        let b = encode_rows(rows, cols, n);
        lemma_scan_encoded_rows(rows, cols, j);
        lemma_encode_rows_shape(rows, cols, k, n);
        lemma_encode_rows_shape(rows, cols, j, k);
        lemma_decode_encoded_row(rows[j as int], cols);
        assert(k * rs == j * rs + rs) by (nonlinear_arith)
            requires
                k == j + 1,
        ;
        lemma_encode_rows_shape(rows, cols, j, j);
        let pk = encode_rows(rows, cols, k);
        let lo = (j * rs) as int;
        let hi = (k * rs) as int;
        assert(pk == encode_rows(rows, cols, j) + encode_row(rows[j as int], cols));
        assert(k * rs <= n * rs) by (nonlinear_arith)
            requires
                k <= n,
        ;
        assert(b.take(hi) == pk);
        assert(b.subrange(lo, hi) =~= pk.subrange(lo, hi));
        assert(pk.subrange(lo, hi) =~= encode_row(rows[j as int], cols));
        assert(rows.take(k as int) =~= rows.take(j as int).push(rows[j as int]));
    } else {
        assert(rows.take(0) =~= Seq::<Seq<ValueView>>::empty());
    }
}

/// Append-then-scan: rows that the table's columns store exactly, appended
/// one after the other, are what a scan of those bytes yields, in order.
pub proof fn lemma_append_then_scan(rows: Seq<Seq<ValueView>>, cols: Seq<Column>)
    requires
        row_size(cols) > 0,
        forall|i: int| 0 <= i < rows.len() ==> row_fits(#[trigger] rows[i], cols),
    ensures
        scan(encode_rows(rows, cols, rows.len()), cols) == Ok::<Seq<Seq<ValueView>>, CodecError>(
            rows,
        ),
{
    let n = rows.len();
    let rs = row_size(cols);
    lemma_encode_rows_shape(rows, cols, n, n);
    vstd::arithmetic::div_mod::lemma_div_multiples_vanish(n as int, rs as int);
    assert(n * rs == rs * n) by (nonlinear_arith);
    lemma_scan_encoded_rows(rows, cols, n);
    assert(rows.take(n as int) =~= rows);
}

/// Partial-row discard over stored rows: a heap file holding the encodings
/// of `rows` (each stored exactly by the columns) followed by an
/// interrupted append of fewer bytes than one row scans as exactly `rows`,
/// in order; the tail yields neither a row nor an error.
pub proof fn lemma_scan_drops_partial_tail(
    rows: Seq<Seq<ValueView>>,
    tail: Seq<u8>,
    cols: Seq<Column>,
)
    requires
        row_size(cols) > 0,
        forall|i: int| 0 <= i < rows.len() ==> row_fits(#[trigger] rows[i], cols),
        tail.len() < row_size(cols),
    ensures
        encode_rows(rows, cols, rows.len()).len() == rows.len() * row_size(cols),
        scan(encode_rows(rows, cols, rows.len()) + tail, cols) == Ok::<
            Seq<Seq<ValueView>>,
            CodecError,
        >(rows),
{
    let n = rows.len();
    let rs = row_size(cols);
    let b = encode_rows(rows, cols, n);
    lemma_encode_rows_shape(rows, cols, n, n);
    vstd::arithmetic::div_mod::lemma_mod_multiples_basic(n as int, rs as int);
    assert(b.len() % rs == 0) by {
        assert(n * rs == rs * n) by (nonlinear_arith);
    }
    lemma_partial_row_discarded(b, tail, cols);
    lemma_append_then_scan(rows, cols);
}

/// View of decoded rows.
pub open spec fn rows_view(rows: Seq<Vec<DataValue>>) -> Seq<Seq<ValueView>> {
    rows.map_values(|r: Vec<DataValue>| values_view(r@))
}

/// A table's heap file, seen from the writer's side: rows inserted since the
/// last [`HeapFile::finalize`] wait in `pending`, in insertion order.
pub struct HeapFile {
    pub table_info: Table,
    pub pending: Vec<u8>,
}

proof fn lemma_col_offset_mono(cols: Seq<Column>, a: nat, b: nat)
    requires
        a <= b <= cols.len(),
    ensures
        col_offset(cols, a) <= col_offset(cols, b),
    decreases b,
{
    if a < b {
        lemma_col_offset_mono(cols, a, (b - 1) as nat);
    }
}

/// Decodes the row whose bytes are `b`.
fn decode_row_exec(b: &[u8], cols: &Vec<Column>) -> (r: Result<Vec<DataValue>, CodecError>)
    requires
        b@.len() == row_size(cols@),
    ensures
        match r {
            Ok(vs) => decode_row(b@, cols@) == Ok::<Seq<ValueView>, CodecError>(values_view(vs@)),
            Err(e) => decode_row(b@, cols@) == Err::<Seq<ValueView>, CodecError>(e),
        },
{
    let ghost c = cols@;
    let blen = b.len();
    let mut vals: Vec<DataValue> = Vec::new();
    assert(values_view(vals@) =~= Seq::<ValueView>::empty());
    let mut off: usize = 0;
    let mut k: usize = 0;
    while k < cols.len()
        invariant
            k <= c.len(),
            c == cols@,
            blen == b@.len(),
            b@.len() == row_size(c),
            off == col_offset(c, k as nat),
            decode_cols(b@, c, k as nat) == Ok::<Seq<ValueView>, CodecError>(values_view(vals@)),
        decreases c.len() - k,
    {
        proof {
            lemma_col_offset_mono(c, (k + 1) as nat, c.len());
        }
        let len = cols[k].att_len;
        let window = slice_subrange(b, off, off + len as usize);
        let ghost before = vals@;
        match DataValue::from_bytes(window, cols[k].att_type_id, len) {
            Ok(v) => {
                vals.push(v);
                assert(values_view(vals@) =~= values_view(before).push(v@));
            },
            Err(e) => {
                proof {
                    lemma_decode_error_persists(b@, c, (k + 1) as nat, c.len());
                }
                return Err(e);
            },
        }
        off = off + len as usize;
        k = k + 1;
    }
    Ok(vals)
}

proof fn lemma_decode_error_persists(b: Seq<u8>, cols: Seq<Column>, m: nat, n: nat)
    requires
        m <= n,
        decode_cols(b, cols, m) is Err,
    ensures
        decode_cols(b, cols, n) == decode_cols(b, cols, m),
    decreases n,
{
    if m < n {
        lemma_decode_error_persists(b, cols, m, (n - 1) as nat);
    }
}

proof fn lemma_scan_error_persists(b: Seq<u8>, cols: Seq<Column>, m: nat, n: nat)
    requires
        m <= n,
        scan_prefix(b, cols, m) is Err,
    ensures
        scan_prefix(b, cols, n) == scan_prefix(b, cols, m),
    decreases n,
{
    if m < n {
        lemma_scan_error_persists(b, cols, m, (n - 1) as nat);
    }
}

proof fn lemma_scan_prefix_of_extension(b: Seq<u8>, tail: Seq<u8>, cols: Seq<Column>, n: nat)
    requires
        n * row_size(cols) <= b.len(),
    ensures
        scan_prefix(b + tail, cols, n) == scan_prefix(b, cols, n),
    decreases n,
{
    if n > 0 {
        let rs = row_size(cols);
        assert((n - 1) * rs <= n * rs) by (nonlinear_arith)
            requires
                n > 0,
        ;
        lemma_scan_prefix_of_extension(b, tail, cols, (n - 1) as nat);
        assert((b + tail).subrange(((n - 1) * rs) as int, (n * rs) as int) =~= b.subrange(
            ((n - 1) * rs) as int,
            (n * rs) as int,
        ));
    }
}

/// A heap file whose last record was only partly written (fewer bytes than
/// one row after the last complete row) scans exactly as the file without
/// that tail: every complete row, and nothing of the partial one.
pub proof fn lemma_partial_row_discarded(b: Seq<u8>, tail: Seq<u8>, cols: Seq<Column>)
    requires
        row_size(cols) > 0,
        b.len() % row_size(cols) == 0,
        tail.len() < row_size(cols),
    ensures
        complete_rows((b + tail).len(), cols) == complete_rows(b.len(), cols),
        scan(b + tail, cols) == scan(b, cols),
{
    let rs = row_size(cols);
    let k = b.len() / rs;
    vstd::arithmetic::div_mod::lemma_fundamental_div_mod(b.len() as int, rs as int);
    vstd::arithmetic::div_mod::lemma_fundamental_div_mod_converse(
        (b.len() + tail.len()) as int,
        rs as int,
        k as int,
        tail.len() as int,
    );
    assert(k * rs == b.len()) by (nonlinear_arith)
        requires
            b.len() == rs * k + 0,
    ;
    lemma_scan_prefix_of_extension(b, tail, cols, k);
}

impl HeapFile {
    pub fn new(table_info: Table) -> (r: Self)
        ensures
            r.table_info == table_info,
            r.pending@ == Seq::<u8>::empty(),
    {
        HeapFile { table_info, pending: Vec::new() }
    }

    /// Appends one row: `data` is paired with the table's columns by position
    /// and each value is encoded at its column's declared length. Excess
    /// values or columns on either side are left out.
    pub fn insert_row(&mut self, data: Vec<DataValue>)
        ensures
            final(self).table_info == old(self).table_info,
            final(self).pending@ == old(self).pending@ + encode_row(
                values_view(data@),
                old(self).table_info.tab_columns@,
            ),
    {
        let ghost start = self.pending@;
        let ghost vals = values_view(data@);
        let ghost cols = self.table_info.tab_columns@;
        let n = if data.len() <= self.table_info.tab_columns.len() {
            data.len()
        } else {
            self.table_info.tab_columns.len()
        };
        let mut i: usize = 0;
        while i < n
            invariant
                i <= n,
                n <= data@.len(),
                n <= cols.len(),
                cols == self.table_info.tab_columns@,
                vals == values_view(data@),
                self.table_info == old(self).table_info,
                self.pending@ == start + encode_prefix(vals, cols, i as nat),
            decreases n - i,
        {
            let mut bytes = data[i].to_bytes(self.table_info.tab_columns[i].att_len);
            self.pending.append(&mut bytes);
            i = i + 1;
            assert(self.pending@ =~= start + encode_prefix(vals, cols, i as nat));
        }
    }

    /// Hands over the bytes of the rows inserted so far, to be appended to
    /// the table's data file in one write.
    pub fn finalize(self) -> (r: Vec<u8>)
        ensures
            r@ == self.pending@,
    {
        self.pending
    }

    /// Decodes the complete rows of a heap file whose contents are
    /// `contents`, in file order. A trailing partial row (an interrupted
    /// append) is dropped; the first value that cannot be decoded fails the
    /// whole scan.
    pub fn get_all_rows(&self, contents: &[u8]) -> (r: Result<Vec<Vec<DataValue>>, CodecError>)
        ensures
            match r {
                Ok(rows) => scan(contents@, self.table_info.tab_columns@) == Ok::<
                    Seq<Seq<ValueView>>,
                    CodecError,
                >(rows_view(rows@)),
                Err(e) => scan(contents@, self.table_info.tab_columns@) == Err::<
                    Seq<Seq<ValueView>>,
                    CodecError,
                >(e),
            },
    {
        let cols = &self.table_info.tab_columns;
        let ghost c = cols@;
        let total = contents.len();
        let mut size: usize = 0;
        let mut k: usize = 0;
        while k < cols.len()
            invariant
                k <= c.len(),
                c == cols@,
                c == self.table_info.tab_columns@,
                total == contents@.len(),
                size == col_offset(c, k as nat),
                size <= total,
            decreases c.len() - k,
        {
            let len = cols[k].att_len;
            if len as u64 > (total - size) as u64 {
                proof {
                    lemma_col_offset_mono(c, (k + 1) as nat, c.len());
                    assert(col_offset(c, (k + 1) as nat) == size + len);
                    assert(row_size(c) > total);
                    assert(complete_rows(total as nat, c) == 0) by {
                        vstd::arithmetic::div_mod::lemma_basic_div(
                            total as int,
                            row_size(c) as int,
                        );
                    }
                }
                let none: Vec<Vec<DataValue>> = Vec::new();
                assert(rows_view(none@) =~= Seq::<Seq<ValueView>>::empty());
                assert(scan(contents@, c) == scan_prefix(contents@, c, 0));
                assert(scan(contents@, c) == Ok::<Seq<Seq<ValueView>>, CodecError>(rows_view(none@)));
                return Ok(none);
            }
            size = size + len as usize;
            k = k + 1;
        }
        let mut rows: Vec<Vec<DataValue>> = Vec::new();
        assert(rows_view(rows@) =~= Seq::<Seq<ValueView>>::empty());
        if size == 0 {
            return Ok(rows);
        }
        let n = total / size;
        let mut r: usize = 0;
        while r < n
            invariant
                r <= n,
                size > 0,
                size == row_size(c),
                n == complete_rows(total as nat, c),
                total == contents@.len(),
                c == cols@,
                c == self.table_info.tab_columns@,
                scan_prefix(contents@, c, r as nat) == Ok::<Seq<Seq<ValueView>>, CodecError>(
                    rows_view(rows@),
                ),
            decreases n - r,
        {
            proof {
                assert((r + 1) * size <= n * size) by (nonlinear_arith)
                    requires
                        r + 1 <= n,
                        size > 0,
                ;
                assert(n * size <= total) by (nonlinear_arith)
                    requires
                        n == total / size,
                        size > 0,
                ;
                assert((r + 1) * size == r * size + size) by (nonlinear_arith);
            }
            let start = r * size;
            let window = slice_subrange(contents, start, start + size);
            let ghost before = rows@;
            match decode_row_exec(window, cols) {
                Ok(row) => {
                    rows.push(row);
                    assert(rows_view(rows@) =~= rows_view(before).push(values_view(row@)));
                },
                Err(e) => {
                    proof {
                        assert(window@ == contents@.subrange(
                            ((r + 1 - 1) * row_size(c)) as int,
                            ((r + 1) * row_size(c)) as int,
                        ));
                        assert(scan_prefix(contents@, c, (r + 1) as nat) == Err::<
                            Seq<Seq<ValueView>>,
                            CodecError,
                        >(e));
                        lemma_scan_error_persists(contents@, c, (r + 1) as nat, n as nat);
                    }
                    return Err(e);
                },
            }
            r = r + 1;
        }
        Ok(rows)
    }
}

} // verus!
