//! A model of the extraction-result store.
//!
//! The persistent store keeps one table of extraction results and one of
//! indicator values; every write path that records a new result for a
//! file removes the file's earlier results and their values, so that at
//! most one live result exists per file.  This module carries that logic
//! over rows held in memory, with the deletion rules as verified
//! operations; the surrounding program mirrors each operation onto the
//! relational store row for row.

use vstd::prelude::*;

verus! {

/// One extraction attempt against one file.
pub struct OcrResult {
    pub id: String,
    pub file_id: String,
    pub record_id: String,
    pub project_id: String,
    pub checkup_date: String,
    pub raw_json: String,
    pub parsed_items: String,
    pub status: String,
    pub error_message: String,
    pub created_at: String,
}

/// The mathematical content of a result row.
pub ghost struct OcrResultView {
    pub id: Seq<char>,
    pub file_id: Seq<char>,
    pub record_id: Seq<char>,
    pub project_id: Seq<char>,
    pub checkup_date: Seq<char>,
    pub raw_json: Seq<char>,
    pub parsed_items: Seq<char>,
    pub status: Seq<char>,
    pub error_message: Seq<char>,
    pub created_at: Seq<char>,
}

impl View for OcrResult {
    type V = OcrResultView;

    open spec fn view(&self) -> OcrResultView {
        OcrResultView {
            id: self.id@,
            file_id: self.file_id@,
            record_id: self.record_id@,
            project_id: self.project_id@,
            checkup_date: self.checkup_date@,
            raw_json: self.raw_json@,
            parsed_items: self.parsed_items@,
            status: self.status@,
            error_message: self.error_message@,
            created_at: self.created_at@,
        }
    }
}

impl DeepView for OcrResult {
    type V = OcrResultView;

    open spec fn deep_view(&self) -> OcrResultView {
        self.view()
    }
}

/// One stored point of the time series.
pub struct StoredValue {
    pub ocr_result_id: String,
    pub record_id: String,
    pub project_id: String,
    pub indicator_id: String,
    pub checkup_date: String,
    pub value_text: String,
    pub value_is_numeric: bool,
    pub is_abnormal: bool,
    pub created_at: String,
}

/// The mathematical content of a stored value.
pub ghost struct StoredValueView {
    pub ocr_result_id: Seq<char>,
    pub record_id: Seq<char>,
    pub project_id: Seq<char>,
    pub indicator_id: Seq<char>,
    pub checkup_date: Seq<char>,
    pub value_text: Seq<char>,
    pub value_is_numeric: bool,
    pub is_abnormal: bool,
    pub created_at: Seq<char>,
}

impl View for StoredValue {
    type V = StoredValueView;

    open spec fn view(&self) -> StoredValueView {
        StoredValueView {
            ocr_result_id: self.ocr_result_id@,
            record_id: self.record_id@,
            project_id: self.project_id@,
            indicator_id: self.indicator_id@,
            checkup_date: self.checkup_date@,
            value_text: self.value_text@,
            value_is_numeric: self.value_is_numeric,
            is_abnormal: self.is_abnormal,
            created_at: self.created_at@,
        }
    }
}

impl DeepView for StoredValue {
    type V = StoredValueView;

    open spec fn deep_view(&self) -> StoredValueView {
        self.view()
    }
}

/// The rows the engine owns.
pub struct OcrStore {
    pub results: Vec<OcrResult>,
    pub values: Vec<StoredValue>,
}

/// How many result rows a file has.
pub open spec fn count_file(rows: Seq<OcrResultView>, file_id: Seq<char>) -> int
    decreases rows.len(),
{
    if rows.len() == 0 {
        0
    } else {
        (if rows[0].file_id == file_id {
            1int
        } else {
            0int
        }) + count_file(rows.drop_first(), file_id)
    }
}

/// The result rows of every other file.
pub open spec fn keep_other_results(rows: Seq<OcrResultView>, file_id: Seq<char>) -> Seq<
    OcrResultView,
>
    decreases rows.len(),
{
    if rows.len() == 0 {
        Seq::empty()
    } else if rows[0].file_id == file_id {
        keep_other_results(rows.drop_first(), file_id)
    } else {
        seq![rows[0]] + keep_other_results(rows.drop_first(), file_id)
    }
}

/// Whether some result row of the given file owns this value.
pub open spec fn owned_by_file(
    v: StoredValueView,
    rows: Seq<OcrResultView>,
    file_id: Seq<char>,
) -> bool {
    exists|i: int|
        0 <= i < rows.len() && rows[i].file_id == file_id && rows[i].id == v.ocr_result_id
}

/// The values not owned by any result row of the given file.
pub open spec fn keep_values_of_other_files(
    vals: Seq<StoredValueView>,
    rows: Seq<OcrResultView>,
    file_id: Seq<char>,
) -> Seq<StoredValueView>
    decreases vals.len(),
{
    if vals.len() == 0 {
        Seq::empty()
    } else if owned_by_file(vals[0], rows, file_id) {
        keep_values_of_other_files(vals.drop_first(), rows, file_id)
    } else {
        seq![vals[0]] + keep_values_of_other_files(vals.drop_first(), rows, file_id)
    }
}

/// The values of every other owner.
pub open spec fn keep_other_values(vals: Seq<StoredValueView>, oid: Seq<char>) -> Seq<
    StoredValueView,
>
    decreases vals.len(),
{
    if vals.len() == 0 {
        Seq::empty()
    } else if vals[0].ocr_result_id == oid {
        keep_other_values(vals.drop_first(), oid)
    } else {
        seq![vals[0]] + keep_other_values(vals.drop_first(), oid)
    }
}

/// Whether the store holds at most one result row for the given file.
pub open spec fn one_live_per_file(rows: Seq<OcrResultView>, file_id: Seq<char>) -> bool {
    count_file(rows, file_id) <= 1
}

impl OcrStore {
    /// An empty store.
    pub fn new() -> (r: OcrStore)
        ensures
            r.results@.len() == 0,
            r.values@.len() == 0,
    {
        OcrStore { results: Vec::new(), values: Vec::new() }
    }

    /// Record a new extraction attempt for a file: the new result row and
    /// its values go in, every earlier result row of that file and all
    /// values those rows owned go out.  This is the write path for a
    /// successful extraction (values from reconciliation), for a failed
    /// one (no values), and for a retry placeholder (no values).
    pub fn record_attempt(&mut self, row: OcrResult, new_values: Vec<StoredValue>)
        ensures
            final(self).results.deep_view() == keep_other_results(
                old(self).results.deep_view(),
                row@.file_id,
            ).push(row@),
            final(self).values.deep_view() == keep_values_of_other_files(
                old(self).values.deep_view(),
                old(self).results.deep_view(),
                row@.file_id,
            ) + new_values.deep_view(),
    {
        let ghost rows_old = self.results.deep_view();
        let ghost vals_old = self.values.deep_view();
        let ghost fid = row@.file_id;
        // drop the file's earlier values, then its earlier result rows
        let mut kept_vals: Vec<StoredValue> = Vec::new();
        let mut k: usize = 0;
        proof {
            assert(vals_old.skip(0) =~= vals_old);
            assert(kept_vals.deep_view() + keep_values_of_other_files(vals_old, rows_old, fid)
                =~= keep_values_of_other_files(vals_old, rows_old, fid));
        }
        while k < self.values.len()
            invariant
                0 <= k <= self.values.len(),
                vals_old == self.values.deep_view(),
                rows_old == self.results.deep_view(),
                fid == row@.file_id,
                vals_old.len() == self.values@.len(),
                forall|m: int| 0 <= m < self.values@.len() ==> vals_old[m] == self.values@[m]@,
                keep_values_of_other_files(vals_old, rows_old, fid) == kept_vals.deep_view()
                    + keep_values_of_other_files(vals_old.skip(k as int), rows_old, fid),
            decreases self.values@.len() - k,
        {
            let ghost tail = vals_old.skip(k as int);
            proof {
                assert(tail[0] == vals_old[k as int]);
                assert(tail.drop_first() =~= vals_old.skip(k + 1 as int));
            }
            let owned = self.value_owned_by_file(k, &row.file_id);
            proof {
                assert(owned == owned_by_file(tail[0], rows_old, fid));
                if owned {
                    assert(keep_values_of_other_files(tail, rows_old, fid)
                        == keep_values_of_other_files(
                        vals_old.skip(k + 1 as int),
                        rows_old,
                        fid,
                    ));
                } else {
                    assert(keep_values_of_other_files(tail, rows_old, fid) == seq![tail[0]]
                        + keep_values_of_other_files(vals_old.skip(k + 1 as int), rows_old, fid));
                }
            }
            if !owned {
                let ghost kept_old = kept_vals.deep_view();
                let copied = self.copy_value(k);
                kept_vals.push(copied);
                proof {
                    assert(kept_vals.deep_view() =~= kept_old.push(vals_old[k as int]));
                    assert(kept_old + (seq![tail[0]] + keep_values_of_other_files(
                        vals_old.skip(k + 1 as int),
                        rows_old,
                        fid,
                    )) =~= kept_vals.deep_view() + keep_values_of_other_files(
                        vals_old.skip(k + 1 as int),
                        rows_old,
                        fid,
                    ));
                }
            }
            k = k + 1;
        }
        proof {
            assert(vals_old.skip(vals_old.len() as int) =~= Seq::<StoredValueView>::empty());
            assert(kept_vals.deep_view() + Seq::<StoredValueView>::empty() =~= kept_vals.deep_view());
        }
        let mut kept_rows: Vec<OcrResult> = Vec::new();
        let mut j: usize = 0;
        proof {
            assert(rows_old.skip(0) =~= rows_old);
            assert(kept_rows.deep_view() + keep_other_results(rows_old, fid) =~= keep_other_results(
                rows_old,
                fid,
            ));
        }
        while j < self.results.len()
            invariant
                0 <= j <= self.results.len(),
                rows_old == self.results.deep_view(),
                fid == row@.file_id,
                rows_old.len() == self.results@.len(),
                forall|m: int| 0 <= m < self.results@.len() ==> rows_old[m] == self.results@[m]@,
                keep_other_results(rows_old, fid) == kept_rows.deep_view() + keep_other_results(
                    rows_old.skip(j as int),
                    fid,
                ),
            decreases self.results@.len() - j,
        {
            let ghost tail = rows_old.skip(j as int);
            proof {
                assert(tail[0] == rows_old[j as int]);
                assert(tail.drop_first() =~= rows_old.skip(j + 1 as int));
            }
            let same = {
                let a = crate::text::chars_of(self.results[j].file_id.as_str());
                let b = crate::text::chars_of(row.file_id.as_str());
                crate::text::eq_chars(&a, &b)
            };
            proof {
                assert(same == (tail[0].file_id == fid));
                if same {
                    assert(keep_other_results(tail, fid) == keep_other_results(
                        rows_old.skip(j + 1 as int),
                        fid,
                    ));
                } else {
                    assert(keep_other_results(tail, fid) == seq![tail[0]] + keep_other_results(
                        rows_old.skip(j + 1 as int),
                        fid,
                    ));
                }
            }
            if !same {
                let ghost kept_old = kept_rows.deep_view();
                let copied = self.copy_result(j);
                kept_rows.push(copied);
                proof {
                    assert(kept_rows.deep_view() =~= kept_old.push(rows_old[j as int]));
                    assert(kept_old + (seq![tail[0]] + keep_other_results(
                        rows_old.skip(j + 1 as int),
                        fid,
                    )) =~= kept_rows.deep_view() + keep_other_results(
                        rows_old.skip(j + 1 as int),
                        fid,
                    ));
                }
            }
            j = j + 1;
        }
        proof {
            assert(rows_old.skip(rows_old.len() as int) =~= Seq::<OcrResultView>::empty());
            assert(kept_rows.deep_view() + Seq::<OcrResultView>::empty() =~= kept_rows.deep_view());
        }
        kept_rows.push(row);
        let mut merged_vals = kept_vals;
        let mut n: usize = 0;
        let ghost new_vals_view = new_values.deep_view();
        let ghost merged_base = merged_vals.deep_view();
        while n < new_values.len()
            invariant
                0 <= n <= new_values.len(),
                new_vals_view == new_values.deep_view(),
                new_vals_view.len() == new_values@.len(),
                forall|m: int| 0 <= m < new_values@.len() ==> new_vals_view[m] == new_values@[m]@,
                merged_vals.deep_view() == merged_base + new_vals_view.take(n as int),
            decreases new_values@.len() - n,
        {
            let ghost before = merged_vals.deep_view();
            let copied = Self::copy_value_of(&new_values, n);
            merged_vals.push(copied);
            proof {
                assert(merged_vals.deep_view() =~= before.push(new_vals_view[n as int]));
                assert(merged_base + new_vals_view.take(n + 1 as int) =~= (merged_base
                    + new_vals_view.take(n as int)).push(new_vals_view[n as int]));
            }
            n = n + 1;
        }
        proof {
            assert(new_vals_view.take(new_vals_view.len() as int) =~= new_vals_view);
        }
        self.results = kept_rows;
        self.values = merged_vals;
        proof {
            assert(self.results.deep_view() =~= keep_other_results(rows_old, fid).push(row@));
        }
    }

    /// Replace the values one result owns: its old values go out, the new
    /// ones go in.  Re-running this with the same values changes nothing
    /// more — see `lemma_regeneration_idempotent`.
    pub fn regenerate_values(&mut self, ocr_id: &String, new_values: Vec<StoredValue>)
        ensures
            final(self).results.deep_view() == old(self).results.deep_view(),
            final(self).values.deep_view() == keep_other_values(
                old(self).values.deep_view(),
                ocr_id@,
            ) + new_values.deep_view(),
    {
        let ghost vals_old = self.values.deep_view();
        let ghost oid = ocr_id@;
        let mut kept_vals: Vec<StoredValue> = Vec::new();
        let mut k: usize = 0;
        proof {
            assert(vals_old.skip(0) =~= vals_old);
            assert(kept_vals.deep_view() + keep_other_values(vals_old, oid) =~= keep_other_values(
                vals_old,
                oid,
            ));
        }
        while k < self.values.len()
            invariant
                0 <= k <= self.values.len(),
                vals_old == self.values.deep_view(),
                oid == ocr_id@,
                vals_old.len() == self.values@.len(),
                forall|m: int| 0 <= m < self.values@.len() ==> vals_old[m] == self.values@[m]@,
                keep_other_values(vals_old, oid) == kept_vals.deep_view() + keep_other_values(
                    vals_old.skip(k as int),
                    oid,
                ),
            decreases self.values@.len() - k,
        {
            let ghost tail = vals_old.skip(k as int);
            proof {
                assert(tail[0] == vals_old[k as int]);
                assert(tail.drop_first() =~= vals_old.skip(k + 1 as int));
            }
            let a = crate::text::chars_of(self.values[k].ocr_result_id.as_str());
            let b = crate::text::chars_of(ocr_id.as_str());
            let same = crate::text::eq_chars(&a, &b);
            proof {
                assert(vals_old[k as int] == self.values@[k as int]@);
                assert(a@ == self.values@[k as int].ocr_result_id@);
                assert(b@ == oid);
                assert(tail[0].ocr_result_id == self.values@[k as int].ocr_result_id@);
                assert(same == (tail[0].ocr_result_id == oid));
                if same {
                    assert(keep_other_values(tail, oid) == keep_other_values(
                        vals_old.skip(k + 1 as int),
                        oid,
                    ));
                } else {
                    assert(keep_other_values(tail, oid) == seq![tail[0]] + keep_other_values(
                        vals_old.skip(k + 1 as int),
                        oid,
                    ));
                }
            }
            if !same {
                let ghost kept_old = kept_vals.deep_view();
                let copied = self.copy_value(k);
                kept_vals.push(copied);
                proof {
                    assert(kept_vals.deep_view() =~= kept_old.push(vals_old[k as int]));
                    assert(kept_old + (seq![tail[0]] + keep_other_values(
                        vals_old.skip(k + 1 as int),
                        oid,
                    )) =~= kept_vals.deep_view() + keep_other_values(
                        vals_old.skip(k + 1 as int),
                        oid,
                    ));
                }
            }
            k = k + 1;
        }
        proof {
            assert(vals_old.skip(vals_old.len() as int) =~= Seq::<StoredValueView>::empty());
            assert(kept_vals.deep_view() + Seq::<StoredValueView>::empty() =~= kept_vals.deep_view());
        }
        let mut merged_vals = kept_vals;
        let mut n: usize = 0;
        let ghost new_vals_view = new_values.deep_view();
        let ghost merged_base = merged_vals.deep_view();
        while n < new_values.len()
            invariant
                0 <= n <= new_values.len(),
                new_vals_view == new_values.deep_view(),
                new_vals_view.len() == new_values@.len(),
                forall|m: int| 0 <= m < new_values@.len() ==> new_vals_view[m] == new_values@[m]@,
                merged_vals.deep_view() == merged_base + new_vals_view.take(n as int),
            decreases new_values@.len() - n,
        {
            let ghost before = merged_vals.deep_view();
            let copied = Self::copy_value_of(&new_values, n);
            merged_vals.push(copied);
            proof {
                assert(merged_vals.deep_view() =~= before.push(new_vals_view[n as int]));
                assert(merged_base + new_vals_view.take(n + 1 as int) =~= (merged_base
                    + new_vals_view.take(n as int)).push(new_vals_view[n as int]));
            }
            n = n + 1;
        }
        proof {
            assert(new_vals_view.take(new_vals_view.len() as int) =~= new_vals_view);
        }
        self.values = merged_vals;
    }

    /// Whether some result row of the given file owns the value at `k`.
    fn value_owned_by_file(&self, k: usize, file_id: &String) -> (r: bool)
        requires
            k < self.values@.len(),
        ensures
            r == owned_by_file(
                self.values@[k as int]@,
                self.results.deep_view(),
                file_id@,
            ),
    {
        let ghost rows = self.results.deep_view();
        let mut i: usize = 0;
        while i < self.results.len()
            invariant
                0 <= i <= self.results.len(),
                k < self.values@.len(),
                rows == self.results.deep_view(),
                rows.len() == self.results@.len(),
                forall|m: int| 0 <= m < self.results@.len() ==> rows[m] == self.results@[m]@,
                forall|m: int|
                    0 <= m < i ==> !(rows[m].file_id == file_id@ && rows[m].id
                        == self.values@[k as int]@.ocr_result_id),
            decreases self.results@.len() - i,
        {
            let fid_eq = {
                let a = crate::text::chars_of(self.results[i].file_id.as_str());
                let b = crate::text::chars_of(file_id.as_str());
                crate::text::eq_chars(&a, &b)
            };
            if fid_eq {
                let id_eq = {
                    let a = crate::text::chars_of(self.results[i].id.as_str());
                    let b = crate::text::chars_of(self.values[k].ocr_result_id.as_str());
                    crate::text::eq_chars(&a, &b)
                };
                if id_eq {
                    proof {
                        assert(0 <= (i as int) < rows.len() && rows[i as int].file_id == file_id@
                            && rows[i as int].id == self.values@[k as int]@.ocr_result_id);
                    }
                    return true;
                }
            }
            i = i + 1;
        }
        false
    }

    /// A copy of the result row at `j`.
    fn copy_result(&self, j: usize) -> (r: OcrResult)
        requires
            j < self.results@.len(),
        ensures
            r@ == self.results@[j as int]@,
    {
        let row = &self.results[j];
        OcrResult {
            id: row.id.clone(),
            file_id: row.file_id.clone(),
            record_id: row.record_id.clone(),
            project_id: row.project_id.clone(),
            checkup_date: row.checkup_date.clone(),
            raw_json: row.raw_json.clone(),
            parsed_items: row.parsed_items.clone(),
            status: row.status.clone(),
            error_message: row.error_message.clone(),
            created_at: row.created_at.clone(),
        }
    }

    /// A copy of the value row at `k`.
    fn copy_value(&self, k: usize) -> (r: StoredValue)
        requires
            k < self.values@.len(),
        ensures
            r@ == self.values@[k as int]@,
    {
        Self::copy_value_of(&self.values, k)
    }

    /// A copy of the value row at `k` of the given vector.
    fn copy_value_of(vals: &Vec<StoredValue>, k: usize) -> (r: StoredValue)
        requires
            k < vals@.len(),
        ensures
            r@ == vals@[k as int]@,
    {
        let v = &vals[k];
        StoredValue {
            ocr_result_id: v.ocr_result_id.clone(),
            record_id: v.record_id.clone(),
            project_id: v.project_id.clone(),
            indicator_id: v.indicator_id.clone(),
            checkup_date: v.checkup_date.clone(),
            value_text: v.value_text.clone(),
            value_is_numeric: v.value_is_numeric,
            is_abnormal: v.is_abnormal,
            created_at: v.created_at.clone(),
        }
    }
}

/// Dropping a file's rows leaves none of that file and every row of the
/// other files, counted exactly.
pub proof fn lemma_keep_other_counts(rows: Seq<OcrResultView>, fid: Seq<char>, g: Seq<char>)
    ensures
        count_file(keep_other_results(rows, fid), fid) == 0,
        g != fid ==> count_file(keep_other_results(rows, fid), g) == count_file(rows, g),
    decreases rows.len(),
{
    if rows.len() > 0 {
        lemma_keep_other_counts(rows.drop_first(), fid, g);
        if rows[0].file_id != fid {
            let kept = keep_other_results(rows.drop_first(), fid);
            assert((seq![rows[0]] + kept).drop_first() =~= kept);
        }
    }
}

/// Appending one row raises only its own file's count.
pub proof fn lemma_count_push(rows: Seq<OcrResultView>, row: OcrResultView, g: Seq<char>)
    ensures
        count_file(rows.push(row), g) == count_file(rows, g) + (if row.file_id == g {
            1int
        } else {
            0int
        }),
    decreases rows.len(),
{
    if rows.len() == 0 {
        assert(rows.push(row)[0] == row);
        assert(rows.push(row).drop_first() =~= Seq::<OcrResultView>::empty());
        assert(count_file(Seq::<OcrResultView>::empty(), g) == 0);
    } else {
        assert(rows.push(row)[0] == rows[0]);
        assert(rows.push(row).drop_first() =~= rows.drop_first().push(row));
        lemma_count_push(rows.drop_first(), row, g);
    }
}

/// Invariant: after a write path records a new result row for a file,
/// at most one result row exists for any file that had at most one.
pub proof fn lemma_one_live_result_per_file(
    rows: Seq<OcrResultView>,
    row: OcrResultView,
    f: Seq<char>,
)
    requires
        one_live_per_file(rows, f),
    ensures
        one_live_per_file(keep_other_results(rows, row.file_id).push(row), f),
{
    lemma_keep_other_counts(rows, row.file_id, f);
    lemma_count_push(keep_other_results(rows, row.file_id), row, f);
}

/// Dropping an owner's values is idempotent.
pub proof fn lemma_keep_other_values_idempotent(vals: Seq<StoredValueView>, oid: Seq<char>)
    ensures
        keep_other_values(keep_other_values(vals, oid), oid) == keep_other_values(vals, oid),
    decreases vals.len(),
{
    if vals.len() > 0 {
        lemma_keep_other_values_idempotent(vals.drop_first(), oid);
        if vals[0].ocr_result_id != oid {
            let kept = keep_other_values(vals.drop_first(), oid);
            assert((seq![vals[0]] + kept).drop_first() =~= kept);
        }
    }
}

/// Dropping an owner's values distributes over concatenation.
pub proof fn lemma_keep_other_values_concat(
    a: Seq<StoredValueView>,
    b: Seq<StoredValueView>,
    oid: Seq<char>,
)
    ensures
        keep_other_values(a + b, oid) == keep_other_values(a, oid) + keep_other_values(b, oid),
    decreases a.len(),
{
    if a.len() == 0 {
        assert(a + b =~= b);
        assert(keep_other_values(a, oid) + keep_other_values(b, oid) =~= keep_other_values(
            b,
            oid,
        ));
    } else {
        assert((a + b).drop_first() =~= a.drop_first() + b);
        lemma_keep_other_values_concat(a.drop_first(), b, oid);
        if a[0].ocr_result_id != oid {
            assert(seq![a[0]] + (keep_other_values(a.drop_first(), oid) + keep_other_values(
                b,
                oid,
            )) =~= (seq![a[0]] + keep_other_values(a.drop_first(), oid)) + keep_other_values(
                b,
                oid,
            ));
        }
    }
}

/// Values all owned by one result vanish when that owner's values drop.
pub proof fn lemma_keep_other_values_own(vals: Seq<StoredValueView>, oid: Seq<char>)
    requires
        forall|i: int| 0 <= i < vals.len() ==> vals[i].ocr_result_id == oid,
    ensures
        keep_other_values(vals, oid) == Seq::<StoredValueView>::empty(),
    decreases vals.len(),
{
    if vals.len() > 0 {
        lemma_keep_other_values_own(vals.drop_first(), oid);
    }
}

/// Idempotence of regeneration: replacing a result's value set twice
/// with the same drafts leaves exactly what one replacement leaves —
/// the same count, the same values, nothing duplicated.
pub proof fn lemma_regeneration_idempotent(
    vals: Seq<StoredValueView>,
    oid: Seq<char>,
    fresh: Seq<StoredValueView>,
)
    requires
        forall|i: int| 0 <= i < fresh.len() ==> fresh[i].ocr_result_id == oid,
    ensures
        keep_other_values(keep_other_values(vals, oid) + fresh, oid) + fresh == keep_other_values(
            vals,
            oid,
        ) + fresh,
{
    lemma_keep_other_values_concat(keep_other_values(vals, oid), fresh, oid);
    lemma_keep_other_values_idempotent(vals, oid);
    lemma_keep_other_values_own(fresh, oid);
    assert(keep_other_values(keep_other_values(vals, oid) + fresh, oid) =~= keep_other_values(
        vals,
        oid,
    ));
}

} // verus!
