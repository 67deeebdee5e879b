//! The statistics of one analysis run and the rules by which observed values
//! change them.
//!
//! [`AnalysisResults`] holds the counters in machine integers. Its view,
//! [`AnalysisModel`], holds the same counts as natural numbers, and the
//! functions on the model say what each observation does to them.

use std::collections::HashMap;
use vstd::prelude::*;
use vstd::string::StringExecFns;
use crate::assoc::{assoc, lemma_assoc_at, lemma_assoc_push, lemma_assoc_update};
use crate::formats::{classify, lemma_new_labels_keep_distinct, new_labels};
use crate::text::{
    count_class, count_classes, lemma_classes_partition, lemma_count_step,
    lemma_occurrences_bound, occurrences, texts, CharClass,
};
use crate::value::{cell_at, cells, CellModel, CellValue};

verus! {

broadcast use vstd::std_specs::hash::group_hash_axioms;

/// How many scalar units were seen of each kind: one per character of a text
/// value, one per numeric value and one per binary value.
#[derive(Clone, Copy, Debug, PartialEq, Eq, Structural)]
pub struct TypeDistribution {
    pub numeric: u64,
    pub alphabets: u64,
    pub special: u64,
    pub unknown: u64,
}

/// The counts of a [`TypeDistribution`] as natural numbers.
pub struct DistributionModel {
    pub numeric: nat,
    pub alphabets: nat,
    pub special: nat,
    pub unknown: nat,
}

impl View for TypeDistribution {
    type V = DistributionModel;

    open spec fn view(&self) -> DistributionModel {
        DistributionModel {
            numeric: self.numeric as nat,
            alphabets: self.alphabets as nat,
            special: self.special as nat,
            unknown: self.unknown as nat,
        }
    }
}

impl Default for TypeDistribution {
    fn default() -> (distribution: TypeDistribution)
        ensures
            distribution == (TypeDistribution { numeric: 0, alphabets: 0, special: 0, unknown: 0 }),
    {
        TypeDistribution { numeric: 0, alphabets: 0, special: 0, unknown: 0 }
    }
}

/// The formats detected so far in one column, in the order of detection.
#[derive(Clone, Debug, PartialEq, Eq)]
pub struct ColumnFormats {
    /// The column, written as the table's name, a dot and the column's name.
    pub column: String,
    pub formats: Vec<String>,
}

/// The statistics of a run.
#[derive(Clone, Debug, PartialEq, Eq)]
pub struct AnalysisResults {
    /// Characters of text values plus bytes of binary values.
    pub total_chars: u64,
    pub type_distribution: TypeDistribution,
    /// How often each code point occurred in text values.
    pub char_frequency: HashMap<u32, u64>,
    /// The formats detected per column; no column occurs twice.
    pub column_formats: Vec<ColumnFormats>,
}

/// The statistics of a run as mathematical values.
pub struct AnalysisModel {
    pub total_chars: nat,
    pub type_distribution: DistributionModel,
    pub char_frequency: Map<u32, nat>,
    pub column_formats: Map<Seq<char>, Seq<Seq<char>>>,
}

/// The name under which a column's formats are kept.
pub open spec fn column_key(table: Seq<char>, column: Seq<char>) -> Seq<char> {
    table + seq!['.'] + column
}

/// The counts of a frequency table as natural numbers.
pub open spec fn counts(frequency: Map<u32, u64>) -> Map<u32, nat> {
    Map::new(|code: u32| frequency.contains_key(code), |code: u32| frequency[code] as nat)
}

/// The frequencies after the characters of `value` were counted in.
pub open spec fn tally(frequency: Map<u32, nat>, value: Seq<char>) -> Map<u32, nat> {
    Map::new(
        |code: u32| frequency.contains_key(code) || occurrences(value, code) > 0,
        |code: u32|
            (if frequency.contains_key(code) {
                frequency[code]
            } else {
                0nat
            }) + occurrences(value, code),
    )
}

impl AnalysisModel {
    /// The statistics of a run that has seen nothing.
    pub open spec fn empty() -> AnalysisModel {
        AnalysisModel {
            total_chars: 0,
            type_distribution: DistributionModel { numeric: 0, alphabets: 0, special: 0, unknown: 0 },
            char_frequency: Map::empty(),
            column_formats: Map::empty(),
        }
    }

    /// How often the code point `code` occurred.
    pub open spec fn frequency(self, code: u32) -> nat {
        if self.char_frequency.contains_key(code) {
            self.char_frequency[code]
        } else {
            0
        }
    }

    /// The formats detected in the column kept under `key`.
    pub open spec fn formats_of(self, key: Seq<char>) -> Seq<Seq<char>> {
        if self.column_formats.contains_key(key) {
            self.column_formats[key]
        } else {
            seq![]
        }
    }

    /// A text value counts each of its characters: once in the total, once
    /// under the character's class and once under its code point. The
    /// formats it suggests are added to those of its column.
    pub open spec fn observe_text(
        self,
        table: Seq<char>,
        column: Seq<char>,
        value: Seq<char>,
    ) -> AnalysisModel {
        let key = column_key(table, column);
        let known = self.formats_of(key);
        AnalysisModel {
            total_chars: self.total_chars + value.len(),
            type_distribution: DistributionModel {
                numeric: self.type_distribution.numeric + count_class(value, CharClass::Numeric),
                alphabets: self.type_distribution.alphabets + count_class(
                    value,
                    CharClass::Alphabetic,
                ),
                special: self.type_distribution.special + count_class(value, CharClass::Special),
                unknown: self.type_distribution.unknown,
            },
            char_frequency: tally(self.char_frequency, value),
            column_formats: self.column_formats.insert(key, known + new_labels(value, known)),
        }
    }

    /// A numeric value counts once as numeric, whatever its digits.
    pub open spec fn observe_numeric(self) -> AnalysisModel {
        AnalysisModel {
            type_distribution: DistributionModel {
                numeric: self.type_distribution.numeric + 1,
                ..self.type_distribution
            },
            ..self
        }
    }

    /// A binary value adds its length to the total and counts once as
    /// unknown; its bytes are not looked at.
    pub open spec fn observe_binary(self, byte_length: nat) -> AnalysisModel {
        AnalysisModel {
            total_chars: self.total_chars + byte_length,
            type_distribution: DistributionModel {
                unknown: self.type_distribution.unknown + 1,
                ..self.type_distribution
            },
            ..self
        }
    }

    /// What a value of any kind does to the statistics: a missing value
    /// nothing, an integer or a real number what a numeric value does, a text
    /// or a binary value what these do.
    pub open spec fn observe(
        self,
        table: Seq<char>,
        column: Seq<char>,
        value: CellModel,
    ) -> AnalysisModel {
        match value {
            CellModel::Null => self,
            CellModel::Integer(_) => self.observe_numeric(),
            CellModel::Real => self.observe_numeric(),
            CellModel::Text(text) => self.observe_text(table, column, text),
            CellModel::Blob(bytes) => self.observe_binary(bytes.len()),
        }
    }

    /// The statistics after the values under the first `n` columns of a row
    /// were observed, in the order of the columns.
    pub open spec fn observe_cells(
        self,
        table: Seq<char>,
        columns: Seq<Seq<char>>,
        row: Seq<CellModel>,
        n: nat,
    ) -> AnalysisModel
        decreases n,
    {
        if n == 0 {
            self
        } else {
            self.observe_cells(table, columns, row, (n - 1) as nat).observe(
                table,
                columns[n - 1],
                cell_at(row, n - 1),
            )
        }
    }

    /// The statistics after a row was observed: one value per column.
    pub open spec fn observe_row(
        self,
        table: Seq<char>,
        columns: Seq<Seq<char>>,
        row: Seq<CellModel>,
    ) -> AnalysisModel {
        self.observe_cells(table, columns, row, columns.len())
    }

    /// Whether no counter of `self` is above the same counter of `later`.
    pub open spec fn within(self, later: AnalysisModel) -> bool {
        &&& self.total_chars <= later.total_chars
        &&& self.type_distribution.numeric <= later.type_distribution.numeric
        &&& self.type_distribution.alphabets <= later.type_distribution.alphabets
        &&& self.type_distribution.special <= later.type_distribution.special
        &&& self.type_distribution.unknown <= later.type_distribution.unknown
    }

    /// Whether every counter can be held in 64 bits.
    pub open spec fn fits(self) -> bool {
        &&& self.total_chars <= u64::MAX
        &&& self.type_distribution.numeric <= u64::MAX
        &&& self.type_distribution.alphabets <= u64::MAX
        &&& self.type_distribution.special <= u64::MAX
        &&& self.type_distribution.unknown <= u64::MAX
    }

    /// Whether no column holds a format twice.
    pub open spec fn labels_distinct(self) -> bool {
        forall|key: Seq<char>| #[trigger] self.formats_of(key).no_duplicates()
    }
}

/// How often the code point `code` occurs in a value: in its characters if
/// it is a text, and not at all if it is anything else.
pub open spec fn cell_occurrences(value: CellModel, code: u32) -> nat {
    match value {
        CellModel::Text(text) => occurrences(text, code),
        _ => 0,
    }
}

/// How often the code point `code` occurs in the values under the first `n`
/// columns of a row.
pub open spec fn row_occurrences(row: Seq<CellModel>, n: nat, code: u32) -> nat
    decreases n,
{
    if n == 0 {
        0
    } else {
        row_occurrences(row, (n - 1) as nat, code) + cell_occurrences(cell_at(row, n - 1), code)
    }
}

/// A text value is counted character by character: the three classes
/// together grow by the number of its characters, and so does the total. The
/// count of unknown values stays.
pub proof fn law_text_counts_characters(
    model: AnalysisModel,
    table: Seq<char>,
    column: Seq<char>,
    value: Seq<char>,
)
    ensures
        ({
            let before = model.type_distribution;
            let after = model.observe_text(table, column, value).type_distribution;
            &&& (after.numeric - before.numeric) + (after.alphabets - before.alphabets) + (
            after.special - before.special) == value.len()
            &&& after.unknown == before.unknown
            &&& model.observe_text(table, column, value).total_chars == model.total_chars
                + value.len()
        }),
{
    lemma_classes_partition(value);
}

/// A binary value adds its length to the total whatever the distribution
/// holds, and of the distribution it changes the count of unknown values
/// only. A numeric value leaves the total as it is.
pub proof fn law_total_apart_from_distribution(model: AnalysisModel, byte_length: nat)
    ensures
        ({
            let before = model.type_distribution;
            let after = model.observe_binary(byte_length).type_distribution;
            &&& model.observe_binary(byte_length).total_chars == model.total_chars + byte_length
            &&& after.numeric == before.numeric
            &&& after.alphabets == before.alphabets
            &&& after.special == before.special
            &&& after.unknown == before.unknown + 1
            &&& model.observe_numeric().total_chars == model.total_chars
            &&& model.observe_numeric().type_distribution.numeric == before.numeric + 1
        }),
{
}

/// The frequency of a code point grows by the number of its occurrences in
/// the value observed.
pub proof fn law_frequency_counts_occurrences(
    model: AnalysisModel,
    table: Seq<char>,
    column: Seq<char>,
    value: CellModel,
    code: u32,
)
    ensures
        model.observe(table, column, value).frequency(code) == model.frequency(code)
            + cell_occurrences(value, code),
{
}

/// The frequency of a code point grows by the number of its occurrences in
/// the values of the row observed.
pub proof fn law_row_frequency(
    model: AnalysisModel,
    table: Seq<char>,
    columns: Seq<Seq<char>>,
    row: Seq<CellModel>,
    n: nat,
    code: u32,
)
    ensures
        model.observe_cells(table, columns, row, n).frequency(code) == model.frequency(code)
            + row_occurrences(row, n, code),
    decreases n,
{
    if n > 0 {
        law_row_frequency(model, table, columns, row, (n - 1) as nat, code);
        law_frequency_counts_occurrences(
            model.observe_cells(table, columns, row, (n - 1) as nat),
            table,
            columns[n - 1],
            cell_at(row, n - 1),
            code,
        );
    }
}

/// No observation makes a column hold a format twice.
pub proof fn law_formats_stay_distinct(
    model: AnalysisModel,
    table: Seq<char>,
    column: Seq<char>,
    value: CellModel,
)
    requires
        model.labels_distinct(),
    ensures
        model.observe(table, column, value).labels_distinct(),
{
    let after = model.observe(table, column, value);
    assert forall|key: Seq<char>| (#[trigger] after.formats_of(key)).no_duplicates() by {
        assert(model.formats_of(key).no_duplicates());
        if let CellModel::Text(text) = value {
            let own = column_key(table, column);
            assert(model.formats_of(own).no_duplicates());
            lemma_new_labels_keep_distinct(text, model.formats_of(own));
        }
    }
}

/// No row makes a column hold a format twice.
pub proof fn law_row_formats_stay_distinct(
    model: AnalysisModel,
    table: Seq<char>,
    columns: Seq<Seq<char>>,
    row: Seq<CellModel>,
    n: nat,
)
    requires
        model.labels_distinct(),
    ensures
        model.observe_cells(table, columns, row, n).labels_distinct(),
    decreases n,
{
    if n > 0 {
        law_row_formats_stay_distinct(model, table, columns, row, (n - 1) as nat);
        law_formats_stay_distinct(
            model.observe_cells(table, columns, row, (n - 1) as nat),
            table,
            columns[n - 1],
            cell_at(row, n - 1),
        );
    }
}

/// Observing never lowers a counter: the statistics after the first `n`
/// values of a row are within those after the first `m`, for `n <= m`.
pub proof fn lemma_counters_grow(
    model: AnalysisModel,
    table: Seq<char>,
    columns: Seq<Seq<char>>,
    row: Seq<CellModel>,
    n: nat,
    m: nat,
)
    requires
        n <= m,
    ensures
        model.observe_cells(table, columns, row, n).within(
            model.observe_cells(table, columns, row, m),
        ),
    decreases m,
{
    if n < m {
        lemma_counters_grow(model, table, columns, row, n, (m - 1) as nat);
    }
}

/// The names under which a list of entries keeps its columns, in order.
pub open spec fn column_names(entries: Seq<ColumnFormats>) -> Seq<Seq<char>> {
    Seq::new(entries.len(), |i: int| entries[i].column@)
}

/// The formats that a list of entries keeps, in the order of the entries.
pub open spec fn column_labels(entries: Seq<ColumnFormats>) -> Seq<Seq<Seq<char>>> {
    Seq::new(entries.len(), |i: int| texts(entries[i].formats@))
}

/// The entries as a map from a column's name to its formats.
pub open spec fn formats_map(entries: Seq<ColumnFormats>) -> Map<Seq<char>, Seq<Seq<char>>> {
    assoc(column_names(entries), column_labels(entries))
}

impl View for AnalysisResults {
    type V = AnalysisModel;

    open spec fn view(&self) -> AnalysisModel {
        AnalysisModel {
            total_chars: self.total_chars as nat,
            type_distribution: self.type_distribution@,
            char_frequency: counts(self.char_frequency@),
            column_formats: formats_map(self.column_formats@),
        }
    }
}

/// Counts the characters of `value` into `frequency`, by code point.
fn tally_text(frequency: &mut HashMap<u32, u64>, value: &str)
    requires
        forall|code: u32|
            old(frequency)@.contains_key(code) ==> #[trigger] old(frequency)@[code] + value@.len()
                <= u64::MAX,
    ensures
        counts(final(frequency)@) == tally(counts(old(frequency)@), value@),
{
    let length: usize = value.unicode_len();
    let ghost before = frequency@;
    for c in it: value.chars()
        invariant
            it.seq() == value@,
            length == value@.len(),
            forall|code: u32|
                before.contains_key(code) ==> #[trigger] before[code] + value@.len() <= u64::MAX,
            forall|code: u32| #[trigger]
                frequency@.contains_key(code) <==> before.contains_key(code) || occurrences(
                    value@.take(it.index()),
                    code,
                ) > 0,
            forall|code: u32|
                frequency@.contains_key(code) ==> #[trigger] frequency@[code] == (if before.contains_key(
                    code,
                ) {
                    before[code] as nat
                } else {
                    0nat
                }) + occurrences(value@.take(it.index()), code),
    {
        let code = c as u32;
        proof {
            lemma_count_step(value@, it.index());
            lemma_occurrences_bound(value@.take(it.index()), code);
        }
        let seen: u64 = match frequency.get(&code) {
            Some(count) => *count,
            None => 0,
        };
        frequency.insert(code, seen + 1);
    }
    assert(value@.take(value@.len() as int) =~= value@);
}

impl AnalysisResults {
    /// Whether the statistics are such as observations produce: no column is
    /// kept twice, no column holds a format twice, and no code point was
    /// counted more often than characters and bytes were counted in all.
    pub open spec fn wf(&self) -> bool {
        &&& column_names(self.column_formats@).no_duplicates()
        &&& forall|i: int|
            0 <= i < self.column_formats@.len() ==> #[trigger] texts(
                self.column_formats@[i].formats@,
            ).no_duplicates()
        &&& forall|code: u32|
            self.char_frequency@.contains_key(code) ==> #[trigger] self.char_frequency@[code]
                <= self.total_chars
    }

    /// In well-formed statistics no column holds a format twice.
    pub proof fn law_well_formed_labels_distinct(&self)
        requires
            self.wf(),
        ensures
            self@.labels_distinct(),
    {
        assert forall|key: Seq<char>| (#[trigger] self@.formats_of(key)).no_duplicates() by {
            let names = column_names(self.column_formats@);
            if names.contains(key) {
                let i = names.index_of(key);
                lemma_assoc_at(names, column_labels(self.column_formats@), i);
                assert(texts(self.column_formats@[i].formats@).no_duplicates());
            }
        }
    }

    /// The statistics of a run that has seen nothing.
    pub fn new() -> (results: AnalysisResults)
        ensures
            results.wf(),
            results@ == AnalysisModel::empty(),
    {
        let results = AnalysisResults {
            total_chars: 0,
            type_distribution: TypeDistribution { numeric: 0, alphabets: 0, special: 0, unknown: 0 },
            char_frequency: HashMap::new(),
            column_formats: Vec::new(),
        };
        assert(results@.char_frequency =~= Map::empty());
        assert(results@.column_formats =~= Map::empty());
        results
    }

    /// Counts a numeric value.
    pub fn observe_numeric(&mut self)
        requires
            old(self).wf(),
            old(self)@.observe_numeric().fits(),
        ensures
            final(self).wf(),
            final(self)@ == old(self)@.observe_numeric(),
    {
        self.type_distribution.numeric = self.type_distribution.numeric + 1;
    }

    /// Counts a binary value of `byte_length` bytes.
    pub fn observe_binary(&mut self, byte_length: usize)
        requires
            old(self).wf(),
            old(self)@.observe_binary(byte_length as nat).fits(),
        ensures
            final(self).wf(),
            final(self)@ == old(self)@.observe_binary(byte_length as nat),
    {
        self.total_chars = self.total_chars + byte_length as u64;
        self.type_distribution.unknown = self.type_distribution.unknown + 1;
    }

    /// The place in `column_formats` of the entry kept under `key`.
    pub fn find_column(&self, key: &String) -> (place: Option<usize>)
        ensures
            match place {
                Some(i) => i < self.column_formats@.len() && column_names(
                    self.column_formats@,
                )[i as int] == key@,
                None => !column_names(self.column_formats@).contains(key@),
            },
    {
        let mut i: usize = 0;
        while i < self.column_formats.len()
            invariant
                i <= self.column_formats@.len(),
                forall|j: int| 0 <= j < i ==> column_names(self.column_formats@)[j] != key@,
            decreases self.column_formats@.len() - i,
        {
            if self.column_formats[i].column == *key {
                return Some(i);
            }
            i = i + 1;
        }
        None
    }

    /// Counts a text value found in `column` of `table`.
    pub fn observe_text(&mut self, table: &str, column: &str, value: &str)
        requires
            old(self).wf(),
            old(self)@.observe_text(table@, column@, value@).fits(),
        ensures
            final(self).wf(),
            final(self)@ == old(self)@.observe_text(table@, column@, value@),
    {
        let classes = count_classes(value);
        let length: usize = value.unicode_len();
        tally_text(&mut self.char_frequency, value);
        proof {
            assert forall|code: u32| self.char_frequency@.contains_key(code) implies (
            #[trigger] self.char_frequency@[code]) <= self.total_chars + length by {
                let before = old(self).char_frequency@;
                lemma_occurrences_bound(value@, code);
                assert(counts(self.char_frequency@).contains_key(code));
                assert(counts(self.char_frequency@)[code] == self.char_frequency@[code]);
                if before.contains_key(code) {
                    assert(before[code] <= old(self).total_chars);
                    assert(counts(before)[code] == before[code]);
                }
            }
        }
        self.total_chars = self.total_chars + length as u64;
        self.type_distribution.numeric = self.type_distribution.numeric + classes.numeric as u64;
        self.type_distribution.alphabets = self.type_distribution.alphabets
            + classes.alphabetic as u64;
        self.type_distribution.special = self.type_distribution.special + classes.special as u64;

        let key = String::from_str(table).concat(".").concat(column);
        proof {
            reveal_strlit(".");
            assert(key@ == column_key(table@, column@));
        }
        let ghost entries = self.column_formats@;
        match self.find_column(&key) {
            Some(i) => {
                let mut added = classify(value, &self.column_formats[i].formats);
                proof {
                    lemma_assoc_at(column_names(entries), column_labels(entries), i as int);
                    lemma_new_labels_keep_distinct(value@, texts(entries[i as int].formats@));
                }
                self.column_formats[i].formats.append(&mut added);
                proof {
                    assert(texts(self.column_formats@[i as int].formats@) =~= texts(
                        entries[i as int].formats@,
                    ) + new_labels(value@, texts(entries[i as int].formats@)));
                    lemma_assoc_update(
                        column_names(entries),
                        column_labels(entries),
                        i as int,
                        texts(self.column_formats@[i as int].formats@),
                    );
                    assert(column_names(self.column_formats@) =~= column_names(entries));
                    assert(column_labels(self.column_formats@) =~= column_labels(entries).update(
                        i as int,
                        texts(self.column_formats@[i as int].formats@),
                    ));
                    assert forall|j: int| 0 <= j < self.column_formats@.len() implies (#[trigger] texts(
                        self.column_formats@[j].formats@,
                    )).no_duplicates() by {
                        if j != i {
                            assert(self.column_formats@[j] == entries[j]);
                        }
                    }
                }
            },
            None => {
                let known: Vec<String> = Vec::new();
                let formats = classify(value, &known);
                let entry = ColumnFormats { column: key, formats };
                proof {
                    lemma_new_labels_keep_distinct(value@, texts(known@));
                    lemma_assoc_push(
                        column_names(entries),
                        column_labels(entries),
                        entry.column@,
                        texts(entry.formats@),
                    );
                }
                self.column_formats.push(entry);
                proof {
                    assert(column_names(self.column_formats@) =~= column_names(entries).push(key@));
                    assert(column_labels(self.column_formats@) =~= column_labels(entries).push(
                        new_labels(value@, Seq::<Seq<char>>::empty()),
                    ));
                    assert forall|j: int| 0 <= j < self.column_formats@.len() implies (#[trigger] texts(
                        self.column_formats@[j].formats@,
                    )).no_duplicates() by {
                        if j < entries.len() {
                            assert(self.column_formats@[j] == entries[j]);
                        }
                    }
                }
            },
        }
    }

    /// Counts a value of any kind found in `column` of `table`.
    pub fn observe(&mut self, table: &str, column: &str, value: &CellValue)
        requires
            old(self).wf(),
            old(self)@.observe(table@, column@, value@).fits(),
        ensures
            final(self).wf(),
            final(self)@ == old(self)@.observe(table@, column@, value@),
    {
        match value {
            CellValue::Null => self.observe_null(),
            CellValue::Integer(_) => self.observe_numeric(),
            CellValue::Real => self.observe_numeric(),
            CellValue::Text(text) => self.observe_text(table, column, text.as_str()),
            CellValue::Blob(bytes) => self.observe_binary(bytes.len()),
        }
    }

    /// Counts the values of a row of `table`, one per column and in the
    /// order of the columns. Where the row is too short to hold a value for
    /// a column, the value counts as missing.
    pub fn observe_row(&mut self, table: &str, columns: &Vec<String>, row: &Vec<CellValue>)
        requires
            old(self).wf(),
            old(self)@.observe_row(table@, texts(columns@), cells(row@)).fits(),
        ensures
            final(self).wf(),
            final(self)@ == old(self)@.observe_row(table@, texts(columns@), cells(row@)),
    {
        let mut i: usize = 0;
        while i < columns.len()
            invariant
                i <= columns@.len(),
                self.wf(),
                self@ == old(self)@.observe_cells(table@, texts(columns@), cells(row@), i as nat),
                old(self)@.observe_row(table@, texts(columns@), cells(row@)).fits(),
            decreases columns@.len() - i,
        {
            proof {
                lemma_counters_grow(
                    old(self)@,
                    table@,
                    texts(columns@),
                    cells(row@),
                    (i + 1) as nat,
                    columns@.len(),
                );
            }
            if i < row.len() {
                self.observe(table, columns[i].as_str(), &row[i]);
            }
            i = i + 1;
        }
    }

    /// Whether the counters can hold what observing a row would make of
    /// them.
    #[allow(unused_variables)]
    pub fn can_observe_row(
        &self,
        table: &str,
        columns: &Vec<String>,
        row: &Vec<CellValue>,
    ) -> (fits: bool)
        ensures
            fits == self@.observe_row(table@, texts(columns@), cells(row@)).fits(),
    {
        let mut total: u64 = self.total_chars;
        let mut numeric: u64 = self.type_distribution.numeric;
        let mut alphabets: u64 = self.type_distribution.alphabets;
        let mut special: u64 = self.type_distribution.special;
        let mut unknown: u64 = self.type_distribution.unknown;
        let mut i: usize = 0;
        while i < columns.len()
            invariant
                i <= columns@.len(),
                total == self@.observe_cells(
                    table@,
                    texts(columns@),
                    cells(row@),
                    i as nat,
                ).total_chars,
                numeric == self@.observe_cells(
                    table@,
                    texts(columns@),
                    cells(row@),
                    i as nat,
                ).type_distribution.numeric,
                alphabets == self@.observe_cells(
                    table@,
                    texts(columns@),
                    cells(row@),
                    i as nat,
                ).type_distribution.alphabets,
                special == self@.observe_cells(
                    table@,
                    texts(columns@),
                    cells(row@),
                    i as nat,
                ).type_distribution.special,
                unknown == self@.observe_cells(
                    table@,
                    texts(columns@),
                    cells(row@),
                    i as nat,
                ).type_distribution.unknown,
            decreases columns@.len() - i,
        {
            proof {
                lemma_counters_grow(
                    self@,
                    table@,
                    texts(columns@),
                    cells(row@),
                    (i + 1) as nat,
                    columns@.len(),
                );
            }
            if i < row.len() {
                match &row[i] {
                    CellValue::Null => {},
                    CellValue::Integer(_) | CellValue::Real => {
                        if numeric == u64::MAX {
                            return false;
                        }
                        numeric = numeric + 1;
                    },
                    CellValue::Text(text) => {
                        let classes = count_classes(text.as_str());
                        let length: usize = text.as_str().unicode_len();
                        if length as u64 > u64::MAX - total || classes.numeric as u64 > u64::MAX
                            - numeric || classes.alphabetic as u64 > u64::MAX - alphabets
                            || classes.special as u64 > u64::MAX - special {
                            return false;
                        }
                        total = total + length as u64;
                        numeric = numeric + classes.numeric as u64;
                        alphabets = alphabets + classes.alphabetic as u64;
                        special = special + classes.special as u64;
                    },
                    CellValue::Blob(bytes) => {
                        if bytes.len() as u64 > u64::MAX - total || unknown == u64::MAX {
                            return false;
                        }
                        total = total + bytes.len() as u64;
                        unknown = unknown + 1;
                    },
                }
            }
            i = i + 1;
        }
        true
    }

    /// Takes note of a missing value, which counts as nothing.
    pub fn observe_null(&mut self)
        ensures
            *final(self) == *old(self),
    {
    }
}

impl Default for AnalysisResults {
    fn default() -> (results: AnalysisResults)
        ensures
            results.wf(),
            results@ == AnalysisModel::empty(),
    {
        AnalysisResults::new()
    }
}

} // verus!
