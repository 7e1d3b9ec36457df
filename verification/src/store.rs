//! The file table: one row per record, keyed by identifier.
//!
//! A table is modelled as a map from identifier to record. The rules of
//! the table are plain functions on that map; the store holds the rows and
//! is proved to follow them.

use vstd::prelude::*;

use crate::error::StoreError;
use crate::identifier::{fresh_identifier, generated_identifier_exists, is_generated_identifier};
use crate::record::{
    is_well_formed, record_from, seed_record, CreateFileRequest, FileRecord, RecordView,
    RequestView,
};

verus! {

/// A table as a mathematical value: the records by identifier.
pub type Table = Map<Seq<char>, RecordView>;

/// Every record is filed under its own identifier.
pub open spec fn is_keyed(table: Table) -> bool {
    forall|id: Seq<char>| table.contains_key(id) ==> (#[trigger] table[id]).id == id
}

/// What a lookup of `id` yields.
pub open spec fn lookup(table: Table, id: Seq<char>) -> Result<RecordView, StoreError> {
    if table.contains_key(id) {
        Ok(table[id])
    } else {
        Err(StoreError::NotFound)
    }
}

/// What creating a record under `id` yields: a malformed request is
/// refused first, then an identifier that is already taken (the key is
/// unique, so the write fails); otherwise the new record.
pub open spec fn create_result(table: Table, id: Seq<char>, request: RequestView, now: nat) -> Result<
    RecordView,
    StoreError,
> {
    if !is_well_formed(request) {
        Err(StoreError::MalformedRequest)
    } else if table.contains_key(id) {
        Err(StoreError::PersistenceError)
    } else {
        Ok(record_from(id, request, now))
    }
}

/// The table after creating a record under `id`: one row more on
/// success, the same table on failure.
pub open spec fn after_create(table: Table, id: Seq<char>, request: RequestView, now: nat) -> Table {
    match create_result(table, id, request, now) {
        Ok(record) => table.insert(id, record),
        Err(_) => table,
    }
}

/// No record is filed under an identifier that a draw can give. On such
/// a table no draw collides, so a creation cannot fail for a taken
/// identifier. The empty table is one, and so is a table that holds the
/// fixture row alone.
pub open spec fn has_no_generated_key(table: Table) -> bool {
    forall|id: Seq<char>| #[trigger] table.contains_key(id) ==> !is_generated_identifier(id)
}

/// The table after initialisation: the fixture row is put in place,
/// replacing whatever stood under its identifier.
pub open spec fn seeded(table: Table) -> Table {
    table.insert(seed_record().id, seed_record())
}

/// The outcome of an operation with its record taken as a mathematical value.
pub open spec fn outcome_view(outcome: Result<FileRecord, StoreError>) -> Result<
    RecordView,
    StoreError,
> {
    match outcome {
        Ok(record) => Ok(record@),
        Err(e) => Err(e),
    }
}

/// Row `i` of `rows` exists and carries identifier `id`.
spec fn filed_at(rows: Seq<FileRecord>, id: Seq<char>, i: int) -> bool {
    0 <= i < rows.len() && rows[i].id@ == id
}

/// No identifier is carried by two rows.
spec fn has_unique_keys(rows: Seq<FileRecord>) -> bool {
    forall|id: Seq<char>, i: int, j: int|
        #[trigger] filed_at(rows, id, i) && #[trigger] filed_at(rows, id, j) ==> i == j
}

/// The table that a sequence of rows stands for.
spec fn table_of(rows: Seq<FileRecord>) -> Table {
    Map::new(
        |id: Seq<char>| exists|i: int| filed_at(rows, id, i),
        |id: Seq<char>| rows[choose|i: int| filed_at(rows, id, i)]@,
    )
}

proof fn lemma_row_is_entry(rows: Seq<FileRecord>, id: Seq<char>, k: int)
    requires
        has_unique_keys(rows),
        filed_at(rows, id, k),
    ensures
        table_of(rows).contains_key(id),
        table_of(rows)[id] == rows[k]@,
{
    let chosen = choose|i: int| filed_at(rows, id, i);
    assert(filed_at(rows, id, chosen));
}

proof fn lemma_push_inserts(rows: Seq<FileRecord>, row: FileRecord)
    requires
        has_unique_keys(rows),
        !table_of(rows).contains_key(row.id@),
    ensures
        has_unique_keys(rows.push(row)),
        table_of(rows.push(row)) == table_of(rows).insert(row.id@, row@),
{
    let grown = rows.push(row);
    let last = rows.len() as int;
    assert forall|id: Seq<char>, i: int| filed_at(grown, id, i) implies (i == last && id == row.id@)
        || filed_at(rows, id, i) by {}
    assert forall|id: Seq<char>, i: int| filed_at(rows, id, i) implies filed_at(grown, id, i)
        && id != row.id@ by {}
    assert(filed_at(grown, row.id@, last));
    assert forall|id: Seq<char>, i: int, j: int| #[trigger]
        filed_at(grown, id, i) && #[trigger] filed_at(grown, id, j) implies i == j by {
        if i != last && j != last {
            assert(filed_at(rows, id, i) && filed_at(rows, id, j));
        }
    }
    assert forall|id: Seq<char>| #[trigger]
        table_of(grown).contains_key(id) == table_of(rows).insert(row.id@, row@).contains_key(
            id,
        ) by {
        if table_of(grown).contains_key(id) {
            let i = choose|i: int| filed_at(grown, id, i);
            assert(filed_at(grown, id, i));
        }
        if table_of(rows).contains_key(id) {
            let i = choose|i: int| filed_at(rows, id, i);
            assert(filed_at(grown, id, i));
        }
    }
    assert forall|id: Seq<char>| #[trigger]
        table_of(grown).contains_key(id) implies table_of(grown)[id] == table_of(rows).insert(
        row.id@,
        row@,
    )[id] by {
        let i = choose|i: int| filed_at(grown, id, i);
        assert(filed_at(grown, id, i));
        lemma_row_is_entry(grown, id, i);
        if i != last {
            lemma_row_is_entry(rows, id, i);
        }
    }
    assert(table_of(grown) =~= table_of(rows).insert(row.id@, row@));
}

proof fn lemma_update_inserts(rows: Seq<FileRecord>, k: int, row: FileRecord)
    requires
        has_unique_keys(rows),
        filed_at(rows, row.id@, k),
    ensures
        has_unique_keys(rows.update(k, row)),
        table_of(rows.update(k, row)) == table_of(rows).insert(row.id@, row@),
{
    let changed = rows.update(k, row);
    assert forall|id: Seq<char>, i: int| filed_at(changed, id, i) == filed_at(rows, id, i) by {}
    assert forall|id: Seq<char>| #[trigger]
        table_of(changed).contains_key(id) == table_of(rows).insert(row.id@, row@).contains_key(
            id,
        ) by {
        if table_of(changed).contains_key(id) {
            let i = choose|i: int| filed_at(changed, id, i);
            assert(filed_at(rows, id, i));
        }
        if table_of(rows).contains_key(id) {
            let i = choose|i: int| filed_at(rows, id, i);
            assert(filed_at(changed, id, i));
        }
        assert(filed_at(changed, row.id@, k));
    }
    assert forall|id: Seq<char>| #[trigger]
        table_of(changed).contains_key(id) implies table_of(changed)[id] == table_of(rows).insert(
        row.id@,
        row@,
    )[id] by {
        let i = choose|i: int| filed_at(changed, id, i);
        assert(filed_at(changed, id, i));
        lemma_row_is_entry(changed, id, i);
        assert(filed_at(rows, id, i));
        lemma_row_is_entry(rows, id, i);
        if id == row.id@ {
            assert(i == k);
        }
    }
    assert(table_of(changed) =~= table_of(rows).insert(row.id@, row@));
}

proof fn lemma_one_entry_per_row(rows: Seq<FileRecord>)
    requires
        has_unique_keys(rows),
    ensures
        table_of(rows).dom().finite(),
        table_of(rows).dom().len() == rows.len(),
    decreases rows.len(),
{
    if rows.len() == 0 {
        assert(table_of(rows).dom() =~= Set::<Seq<char>>::empty());
    } else {
        let front = rows.drop_last();
        let back = rows.last();
        assert(rows =~= front.push(back));
        assert forall|id: Seq<char>, i: int| filed_at(front, id, i) implies filed_at(rows, id, i)
            && i != rows.len() - 1 by {}
        assert(filed_at(rows, back.id@, rows.len() - 1));
        assert(has_unique_keys(front));
        if table_of(front).contains_key(back.id@) {
            let i = choose|i: int| filed_at(front, back.id@, i);
            assert(filed_at(rows, back.id@, i));
        }
        lemma_one_entry_per_row(front);
        lemma_push_inserts(front, back);
        assert(table_of(rows).dom() =~= table_of(front).dom().insert(back.id@));
    }
}

/// The file store. It owns its rows; no two of them share an identifier.
pub struct FileStore {
    rows: Vec<FileRecord>,
}

impl View for FileStore {
    type V = Table;

    closed spec fn view(&self) -> Table {
        table_of(self.rows@)
    }
}

impl FileStore {
    #[verifier::type_invariant]
    spec fn keys_are_unique(self) -> bool {
        has_unique_keys(self.rows@)
    }

    /// An empty table.
    pub fn new() -> (store: FileStore)
        ensures
            store@ == Map::<Seq<char>, RecordView>::empty(),
    {
        let store = FileStore { rows: Vec::new() };
        assert(store@ =~= Map::<Seq<char>, RecordView>::empty());
        store
    }

    /// The number of records.
    pub fn len(&self) -> (count: usize)
        ensures
            self@.dom().finite(),
            count == self@.dom().len(),
    {
        proof {
            use_type_invariant(self);
            lemma_one_entry_per_row(self.rows@);
        }
        self.rows.len()
    }

    /// In every state of the store, each record is filed under its own
    /// identifier: the identifier is a key.
    pub proof fn is_always_keyed(&self)
        ensures
            is_keyed(self@),
    {
        assert forall|id: Seq<char>| self@.contains_key(id) implies (#[trigger] self@[id]).id
            == id by {
            let i = choose|i: int| filed_at(self.rows@, id, i);
            assert(filed_at(self.rows@, id, i));
        }
    }

    /// Takes the rows out, leaving none behind, so that they can be
    /// changed and put back.
    fn take_rows(&mut self) -> (rows: Vec<FileRecord>)
        ensures
            rows@ == old(self).rows@,
            final(self).rows@.len() == 0,
    {
        let mut rows: Vec<FileRecord> = Vec::new();
        core::mem::swap(&mut self.rows, &mut rows);
        rows
    }

    /// Finds the row that carries `id`, if there is one.
    fn position(&self, id: &String) -> (at: Option<usize>)
        ensures
            match at {
                Some(k) => filed_at(self.rows@, id@, k as int),
                None => !self@.contains_key(id@),
            },
    {
        let mut i: usize = 0;
        while i < self.rows.len()
            invariant
                i <= self.rows.len(),
                forall|j: int| 0 <= j < i ==> !filed_at(self.rows@, id@, j),
            decreases self.rows.len() - i,
        {
            if self.rows[i].id == *id {
                return Some(i);
            }
            i += 1;
        }
        None
    }

    /// Puts the fixture row in place. Whatever stood under its identifier
    /// is replaced, every other row is left alone, and doing it again
    /// changes nothing.
    pub fn initialize(&mut self)
        ensures
            final(self)@ == seeded(old(self)@),
    {
        let seed = FileRecord::seed();
        proof {
            use_type_invariant(&*self);
        }
        let at = self.position(&seed.id);
        let mut rows = self.take_rows();
        match at {
            Some(k) => {
                proof {
                    lemma_update_inserts(rows@, k as int, seed);
                }
                rows.set(k, seed);
            },
            None => {
                proof {
                    lemma_push_inserts(rows@, seed);
                }
                rows.push(seed);
            },
        }
        self.rows = rows;
    }

    /// Looks up the record filed under `id`. A miss is an ordinary
    /// answer, `NotFound`; the table is never changed.
    pub fn get_by_id(&self, id: &str) -> (found: Result<FileRecord, StoreError>)
        ensures
            outcome_view(found) == lookup(self@, id@),
            found is Ok ==> found->Ok_0.id@ == id@,
    {
        let key = id.to_owned();
        proof {
            use_type_invariant(self);
        }
        match self.position(&key) {
            Some(k) => {
                proof {
                    lemma_row_is_entry(self.rows@, id@, k as int);
                }
                Ok(self.rows[k].clone())
            },
            None => Err(StoreError::NotFound),
        }
    }

    /// Files a new record under the given identifier. The request is
    /// checked first; an identifier that is already taken fails the
    /// write. On failure the table is left as it was.
    pub fn create_with_id(&mut self, id: String, request: CreateFileRequest, now: u64) -> (outcome:
        Result<FileRecord, StoreError>)
        ensures
            outcome_view(outcome) == create_result(old(self)@, id@, request@, now as nat),
            final(self)@ == after_create(old(self)@, id@, request@, now as nat),
    {
        proof {
            use_type_invariant(&*self);
        }
        let taken = self.position(&id);
        match FileRecord::from_request(id, request, now) {
            Err(e) => Err(e),
            Ok(record) => {
                if taken.is_some() {
                    proof {
                        lemma_row_is_entry(self.rows@, record.id@, taken.unwrap() as int);
                    }
                    return Err(StoreError::PersistenceError);
                }
                let copy = record.clone();
                let mut rows = self.take_rows();
                proof {
                    lemma_push_inserts(rows@, record);
                }
                rows.push(record);
                self.rows = rows;
                Ok(copy)
            },
        }
    }

    /// Files a new record: draws a fresh identifier, stamps both
    /// timestamps with `now` and appends one row. A malformed request is
    /// refused before anything is drawn. Should the identifier drawn be
    /// taken already, the write fails; nothing is tried twice.
    ///
    /// The outcome and the table are those of `create_with_id` under some
    /// identifier that a draw can give. Which one is left to chance, so a
    /// well-formed request is owed its record where no draw can collide;
    /// elsewhere it fails only if the identifier drawn is taken.
    pub fn create(&mut self, request: CreateFileRequest, now: u64) -> (outcome: Result<
        FileRecord,
        StoreError,
    >)
        ensures
            exists|id: Seq<char>|
                is_generated_identifier(id) && outcome_view(outcome) == #[trigger] create_result(
                    old(self)@,
                    id,
                    request@,
                    now as nat,
                ) && final(self)@ == after_create(old(self)@, id, request@, now as nat),
            is_well_formed(request@) && has_no_generated_key(old(self)@) ==> outcome is Ok,
            !is_well_formed(request@) ==> outcome == Err::<FileRecord, StoreError>(
                StoreError::MalformedRequest,
            ),
            match outcome {
                Ok(record) => {
                    &&& is_generated_identifier(record.id@)
                    &&& create_result(old(self)@, record.id@, request@, now as nat) == Ok::<
                        RecordView,
                        StoreError,
                    >(record@)
                    &&& final(self)@ == after_create(old(self)@, record.id@, request@, now as nat)
                },
                Err(e) => {
                    &&& final(self)@ == old(self)@
                    &&& e == if is_well_formed(request@) {
                        StoreError::PersistenceError
                    } else {
                        StoreError::MalformedRequest
                    }
                },
            },
    {
        let ghost before = self@;
        let ghost asked = request@;
        if request.size < 0 {
            proof {
                let id = generated_identifier_exists();
                assert(create_result(before, id, asked, now as nat) == Err::<
                    RecordView,
                    StoreError,
                >(StoreError::MalformedRequest));
            }
            return Err(StoreError::MalformedRequest);
        }
        let id = fresh_identifier();
        let ghost drawn = id@;
        let outcome = self.create_with_id(id, request, now);
        proof {
            assert(outcome_view(outcome) == create_result(before, drawn, asked, now as nat));
            assert(self@ == after_create(before, drawn, asked, now as nat));
        }
        outcome
    }
}

} // verus!
