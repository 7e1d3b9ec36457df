//! Laws of the file table, proved of the rules that the store follows.

use vstd::prelude::*;

use crate::error::StoreError;
use crate::identifier::{fits_at, is_generated_identifier, is_identifier};
use crate::record::{is_well_formed, record_from, seed_record, RecordView, RequestView};
use crate::store::{
    after_create, create_result, has_no_generated_key, is_keyed, lookup, seeded, Table,
};

verus! {

/// The table after `times` initialisations in a row.
pub open spec fn restarted(table: Table, times: nat) -> Table
    decreases times,
{
    if times == 0 {
        table
    } else {
        seeded(restarted(table, (times - 1) as nat))
    }
}

/// One change to the table, as the store can make it.
pub enum Change {
    /// An initialisation.
    Initialize,
    /// An attempt to create a record, whether it succeeds or not.
    Create { id: Seq<char>, request: RequestView, now: nat },
}

/// The table after one change.
pub open spec fn apply(table: Table, change: Change) -> Table {
    match change {
        Change::Initialize => seeded(table),
        Change::Create { id, request, now } => after_create(table, id, request, now),
    }
}

/// The table after a history of changes, oldest first.
pub open spec fn replay(table: Table, history: Seq<Change>) -> Table
    decreases history.len(),
{
    if history.len() == 0 {
        table
    } else {
        apply(replay(table, history.drop_last()), history.last())
    }
}

/// Round trip: a record that was created is found under its identifier,
/// exactly as it was returned. It carries the fields of the request, and
/// its two timestamps are equal.
pub proof fn created_record_is_found(table: Table, id: Seq<char>, request: RequestView, now: nat)
    requires
        create_result(table, id, request, now) is Ok,
    ensures
        lookup(after_create(table, id, request, now), id) == create_result(table, id, request, now),
        ({
            let record = create_result(table, id, request, now)->Ok_0;
            &&& record.id == id
            &&& record.directory_path == request.directory_path
            &&& record.filename == request.filename
            &&& record.file_type == request.file_type
            &&& record.size == request.size
            &&& record.checksum == request.checksum
            &&& record.created_at == now
            &&& record.updated_at == record.created_at
        }),
{
}

/// A lookup misses exactly the identifiers that the table does not hold,
/// and a miss is always reported as `NotFound`.
pub proof fn missing_record_is_not_found(table: Table, id: Seq<char>)
    ensures
        lookup(table, id) is Err <==> !table.contains_key(id),
        lookup(table, id) is Err ==> lookup(table, id) == Err::<RecordView, StoreError>(
            StoreError::NotFound,
        ),
        lookup(Map::<Seq<char>, RecordView>::empty(), id) == Err::<RecordView, StoreError>(
            StoreError::NotFound,
        ),
{
}

/// Which requests are accepted: a creation is refused as malformed
/// exactly when the size is negative. A size of zero is accepted, and
/// then only a taken identifier can fail the write.
pub proof fn negative_size_is_malformed(
    table: Table,
    id: Seq<char>,
    request: RequestView,
    now: nat,
)
    ensures
        create_result(table, id, request, now) == Err::<RecordView, StoreError>(
            StoreError::MalformedRequest,
        ) <==> request.size < 0,
        create_result(table, id, request, now) == Err::<RecordView, StoreError>(
            StoreError::PersistenceError,
        ) <==> request.size >= 0 && table.contains_key(id),
        create_result(table, id, request, now) is Ok <==> request.size >= 0 && !table.contains_key(
            id,
        ),
{
}

/// The tables on which no draw can collide: the empty table is one, and
/// initialisation keeps a table so, because the fixture's identifier is
/// none that a draw can give.
pub proof fn fresh_tables_hold_no_generated_key(table: Table)
    ensures
        has_no_generated_key(Map::<Seq<char>, RecordView>::empty()),
        has_no_generated_key(table) ==> has_no_generated_key(seeded(table)),
{
    if has_no_generated_key(table) {
        assert forall|other: Seq<char>| #[trigger]
            seeded(table).contains_key(other) implies !is_generated_identifier(other) by {
            seed_identifier_is_reserved(other);
        }
    }
}

/// Where success is owed: on a table on which no draw can collide, a
/// well-formed request is filed under whatever identifier is drawn.
pub proof fn first_creation_succeeds(table: Table, id: Seq<char>, request: RequestView, now: nat)
    requires
        has_no_generated_key(table),
        is_generated_identifier(id),
        is_well_formed(request),
    ensures
        create_result(table, id, request, now) == Ok::<RecordView, StoreError>(
            record_from(id, request, now),
        ),
{
}

/// A creation that fails leaves the table as it was; one that succeeds
/// adds exactly the new row and touches no other.
pub proof fn creation_adds_one_row(table: Table, id: Seq<char>, request: RequestView, now: nat)
    ensures
        create_result(table, id, request, now) is Err ==> after_create(table, id, request, now)
            == table,
        create_result(table, id, request, now) is Ok ==> after_create(
            table,
            id,
            request,
            now,
        ).dom() == table.dom().insert(id) && !table.dom().contains(id),
        forall|other: Seq<char>|
            table.contains_key(other) ==> #[trigger] lookup(
                after_create(table, id, request, now),
                other,
            ) == lookup(table, other),
{
    if create_result(table, id, request, now) is Ok {
        assert(after_create(table, id, request, now).dom() =~= table.dom().insert(id));
    }
}

/// Two creations that both succeed never share an identifier, and both
/// records are found afterwards, each as it was returned: neither
/// overwrites the other.
pub proof fn creations_persist_independently(
    table: Table,
    first_id: Seq<char>,
    first: RequestView,
    first_now: nat,
    second_id: Seq<char>,
    second: RequestView,
    second_now: nat,
)
    requires
        create_result(table, first_id, first, first_now) is Ok,
        create_result(
            after_create(table, first_id, first, first_now),
            second_id,
            second,
            second_now,
        ) is Ok,
    ensures
        first_id != second_id,
        ({
            let between = after_create(table, first_id, first, first_now);
            let both = after_create(between, second_id, second, second_now);
            &&& lookup(both, first_id) == create_result(table, first_id, first, first_now)
            &&& lookup(both, second_id) == create_result(between, second_id, second, second_now)
        }),
{
}

/// Creations under different identifiers do not depend on their order:
/// whichever is served first, each has the same outcome and the table ends
/// up the same.
pub proof fn creation_order_is_immaterial(
    table: Table,
    first_id: Seq<char>,
    first: RequestView,
    first_now: nat,
    second_id: Seq<char>,
    second: RequestView,
    second_now: nat,
)
    requires
        first_id != second_id,
    ensures
        create_result(after_create(table, second_id, second, second_now), first_id, first, first_now)
            == create_result(table, first_id, first, first_now),
        create_result(after_create(table, first_id, first, first_now), second_id, second, second_now)
            == create_result(table, second_id, second, second_now),
        after_create(
            after_create(table, first_id, first, first_now),
            second_id,
            second,
            second_now,
        ) == after_create(
            after_create(table, second_id, second, second_now),
            first_id,
            first,
            first_now,
        ),
{
    let one = after_create(table, first_id, first, first_now);
    let other = after_create(table, second_id, second, second_now);
    assert(after_create(one, second_id, second, second_now) =~= after_create(
        other,
        first_id,
        first,
        first_now,
    ));
}

/// Initialisation puts the fixture row in place, leaves every other row
/// alone, and is idempotent.
pub proof fn seeding_is_idempotent(table: Table)
    ensures
        lookup(seeded(table), seed_record().id) == Ok::<RecordView, StoreError>(seed_record()),
        seeded(seeded(table)) == seeded(table),
        forall|other: Seq<char>|
            other != seed_record().id ==> #[trigger] lookup(seeded(table), other) == lookup(
                table,
                other,
            ),
{
    assert(seeded(seeded(table)) =~= seeded(table));
}

/// However often the table is initialised, once or many times, the
/// result is the same, and the fixture row is present.
pub proof fn seed_survives_restarts(table: Table, times: nat)
    requires
        times >= 1,
    ensures
        restarted(table, times) == seeded(table),
        lookup(restarted(table, times), seed_record().id) == Ok::<RecordView, StoreError>(
            seed_record(),
        ),
    decreases times,
{
    seeding_is_idempotent(table);
    if times > 1 {
        seed_survives_restarts(table, (times - 1) as nat);
    } else {
        assert(restarted(table, 0) == table);
    }
}

/// Once present, the fixture row stays: no creation removes or changes it.
pub proof fn seed_outlives_creation(table: Table, id: Seq<char>, request: RequestView, now: nat)
    requires
        lookup(table, seed_record().id) == Ok::<RecordView, StoreError>(seed_record()),
    ensures
        lookup(after_create(table, id, request, now), seed_record().id) == Ok::<
            RecordView,
            StoreError,
        >(seed_record()),
{
}

/// The fixture row's identifier has the syntax of an identifier, but not
/// that of one drawn at random: a fresh identifier never collides with it.
pub proof fn seed_identifier_is_reserved(id: Seq<char>)
    ensures
        is_identifier(seed_record().id),
        is_generated_identifier(id) ==> id != seed_record().id,
{
    reveal_strlit("00000000-0000-0000-0000-000000000000");
    let seed = seed_record().id;
    assert forall|i: int| 0 <= i < seed.len() implies fits_at(i, #[trigger] seed[i]) by {}
}

/// The identifier is a key: if every record of a table is filed under its
/// own identifier, the same holds after a creation and after an
/// initialisation. It holds of the empty table.
pub proof fn keying_is_preserved(table: Table, id: Seq<char>, request: RequestView, now: nat)
    requires
        is_keyed(table),
    ensures
        is_keyed(after_create(table, id, request, now)),
        is_keyed(seeded(table)),
        is_keyed(Map::<Seq<char>, RecordView>::empty()),
{
}

/// Records are permanent: whatever happens to the table afterwards, a
/// record that it holds stays in it as it is. The one row that a later
/// change may overwrite is a foreign row under the fixture's identifier,
/// which an initialisation replaces with the fixture.
pub proof fn records_are_permanent(table: Table, history: Seq<Change>, id: Seq<char>)
    requires
        table.contains_key(id),
        id == seed_record().id ==> table[id] == seed_record(),
    ensures
        lookup(replay(table, history), id) == lookup(table, id),
    decreases history.len(),
{
    if history.len() > 0 {
        records_are_permanent(table, history.drop_last(), id);
    }
}

/// Once the table has been initialised, the fixture row is present after
/// every later change, however many initialisations and creations follow.
pub proof fn seed_is_present_once_initialized(table: Table, history: Seq<Change>, at: int)
    requires
        0 <= at < history.len(),
        history[at] is Initialize,
    ensures
        lookup(replay(table, history), seed_record().id) == Ok::<RecordView, StoreError>(
            seed_record(),
        ),
    decreases history.len(),
{
    if at < history.len() - 1 {
        seed_is_present_once_initialized(table, history.drop_last(), at);
    }
}

/// The identifier stays a key through every history of changes.
pub proof fn keying_survives_every_history(table: Table, history: Seq<Change>)
    requires
        is_keyed(table),
    ensures
        is_keyed(replay(table, history)),
    decreases history.len(),
{
    if history.len() > 0 {
        keying_survives_every_history(table, history.drop_last());
    }
}

} // verus!
