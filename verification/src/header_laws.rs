use crate::header_page::{
    catalog_wf, count_named, has_record, lookup, name_is_set, record_position, RecordView,
    MAX_RECORDS, NAME_SIZE,
};
use vstd::prelude::*;

verus! {

/// No two records of a well-formed catalog go by the same name.
pub proof fn law_names_unique(records: Seq<RecordView>, i: int, j: int)
    requires
        catalog_wf(records),
        0 <= i < records.len(),
        0 <= j < records.len(),
        i != j,
    ensures
        records[i].name != records[j].name,
{
}

/// Where no record goes by the empty name, the record count is the number
/// of records whose name field holds a byte that is not zero.
pub proof fn law_count_is_named_records(records: Seq<RecordView>)
    requires
        forall|i: int| 0 <= i < records.len() ==> name_is_set((#[trigger] records[i]).name),
    ensures
        count_named(records) == records.len(),
    decreases records.len(),
{
    if records.len() > 0 {
        let front = records.drop_last();
        assert forall|i: int| 0 <= i < front.len() implies name_is_set((#[trigger] front[i]).name) by {
            assert(front[i] == records[i]);
        }
        law_count_is_named_records(front);
        assert(name_is_set(records[records.len() - 1].name));
    }
}

/// After a record has been added under a name that no record went by, the
/// catalog is well-formed, holds one record more, and gives the new root
/// identifier for that name and what it gave before for every other name.
pub proof fn law_insert_then_lookup(
    records: Seq<RecordView>,
    key: Seq<u8>,
    root_id: u32,
    other: Seq<u8>,
)
    requires
        catalog_wf(records),
        records.len() < MAX_RECORDS,
        key.len() == NAME_SIZE,
        !has_record(records, key),
        other != key,
    ensures
        catalog_wf(records.push(RecordView { name: key, root_id })),
        lookup(records.push(RecordView { name: key, root_id }), key) == Some(root_id),
        lookup(records.push(RecordView { name: key, root_id }), other) == lookup(records, other),
{
    let after = records.push(RecordView { name: key, root_id });
    assert forall|i: int, j: int|
        0 <= i < after.len() && 0 <= j < after.len() && i != j implies (#[trigger] after[i]).name != (
    #[trigger] after[j]).name by {
        if i < records.len() {
            assert(records[i].name == after[i].name);
        }
        if j < records.len() {
            assert(records[j].name == after[j].name);
        }
    }
    assert(after[records.len() as int].name == key);
    crate::header_page::lemma_record_position(after, records.len() as int);
    if has_record(records, other) {
        let p = record_position(records, other);
        assert(after[p] == records[p]);
        crate::header_page::lemma_record_position(after, p);
    } else {
        if has_record(after, other) {
            let q = record_position(after, other);
            assert(q < records.len());
            assert(records[q].name == other);
        }
    }
}

/// After the record that went by a name has been removed, the catalog is
/// well-formed, holds one record less, gives nothing for that name, and
/// gives what it gave before for every other name.
pub proof fn law_delete_then_lookup(records: Seq<RecordView>, key: Seq<u8>, other: Seq<u8>)
    requires
        catalog_wf(records),
        has_record(records, key),
        other != key,
    ensures
        catalog_wf(records.remove(record_position(records, key))),
        records.remove(record_position(records, key)).len() == records.len() - 1,
        lookup(records.remove(record_position(records, key)), key) is None,
        lookup(records.remove(record_position(records, key)), other) == lookup(records, other),
{
    let p = record_position(records, key);
    let after = records.remove(p);
    assert forall|i: int| 0 <= i < after.len() implies (#[trigger] after[i]) == records[if i < p {
        i
    } else {
        i + 1
    }] by {}
    assert forall|i: int, j: int|
        0 <= i < after.len() && 0 <= j < after.len() && i != j implies (#[trigger] after[i]).name != (
    #[trigger] after[j]).name by {
        let i0 = if i < p { i } else { i + 1 };
        let j0 = if j < p { j } else { j + 1 };
        assert(after[i] == records[i0] && after[j] == records[j0]);
    }
    assert forall|i: int| 0 <= i < after.len() implies (#[trigger] after[i]).name.len()
        == NAME_SIZE by {
        let i0 = if i < p { i } else { i + 1 };
        assert(after[i] == records[i0]);
    }
    if has_record(after, key) {
        let q = record_position(after, key);
        let q0 = if q < p { q } else { q + 1 };
        assert(after[q] == records[q0]);
        assert(records[q0].name == records[p].name);
    }
    if has_record(records, other) {
        let q0 = record_position(records, other);
        let q = if q0 < p { q0 } else { q0 - 1 };
        assert(after[q] == records[q0]);
        crate::header_page::lemma_record_position(after, q);
    } else {
        if has_record(after, other) {
            let q = record_position(after, other);
            let q0 = if q < p { q } else { q + 1 };
            assert(after[q] == records[q0]);
            assert(records[q0].name == other);
        }
    }
}

/// After the record that goes by a name has been given another root
/// identifier, the catalog is well-formed, gives that identifier for the
/// name, and gives what it gave before for every other name.
pub proof fn law_update_then_lookup(
    records: Seq<RecordView>,
    key: Seq<u8>,
    root_id: u32,
    other: Seq<u8>,
)
    requires
        catalog_wf(records),
        has_record(records, key),
        other != key,
    ensures
        catalog_wf(
            records.update(record_position(records, key), RecordView { name: key, root_id }),
        ),
        lookup(
            records.update(record_position(records, key), RecordView { name: key, root_id }),
            key,
        ) == Some(root_id),
        lookup(
            records.update(record_position(records, key), RecordView { name: key, root_id }),
            other,
        ) == lookup(records, other),
{
    let p = record_position(records, key);
    let after = records.update(p, RecordView { name: key, root_id });
    assert forall|i: int| 0 <= i < after.len() implies (#[trigger] after[i]).name
        == records[i].name by {}
    assert forall|i: int, j: int|
        0 <= i < after.len() && 0 <= j < after.len() && i != j implies (#[trigger] after[i]).name != (
    #[trigger] after[j]).name by {
        assert(after[i].name == records[i].name && after[j].name == records[j].name);
    }
    assert forall|i: int| 0 <= i < after.len() implies (#[trigger] after[i]).name.len()
        == NAME_SIZE by {
        assert(after[i].name == records[i].name);
    }
    crate::header_page::lemma_record_position(after, p);
    if has_record(records, other) {
        let q = record_position(records, other);
        assert(after[q] == records[q]);
        crate::header_page::lemma_record_position(after, q);
    } else {
        if has_record(after, other) {
            let q = record_position(after, other);
            assert(records[q].name == other);
        }
    }
}

} // verus!
