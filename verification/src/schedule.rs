//! Repository operations for schedule entries: list, read, create, patch,
//! delete. Entries attached to lessons or teachers are value copies, so none
//! of these operations touches an attached copy.

use vstd::pervasive::unreached;
use vstd::prelude::*;

use crate::backend::map_contents;
use crate::codec::{decode_entry, entry_fits, MAX_RECORD_BYTES};
use crate::errors::{not_found_id, not_found_text, validation_error, Error};
use crate::records::{
    merge_field, schedule_payload_valid, update_if_not_empty, ScheduleEntry, SchedulePayload,
    ScheduleEntryV,
};
use crate::store::{do_insert_schedule_entry, next_id, Store};
use crate::text::{id_msg, is_blank};

verus! {

/// The record a `create` builds: the minted id and the payload's fields.
pub open spec fn entry_from_payload(id: u64, p: &SchedulePayload) -> ScheduleEntryV {
    ScheduleEntryV { id, day: p.day@, start_time: p.start_time@, end_time: p.end_time@ }
}

/// A payload small enough that the record built from it fits the byte bound.
pub open spec fn schedule_payload_fits(p: &SchedulePayload) -> bool {
    8 * (4 + p.day@.len() + p.start_time@.len() + p.end_time@.len()) <= MAX_RECORD_BYTES
}

/// The record an `update` writes back: non-blank payload fields overwrite,
/// the id is never altered.
pub open spec fn merged_entry(cur: ScheduleEntryV, p: &SchedulePayload) -> ScheduleEntryV {
    ScheduleEntryV {
        id: cur.id,
        day: merge_field(cur.day, p.day@),
        start_time: merge_field(cur.start_time, p.start_time@),
        end_time: merge_field(cur.end_time, p.end_time@),
    }
}

/// All schedule entries in ascending-id order; an empty collection is
/// reported as `NotFound`, not as an empty list.
pub fn get_all_schedule_entries(store: &Store) -> (r: Result<Vec<ScheduleEntry>, Error>)
    requires
        store.wf(),
    ensures
        match r {
            Ok(v) => {
                &&& v@.len() > 0
                &&& forall|i: int|
                    #![trigger v@[i]]
                    0 <= i < v@.len() ==> store.schedules().contains_key(v@[i].id) && v@[i]@
                        == store.schedules()[v@[i].id]
                &&& forall|k: u64|
                    #[trigger] store.schedules().contains_key(k) ==> exists|i: int|
                        0 <= i < v@.len() && v@[i].id == k
                &&& forall|i: int, j: int| 0 <= i < j < v@.len() ==> v@[i].id < v@[j].id
            },
            Err(e) => {
                &&& forall|k: u64| !store.schedules().contains_key(k)
                &&& e.is_not_found()
                &&& e.msg() == "No Schedule Entries found "@
            },
        },
{
    let entries = store.schedule_map.entries();
    let mut found: Vec<ScheduleEntry> = Vec::new();
    let mut i: usize = 0;
    while i < entries.len()
        invariant
            store.wf(),
            0 <= i <= entries@.len(),
            found@.len() == i,
            forall|j: int|
                #![trigger entries@[j]]
                0 <= j < entries@.len() ==> map_contents(store.schedule_map).contains_key(
                    entries@[j].0,
                ) && entries@[j].1@ == map_contents(store.schedule_map)[entries@[j].0],
            forall|j: int|
                #![trigger found@[j]]
                0 <= j < i ==> found@[j].id == entries@[j].0 && found@[j]@ == store.schedules()[
                    entries@[j].0],
        decreases entries@.len() - i,
    {
        let kv = &entries[i];
        let e = match decode_entry(&kv.1) {
            Some(e) => e,
            None => {
                proof {
                    assert(map_contents(store.schedule_map).contains_key(entries@[i as int].0));
                    assert(false);
                }
                unreached()
            },
        };
        found.push(e);
        i = i + 1;
    }
    if found.len() > 0 {
        proof {
            assert forall|k: u64| #[trigger] store.schedules().contains_key(k) implies exists|
                i: int,
            | 0 <= i < found@.len() && found@[i].id == k by {
                assert(map_contents(store.schedule_map).contains_key(k));
                let j = choose|j: int| 0 <= j < entries@.len() && entries@[j].0 == k;
                assert(found@[j].id == k);
            };
        }
        Ok(found)
    } else {
        Err(not_found_text("No Schedule Entries found "))
    }
}

/// The schedule entry under `id`, or `NotFound` naming the missing id.
pub fn get_schedule_entry(store: &Store, id: u64) -> (r: Result<ScheduleEntry, Error>)
    requires
        store.wf(),
    ensures
        match r {
            Ok(e) => store.schedules().contains_key(id) && e@ == store.schedules()[id],
            Err(e) => {
                &&& !store.schedules().contains_key(id)
                &&& e.is_not_found()
                &&& e.msg() == id_msg("Schedule Entry with id="@, id, " not found"@)
            },
        },
{
    match store.schedule_map.get(id) {
        Some(bytes) => {
            let e = match decode_entry(&bytes) {
                Some(e) => e,
                None => {
                    proof {
                        assert(false);
                    }
                    unreached()
                },
            };
            Ok(e)
        },
        None => Err(not_found_id("Schedule Entry with id=", id, " not found")),
    }
}

/// Creates a schedule entry: rejects a payload with any blank field, else
/// mints the next id, stores the record, and returns the stored value.
pub fn add_schedule_entry(store: &mut Store, schedule_payload: SchedulePayload) -> (r: Result<
    ScheduleEntry,
    Error,
>)
    requires
        old(store).wf(),
        old(store).schedule_ctr() < u64::MAX,
        schedule_payload_fits(&schedule_payload),
    ensures
        final(store).wf(),
        match r {
            Ok(e) => {
                &&& schedule_payload_valid(&schedule_payload)
                &&& e.id == old(store).schedule_ctr() + 1
                &&& e@ == entry_from_payload(e.id, &schedule_payload)
                &&& final(store).schedule_ctr() == old(store).schedule_ctr() + 1
                &&& final(store).schedules() == old(store).schedules().insert(e.id, e@)
                &&& final(store).same_but_schedules(old(store))
            },
            Err(e) => {
                &&& !schedule_payload_valid(&schedule_payload)
                &&& e.is_validation()
                &&& e.msg() == "Invalid Schedule Entry data Check for valid data "@
                &&& final(store).same_state(old(store))
            },
        },
{
    if is_blank(schedule_payload.day.as_str()) || is_blank(schedule_payload.start_time.as_str())
        || is_blank(schedule_payload.end_time.as_str()) {
        return Err(validation_error("Invalid Schedule Entry data Check for valid data "));
    }
    let id = next_id(&mut store.schedule_ids);
    let schedule_entry = ScheduleEntry {
        id,
        day: schedule_payload.day,
        start_time: schedule_payload.start_time,
        end_time: schedule_payload.end_time,
    };
    proof {
        assert(entry_fits(schedule_entry@));
    }
    do_insert_schedule_entry(store, &schedule_entry);
    Ok(schedule_entry)
}

/// Patches the schedule entry under `schedule_id`: each non-blank payload
/// field overwrites the stored one, a blank one leaves it unchanged; copies
/// already attached to lessons or teachers do not change.
pub fn update_schedule_entry(
    store: &mut Store,
    schedule_id: u64,
    schedule_payload: SchedulePayload,
) -> (r: Result<ScheduleEntry, Error>)
    requires
        old(store).wf(),
        old(store).schedules().contains_key(schedule_id) ==> entry_fits(
            merged_entry(old(store).schedules()[schedule_id], &schedule_payload),
        ),
    ensures
        final(store).wf(),
        match r {
            Ok(e) => {
                &&& old(store).schedules().contains_key(schedule_id)
                &&& e@ == merged_entry(old(store).schedules()[schedule_id], &schedule_payload)
                &&& final(store).schedules() == old(store).schedules().insert(schedule_id, e@)
                &&& final(store).schedule_ctr() == old(store).schedule_ctr()
                &&& final(store).same_but_schedules(old(store))
            },
            Err(e) => {
                &&& !old(store).schedules().contains_key(schedule_id)
                &&& e.is_not_found()
                &&& e.msg() == id_msg(
                    "Update Schedule Entry  with id="@,
                    schedule_id,
                    ". not found"@,
                )
                &&& final(store).same_state(old(store))
            },
        },
{
    let bytes = match store.schedule_map.get(schedule_id) {
        Some(bytes) => bytes,
        None => {
            return Err(
                not_found_id("Update Schedule Entry  with id=", schedule_id, ". not found"),
            );
        },
    };
    let mut schedule_entry = match decode_entry(&bytes) {
        Some(e) => e,
        None => {
            proof {
                assert(false);
            }
            unreached()
        },
    };
    update_if_not_empty(&mut schedule_entry.day, schedule_payload.day);
    update_if_not_empty(&mut schedule_entry.start_time, schedule_payload.start_time);
    update_if_not_empty(&mut schedule_entry.end_time, schedule_payload.end_time);
    do_insert_schedule_entry(store, &schedule_entry);
    Ok(schedule_entry)
}

/// Removes and returns the schedule entry under `id`, or `NotFound`; attached
/// copies elsewhere are untouched.
pub fn delete_schedule_entry(store: &mut Store, id: u64) -> (r: Result<ScheduleEntry, Error>)
    requires
        old(store).wf(),
    ensures
        final(store).wf(),
        match r {
            Ok(e) => {
                &&& old(store).schedules().contains_key(id)
                &&& e@ == old(store).schedules()[id]
                &&& final(store).schedules() == old(store).schedules().remove(id)
                &&& final(store).schedule_ctr() == old(store).schedule_ctr()
                &&& final(store).same_but_schedules(old(store))
            },
            Err(e) => {
                &&& !old(store).schedules().contains_key(id)
                &&& e.is_not_found()
                &&& e.msg() == id_msg("Schedule Entry with id="@, id, " not found"@)
                &&& final(store).same_state(old(store))
            },
        },
{
    match store.schedule_map.remove(id) {
        Some(bytes) => {
            let e = match decode_entry(&bytes) {
                Some(e) => e,
                None => {
                    proof {
                        assert(false);
                    }
                    unreached()
                },
            };
            proof {
                assert(store.schedules() =~= old(store).schedules().remove(id));
            }
            Ok(e)
        },
        None => {
            proof {
                assert(store.schedules() =~= old(store).schedules());
            }
            Err(not_found_id("Schedule Entry with id=", id, " not found"))
        },
    }
}

} // verus!
