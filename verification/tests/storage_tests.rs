use academy_storage::encode_key;
use academy_storage::retained;
use academy_storage::AcademyDataKey;
use academy_storage::AcademyStorage;
use academy_storage::Identity;
use academy_storage::StoreKey;

#[test]
fn test_data_key_variants() {
    // Test that data keys can be created and are distinct
    let key1 = AcademyDataKey::Init;
    let key2 = AcademyDataKey::Counter;
    let key3 = AcademyDataKey::Schedule(1);

    // Just verify they compile and are different variants
    match key1 {
        AcademyDataKey::Init => (),
        _ => panic!("Expected Init"),
    }

    match key2 {
        AcademyDataKey::Counter => (),
        _ => panic!("Expected Counter"),
    }

    match key3 {
        AcademyDataKey::Schedule(id) => assert_eq!(id, 1),
        _ => panic!("Expected Schedule"),
    }
}

#[test]
fn fresh_store_has_no_schedule() {
    let s = AcademyStorage::<u64>::new();
    assert!(!s.has_schedule(7));
    assert_eq!(s.get_schedule(7), None);
    assert!(!s.has_schedule(0));
    assert_eq!(s.get_schedule(0), None);
}

#[test]
fn set_schedule_roundtrip_and_overwrite() {
    let mut s = AcademyStorage::<u64>::new();
    s.set_schedule(1, 77);
    assert_eq!(s.get_schedule(1), Some(77));
    assert!(s.has_schedule(1));
    s.set_schedule(1, 88);
    assert_eq!(s.get_schedule(1), Some(88));
    assert!(s.has_schedule(1));
    assert!(!s.has_schedule(2));
}

#[test]
fn counter_increments_strictly_by_one() {
    let mut s = AcademyStorage::<u64>::new();
    s.set_initialized();
    assert_eq!(s.get_counter(), 0);
    let first = s.increment_counter();
    let second = s.increment_counter();
    assert_eq!(first, 1);
    assert_eq!(second, 2);
    assert!(first < second);
    assert_eq!(second, first + 1);
    assert_eq!(s.get_counter(), 2);
}

#[test]
fn initialization_flag_and_counter_reset() {
    let mut s = AcademyStorage::<u64>::new();
    assert!(!s.is_initialized());
    s.set_initialized();
    assert!(s.is_initialized());
    s.increment_counter();
    s.increment_counter();
    // A second initialization silently resets the counter: the documented
    // caller hazard.
    s.set_initialized();
    assert_eq!(s.get_counter(), 0);
    assert_eq!(s.increment_counter(), 1);
}

#[test]
fn user_index_keeps_insertion_order() {
    let mut s = AcademyStorage::<u64>::new();
    let user = Identity { id: 1 };
    s.add_schedule_to_user_index(user, 5);
    assert_eq!(s.get_user_schedule_ids(user), vec![5]);
    s.add_schedule_to_user_index(user, 9);
    assert_eq!(s.get_user_schedule_ids(user), vec![5, 9]);
    // Another user's index is untouched.
    assert_eq!(s.get_user_schedule_ids(Identity { id: 2 }), vec![]);
}

#[test]
fn active_index_add_then_remove() {
    let mut s = AcademyStorage::<u64>::new();
    s.add_to_active_index(3);
    s.add_to_active_index(7);
    s.remove_from_active_index(3);
    assert_eq!(s.get_active_schedule_ids(), vec![7]);
}

#[test]
fn active_index_remove_absent_is_unchanged() {
    let mut s = AcademyStorage::<u64>::new();
    s.add_to_active_index(3);
    s.add_to_active_index(7);
    s.remove_from_active_index(42);
    assert_eq!(s.get_active_schedule_ids(), vec![3, 7]);
    // Removing from an empty index leaves it empty.
    let mut t = AcademyStorage::<u64>::new();
    t.remove_from_active_index(1);
    assert_eq!(t.get_active_schedule_ids(), vec![]);
}

#[test]
fn active_index_remove_deletes_all_occurrences() {
    let mut s = AcademyStorage::<u64>::new();
    s.add_to_active_index(3);
    s.add_to_active_index(3);
    s.add_to_active_index(7);
    assert_eq!(s.get_active_schedule_ids(), vec![3, 3, 7]);
    s.remove_from_active_index(3);
    assert_eq!(s.get_active_schedule_ids(), vec![7]);
}

#[test]
fn config_accessors_absent_then_set() {
    let mut s = AcademyStorage::<u64>::new();
    assert_eq!(s.get_admin(), None);
    assert_eq!(s.get_token(), None);
    assert_eq!(s.get_governance(), None);
    s.set_admin(Identity { id: 10 });
    s.set_token(Identity { id: 11 });
    s.set_governance(Identity { id: 12 });
    assert_eq!(s.get_admin(), Some(Identity { id: 10 }));
    assert_eq!(s.get_token(), Some(Identity { id: 11 }));
    assert_eq!(s.get_governance(), Some(Identity { id: 12 }));
    s.set_admin(Identity { id: 20 });
    assert_eq!(s.get_admin(), Some(Identity { id: 20 }));
}

#[test]
fn migration_needed_below_current_version() {
    let mut s = AcademyStorage::<u64>::new();
    assert_eq!(s.get_version(), 0);
    assert!(s.needs_migration());
    s.set_version(1);
    assert!(s.needs_migration());
    s.set_version(2);
    assert!(!s.needs_migration());
    s.set_version(5);
    assert!(!s.needs_migration());
}

#[test]
fn migration_from_version_zero_moves_nothing() {
    let mut s = AcademyStorage::<u64>::new();
    assert!(s.needs_migration());
    assert_eq!(s.migrate_storage(), 0);
    assert_eq!(s.get_version(), 2);
    assert!(!s.needs_migration());
    assert_eq!(s.migrate_storage(), 0);
    assert_eq!(s.get_version(), 2);
}

#[test]
fn migration_from_legacy_copies_all_fields() {
    let mut s = AcademyStorage::<u64>::new();
    s.set_version(1);
    s.set_legacy_admin(Identity { id: 10 });
    s.set_legacy_token(Identity { id: 11 });
    s.set_legacy_governance(Identity { id: 12 });
    s.set_legacy_counter(42);
    assert!(s.has_legacy_data());
    assert_eq!(s.migrate_storage(), 4);
    assert_eq!(s.get_version(), 2);
    assert_eq!(s.get_admin(), Some(Identity { id: 10 }));
    assert_eq!(s.get_token(), Some(Identity { id: 11 }));
    assert_eq!(s.get_governance(), Some(Identity { id: 12 }));
    assert_eq!(s.get_counter(), 42);
    // The legacy keys are additive-only: they are never deleted.
    assert!(s.has_legacy_data());
    // A second migration is a no-op.
    assert_eq!(s.migrate_storage(), 0);
    assert_eq!(s.get_version(), 2);
}

#[test]
fn migration_from_legacy_counts_present_fields_only() {
    let mut s = AcademyStorage::<u64>::new();
    s.set_version(1);
    s.set_legacy_token(Identity { id: 11 });
    s.set_legacy_counter(9);
    assert_eq!(s.migrate_storage(), 2);
    assert_eq!(s.get_version(), 2);
    assert_eq!(s.get_admin(), None);
    assert_eq!(s.get_token(), Some(Identity { id: 11 }));
    assert_eq!(s.get_counter(), 9);
}

#[test]
fn migration_at_or_past_current_version_is_noop() {
    let mut s = AcademyStorage::<u64>::new();
    s.set_version(5);
    s.set_legacy_counter(9);
    assert_eq!(s.migrate_storage(), 0);
    assert_eq!(s.get_version(), 5);
    assert_eq!(s.get_counter(), 0);
}

#[test]
fn has_legacy_data_for_each_key() {
    let fresh = AcademyStorage::<u64>::new();
    assert!(!fresh.has_legacy_data());

    let mut a = AcademyStorage::<u64>::new();
    a.set_legacy_admin(Identity { id: 1 });
    assert!(a.has_legacy_data());

    let mut t = AcademyStorage::<u64>::new();
    t.set_legacy_token(Identity { id: 1 });
    assert!(t.has_legacy_data());

    let mut g = AcademyStorage::<u64>::new();
    g.set_legacy_governance(Identity { id: 1 });
    assert!(g.has_legacy_data());

    let mut c = AcademyStorage::<u64>::new();
    c.set_legacy_counter(1);
    assert!(c.has_legacy_data());
}

#[test]
fn user_schedules_skip_missing_records() {
    let mut s = AcademyStorage::<u64>::new();
    let user = Identity { id: 2 };
    s.set_schedule(5, 50);
    s.add_schedule_to_user_index(user, 5);
    s.add_schedule_to_user_index(user, 6);
    assert_eq!(s.get_user_schedule_ids(user), vec![5, 6]);
    assert_eq!(s.get_user_schedules(user), vec![50]);
}

#[test]
fn getters_are_idempotent() {
    let mut s = AcademyStorage::<u64>::new();
    s.set_initialized();
    s.set_admin(Identity { id: 10 });
    s.set_schedule(1, 77);
    s.add_schedule_to_user_index(Identity { id: 2 }, 1);
    s.add_to_active_index(1);
    s.set_legacy_counter(3);
    assert_eq!(s.is_initialized(), s.is_initialized());
    assert_eq!(s.get_version(), s.get_version());
    assert_eq!(s.get_admin(), s.get_admin());
    assert_eq!(s.get_token(), s.get_token());
    assert_eq!(s.get_governance(), s.get_governance());
    assert_eq!(s.get_counter(), s.get_counter());
    assert_eq!(s.get_schedule(1), s.get_schedule(1));
    assert_eq!(s.has_schedule(1), s.has_schedule(1));
    assert_eq!(
        s.get_user_schedule_ids(Identity { id: 2 }),
        s.get_user_schedule_ids(Identity { id: 2 })
    );
    assert_eq!(
        s.get_user_schedules(Identity { id: 2 }),
        s.get_user_schedules(Identity { id: 2 })
    );
    assert_eq!(s.get_active_schedule_ids(), s.get_active_schedule_ids());
    assert_eq!(s.needs_migration(), s.needs_migration());
    assert_eq!(s.has_legacy_data(), s.has_legacy_data());
}

#[test]
fn key_encoding_is_stable() {
    assert_eq!(encode_key(StoreKey::Data(AcademyDataKey::Init)), vec![1]);
    assert_eq!(encode_key(StoreKey::Data(AcademyDataKey::Counter)), vec![5]);
    assert_eq!(
        encode_key(StoreKey::Data(AcademyDataKey::Schedule(1))),
        vec![6, 0, 0, 0, 0, 0, 0, 0, 1]
    );
    assert_eq!(
        encode_key(StoreKey::Data(AcademyDataKey::Schedule(0x0102030405060708))),
        vec![6, 1, 2, 3, 4, 5, 6, 7, 8]
    );
    assert_eq!(
        encode_key(StoreKey::Data(AcademyDataKey::UserScheduleIds(Identity { id: 1 }))),
        vec![7, 0, 0, 0, 0, 0, 0, 0, 1]
    );
    assert_eq!(encode_key(StoreKey::Version), vec![9]);
    assert_eq!(encode_key(StoreKey::LegacyCnt), vec![13]);
}

#[test]
fn key_encoding_never_collides() {
    // An identity parameter is not confusable with a schedule identifier.
    assert_ne!(
        encode_key(StoreKey::Data(AcademyDataKey::Schedule(1))),
        encode_key(StoreKey::Data(AcademyDataKey::UserScheduleIds(Identity { id: 1 })))
    );
    // Distinct parameters of one variant stay distinct.
    assert_ne!(
        encode_key(StoreKey::Data(AcademyDataKey::Schedule(1))),
        encode_key(StoreKey::Data(AcademyDataKey::Schedule(256)))
    );
    // The legacy short-name keys do not collide with structured keys.
    assert_ne!(
        encode_key(StoreKey::LegacyAdmin),
        encode_key(StoreKey::Data(AcademyDataKey::Admin))
    );
}

#[test]
fn retained_drops_all_occurrences_only_of_target() {
    assert_eq!(retained(&vec![3, 7, 3, 9], 3), vec![7, 9]);
    assert_eq!(retained(&vec![3, 7, 9], 4), vec![3, 7, 9]);
    assert_eq!(retained(&vec![], 4), vec![]);
}

#[derive(Clone, Copy, PartialEq, Debug)]
struct GrantRecord {
    amount: u64,
    start: u64,
    duration: u64,
}

#[test]
fn opaque_records_round_trip() {
    let mut s = AcademyStorage::<GrantRecord>::new();
    let rec = GrantRecord { amount: 1000, start: 50, duration: 200 };
    s.set_schedule(1, rec);
    assert_eq!(s.get_schedule(1), Some(rec));
    s.add_schedule_to_user_index(Identity { id: 9 }, 1);
    s.add_schedule_to_user_index(Identity { id: 9 }, 2);
    assert_eq!(s.get_user_schedules(Identity { id: 9 }), vec![rec]);
}
