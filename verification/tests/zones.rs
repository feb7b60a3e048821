use project_blaze::zones::ZoneAccess;

#[test]
fn occupied_zones_lists_current_owners() {
    let mut access = ZoneAccess::new_with_zones(3);
    assert!(access.acquire(1, 10));
    assert!(access.acquire(3, 11));

    let occupied = access.occupied_zones();
    assert!(occupied.contains(&1));
    assert!(occupied.contains(&3));
    assert_eq!(occupied.len(), 2);

    assert!(access.release(1, 10));
    assert!(access.release(3, 11));
}

#[test]
fn release_by_non_owner_fails_and_keeps_zone() {
    let mut access = ZoneAccess::new();
    assert!(access.acquire(1, 1));
    assert!(!access.release(1, 2));
    let occupied = access.occupied_zones();
    assert!(occupied.contains(&1));
    assert!(access.release(1, 1));
}

#[test]
fn zone_is_exclusive_under_contention() {
    let mut access = ZoneAccess::new();
    let contenders = 6u64;
    // Robots take zone 1 in turn; while one holds it, every other must wait.
    for holder in 0..contenders {
        assert!(access.acquire(1, holder));
        for other in 0..contenders {
            if other != holder {
                assert!(!access.acquire(1, other));
                assert_eq!(access.owner(1), Some(holder));
            }
        }
        assert_eq!(access.occupied_zones().len(), 1);
        assert!(access.release(1, holder));
    }
    assert!(access.occupied_zones().is_empty());
}

#[test]
fn release_of_free_zone_fails() {
    let mut access = ZoneAccess::new_with_zones(2);
    assert!(!access.release(2, 7));
    assert_eq!(access.owner(2), None);
}

#[test]
fn zone_counts() {
    assert_eq!(ZoneAccess::new().zone_count(), 256);
    assert_eq!(ZoneAccess::new_with_zones(3).zone_count(), 3);
    assert!(ZoneAccess::new_with_zones(0).occupied_zones().is_empty());
}

#[test]
fn acquire_release_roundtrip_frees_zone() {
    let mut access = ZoneAccess::new_with_zones(2);
    assert!(access.acquire(2, 5));
    assert_eq!(access.owner(2), Some(5));
    // The same robot asking again must wait too: the zone is not free.
    assert!(!access.acquire(2, 5));
    assert!(access.release(2, 5));
    assert_eq!(access.owner(2), None);
    assert!(access.occupied_zones().is_empty());
}
