use id_container::container::Container;
use id_container::reference_container::ReferenceContainer;
use id_container::ContainerError;

/// Insertions with no interleaved removal hand out pairwise distinct
/// identities, monotonically increasing from 0.
#[test]
fn fresh_identities_increase_from_zero() {
    let mut container: Container<u32> = Container::new();
    for expected in 0..8 {
        assert_eq!(container.add(expected as u32), expected);
    }
}

/// An identity returned by `add` immediately resolves to the added value.
#[test]
fn get_after_add() {
    let mut container: Container<u32> = Container::new();
    let id = container.add(41);
    assert_eq!(container.get(id), Some(&41));
    let mut grouped: ReferenceContainer<u32> = ReferenceContainer::new();
    let gid = grouped.add(43, 7);
    assert_eq!(grouped.get(gid), Some(&43));
}

/// After a successful removal the identity is stale, not unknown: `get`
/// reports absence, `update` reports `StaleIndex`, a second `remove`
/// reports `IdNotFound`.
#[test]
fn removed_identity_is_stale_not_unknown() {
    let mut container: Container<u32> = Container::new();
    let id = container.add(1);
    container.add(2);
    assert_eq!(container.remove(id), Ok(()));
    assert_eq!(container.get(id), None);
    assert_eq!(container.update(id, 9), Err(ContainerError::StaleIndex));
    assert_eq!(container.remove(id), Err(ContainerError::IdNotFound));

    let mut grouped: ReferenceContainer<u32> = ReferenceContainer::new();
    let gid = grouped.add(1, 0);
    grouped.add(2, 0);
    assert_eq!(grouped.remove(gid), Ok(()));
    assert_eq!(grouped.get(gid), None);
    assert_eq!(grouped.update(gid, 9), Err(ContainerError::StaleIndex));
    assert_eq!(grouped.remove(gid), Err(ContainerError::IdNotFound));
}

/// Removing an identity that was never issued reports `IdNotFound`, and an
/// update through one reports the same.
#[test]
fn unknown_identity_is_not_found() {
    let mut container: Container<u32> = Container::new();
    container.add(5);
    assert_eq!(container.remove(17), Err(ContainerError::IdNotFound));
    assert_eq!(container.update(17, 0), Err(ContainerError::IdNotFound));
    assert_eq!(container.get(17), None);
}

/// The most recently freed identity is the first one recycled: insert three,
/// remove the middle one, and the next insertion returns it.
#[test]
fn removal_then_add_recycles_identity() {
    let mut container: Container<&str> = Container::new();
    assert_eq!(container.add("a"), 0);
    assert_eq!(container.add("b"), 1);
    assert_eq!(container.add("c"), 2);
    assert_eq!(container.remove(1), Ok(()));
    assert_eq!(container.add("d"), 1);
    assert_eq!(container.get(1), Some(&"d"));
}

/// `size` and `empty` track the live count exactly through any interleaving
/// of insertions and removals.
#[test]
fn size_tracks_live_count() {
    let mut container: Container<u32> = Container::new();
    assert!(container.empty());
    let a = container.add(1);
    let b = container.add(2);
    assert_eq!(container.size(), 2);
    container.remove(a).unwrap();
    assert_eq!(container.size(), 1);
    let c = container.add(3);
    assert_eq!(container.size(), 2);
    container.remove(b).unwrap();
    container.remove(c).unwrap();
    assert_eq!(container.size(), 0);
    assert!(container.empty());
}

/// `clear` discards the tombstone pool: identity allocation restarts at 0.
#[test]
fn clear_restarts_identity_allocation() {
    let mut container: Container<u32> = Container::new();
    container.add(1);
    container.add(2);
    container.remove(0).unwrap();
    container.clear();
    assert_eq!(container.add(9), 0);

    let mut grouped: ReferenceContainer<u32> = ReferenceContainer::new();
    grouped.add(1, 4);
    grouped.remove(0).unwrap();
    grouped.clear();
    assert_eq!(grouped.add(9, 4), 0);
}

/// `get_ids_from_reference` returns `None` exactly when no live element
/// carries the tag; a removed element no longer counts.
#[test]
fn ids_for_reference_none_iff_empty() {
    let mut grouped: ReferenceContainer<u32> = ReferenceContainer::new();
    assert_eq!(grouped.get_ids_from_reference(3), None);
    let id = grouped.add(10, 3);
    assert_eq!(grouped.get_ids_from_reference(3), Some(vec![id]));
    grouped.remove(id).unwrap();
    assert_eq!(grouped.get_ids_from_reference(3), None);
}

/// Sorting is stable: elements sharing a tag keep their relative slot
/// order, and every identity still resolves to its own value.
#[test]
fn sort_is_stable_and_preserves_bindings() {
    let mut grouped: ReferenceContainer<&str> = ReferenceContainer::new();
    let a = grouped.add("a", 1);
    let b = grouped.add("b", 0);
    let c = grouped.add("c", 1);
    let d = grouped.add("d", 0);
    grouped.sort();
    assert_eq!(grouped.get_ids_from_reference(0), Some(vec![b, d]));
    assert_eq!(grouped.get_ids_from_reference(1), Some(vec![a, c]));
    assert_eq!(grouped.get(a), Some(&"a"));
    assert_eq!(grouped.get(b), Some(&"b"));
    assert_eq!(grouped.get(c), Some(&"c"));
    assert_eq!(grouped.get(d), Some(&"d"));
}

/// Sorting leaves tombstones recyclable: a removal before a sort still
/// feeds the next insertion.
#[test]
fn sort_keeps_tombstones_recyclable() {
    let mut grouped: ReferenceContainer<u32> = ReferenceContainer::new();
    grouped.add(1, 2);
    let b = grouped.add(2, 1);
    grouped.add(3, 0);
    grouped.remove(b).unwrap();
    grouped.sort();
    assert_eq!(grouped.add(4, 9), b);
    assert_eq!(grouped.get(b), Some(&4));
}

/// An update round-trips: `update(id, v)` then `get(id)` yields `v`.
#[test]
fn update_get_round_trip() {
    let mut grouped: ReferenceContainer<u32> = ReferenceContainer::new();
    let id = grouped.add(1, 0);
    assert_eq!(grouped.update(id, 55), Ok(()));
    assert_eq!(grouped.get(id), Some(&55));
}

/// Slot-indexed lookup fails only past the identity table, which keeps
/// tombstone entries: a freed slot still resolves.
#[test]
fn slot_lookup_covers_tombstones() {
    let mut container: Container<u32> = Container::new();
    container.add(1);
    container.add(2);
    container.remove(0).unwrap();
    assert_eq!(container.get_id_from_index(0), Ok(1));
    assert_eq!(container.get_id_from_index(1), Ok(0));
    assert_eq!(
        container.get_id_from_index(2),
        Err(ContainerError::IndexOutOfBounds)
    );
}

/// A default-constructed grouped container is empty.
#[test]
fn default_is_empty() {
    let grouped: ReferenceContainer<u32> = ReferenceContainer::default();
    assert!(grouped.empty());
    assert_eq!(grouped.size(), 0);
}

/// Mutating a clone leaves the original untouched.
#[test]
fn clone_is_independent() {
    let mut grouped: ReferenceContainer<u32> = ReferenceContainer::new();
    let id = grouped.add(7, 1);
    let mut copy = grouped.clone();
    copy.update(id, 8).unwrap();
    assert_eq!(grouped.get(id), Some(&7));
    assert_eq!(copy.get(id), Some(&8));
}
