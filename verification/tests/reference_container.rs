use id_container::reference_container::ReferenceContainer;
use id_container::ContainerError;

/// Builds a container holding "a", "b", "c" under identities 0, 1, 2 with
/// references 0, 1, 1.
fn setup_container() -> ReferenceContainer<String> {
    let mut container: ReferenceContainer<String> = ReferenceContainer::new();
    container.add("a".to_string(), 0);
    container.add("b".to_string(), 1);
    container.add("c".to_string(), 1);
    container
}

/// Builds a container holding "a", "b", "c" under identities 0, 1, 2 with
/// references 2, 0, 1.
fn setup_unsorted_container() -> ReferenceContainer<String> {
    let mut container: ReferenceContainer<String> = ReferenceContainer::new();
    container.add("a".to_string(), 2);
    container.add("b".to_string(), 0);
    container.add("c".to_string(), 1);
    container
}

#[test]
fn test_clone() {
    let container = setup_container();
    let cloned_container = container.clone();
    assert_eq!(container.size(), cloned_container.size());
    for id in 0..3 {
        assert_eq!(container.get(id), cloned_container.get(id));
    }
    for index in 0..3 {
        assert_eq!(
            container.get_id_from_index(index),
            cloned_container.get_id_from_index(index)
        );
    }
    for reference in 0..3 {
        assert_eq!(
            container.get_ids_from_reference(reference),
            cloned_container.get_ids_from_reference(reference)
        );
    }
}

#[test]
fn reference_container_test_get() {
    let container = setup_container();
    assert_eq!(container.get(0), Some(&"a".to_string()));
    assert_eq!(container.get(1), Some(&"b".to_string()));
    assert_eq!(container.get(2), Some(&"c".to_string()));
    assert_eq!(container.get(3), None);
}

#[test]
fn reference_container_test_update() {
    let mut container = setup_container();
    assert_eq!(container.update(1, "updated".to_string()), Ok(()));
    assert_eq!(container.get(1), Some(&"updated".to_string()));
    assert_eq!(
        container.update(3, "new".to_string()),
        Err(ContainerError::IdNotFound)
    );
    container.remove(2).unwrap();
    assert_eq!(
        container.update(2, "new".to_string()),
        Err(ContainerError::StaleIndex)
    );
}

#[test]
fn test_reference_methods() {
    let container = setup_container();
    assert_eq!(container.get_id_from_index(1), Ok(1));
    assert_eq!(
        container.get_id_from_index(3),
        Err(ContainerError::IndexOutOfBounds)
    );
    assert_eq!(container.get_ids_from_reference(1), Some(vec![1, 2]));
    assert_eq!(container.get_ids_from_reference(0), Some(vec![0]));
    assert_eq!(container.get_ids_from_reference(2), None);
}

#[test]
fn reference_container_test_remove() {
    let mut container = setup_container();
    assert_eq!(container.remove(2), Ok(()));
    assert_eq!(container.get(2), None);
    assert_eq!(container.remove(3), Err(ContainerError::IdNotFound));
}

#[test]
fn reference_container_test_add() {
    let mut container = setup_container();
    let new_id = container.add("d".to_string(), 5);
    assert_eq!(container.get(new_id), Some(&"d".to_string()));
    container.remove(1).unwrap();
    let new_id2 = container.add("e".to_string(), 6);
    assert_eq!(container.get(new_id2), Some(&"e".to_string()));
}

#[test]
fn reference_container_test_size_and_empty() {
    let mut container = setup_container();
    assert_eq!(container.size(), 3);
    assert!(!container.empty());
    container.clear();
    assert_eq!(container.size(), 0);
    assert!(container.empty());
}

#[test]
fn test_sort() {
    let mut container = setup_unsorted_container();

    container.sort();

    assert_eq!(container.get(1), Some(&"b".to_string()));
    assert_eq!(container.get(2), Some(&"c".to_string()));
    assert_eq!(container.get(0), Some(&"a".to_string()));

    assert_eq!(container.get_ids_from_reference(0), Some(vec![1]));
    assert_eq!(container.get_ids_from_reference(1), Some(vec![2]));
    assert_eq!(container.get_ids_from_reference(2), Some(vec![0]));
}
