use bgp::aspath::as_path_prepends;
use bgp::aspath::origin_asn;
use bgp::aspath::path_contains;
use bgp::aspath::path_length;

#[test]
fn length_and_origin() {
    assert_eq!(path_length(&[]), 0);
    assert_eq!(path_length(&[7018, 174, 13335]), 3);
    assert_eq!(origin_asn(&[7018, 174, 13335]), Some(13335));
    assert_eq!(origin_asn(&[]), None);
}

#[test]
fn prepends() {
    assert_eq!(as_path_prepends(&[1, 2, 3]), 0);
    assert_eq!(as_path_prepends(&[1, 1, 1, 2]), 2);
    assert_eq!(as_path_prepends(&[5, 5, 6, 6, 6]), 3);
    assert_eq!(as_path_prepends(&[]), 0);
    assert_eq!(as_path_prepends(&[9]), 0);
}

#[test]
fn contains() {
    assert!(path_contains(&[7018, 174, 13335], 174));
    assert!(!path_contains(&[7018, 174, 13335], 666));
    assert!(!path_contains(&[], 1));
}

#[test]
fn prepends_are_length_less_runs() {
    // Runs: 1, 2, 1 — a number that comes back later starts a new run.
    assert_eq!(as_path_prepends(&[1, 1, 2, 1]), 4 - 3);
    assert_eq!(as_path_prepends(&[7, 7, 7, 7]), 4 - 1);
}

#[test]
fn collapsing_removes_the_prepends() {
    for path in [vec![], vec![9], vec![1, 2, 1], vec![1, 1, 1, 2], vec![5, 5, 6, 6, 6, 5]] {
        let mut collapsed: Vec<u32> = path.clone();
        collapsed.dedup();
        assert_eq!(as_path_prepends(&path), path_length(&path) - path_length(&collapsed));
        assert_eq!(as_path_prepends(&collapsed), 0);
    }
    assert_eq!(as_path_prepends(&[1, 2, 1]), 0);
}

#[test]
fn the_origin_is_on_the_path() {
    let path = [7018, 174, 174, 13335];
    assert!(path_contains(&path, origin_asn(&path).unwrap()));
}
