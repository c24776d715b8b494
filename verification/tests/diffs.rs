use deet::diff::{diff_lines, lcs, DiffEntry};
use deet::grid::Grid;

#[test]
fn test_lcs() {
    let mut expected = Grid::new(5, 4);
    expected.set(1, 1, 1).unwrap();
    expected.set(1, 2, 1).unwrap();
    expected.set(1, 3, 1).unwrap();
    expected.set(2, 1, 1).unwrap();
    expected.set(2, 2, 1).unwrap();
    expected.set(2, 3, 2).unwrap();
    expected.set(3, 1, 1).unwrap();
    expected.set(3, 2, 1).unwrap();
    expected.set(3, 3, 2).unwrap();
    expected.set(4, 1, 1).unwrap();
    expected.set(4, 2, 2).unwrap();
    expected.set(4, 3, 2).unwrap();

    println!("Expected:");
    expected.display();
    let result = lcs(
        &"abcd".chars().map(|c| c.to_string()).collect(),
        &"adb".chars().map(|c| c.to_string()).collect(),
    );
    println!("Got:");
    result.display();
    assert_eq!(result.size(), expected.size());
    for row in 0..expected.size().0 {
        for col in 0..expected.size().1 {
            assert_eq!(result.get(row, col), expected.get(row, col));
        }
    }
}

#[test]
fn test_grid_get_set() {
    let mut g = Grid::new(2, 3);
    assert_eq!(g.size(), (2, 3));
    assert_eq!(g.get(1, 2), Some(0));
    assert!(g.set(1, 2, 42).is_ok());
    assert_eq!(g.get(1, 2), Some(42));
    assert_eq!(g.get(0, 0), Some(0));
    assert_eq!(g.get(2, 0), None);
    assert!(g.set(0, 3, 1).is_err());
}

#[test]
fn test_diff_lines() {
    let a: Vec<String> = vec!["x".to_string(), "same".to_string()];
    let b: Vec<String> = vec!["same".to_string(), "y".to_string()];
    let table = lcs(&a, &b);
    let d = diff_lines(&table, &a, &b, a.len(), b.len());
    assert_eq!(d.len(), 4);
    assert!(matches!(&d[0], DiffEntry::Blank));
    assert!(matches!(&d[1], DiffEntry::Removed(s) if s.as_str() == "x"));
    assert!(matches!(&d[2], DiffEntry::Same(s) if s.as_str() == "same"));
    assert!(matches!(&d[3], DiffEntry::Added(s) if s.as_str() == "y"));
}
