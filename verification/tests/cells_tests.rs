use avail_light::cells::{get_cell, put_cell, CellStore};
use avail_light::types::{Cell, Position};

fn coded_cell(block: u32, row: u16, col: u16, fill: u8) -> Cell {
    Cell {
        block,
        position: Position { row, col },
        data: vec![fill; 32],
        proof: vec![fill.wrapping_add(1); 48],
    }
}

#[test]
fn put_then_get_returns_identical_bytes() {
    let mut store = CellStore::new();
    let cell = coded_cell(7, 1, 2, 0xAB);
    put_cell(&mut store, cell.clone());
    let fetched = get_cell(&store, 7, Position { row: 1, col: 2 }).unwrap();
    assert_eq!(fetched.data, cell.data);
    assert_eq!(fetched.proof, cell.proof);
    assert_eq!(*fetched, cell);
}

#[test]
fn absent_addresses_return_nothing() {
    let mut store = CellStore::new();
    put_cell(&mut store, coded_cell(7, 1, 2, 1));
    assert!(get_cell(&store, 7, Position { row: 2, col: 1 }).is_none());
    assert!(get_cell(&store, 8, Position { row: 1, col: 2 }).is_none());
}

#[test]
fn distinct_addresses_hold_distinct_cells() {
    let mut store = CellStore::new();
    put_cell(&mut store, coded_cell(1, 0, 0, 10));
    put_cell(&mut store, coded_cell(1, 0, 1, 20));
    put_cell(&mut store, coded_cell(2, 0, 0, 30));
    assert_eq!(get_cell(&store, 1, Position { row: 0, col: 0 }).unwrap().data, vec![10; 32]);
    assert_eq!(get_cell(&store, 1, Position { row: 0, col: 1 }).unwrap().data, vec![20; 32]);
    assert_eq!(get_cell(&store, 2, Position { row: 0, col: 0 }).unwrap().data, vec![30; 32]);
}
