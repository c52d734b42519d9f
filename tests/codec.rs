use libd2d::codec::{decode_area, decode_coordinate, encode_area, encode_coordinate, DecodeError};
use libd2d::tasks::TaskQueue;
use libd2d::{Coordinate, MissionArea};

#[test]
fn coordinate_bytes_are_little_endian() {
    assert_eq!(encode_coordinate(Coordinate { x: 1, y: -1 }), vec![1, 0, 0, 0, 255, 255, 255, 255]);
    assert_eq!(
        encode_coordinate(Coordinate { x: 0x01020304, y: i32::MIN }),
        vec![4, 3, 2, 1, 0, 0, 0, 0x80]
    );
}

#[test]
fn coordinate_round_trip() {
    for c in [
        Coordinate { x: 0, y: 0 },
        Coordinate { x: 1, y: 0 },
        Coordinate { x: -5, y: 12 },
        Coordinate { x: i32::MAX, y: i32::MIN },
    ] {
        assert_eq!(decode_coordinate(&encode_coordinate(c)), Ok(c));
    }
    let b = vec![9, 8, 7, 6, 5, 4, 3, 2];
    assert_eq!(encode_coordinate(decode_coordinate(&b).unwrap()), b);
}

#[test]
fn coordinate_rejects_bad_length() {
    assert_eq!(decode_coordinate(&vec![1, 2, 3]), Err(DecodeError::Truncated));
    assert_eq!(decode_coordinate(&vec![0; 9]), Err(DecodeError::LengthMismatch));
}

#[test]
fn area_one_by_one_round_trip() {
    let a = MissionArea::from_cells(1, 1, vec![7]).unwrap();
    let b = encode_area(&a).unwrap();
    assert_eq!(b, vec![1, 0, 0, 0, 1, 0, 0, 0, 7, 0, 0, 0]);
    let d = decode_area(&b).unwrap();
    assert_eq!((d.rows, d.cols, d.cells), (1, 1, vec![7]));
}

#[test]
fn area_all_zero_round_trip() {
    let a = MissionArea::zeroed(3, 4);
    assert_eq!(a.cells, vec![0; 12]);
    let b = encode_area(&a).unwrap();
    assert_eq!(b.len(), 8 + 4 * 12);
    let d = decode_area(&b).unwrap();
    assert_eq!((d.rows, d.cols, d.cells.clone()), (3, 4, vec![0; 12]));
    assert_eq!(encode_area(&d).unwrap(), b);
}

#[test]
fn area_diagonal_round_trip() {
    let mut cells = vec![0u32; 7 * 12];
    for i in 0..7 {
        cells[i * 12 + i] = (i + 1) as u32;
    }
    let a = MissionArea::from_cells(7, 12, cells.clone()).unwrap();
    assert_eq!(a.cell(3, 3), 4);
    assert_eq!(a.cell(3, 4), 0);
    let d = decode_area(&encode_area(&a).unwrap()).unwrap();
    assert_eq!((d.rows, d.cols, d.cells), (7, 12, cells));
}

#[test]
fn area_rejects_malformed() {
    assert_eq!(decode_area(&vec![1, 0, 0]).unwrap_err(), DecodeError::Truncated);
    assert_eq!(
        decode_area(&vec![2, 0, 0, 0, 1, 0, 0, 0, 5, 0, 0, 0]).unwrap_err(),
        DecodeError::LengthMismatch
    );
    assert_eq!(
        decode_area(&vec![1, 0, 0, 0, 1, 0, 0, 0, 5, 0, 0]).unwrap_err(),
        DecodeError::LengthMismatch
    );
    let empty = decode_area(&vec![0, 0, 0, 0, 9, 0, 0, 0]).unwrap();
    assert_eq!((empty.rows, empty.cols, empty.cells.len()), (0, 9, 0));
}

#[test]
fn from_cells_checks_dimensions() {
    assert!(MissionArea::from_cells(2, 3, vec![0; 5]).is_none());
    assert!(MissionArea::from_cells(0, 3, vec![1]).is_none());
    assert!(MissionArea::from_cells(0, 3, vec![]).is_some());
    assert!(MissionArea::from_cells(2, 3, vec![0; 6]).is_some());
}

#[test]
fn task_queue_is_first_in_first_out() {
    let mut q = TaskQueue::from_tasks(vec![Coordinate { x: 1, y: 1 }, Coordinate { x: 2, y: 2 }]);
    q.push(Coordinate { x: 4, y: 4 });
    assert_eq!(q.len(), 3);
    assert_eq!(q.next_task(), Some(Coordinate { x: 1, y: 1 }));
    assert_eq!(q.next_task(), Some(Coordinate { x: 2, y: 2 }));
    assert_eq!(q.next_task(), Some(Coordinate { x: 4, y: 4 }));
    assert_eq!(q.next_task(), None);
    assert_eq!(q.len(), 0);
}
