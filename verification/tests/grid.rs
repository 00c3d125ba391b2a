use ray_tracer::grid_iterator::grid_iterator;
use ray_tracer::simple_grid_iterator::SimpleGridIterator;

#[test]
fn jump_one_small() {
    let mut iter = grid_iterator(2, 2, 1, 1);

    assert_eq!(iter.next(), Some((0, 0)));
    assert_eq!(iter.next(), Some((1, 0)));
    assert_eq!(iter.next(), Some((0, 1)));
    assert_eq!(iter.next(), Some((1, 1)));
    assert_eq!(iter.next(), None);
}

#[test]
fn jump_two_small() {
    let mut iter = grid_iterator(2, 2, 2, 2);

    assert_eq!(iter.next(), Some((0, 0)));
    assert_eq!(iter.next(), Some((1, 0)));
    assert_eq!(iter.next(), Some((0, 1)));
    assert_eq!(iter.next(), Some((1, 1)));
    assert_eq!(iter.next(), None);
}

#[test]
fn jump_two_big_grid() {
    let mut iter = grid_iterator(4, 3, 2, 1);

    // Frame 0
    assert_eq!(iter.next(), Some((0, 0)));
    assert_eq!(iter.next(), Some((2, 0)));
    assert_eq!(iter.next(), Some((0, 1)));
    assert_eq!(iter.next(), Some((2, 1)));
    assert_eq!(iter.next(), Some((0, 2)));
    assert_eq!(iter.next(), Some((2, 2)));

    // Frame 1
    assert_eq!(iter.next(), Some((1, 0)));
    assert_eq!(iter.next(), Some((3, 0)));
    assert_eq!(iter.next(), Some((1, 1)));
    assert_eq!(iter.next(), Some((3, 1)));
    assert_eq!(iter.next(), Some((1, 2)));
    assert_eq!(iter.next(), Some((3, 2)));

    assert_eq!(iter.next(), None);
}

#[test]
fn it_works() {
    let mut iter = SimpleGridIterator::new(3, 2);

    assert_eq!(iter.next(), Some((0, 0)));
    assert_eq!(iter.next(), Some((1, 0)));
    assert_eq!(iter.next(), Some((2, 0)));
    assert_eq!(iter.next(), Some((0, 1)));
    assert_eq!(iter.next(), Some((1, 1)));
    assert_eq!(iter.next(), Some((2, 1)));
    assert_eq!(iter.next(), None);
}

#[test]
fn simple_empty_grid() {
    let mut iter = SimpleGridIterator::new(0, 7);
    assert_eq!(iter.next(), None);

    let mut iter = SimpleGridIterator::new(7, 0);
    assert_eq!(iter.next(), None);
}

#[test]
fn simple_stays_exhausted() {
    let mut iter = SimpleGridIterator::new(1, 1);
    assert_eq!(iter.next(), Some((0, 0)));
    assert_eq!(iter.next(), None);
    assert_eq!(iter.next(), None);
}

#[test]
fn grid_empty_image() {
    let mut iter = grid_iterator(0, 5, 2, 2);
    assert_eq!(iter.next(), None);

    let mut iter = grid_iterator(5, 0, 2, 2);
    assert_eq!(iter.next(), None);
}

#[test]
fn grid_jump_larger_than_image() {
    // frames of 0 x 0 cells: nothing to walk
    let mut iter = grid_iterator(3, 3, 4, 4);
    assert_eq!(iter.next(), None);
}

#[test]
fn grid_covers_each_pixel_once() {
    // 5 x 5 image with 2 x 2 jumps: frames are 2 x 2, so the walk covers
    // the 4 x 4 box and leaves the ragged right column and top row out.
    let mut iter = grid_iterator(5, 5, 2, 2);
    let mut seen = [[0u32; 4]; 4];
    let mut count = 0u32;
    while let Some((x, y)) = iter.next() {
        assert!(x < 4 && y < 4);
        seen[y][x] += 1;
        count += 1;
    }
    assert_eq!(count, 16);
    for row in seen.iter() {
        for visits in row.iter() {
            assert_eq!(*visits, 1);
        }
    }
}

#[test]
fn grid_stays_exhausted() {
    let mut iter = grid_iterator(2, 2, 2, 2);
    for _ in 0..4 {
        assert!(iter.next().is_some());
    }
    assert_eq!(iter.next(), None);
    assert_eq!(iter.next(), None);
}
