use bitmap::Bitmap;

fn check_false_except(bmap: &Bitmap, idx: usize) {
    assert_eq!(bmap.get(idx), Ok(true));
    for bit in 0..idx {
        assert_eq!(bmap.get(bit), Ok(false));
    }

    for bit in idx + 1..64 {
        assert_eq!(bmap.get(bit), Ok(false));
    }
}

#[test]
fn test_new() {
    let bmap = Bitmap::new(64).unwrap();
    assert_eq!(bmap.get_bit_count(), 64);
    assert_eq!(bmap.get_bitmap_capacity(), 8);
}

#[test]
fn test_set() {
    let mut bmap = Bitmap::new(64).unwrap();
    bmap.set(10).unwrap();
    assert_eq!(bmap.get(10), Ok(true));
    assert_eq!(bmap.get(0), Ok(false));
    assert_eq!(bmap.get(9), Ok(false));
}

#[test]
fn test_unset() {
    let mut bmap = Bitmap::new(64).unwrap();
    bmap.set(10).unwrap();
    bmap.unset(10).unwrap();
    assert_eq!(bmap.get(10), Ok(false));
    assert_eq!(bmap.get(0), Ok(false));
    assert_eq!(bmap.get(9), Ok(false));
}

#[test]
fn test_get() {
    let mut bmap = Bitmap::new(64).unwrap();
    assert_eq!(bmap.get(0), Ok(false));
    bmap.set(10).unwrap();
    assert_eq!(bmap.get(10), Ok(true));
    assert_eq!(bmap.get(0), Ok(false));
}

#[test]
fn test_get_bit_count() {
    let bmap = Bitmap::new(64).unwrap();
    assert_eq!(bmap.get_bit_count(), 64);
}

#[test]
fn test_get_bitmap_capacity() {
    let bmap = Bitmap::new(64).unwrap();
    assert_eq!(bmap.get_bitmap_capacity(), 8);
}

#[test]
fn bitmap_test2() {
    let mut bmap = Bitmap::new(64).unwrap();
    bmap.set(10).unwrap();
    check_false_except(&bmap, 10);
}

#[test]
fn bitmap_test3() {
    let mut bmap = Bitmap::new(64).unwrap();
    bmap.set(8).unwrap();
    check_false_except(&bmap, 8);
}

#[test]
fn test1() {
    let bmap = Bitmap::new(64).unwrap();
    for bit in 0..64_usize {
        assert_eq!(bmap.get(bit), Ok(false));
    }
}

#[test]
fn lib_test2() {
    let mut bmap = Bitmap::new(64).unwrap();
    bmap.set(10).unwrap();
    check_false_except(&bmap, 10);
}

#[test]
fn lib_test3() {
    let mut bmap = Bitmap::new(64).unwrap();
    bmap.set(8).unwrap();
    check_false_except(&bmap, 8);
}
