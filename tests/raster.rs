use raytracer::raster::{pack_pixels, pixel_at, scan_order};

#[test]
fn pixel_at_starts_top_left() {
    assert_eq!(pixel_at(0, 3, 2), (0, 1));
    assert_eq!(pixel_at(2, 3, 2), (2, 1));
    assert_eq!(pixel_at(3, 3, 2), (0, 0));
    assert_eq!(pixel_at(5, 3, 2), (2, 0));
}

#[test]
fn pixel_at_single_pixel() {
    assert_eq!(pixel_at(0, 1, 1), (0, 0));
}

#[test]
fn scan_order_small_image() {
    assert_eq!(scan_order(2, 2), vec![(0, 1), (1, 1), (0, 0), (1, 0)]);
    assert_eq!(scan_order(3, 1), vec![(0, 0), (1, 0), (2, 0)]);
    assert_eq!(scan_order(1, 3), vec![(0, 2), (0, 1), (0, 0)]);
}

#[test]
fn scan_order_covers_each_pixel_once() {
    let order = scan_order(200, 100);
    assert_eq!(order.len(), 20000);
    assert_eq!(order[0], (0, 99));
    assert_eq!(order[199], (199, 99));
    assert_eq!(order[200], (0, 98));
    assert_eq!(order[19999], (199, 0));
    let mut seen = vec![false; 20000];
    for &(i, j) in &order {
        let slot = j * 200 + i;
        assert!(!seen[slot]);
        seen[slot] = true;
    }
    assert!(seen.iter().all(|&s| s));
}

#[test]
fn pack_pixels_interleaves_channels() {
    assert_eq!(
        pack_pixels(&vec![(1, 2, 3), (4, 5, 6)]),
        vec![1, 2, 3, 4, 5, 6]
    );
    assert_eq!(pack_pixels(&vec![(255, 0, 128)]), vec![255, 0, 128]);
}

#[test]
fn pack_pixels_empty() {
    assert_eq!(pack_pixels(&vec![]), Vec::<u8>::new());
}

#[test]
fn render_buffer_length() {
    let order = scan_order(4, 3);
    let pixels: Vec<(u8, u8, u8)> = order.iter().map(|&(i, j)| (i as u8, j as u8, 7)).collect();
    let bytes = pack_pixels(&pixels);
    assert_eq!(bytes.len(), 4 * 3 * 3);
    assert_eq!(&bytes[0..3], &[0, 2, 7]);
    assert_eq!(&bytes[33..36], &[3, 0, 7]);
}
