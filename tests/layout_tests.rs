use tracer::settings::RenderSettings;

fn settings(width: usize, height: usize) -> RenderSettings {
    RenderSettings::new(width, height, 1, 1).unwrap()
}

#[test]
fn first_entry_is_top_left() {
    let s = settings(200, 100);
    assert_eq!(s.pixel_position(0), (0, 99));
    assert_eq!(s.pixel_index(0, 99), 0);
}

#[test]
fn last_entry_is_bottom_right() {
    let s = settings(200, 100);
    assert_eq!(s.pixel_position(19_999), (199, 0));
    assert_eq!(s.pixel_index(199, 0), 19_999);
}

#[test]
fn second_scanline_starts_after_first() {
    let s = settings(200, 100);
    assert_eq!(s.pixel_position(199), (199, 99));
    assert_eq!(s.pixel_position(200), (0, 98));
    assert_eq!(s.pixel_index(5, 97), 405);
}

#[test]
fn position_and_index_round_trip() {
    let s = settings(7, 3);
    for index in 0..s.pixel_count() {
        let (column, scanline) = s.pixel_position(index);
        assert!(column < 7 && scanline < 3);
        assert_eq!(s.pixel_index(column, scanline), index);
    }
}

#[test]
fn buffer_order_is_output_order() {
    let s = settings(4, 3);
    let positions: Vec<(usize, usize)> = (0..s.pixel_count()).map(|i| s.pixel_position(i)).collect();
    for pair in positions.windows(2) {
        let (a, b) = (pair[0], pair[1]);
        assert!(a.1 > b.1 || (a.1 == b.1 && a.0 < b.0));
    }
}
