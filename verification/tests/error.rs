use voronoi_planet::error::append_decimal;
use voronoi_planet::VoronoiError;

#[test]
fn messages_name_the_kind_and_the_detail() {
    assert_eq!(
        VoronoiError::InvalidConfig("radius".to_string()).message(),
        "invalid configuration: radius"
    );
    assert_eq!(
        VoronoiError::GenerationFailed("flat".to_string()).message(),
        "generation failed: flat"
    );
    assert_eq!(VoronoiError::CellNotFound(17).message(), "cell not found: 17");
    assert_eq!(VoronoiError::CellNotFound(0).message(), "cell not found: 0");
}

#[test]
fn empty_detail_leaves_the_prefix() {
    assert_eq!(VoronoiError::InvalidConfig(String::new()).message(), "invalid configuration: ");
}

#[test]
fn decimal_matches_the_standard_formatting() {
    let numbers =
        [0usize, 1, 9, 10, 11, 99, 100, 101, 999, 1000, 12345, 999_999, 1_000_000, usize::MAX];
    for n in numbers {
        let mut text = String::from("n=");
        append_decimal(&mut text, n);
        assert_eq!(text, format!("n={}", n));
    }
}

#[test]
fn largest_id_is_written_in_full() {
    assert_eq!(
        VoronoiError::CellNotFound(usize::MAX).message(),
        format!("cell not found: {}", usize::MAX)
    );
}

#[test]
fn errors_can_be_cloned_and_printed_for_debugging() {
    let error = VoronoiError::CellNotFound(3);
    let copy = error.clone();
    assert_eq!(format!("{:?}", copy), "CellNotFound(3)");
}
