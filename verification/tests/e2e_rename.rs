use obmc::{rename_from_stamp, ConvertOutcome, Separators};

#[test]
fn pure_rename_api_round_trip_prefix() {
    let seps = Separators::default();
    let stamp = "15/01/2024 10:00 10:00 AM";
    let once = rename_from_stamp("keep.png", stamp, &seps).unwrap();
    assert!(matches!(once, ConvertOutcome::Renamed(_)), "expected rename");
    if let ConvertOutcome::Renamed(ref n) = once {
        let twice = rename_from_stamp(n, stamp, &seps).unwrap();
        assert_eq!(twice, ConvertOutcome::AlreadyPrefixed);
    } else {
        panic!("expected rename");
    }
}
