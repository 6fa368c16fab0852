use obmc::processing::{
    creation_stamp, earliest_fs_time, format_dual, pick_image_date, plan_file, write_handle,
    FileAction, LocalDateTime,
};
use obmc::stamp_converter::StampError;
use obmc::{flip_date_format, rename_from_stamp, ConvertOutcome, Separators, EPOCH_STAMP};

fn dt(year: i32, month: u32, day: u32, hour: u32, minute: u32) -> LocalDateTime {
    LocalDateTime { year, month, day, hour, minute }
}

#[test]
fn rename_from_stamp_prefixes() {
    let seps = Separators::default();
    let out = rename_from_stamp("vacation.mp4", "26/05/2022 14:40 02:40 PM", &seps).unwrap();
    assert_eq!(out, ConvertOutcome::Renamed("2022_05_26 14.40 02.40PM vacation.mp4".into()));
}

#[test]
fn rename_from_stamp_skips_already_prefixed() {
    let seps = Separators::default();
    let name = "2022_05_26 14.40 02.40PM vacation.mp4";
    let out = rename_from_stamp(name, "26/05/2022 14:40 02:40 PM", &seps).unwrap();
    assert_eq!(out, ConvertOutcome::AlreadyPrefixed);
}

#[test]
fn rename_from_stamp_date_only() {
    let seps = Separators::default();
    let out = rename_from_stamp("shot.png", "07/10/2023", &seps).unwrap();
    assert_eq!(out, ConvertOutcome::Renamed("2023_10_07 shot.png".into()));
}

#[test]
fn rename_from_stamp_rejects_garbage() {
    let seps = Separators::default();
    assert!(rename_from_stamp("x.png", "not-a-date", &seps).is_err());
}

#[test]
fn rename_prefix_uses_a_space_whatever_the_separators() {
    let seps = Separators::new("-", "T", ".", "");
    let out = rename_from_stamp("a.png", "07/10/2023", &seps).unwrap();
    assert_eq!(out, ConvertOutcome::Renamed("2023-10-07 a.png".into()));
    let again = rename_from_stamp("2023-10-07 a.png", "07/10/2023", &seps).unwrap();
    assert_eq!(again, ConvertOutcome::AlreadyPrefixed);
    // The date alone, without the trailing space, is no prefix.
    let bare = rename_from_stamp("2023-10-07a.png", "07/10/2023", &seps).unwrap();
    assert_eq!(bare, ConvertOutcome::Renamed("2023-10-07 2023-10-07a.png".into()));
}

#[test]
fn rename_reports_the_stamp_error() {
    let seps = Separators::default();
    assert_eq!(
        rename_from_stamp("x.png", "26/05/2022 14:40", &seps).unwrap_err(),
        StampError::InvalidTimePortion
    );
}

#[test]
fn format_dual_has_am_pm_and_24h() {
    let s = format_dual(dt(2022, 5, 26, 14, 40));
    assert!(s.contains("PM") || s.contains("AM"), "{s}");
    assert!(s.contains("14:40"), "{s}");
}

#[test]
fn format_dual_exact_text() {
    assert_eq!(format_dual(dt(2022, 5, 26, 14, 40)), "26/05/2022 14:40 02:40 PM");
    assert_eq!(format_dual(dt(1970, 1, 1, 0, 0)), "01/01/1970 00:00 12:00 AM");
    assert_eq!(format_dual(dt(999, 12, 31, 12, 5)), "31/12/0999 12:05 12:05 PM");
    assert_eq!(format_dual(dt(2024, 2, 29, 23, 59)), "29/02/2024 23:59 11:59 PM");
}

#[test]
fn format_dual_round_trips_through_flip() {
    let seps = Separators::default();
    let s = format_dual(dt(2026, 3, 1, 23, 35));
    assert_eq!(flip_date_format(&s, &seps).unwrap(), "2026_03_01 23.35 11.35PM");
}

#[test]
fn epoch_stamp_flips() {
    let seps = Separators::default();
    assert_eq!(flip_date_format(EPOCH_STAMP, &seps).unwrap(), "1970_01_01 00.00 12.00AM");
}

#[test]
fn creation_stamp_prefers_media_then_fs_then_epoch() {
    let media = dt(2020, 1, 2, 3, 4);
    let fs = dt(2021, 5, 6, 7, 8);
    assert_eq!(creation_stamp(Some(media), Some(fs)), "02/01/2020 03:04 03:04 AM");
    assert_eq!(creation_stamp(None, Some(fs)), "06/05/2021 07:08 07:08 AM");
    assert_eq!(creation_stamp(None, None), EPOCH_STAMP);
}

#[test]
fn pick_image_date_order() {
    let a = dt(2020, 1, 1, 0, 0);
    let b = dt(2021, 1, 1, 0, 0);
    let c = dt(2022, 1, 1, 0, 0);
    assert_eq!(pick_image_date(Some(a), Some(b), Some(c)), Some(a));
    assert_eq!(pick_image_date(None, Some(b), Some(c)), Some(b));
    assert_eq!(pick_image_date(None, None, Some(c)), Some(c));
    assert_eq!(pick_image_date::<LocalDateTime>(None, None, None), None);
}

#[test]
fn earliest_fs_time_picks_the_earlier() {
    assert_eq!(earliest_fs_time(Some(5), Some(3)), Some(3));
    assert_eq!(earliest_fs_time(Some(-2), Some(3)), Some(-2));
    assert_eq!(earliest_fs_time(Some(5), None), Some(5));
    assert_eq!(earliest_fs_time(None, Some(7)), Some(7));
    assert_eq!(earliest_fs_time(None, None), None);
}

#[test]
fn write_handle_lines() {
    let mut out = String::new();
    write_handle(&mut out, "a.png", "2023_10_07 a.png", false);
    assert_eq!(out, "a.png                -> 2023_10_07 a.png    \n");
    let mut dry = String::new();
    write_handle(&mut dry, "a-very-long-file-name.png", "b", true);
    assert_eq!(dry, "[DRY RUN] | a-very-long-file-name.png -> b                   \n");
}

#[test]
fn renamed_names_sort_chronologically() {
    let seps = Separators::default();
    let earlier = format_dual(dt(2023, 10, 7, 15, 24));
    let later = format_dual(dt(2023, 10, 7, 15, 25));
    let a = rename_from_stamp("zzz.png", &earlier, &seps).unwrap();
    let b = rename_from_stamp("aaa.png", &later, &seps).unwrap();
    match (a, b) {
        (ConvertOutcome::Renamed(a), ConvertOutcome::Renamed(b)) => assert!(a < b, "{a} / {b}"),
        other => panic!("expected renames: {other:?}"),
    }
    // Afternoon hours sort after morning hours through the 24h field.
    let am = flip_date_format(&format_dual(dt(2023, 1, 1, 11, 59)), &seps).unwrap();
    let pm = flip_date_format(&format_dual(dt(2023, 1, 1, 12, 0)), &seps).unwrap();
    assert!(am < pm, "{am} / {pm}");
}

#[test]
fn renamed_name_keeps_original_suffix() {
    let seps = Separators::default();
    match rename_from_stamp("holiday photo.JPG", "01/02/2003 04:05 04:05 AM", &seps).unwrap() {
        ConvertOutcome::Renamed(n) => {
            assert_eq!(n, "2003_02_01 04.05 04.05AM holiday photo.JPG");
            assert!(n.ends_with("holiday photo.JPG"));
        }
        other => panic!("expected rename: {other:?}"),
    }
}

#[test]
fn plan_file_actions() {
    let seps = Separators::default();
    let stamp = "15/01/2024 10:00 10:00 AM";
    match plan_file("keep.png", stamp, &seps, true) {
        FileAction::Report { line, new_name, rename } => {
            assert!(!rename, "dry run must not rename");
            assert_eq!(new_name, "2024_01_15 10.00 10.00AM keep.png");
            assert_eq!(line, "[DRY RUN] | keep.png             -> 2024_01_15 10.00 10.00AM keep.png\n");
        }
        _ => panic!("expected a report"),
    }
    match plan_file("keep.png", stamp, &seps, false) {
        FileAction::Report { rename, .. } => assert!(rename),
        _ => panic!("expected a report"),
    }
    match plan_file("2024_01_15 10.00 10.00AM keep.png", stamp, &seps, false) {
        FileAction::Skip { line } => {
            assert_eq!(line, "[skip] already prefixed: 2024_01_15 10.00 10.00AM keep.png\n")
        }
        _ => panic!("expected a skip"),
    }
    match plan_file("keep.png", "garbage", &seps, false) {
        FileAction::Fail(e) => assert_eq!(e, StampError::NoDateSeparator),
        _ => panic!("expected a failure"),
    }
}

#[test]
fn local_date_time_validity() {
    assert!(dt(2024, 2, 29, 0, 0).is_valid());
    assert!(!dt(2023, 2, 29, 0, 0).is_valid());
    assert!(!dt(1900, 2, 29, 0, 0).is_valid());
    assert!(dt(2000, 2, 29, 0, 0).is_valid());
    assert!(!dt(2023, 4, 31, 0, 0).is_valid());
    assert!(!dt(2023, 13, 1, 0, 0).is_valid());
    assert!(!dt(2023, 1, 0, 0, 0).is_valid());
    assert!(!dt(2023, 1, 1, 24, 0).is_valid());
    assert!(!dt(2023, 1, 1, 0, 60).is_valid());
    assert!(!dt(300000, 1, 1, 0, 0).is_valid());
    assert!(dt(-4, 2, 29, 0, 0).is_valid());
}

#[test]
fn format_dual_years_without_four_digits() {
    assert_eq!(format_dual(dt(10000, 1, 2, 3, 4)), "02/01/+10000 03:04 03:04 AM");
    assert_eq!(format_dual(dt(-1, 1, 2, 13, 4)), "02/01/-0001 13:04 01:04 PM");
    assert_eq!(format_dual(dt(-262143, 1, 1, 0, 0)), "01/01/-262143 00:00 12:00 AM");
    let seps = Separators::default();
    assert_eq!(
        flip_date_format(&format_dual(dt(10000, 1, 2, 3, 4)), &seps).unwrap_err(),
        StampError::NonNumericComponent(2)
    );
    assert_eq!(
        flip_date_format(&format_dual(dt(-1, 1, 2, 3, 4)), &seps).unwrap_err(),
        StampError::WrongComponentCount(2)
    );
}

#[test]
fn any_digit_stamps_flip_in_chronological_order() {
    let seps = Separators::new("-", "T", ":", " ");
    // The 12h part and AM/PM do not take part in the order.
    let a = flip_date_format("31/12/2023 23:59 01:00 AM", &seps).unwrap();
    let b = flip_date_format("01/01/2024 00:00 12:00 PM", &seps).unwrap();
    assert!(a < b, "{a} / {b}");
}
