use obmc::flip_date_format;
use obmc::stamp_converter::{AmOrPm, DateParts, Stamp, StampError, TimeStampParts};
use obmc::Separators;

#[test]
fn test_stamp_converter_dual_time() {
    // Matches get_creation_time output: 24h + 12h + AM/PM
    let creation_time = "26/05/2022 14:40 02:40 PM";
    let seps = Separators::default();
    let new_date = flip_date_format(creation_time, &seps).unwrap();
    assert_eq!(new_date, "2022_05_26 14.40 02.40PM");
}

#[test]
fn test_stamp_converter_legacy_single_time() {
    let creation_time = "26/05/2022 12:40 AM";
    let seps = Separators::default();
    let new_date = flip_date_format(creation_time, &seps).unwrap();
    assert_eq!(new_date, "2022_05_26 12.40AM");
}

#[test]
fn test_stamp_converter_date_only() {
    let creation_time = "26/05/2022";
    let seps = Separators::default();
    let new_date = flip_date_format(creation_time, &seps).unwrap();
    assert_eq!(new_date, "2022_05_26");
}

#[test]
fn test_date_parts_formatted() {
    let date = DateParts {
        day: "26".to_string(),
        month: "05".to_string(),
        year: "2022".to_string(),
    };
    assert_eq!(date.formatted("/"), "2022/05/26");
    assert_eq!(date.formatted("_"), "2022_05_26");
}

#[test]
fn flip_accepts_dash_and_dot_dates() {
    let seps = Separators::default();
    assert_eq!(flip_date_format("07-10-2023", &seps).unwrap(), "2023_10_07");
    assert_eq!(flip_date_format("07.10.2023", &seps).unwrap(), "2023_10_07");
}

#[test]
fn flip_prefers_dash_over_slash() {
    // '-' is looked for first, so "1-2/3" splits only at '-' into two parts.
    let seps = Separators::default();
    assert_eq!(
        flip_date_format("1-2/3", &seps).unwrap_err(),
        StampError::WrongComponentCount(2)
    );
}

#[test]
fn flip_uses_custom_separators() {
    let seps = Separators::new("-", "T", "h", " ");
    let out = flip_date_format("26/05/2022 14:40 02:40 pm", &seps).unwrap();
    assert_eq!(out, "2022-05-26T14h40 02h40 PM");
}

#[test]
fn flip_ignores_extra_whitespace_and_tokens() {
    let seps = Separators::default();
    let out = flip_date_format("  26/05/2022\t14:40   02:40 PM trailing", &seps).unwrap();
    assert_eq!(out, "2022_05_26 14.40 02.40PM");
}

#[test]
fn flip_errors() {
    let seps = Separators::default();
    assert_eq!(flip_date_format("", &seps).unwrap_err(), StampError::MissingDate);
    assert_eq!(flip_date_format("   ", &seps).unwrap_err(), StampError::MissingDate);
    assert_eq!(flip_date_format("26052022", &seps).unwrap_err(), StampError::NoDateSeparator);
    assert_eq!(
        flip_date_format("26/05/2022/1", &seps).unwrap_err(),
        StampError::WrongComponentCount(4)
    );
    assert_eq!(
        flip_date_format("26/0x/2022", &seps).unwrap_err(),
        StampError::NonNumericComponent(1)
    );
    assert_eq!(
        flip_date_format("26//2022", &seps).unwrap_err(),
        StampError::NonNumericComponent(1)
    );
    assert_eq!(
        flip_date_format("26/05/2022 14:40", &seps).unwrap_err(),
        StampError::InvalidTimePortion
    );
    assert_eq!(
        flip_date_format("26/05/2022 14:40 XM", &seps).unwrap_err(),
        StampError::InvalidAmPm
    );
    assert_eq!(
        flip_date_format("26/05/2022 14:40 02:40 noon", &seps).unwrap_err(),
        StampError::InvalidAmPm
    );
}

#[test]
fn am_or_pm_parses_any_case() {
    assert_eq!(AmOrPm::parse("am").unwrap(), AmOrPm::Am);
    assert_eq!(AmOrPm::parse("Pm").unwrap(), AmOrPm::Pm);
    assert_eq!(AmOrPm::parse("AMX").unwrap_err(), StampError::InvalidAmPm);
    assert_eq!(AmOrPm::Pm.as_str(), "PM");
    assert_eq!("pM".parse::<AmOrPm>().unwrap(), AmOrPm::Pm);
}

#[test]
fn stamp_parts_layouts() {
    let dual = TimeStampParts::from_parts("14:40", "02:40", "PM").unwrap();
    assert_eq!(dual.time, "14:40 02:40");
    let single = TimeStampParts::from_single("12:40", "am").unwrap();
    assert_eq!(single.time, "12:40");
    assert_eq!(single.am_or_pm, AmOrPm::Am);
    let seps = Separators::default();
    assert_eq!(dual.formatted(&seps), "14.40 02.40PM");
    let st: Stamp = "01/02/2003".parse().unwrap();
    assert!(st.time.is_none());
    assert_eq!(st.formatted(&seps), "2003_02_01");
}
