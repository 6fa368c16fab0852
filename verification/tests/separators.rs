use obmc::separators::Separators;
use obmc::seperators::Seperators;

#[test]
fn test_separators() {
    let seps = Separators::default();
    assert_eq!(seps.date_sep, "_");
    assert_eq!(seps.date_time_sep, " ");
    assert_eq!(seps.time_sep, ".");
    match seps.am_pm_sep {
        "" | " " => {}
        _ => panic!("am_pm_sep should be either empty or a space"),
    }
}

#[test]
fn test_seperators() {
    let seps = Seperators::default();
    assert_eq!(seps.date_sep, "_");
    assert_eq!(seps.date_time_sep, " ");
    assert_eq!(seps.time_sep, ".");
    match seps.am_pm_sep {
        "" | " " => {}
        _ => panic!("am_pm_sep should be either empty or a space"),
    }
}

#[test]
fn separators_new_keeps_each_field() {
    let seps = Separators::new("a", "b", "c", "d");
    assert_eq!((seps.date_sep, seps.date_time_sep, seps.time_sep, seps.am_pm_sep), ("a", "b", "c", "d"));
    let old = Seperators::new("a", "b", "c", "d");
    assert_eq!((old.date_sep, old.date_time_sep, old.time_sep, old.am_pm_sep), ("a", "b", "c", "d"));
}
