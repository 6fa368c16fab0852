use obmc::cli::Cli;
use obmc::folders::CrawlType;

#[test]
fn serial_flag_maps_to_crawl_type() {
    assert_eq!(CrawlType::from(true), CrawlType::Serial);
    assert_eq!(CrawlType::from(false), CrawlType::Parallel);
    assert_eq!(CrawlType::default(), CrawlType::Parallel);

    let parallel = Cli {
        folder: None,
        dry_run: false,
        serial: false,
        version: false,
    };
    assert_eq!(parallel.crawl_type(), CrawlType::Parallel);

    let serial = Cli {
        serial: true,
        ..parallel
    };
    assert_eq!(serial.crawl_type(), CrawlType::Serial);
}
