use std::time::{Duration, SystemTime, UNIX_EPOCH};
use http_server::listing::{adapt_file_data, convert_time, format_entry_date,
    listing_folder_name, DateParts};

#[test]
fn when_time_is_missing_cell_is_empty() {
    assert_eq!(convert_time(None), "");
}

#[test]
fn when_time_is_present_cell_is_rendered() {
    let now = SystemTime::now();
    let rendered = convert_time(Some(&now));
    assert!(!rendered.is_empty());
}

#[test]
fn date_of_the_current_year_shows_the_time() {
    let parts =
        DateParts { year: 2024, month: 10, day: 5, hour: 13, minute: 1, second: 2 };
    assert_eq!(format_entry_date(&parts, 2024), "Oct  5 13:01:02");
}

#[test]
fn date_of_another_year_shows_the_year() {
    let parts =
        DateParts { year: 1999, month: 12, day: 31, hour: 23, minute: 59, second: 59 };
    assert_eq!(format_entry_date(&parts, 2024), "Dec 31 1999");
}

#[test]
fn early_years_are_zero_padded() {
    let parts = DateParts { year: 33, month: 1, day: 1, hour: 0, minute: 0, second: 0 };
    assert_eq!(format_entry_date(&parts, 2024), "Jan  1 0033");
}

#[test]
fn far_future_time_falls_back_to_the_epoch_date() {
    let far = UNIX_EPOCH + Duration::from_secs(1 << 53);
    assert_eq!(convert_time(Some(&far)), "Jan  1 1970");
    let far_back = UNIX_EPOCH - Duration::from_secs(1 << 53);
    assert_eq!(convert_time(Some(&far_back)), "Jan  1 1970");
}

#[test]
fn listing_title_is_base_name_or_empty_at_root() {
    assert_eq!(listing_folder_name("./root/".to_string(), &"./root/".to_string()), "");
    assert_eq!(listing_folder_name("./root/css".to_string(), &"./root/".to_string()), "css");
}

#[test]
fn adapt_file_data_keeps_name_size_and_kind() {
    let data = adapt_file_data("notes.txt", 42, false, None, None);
    assert_eq!(data.file_name, "notes.txt");
    assert_eq!(data.file_size, 42);
    assert!(!data.is_dir);
    assert_eq!(data.create_date, "");
    assert_eq!(data.modified_date, "");
}
