use portable_fs::format_file_size;
use portable_fs::load_files;

#[test]
fn bytes_are_written_whole() {
    assert_eq!(format_file_size(0), "0 B");
    assert_eq!(format_file_size(1), "1 B");
    assert_eq!(format_file_size(1023), "1023 B");
}

#[test]
fn larger_sizes_get_one_decimal_place() {
    assert_eq!(format_file_size(1024), "1.0 KB");
    assert_eq!(format_file_size(1536), "1.5 KB");
    assert_eq!(format_file_size(1075), "1.0 KB");
    assert_eq!(format_file_size(1076), "1.1 KB");
    assert_eq!(format_file_size(1177), "1.1 KB");
    assert_eq!(format_file_size(1178), "1.2 KB");
    assert_eq!(format_file_size(1048575), "1024.0 KB");
    assert_eq!(format_file_size(1048576), "1.0 MB");
    assert_eq!(format_file_size(123456789), "117.7 MB");
    assert_eq!(format_file_size(824633720832), "768.0 GB");
    assert_eq!(format_file_size(5368709120), "5.0 GB");
    assert_eq!(format_file_size(1099511627776), "1.0 TB");
    assert_eq!(format_file_size(1649267441664), "1.5 TB");
}

#[test]
fn ties_go_to_the_even_digit() {
    assert_eq!(format_file_size(1280), "1.2 KB");
    assert_eq!(format_file_size(1792), "1.8 KB");
}

#[test]
fn terabytes_are_the_largest_unit() {
    assert_eq!(format_file_size(9007199254740993), "8192.0 TB");
    assert_eq!(format_file_size(u64::MAX), "16777216.0 TB");
}

#[test]
fn no_uploaded_files_are_kept() {
    assert_eq!(load_files().len(), 0);
}
