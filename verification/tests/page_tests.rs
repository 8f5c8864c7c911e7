use quraan_discord::get_page_image_name;
use quraan_discord::page::{get_page_attachment_name, FILE_NAME_PADDING, FIRST_PAGE_INDEX};

#[test]
fn page_zero_is_the_front_matter_offset() {
    assert_eq!(FIRST_PAGE_INDEX, 2);
    assert_eq!(FILE_NAME_PADDING, 3);
    assert_eq!(get_page_image_name(0), "-002.png");
}

#[test]
fn page_fifteen_is_image_seventeen() {
    assert_eq!(get_page_image_name(15), "-017.png");
}

#[test]
fn long_page_numbers_are_not_cut() {
    assert_eq!(get_page_image_name(97), "-099.png");
    assert_eq!(get_page_image_name(98), "-100.png");
    assert_eq!(get_page_image_name(604), "-606.png");
    assert_eq!(get_page_image_name(998), "-1000.png");
}

#[test]
fn the_largest_page_number_does_not_wrap() {
    assert_eq!(get_page_image_name(u32::MAX), "-4294967297.png");
}

#[test]
fn the_image_name_agrees_with_formatting() {
    for page in [0u32, 1, 7, 8, 9, 10, 99, 100, 603, 604, 12345] {
        assert_eq!(get_page_image_name(page), format!("-{:03}.png", 2 + page));
        assert_eq!(get_page_attachment_name(page), format!("{page}.png"));
    }
}
