//! The image files of the printed pages.
use crate::text::{decimal, push_decimal, push_zero_padded, zero_padded};
use vstd::prelude::*;

verus! {

/// The number of the image that shows page 0: the images start with the
/// front matter.
pub const FIRST_PAGE_INDEX: u32 = 2;

/// The number of digits to which an image's number is filled up.
pub const FILE_NAME_PADDING: usize = 3;

/// The name of the image file of a page: a hyphen, the page number moved by
/// the front matter and zero-padded, and the extension.
pub open spec fn page_image_name(page_number: u32) -> Seq<char> {
    "-"@ + zero_padded((FIRST_PAGE_INDEX + page_number) as nat, FILE_NAME_PADDING as nat)
        + ".png"@
}

/// The name under which the image of a page is handed out.
pub open spec fn page_attachment_name(page_number: u32) -> Seq<char> {
    decimal(page_number as nat) + ".png"@
}

/// The name of the image file of a page, within the directory of the images.
pub fn get_page_image_name(page_number: u32) -> (name: String)
    ensures
        name@ == page_image_name(page_number),
{
    let mut name = String::from_str("-");
    push_zero_padded(&mut name, FIRST_PAGE_INDEX as u64 + page_number as u64, FILE_NAME_PADDING);
    name.append(".png");
    name
}

/// The name under which the image of a page is handed out.
pub fn get_page_attachment_name(page_number: u32) -> (name: String)
    ensures
        name@ == page_attachment_name(page_number),
{
    let mut name = String::new();
    push_decimal(&mut name, page_number as u64);
    name.append(".png");
    name
}

} // verus!
