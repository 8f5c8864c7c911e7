//! What each command answers, computed from the corpus. Sending the answer
//! is left to the caller.
use crate::chunk::{chunk_texts, chunked, text_views, MESSAGE_THRESHOLD};
use crate::corpus::{AyatView, Quraan};
use crate::page::{
    get_page_attachment_name, get_page_image_name, page_attachment_name, page_image_name,
};
use crate::query::{
    distinct_pages, first_wanted, is_ayah, sorted_pages, surah_ayat, views,
};
use crate::text::{decimal, push_decimal, trim, trimmed};
use vstd::prelude::*;

verus! {

/// The number of page images that go into one message.
pub const PAGES_PER_MESSAGE: usize = 8;

/// The line of a surah in the list of surahs.
pub open spec fn list_item(ayat: AyatView) -> Seq<char> {
    "- "@ + trimmed(ayat.sura_name_ar) + "\n"@
}

/// The lines of the list of surahs: one for each surah name, in the order in
/// which the names first occur.
pub open spec fn surah_items(ayat: Seq<AyatView>) -> Seq<Seq<char>>
    decreases ayat.len(),
{
    if ayat.len() == 0 {
        Seq::empty()
    } else {
        let before = surah_items(ayat.drop_last());
        if before.contains(list_item(ayat.last())) {
            before
        } else {
            before.push(list_item(ayat.last()))
        }
    }
}

/// The answer that no surah has the name.
pub open spec fn no_surah_message(name: Seq<char>) -> Seq<char> {
    "No surah with the name: "@ + name
}

/// The answer that the surah has no verse of the number.
pub open spec fn no_ayah_message(surah_name: Seq<char>, ayah_number: u32) -> Seq<char> {
    "Ayah number "@ + decimal(ayah_number as nat) + " does not exist in surah "@ + surah_name
}

/// The answer that the verse has no commentary.
pub open spec fn no_tafseer_message(surah_name: Seq<char>, ayah_number: u32) -> Seq<char> {
    "Ayah number "@ + decimal(ayah_number as nat) + " has no tafseer in surah "@ + surah_name
}

/// A verse as it stands in the running text of its surah.
pub open spec fn verse_line(ayat: AyatView) -> Seq<char> {
    ayat.aya_text_emlaey + " ("@ + decimal(ayat.aya_no as nat) + ") "@
}

/// A verse as it is shown alone.
pub open spec fn verse_alone(ayat: AyatView) -> Seq<char> {
    ayat.aya_text + " ("@ + decimal(ayat.aya_no as nat) + ")"@
}

/// The commentary on a verse under its heading.
pub open spec fn tafseer_message(surah_name: Seq<char>, ayah_number: u32, tafseer: Seq<char>)
    -> Seq<char> {
    "التفسير الميسر لسورة "@ + surah_name + " - آية "@ + decimal(ayah_number as nat) + "\n\n "@
        + tafseer
}

/// The messages that hold the text of a surah.
pub open spec fn surah_text_messages(ayat: Seq<AyatView>, name: Seq<char>) -> Seq<Seq<char>> {
    if surah_ayat(ayat, name).len() == 0 {
        seq![no_surah_message(name)]
    } else {
        chunked(
            surah_ayat(ayat, name).map_values(|a: AyatView| verse_line(a)),
            MESSAGE_THRESHOLD as nat,
        )
    }
}

/// The answer to a request for one verse.
pub open spec fn ayah_message(ayat: Seq<AyatView>, surah_name: Seq<char>, ayah_number: u32) -> Seq<
    char,
> {
    match first_wanted(ayat, |a: AyatView| is_ayah(a, surah_name, ayah_number)) {
        Some(a) => verse_alone(a),
        None => no_ayah_message(surah_name, ayah_number),
    }
}

/// The answer to a request for the commentary on one verse.
pub open spec fn ayah_tafseer_message(
    ayat: Seq<AyatView>,
    surah_name: Seq<char>,
    ayah_number: u32,
) -> Seq<char> {
    match first_wanted(ayat, |a: AyatView| is_ayah(a, surah_name, ayah_number)) {
        Some(a) => match a.aya_tafseer {
            Some(tafseer) => tafseer_message(surah_name, ayah_number, tafseer),
            None => no_tafseer_message(surah_name, ayah_number),
        },
        None => no_ayah_message(surah_name, ayah_number),
    }
}

/// The image of one page: the file that holds it, and the name it is handed
/// out under.
#[derive(Debug, PartialEq, Eq)]
pub struct PageImage {
    pub file: String,
    pub filename: String,
}

impl View for PageImage {
    type V = (Seq<char>, Seq<char>);

    open spec fn view(&self) -> (Seq<char>, Seq<char>) {
        (self.file@, self.filename@)
    }
}

/// The image of a page.
pub open spec fn page_image(page_number: u32) -> (Seq<char>, Seq<char>) {
    (page_image_name(page_number), page_attachment_name(page_number))
}

/// The numbers cut into runs of `size`, the last of which may be shorter.
pub open spec fn grouped(pages: Seq<u32>, size: nat) -> Seq<Seq<u32>>
    recommends
        size > 0,
    decreases pages.len(),
{
    if pages.len() == 0 || size == 0 {
        Seq::empty()
    } else if pages.len() <= size {
        seq![pages]
    } else {
        seq![pages.take(size as int)] + grouped(pages.skip(size as int), size)
    }
}

/// The answer to a request for the pages of a surah.
#[derive(Debug, PartialEq, Eq)]
pub enum SurahPages {
    /// No surah has the name; the message says so.
    NotFound(String),
    /// The images of the surah's pages, in ascending order, cut into
    /// messages.
    Pages(Vec<Vec<PageImage>>),
}

/// The mathematical value of such an answer.
pub enum SurahPagesView {
    NotFound(Seq<char>),
    Pages(Seq<Seq<(Seq<char>, Seq<char>)>>),
}

impl View for SurahPages {
    type V = SurahPagesView;

    open spec fn view(&self) -> SurahPagesView {
        match self {
            SurahPages::NotFound(message) => SurahPagesView::NotFound(message@),
            SurahPages::Pages(groups) => SurahPagesView::Pages(
                groups@.map_values(|g: Vec<PageImage>| g@.map_values(|p: PageImage| p@)),
            ),
        }
    }
}

/// The answer to a request for the pages of a surah.
pub open spec fn surah_pages(ayat: Seq<AyatView>, name: Seq<char>) -> SurahPagesView {
    if surah_ayat(ayat, name).len() == 0 {
        SurahPagesView::NotFound(no_surah_message(name))
    } else {
        SurahPagesView::Pages(
            grouped(sorted_pages(surah_ayat(ayat, name)), PAGES_PER_MESSAGE as nat).map_values(
                |g: Seq<u32>| g.map_values(|p: u32| page_image(p)),
            ),
        )
    }
}

fn holds(items: &Vec<String>, item: &String) -> (held: bool)
    ensures
        held == text_views(items@).contains(item@),
{
    let mut i: usize = 0;
    while i < items.len()
        invariant
            i <= items.len(),
            forall|j: int| 0 <= j < i ==> (#[trigger] text_views(items@)[j]) != item@,
        decreases items.len() - i,
    {
        if items[i] == *item {
            proof {
                assert(text_views(items@)[i as int] == item@);
            }
            return true;
        }
        i = i + 1;
    }
    false
}

fn concat(items: &Vec<String>) -> (whole: String)
    ensures
        whole@ == text_views(items@).flatten(),
{
    let mut whole = String::new();
    let mut i: usize = 0;
    while i < items.len()
        invariant
            i <= items.len(),
            whole@ == text_views(items@).take(i as int).flatten(),
        decreases items.len() - i,
    {
        proof {
            let all = text_views(items@);
            assert(all.take(i + 1) == all.take(i as int).push(items@[i as int]@));
            all.take(i as int).lemma_flatten_push(items@[i as int]@);
        }
        whole.append(items[i].as_str());
        i = i + 1;
    }
    proof {
        assert(text_views(items@).take(items@.len() as int) == text_views(items@));
    }
    whole
}

/// The list of the surahs: a line for each surah name, in the order in which
/// the names first occur in the corpus.
pub fn list_suar(quraan: &Quraan) -> (list: String)
    ensures
        list@ == surah_items(quraan@).flatten(),
{
    let mut items: Vec<String> = Vec::new();
    let mut i: usize = 0;
    while i < quraan.ayat.len()
        invariant
            i <= quraan.ayat.len(),
            text_views(items@) == surah_items(quraan@.take(i as int)),
        decreases quraan.ayat.len() - i,
    {
        let mut item = String::from_str("- ");
        item.append(trim(quraan.ayat[i].sura_name_ar.as_str()).as_str());
        item.append("\n");
        proof {
            assert(quraan@.take(i + 1).drop_last() == quraan@.take(i as int));
        }
        if !holds(&items, &item) {
            items.push(item);
        }
        i = i + 1;
    }
    proof {
        assert(quraan@.take(quraan@.len() as int) == quraan@);
    }
    concat(&items)
}

/// The image of a page.
pub fn page(page_number: u32) -> (image: PageImage)
    ensures
        image@ == page_image(page_number),
{
    PageImage {
        file: get_page_image_name(page_number),
        filename: get_page_attachment_name(page_number),
    }
}

fn no_surah(name: &str) -> (message: String)
    ensures
        message@ == no_surah_message(name@),
{
    let mut message = String::from_str("No surah with the name: ");
    message.append(name);
    message
}

fn no_ayah(surah_name: &str, ayah_number: u32) -> (message: String)
    ensures
        message@ == no_ayah_message(surah_name@, ayah_number),
{
    let mut message = String::from_str("Ayah number ");
    push_decimal(&mut message, ayah_number as u64);
    message.append(" does not exist in surah ");
    message.append(surah_name);
    message
}

/// The text of a surah, cut into messages; or, where no surah has the name,
/// the one message that says so.
pub fn surah_text(quraan: &Quraan, name: &str) -> (messages: Vec<String>)
    ensures
        text_views(messages@) == surah_text_messages(quraan@, name@),
{
    let ayat = match quraan.find_surah(name) {
        Some(ayat) => ayat,
        None => {
            let mut messages: Vec<String> = Vec::new();
            messages.push(no_surah(name));
            return messages;
        },
    };
    let ghost lines_of = |a: AyatView| verse_line(a);
    let mut lines: Vec<String> = Vec::new();
    let mut i: usize = 0;
    while i < ayat.len()
        invariant
            i <= ayat.len(),
            lines_of == |a: AyatView| verse_line(a),
            text_views(lines@) == views(ayat@).take(i as int).map_values(lines_of),
        decreases ayat.len() - i,
    {
        let ayah = ayat[i];
        let mut line = ayah.aya_text_emlaey.clone();
        line.append(" (");
        push_decimal(&mut line, ayah.aya_no as u64);
        line.append(") ");
        proof {
            assert(text_views(lines@.push(line)) == text_views(lines@).push(line@));
        }
        lines.push(line);
        i = i + 1;
    }
    proof {
        assert(views(ayat@).take(ayat@.len() as int) == views(ayat@));
    }
    chunk_texts(&lines, MESSAGE_THRESHOLD)
}

/// The images of the pages of a surah, in ascending order and cut into
/// messages; or, where no surah has the name, the message that says so.
pub fn surah(quraan: &Quraan, name: &str) -> (answer: SurahPages)
    ensures
        answer@ == surah_pages(quraan@, name@),
{
    let ayat = match quraan.find_surah(name) {
        Some(ayat) => ayat,
        None => {
            return SurahPages::NotFound(no_surah(name));
        },
    };
    let pages = distinct_pages(&ayat);
    let ghost images_of = |g: Seq<u32>| g.map_values(|p: u32| page_image(p));
    let ghost view_of = |g: Vec<PageImage>| g@.map_values(|p: PageImage| p@);
    let mut groups: Vec<Vec<PageImage>> = Vec::new();
    let mut group: Vec<PageImage> = Vec::new();
    let mut i: usize = 0;
    proof {
        let first = views(ayat@)[0].page;
        assert(pages@.to_set().contains(first));
        assert(pages@.skip(0) == pages@);
    }
    while i < pages.len()
        invariant
            i <= pages.len(),
            pages.len() > 0,
            images_of == |g: Seq<u32>| g.map_values(|p: u32| page_image(p)),
            view_of == |g: Vec<PageImage>| g@.map_values(|p: PageImage| p@),
            group@.len() <= PAGES_PER_MESSAGE,
            group@.len() == PAGES_PER_MESSAGE ==> i == pages.len(),
            group@.len() == 0 ==> i < pages.len(),
            group@.len() <= i,
            group@.map_values(|p: PageImage| p@) == pages@.subrange(
                i - group@.len(),
                i as int,
            ).map_values(|p: u32| page_image(p)),
            groups@.map_values(view_of) + grouped(
                pages@.skip(i - group@.len()),
                PAGES_PER_MESSAGE as nat,
            ).map_values(images_of) == grouped(pages@, PAGES_PER_MESSAGE as nat).map_values(
                images_of,
            ),
        decreases pages.len() - i,
    {
        let ghost start = i - group@.len();
        let ghost run = pages@.subrange(start, i as int);
        let image = page(pages[i]);
        proof {
            assert(pages@.subrange(start, i + 1) == run.push(pages@[i as int]));
            assert(group@.push(image).map_values(|p: PageImage| p@) == group@.map_values(
                |p: PageImage| p@,
            ).push(image@));
            assert(run.push(pages@[i as int]).map_values(|p: u32| page_image(p))
                == run.map_values(|p: u32| page_image(p)).push(page_image(pages@[i as int])));
        }
        group.push(image);
        i = i + 1;
        if group.len() == PAGES_PER_MESSAGE && i < pages.len() {
            proof {
                // The group is the first run of the pages that were left.
                let rest = pages@.skip(start);
                assert(rest.take(PAGES_PER_MESSAGE as int) == pages@.subrange(start, i as int));
                assert(rest.skip(PAGES_PER_MESSAGE as int) == pages@.skip(i as int));
            }
            groups.push(group);
            group = Vec::new();
        }
    }
    proof {
        // What is left is the last run.
        let rest = pages@.skip(i - group@.len());
        assert(seq![rest].map_values(images_of) == seq![images_of(rest)]);
        assert(groups@.push(group).map_values(view_of) == groups@.map_values(view_of).push(
            view_of(group),
        ));
        assert(groups@.map_values(view_of).push(view_of(group)) == groups@.map_values(view_of)
            + seq![images_of(rest)]);
    }
    groups.push(group);
    SurahPages::Pages(groups)
}

/// One verse, by the name of its surah and its number; or the message that
/// the surah has no such verse.
pub fn ayah(quraan: &Quraan, surah_name: &str, ayah_number: u32) -> (message: String)
    ensures
        message@ == ayah_message(quraan@, surah_name@, ayah_number),
{
    match quraan.find_ayah(surah_name, ayah_number) {
        Some(ayah) => {
            let mut message = ayah.aya_text.clone();
            message.append(" (");
            push_decimal(&mut message, ayah.aya_no as u64);
            message.append(")");
            message
        },
        None => no_ayah(surah_name, ayah_number),
    }
}

/// The commentary on one verse, by the name of its surah, in either of its
/// two forms, and its number, under a heading; or the message that there is
/// none.
pub fn ayah_ar_tafseer(quraan: &Quraan, surah_name: &str, ayah_number: u32) -> (message: String)
    ensures
        message@ == ayah_tafseer_message(quraan@, surah_name@, ayah_number),
{
    match quraan.find_ayah(surah_name, ayah_number) {
        Some(ayah) => match &ayah.aya_tafseer {
            Some(tafseer) => {
                let mut message = String::from_str("التفسير الميسر لسورة ");
                message.append(surah_name);
                message.append(" - آية ");
                push_decimal(&mut message, ayah_number as u64);
                message.append("\n\n ");
                message.append(tafseer.as_str());
                message
            },
            None => {
                let mut message = String::from_str("Ayah number ");
                push_decimal(&mut message, ayah_number as u64);
                message.append(" has no tafseer in surah ");
                message.append(surah_name);
                message
            },
        },
        None => no_ayah(surah_name, ayah_number),
    }
}

} // verus!
