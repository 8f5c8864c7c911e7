use quraan_discord::corpus::{Field, IncompleteRecordError};
use quraan_discord::loader::{field_of_tag, load_events, store_field, LoadError, Loaded, Loader};
use quraan_discord::markup::{read_events, MarkupEvent, MarkupStreamError};
use quraan_discord::{parse_tafseer_mouaser, Ayat, AyatBuilder};

fn row(id: usize, sura_no: u32, name_en: &str, name_ar: &str, aya_no: u32, page: u32) -> String {
    format!(
        "<ROW>\n<id>{id}</id>\n<jozz>1</jozz>\n<page>{page}</page>\n<sura_no>{sura_no}</sura_no>\n\
         <sura_name_en>{name_en}</sura_name_en>\n<sura_name_ar>{name_ar}</sura_name_ar>\n\
         <line_start>2</line_start>\n<line_end>3</line_end>\n<aya_no>{aya_no}</aya_no>\n\
         <aya_text>text {aya_no}</aya_text>\n<aya_text_emlaey>emlaey {aya_no}</aya_text_emlaey>\n\
         <aya_tafseer>tafseer {aya_no}</aya_tafseer>\n</ROW>\n"
    )
}

fn verse(id: usize, sura_no: u32, name_en: &str, name_ar: &str, aya_no: u32, page: u32) -> Ayat {
    Ayat {
        id,
        jozz: 1,
        page,
        sura_no,
        sura_name_en: String::from(name_en),
        sura_name_ar: String::from(name_ar),
        line_start: 2,
        line_end: 3,
        aya_no,
        aya_text: format!("text {aya_no}"),
        aya_text_emlaey: format!("emlaey {aya_no}"),
        aya_tafseer: Some(format!("tafseer {aya_no}")),
    }
}

fn document(rows: &[String]) -> String {
    format!("<?xml version=\"1.0\" encoding=\"utf-8\"?>\n<DATA>\n{}</DATA>\n", rows.concat())
}

#[test]
fn records_are_loaded_in_document_order() {
    let doc = document(&[
        row(1, 1, "Al-Fatiha", "الفاتحة", 1, 1),
        row(2, 1, "Al-Fatiha", "الفاتحة", 2, 1),
        row(8, 2, "Al-Baqarah", "البقرة", 1, 2),
    ]);
    let loaded = parse_tafseer_mouaser(doc.as_bytes()).unwrap();
    assert_eq!(loaded.stream_error, None);
    assert_eq!(
        loaded.quraan.ayat,
        vec![
            verse(1, 1, "Al-Fatiha", "الفاتحة", 1, 1),
            verse(2, 1, "Al-Fatiha", "الفاتحة", 2, 1),
            verse(8, 2, "Al-Baqarah", "البقرة", 1, 2),
        ]
    );
}

#[test]
fn a_document_without_records_loads_an_empty_corpus() {
    let loaded = parse_tafseer_mouaser(b"<DATA></DATA>").unwrap();
    assert_eq!(loaded.quraan.ayat.len(), 0);
    assert_eq!(loaded.stream_error, None);
}

#[test]
fn the_arabic_name_is_stored_without_harakat() {
    let doc = document(&[row(1, 1, "Al-Fatiha", "الفَاتِحَة", 1, 1)]);
    let loaded = parse_tafseer_mouaser(doc.as_bytes()).unwrap();
    assert_eq!(loaded.quraan.ayat[0].sura_name_ar, "الفاتحة");
}

#[test]
fn only_the_arabic_name_loses_its_marks() {
    let doc = "<ROW><id>1</id><jozz>1</jozz><page>1</page><sura_no>1</sura_no>\
               <sura_name_en>e\u{64e}</sura_name_en><sura_name_ar>a\u{64e}</sura_name_ar>\
               <line_start>1</line_start><line_end>1</line_end><aya_no>1</aya_no>\
               <aya_text>t\u{64e}</aya_text><aya_text_emlaey>m\u{64e}</aya_text_emlaey>\
               <aya_tafseer>f\u{64e}</aya_tafseer></ROW>";
    let loaded = parse_tafseer_mouaser(doc.as_bytes()).unwrap();
    let ayah = &loaded.quraan.ayat[0];
    assert_eq!(ayah.sura_name_ar, "a");
    assert_eq!(ayah.sura_name_en, "e\u{64e}");
    assert_eq!(ayah.aya_text, "t\u{64e}");
    assert_eq!(ayah.aya_text_emlaey, "m\u{64e}");
    assert_eq!(ayah.aya_tafseer.as_deref(), Some("f\u{64e}"));
}

#[test]
fn text_is_trimmed_before_it_is_stored() {
    let doc = "<ROW><id> 7 </id><jozz>\n1\n</jozz><page>\t3</page><sura_no>1 </sura_no>\
               <sura_name_en>  Al Fatiha  </sura_name_en><sura_name_ar> الفاتحة\n</sura_name_ar>\
               <line_start>1</line_start><line_end>1</line_end><aya_no>1</aya_no>\
               <aya_text> a  b </aya_text><aya_text_emlaey>c </aya_text_emlaey>\
               <aya_tafseer> d</aya_tafseer></ROW>";
    let loaded = parse_tafseer_mouaser(doc.as_bytes()).unwrap();
    let ayah = &loaded.quraan.ayat[0];
    assert_eq!(ayah.id, 7);
    assert_eq!(ayah.jozz, 1);
    assert_eq!(ayah.page, 3);
    assert_eq!(ayah.sura_name_en, "Al Fatiha");
    assert_eq!(ayah.sura_name_ar, "الفاتحة");
    assert_eq!(ayah.aya_text, "a  b");
    assert_eq!(ayah.aya_text_emlaey, "c");
    assert_eq!(ayah.aya_tafseer.as_deref(), Some("d"));
}

#[test]
fn a_record_without_commentary_loads_without_one() {
    let doc = "<ROW><id>1</id><jozz>1</jozz><page>1</page><sura_no>1</sura_no>\
               <sura_name_en>e</sura_name_en><sura_name_ar>a</sura_name_ar>\
               <line_start>1</line_start><line_end>1</line_end><aya_no>1</aya_no>\
               <aya_text>t</aya_text><aya_text_emlaey>m</aya_text_emlaey></ROW>";
    let loaded = parse_tafseer_mouaser(doc.as_bytes()).unwrap();
    assert_eq!(loaded.quraan.ayat.len(), 1);
    assert_eq!(loaded.quraan.ayat[0].aya_tafseer, None);
}

#[test]
fn an_incomplete_record_gives_the_load_up() {
    let good = row(1, 1, "Al-Fatiha", "الفاتحة", 1, 1);
    let bad = "<ROW><id>2</id><jozz>1</jozz></ROW>";
    let doc = format!("<DATA>{good}{bad}{good}</DATA>");
    assert_eq!(
        parse_tafseer_mouaser(doc.as_bytes()),
        Err(LoadError::IncompleteRecord(IncompleteRecordError { missing: Field::Page }))
    );
}

#[test]
fn an_empty_record_misses_its_first_field() {
    assert_eq!(
        parse_tafseer_mouaser(b"<ROW></ROW>"),
        Err(LoadError::IncompleteRecord(IncompleteRecordError { missing: Field::Id }))
    );
}

#[test]
fn a_new_record_starts_with_nothing_set() {
    let good = row(1, 1, "Al-Fatiha", "الفاتحة", 1, 1);
    let doc = format!("<DATA>{good}<ROW><id>2</id></ROW></DATA>");
    assert_eq!(
        parse_tafseer_mouaser(doc.as_bytes()),
        Err(LoadError::IncompleteRecord(IncompleteRecordError { missing: Field::Jozz }))
    );
}

#[test]
fn a_numeric_field_without_a_number_gives_the_load_up() {
    assert_eq!(
        parse_tafseer_mouaser(b"<ROW><id>1</id><page>one</page></ROW>"),
        Err(LoadError::InvalidNumber { field: Field::Page })
    );
    assert_eq!(
        parse_tafseer_mouaser(b"<ROW><id>-1</id></ROW>"),
        Err(LoadError::InvalidNumber { field: Field::Id })
    );
    assert_eq!(
        parse_tafseer_mouaser(b"<ROW><aya_no>4294967296</aya_no></ROW>"),
        Err(LoadError::InvalidNumber { field: Field::AyaNo })
    );
}

#[test]
fn a_broken_document_keeps_what_was_loaded() {
    let good = row(1, 1, "Al-Fatiha", "الفاتحة", 1, 1);
    let doc = format!("<DATA>{good}<ROW><id>2</id></DATA>");
    let loaded = parse_tafseer_mouaser(doc.as_bytes()).unwrap();
    assert_eq!(loaded.quraan.ayat, vec![verse(1, 1, "Al-Fatiha", "الفاتحة", 1, 1)]);
    assert!(matches!(&loaded.stream_error, Some(MarkupStreamError { message }) if !message.is_empty()));
}

#[test]
fn a_document_cut_short_keeps_what_was_loaded() {
    let good = row(1, 1, "Al-Fatiha", "الفاتحة", 1, 1);
    let doc = format!("<DATA>{good}{good}<ROW><id>3");
    let loaded = parse_tafseer_mouaser(doc.as_bytes()).unwrap();
    assert_eq!(loaded.quraan.ayat.len(), 2);
    assert!(loaded.stream_error.is_some());
}

#[test]
fn text_outside_of_a_field_is_passed_over() {
    let doc = "<DATA>loose<ROW>inside<id>1</id><jozz>1</jozz><page>1</page><sura_no>1</sura_no>\
               <sura_name_en>e</sura_name_en><sura_name_ar>a</sura_name_ar>\
               <line_start>1</line_start><line_end>1</line_end><aya_no>1</aya_no>\
               <aya_text>t</aya_text><aya_text_emlaey>m</aya_text_emlaey><other>zzz</other></ROW></DATA>";
    let loaded = parse_tafseer_mouaser(doc.as_bytes()).unwrap();
    assert_eq!(loaded.quraan.ayat.len(), 1);
    assert_eq!(loaded.quraan.ayat[0].aya_text_emlaey, "m");
}

#[test]
fn text_after_a_closed_field_still_goes_to_it() {
    let doc = "<ROW><id>1</id><jozz>1</jozz><page>1</page><sura_no>1</sura_no>\
               <sura_name_en>e</sura_name_en><sura_name_ar>a</sura_name_ar>\
               <line_start>1</line_start><line_end>1</line_end><aya_no>1</aya_no>\
               <aya_text>t</aya_text><aya_text_emlaey>m</aya_text_emlaey>late</ROW>";
    let loaded = parse_tafseer_mouaser(doc.as_bytes()).unwrap();
    assert_eq!(loaded.quraan.ayat[0].aya_text_emlaey, "late");
}

#[test]
fn tags_are_told_apart_exactly() {
    assert_eq!(field_of_tag("id"), Some(Field::Id));
    assert_eq!(field_of_tag("jozz"), Some(Field::Jozz));
    assert_eq!(field_of_tag("page"), Some(Field::Page));
    assert_eq!(field_of_tag("sura_no"), Some(Field::SuraNo));
    assert_eq!(field_of_tag("sura_name_en"), Some(Field::SuraNameEn));
    assert_eq!(field_of_tag("sura_name_ar"), Some(Field::SuraNameAr));
    assert_eq!(field_of_tag("line_start"), Some(Field::LineStart));
    assert_eq!(field_of_tag("line_end"), Some(Field::LineEnd));
    assert_eq!(field_of_tag("aya_no"), Some(Field::AyaNo));
    assert_eq!(field_of_tag("aya_text"), Some(Field::AyaText));
    assert_eq!(field_of_tag("aya_text_emlaey"), Some(Field::AyaTextEmlaey));
    assert_eq!(field_of_tag("aya_tafseer"), Some(Field::AyaTafseer));
    assert_eq!(field_of_tag("ROW"), None);
    assert_eq!(field_of_tag("ID"), None);
    assert_eq!(field_of_tag("id "), None);
    assert_eq!(field_of_tag("aya_text_"), None);
    assert_eq!(field_of_tag(""), None);
}

#[test]
fn a_failed_store_leaves_the_builder_as_it_was() {
    let mut builder = AyatBuilder::new();
    assert_eq!(store_field(&mut builder, Field::Page, String::from("12")), Ok(()));
    assert_eq!(
        store_field(&mut builder, Field::Page, String::from("x")),
        Err(LoadError::InvalidNumber { field: Field::Page })
    );
    assert_eq!(builder.page, Some(12));
    assert_eq!(store_field(&mut builder, Field::SuraNameAr, String::from("طٰهٰ")), Ok(()));
    assert_eq!(builder.sura_name_ar.as_deref(), Some("طه"));
}

#[test]
fn events_read_before_load_as_the_document_does() {
    let doc = document(&[
        row(1, 1, "Al-Fatiha", "الفَاتِحة", 1, 1),
        row(2, 1, "Al-Fatiha", "الفَاتِحة", 2, 1),
    ]);
    let events = read_events(doc.as_bytes());
    assert_eq!(load_events(&events), parse_tafseer_mouaser(doc.as_bytes()));
    let broken = format!("<DATA>{}<ROW>", row(1, 1, "x", "y", 1, 1));
    let events = read_events(broken.as_bytes());
    assert_eq!(load_events(&events), parse_tafseer_mouaser(broken.as_bytes()));
}

#[test]
fn events_after_the_end_are_not_looked_at() {
    let events = vec![
        MarkupEvent::Finished,
        MarkupEvent::Start { name: String::from("ROW"), attributes: Vec::new() },
        MarkupEvent::End { name: String::from("ROW") },
    ];
    let loaded = load_events(&events).unwrap();
    assert_eq!(loaded.quraan.ayat.len(), 0);
    assert_eq!(loaded.stream_error, None);
    let events = vec![
        MarkupEvent::Malformed { message: String::from("broken") },
        MarkupEvent::End { name: String::from("ROW") },
    ];
    assert_eq!(
        load_events(&events).unwrap().stream_error,
        Some(MarkupStreamError { message: String::from("broken") })
    );
}

#[test]
fn events_without_an_end_load_what_they_hold() {
    let loaded: Loaded = load_events(&Vec::new()).unwrap();
    assert_eq!(loaded.quraan.ayat.len(), 0);
    assert_eq!(loaded.stream_error, None);
}

#[test]
fn the_loader_takes_events_one_by_one() {
    let mut loader = Loader::new();
    assert_eq!(loader.open_field, None);
    let start = |name: &str| MarkupEvent::Start { name: String::from(name), attributes: Vec::new() };
    assert_eq!(loader.feed(&start("ROW")), Ok(()));
    assert_eq!(loader.feed(&start("page")), Ok(()));
    assert_eq!(loader.open_field, Some(Field::Page));
    assert_eq!(loader.feed(&MarkupEvent::Text(String::from(" 5 "))), Ok(()));
    assert_eq!(loader.current.page, Some(5));
    assert_eq!(loader.feed(&MarkupEvent::End { name: String::from("page") }), Ok(()));
    assert_eq!(loader.open_field, Some(Field::Page));
    assert_eq!(loader.feed(&start("unknown")), Ok(()));
    assert_eq!(loader.open_field, None);
    assert_eq!(loader.feed(&MarkupEvent::Text(String::from("7"))), Ok(()));
    assert_eq!(loader.current.page, Some(5));
    assert_eq!(loader.feed(&MarkupEvent::Other), Ok(()));
    assert_eq!(
        loader.feed(&MarkupEvent::End { name: String::from("ROW") }),
        Err(LoadError::IncompleteRecord(IncompleteRecordError { missing: Field::Id }))
    );
    assert_eq!(loader.feed(&start("ROW")), Ok(()));
    assert_eq!(loader.current.page, None);
    assert_eq!(loader.quraan.ayat.len(), 0);
}
