use quraan_discord::query::distinct_pages;
use quraan_discord::{Ayat, Quraan};

fn verse(name_en: &str, name_ar: &str, aya_no: u32, page: u32) -> Ayat {
    Ayat {
        id: 0,
        jozz: 1,
        page,
        sura_no: 1,
        sura_name_en: String::from(name_en),
        sura_name_ar: String::from(name_ar),
        line_start: 1,
        line_end: 1,
        aya_no,
        aya_text: format!("{name_en} {aya_no}"),
        aya_text_emlaey: format!("{name_en} {aya_no}"),
        aya_tafseer: None,
    }
}

fn corpus() -> Quraan {
    Quraan {
        ayat: vec![
            verse("Al-Fatiha", "الفاتحة", 1, 1),
            verse("Al-Fatiha", "الفاتحة", 2, 1),
            verse("Al-Baqarah", "البقرة", 1, 2),
            verse("Al-Baqarah", "البقرة", 2, 2),
            verse("Al-Baqarah", "البقرة", 3, 3),
            verse("Al-Fatiha", "الفاتحة", 3, 1),
        ],
    }
}

fn numbers(ayat: &[&Ayat]) -> Vec<u32> {
    ayat.iter().map(|a| a.aya_no).collect()
}

#[test]
fn a_surah_is_found_by_either_name() {
    let quraan = corpus();
    assert_eq!(numbers(&quraan.surah_ayat("Al-Baqarah")), vec![1, 2, 3]);
    assert_eq!(numbers(&quraan.surah_ayat("البقرة")), vec![1, 2, 3]);
    assert_eq!(numbers(&quraan.surah_ayat("الفاتحة")), vec![1, 2, 3]);
}

#[test]
fn an_unknown_name_is_not_found() {
    let quraan = corpus();
    assert!(quraan.surah_ayat("Al-Imran").is_empty());
    assert!(quraan.surah_ayat("").is_empty());
    assert!(Quraan { ayat: Vec::new() }.surah_ayat("Al-Fatiha").is_empty());
}

#[test]
fn a_lookup_says_whether_the_surah_exists() {
    let quraan = corpus();
    assert_eq!(quraan.find_surah("Al-Imran"), None);
    assert_eq!(quraan.find_surah(""), None);
    let found = quraan.find_surah("البقرة").unwrap();
    assert_eq!(numbers(&found), vec![1, 2, 3]);
    assert!(found.iter().all(|a| a.sura_name_en == "Al-Baqarah"));
}

#[test]
fn names_are_compared_as_they_stand() {
    let quraan = corpus();
    assert!(quraan.surah_ayat("al-fatiha").is_empty());
    assert!(quraan.surah_ayat("Al-Fatiha ").is_empty());
    assert!(quraan.surah_ayat("الفَاتحة").is_empty());
    assert!(quraan.ayat[0].in_surah("Al-Fatiha"));
    assert!(quraan.ayat[0].in_surah("الفاتحة"));
    assert!(!quraan.ayat[0].in_surah("البقرة"));
}

#[test]
fn the_found_verses_are_those_of_the_corpus() {
    let quraan = corpus();
    let found = quraan.surah_ayat("Al-Fatiha");
    assert_eq!(found.len(), 3);
    assert!(std::ptr::eq(found[0], &quraan.ayat[0]));
    assert!(std::ptr::eq(found[1], &quraan.ayat[1]));
    assert!(std::ptr::eq(found[2], &quraan.ayat[5]));
}

#[test]
fn a_verse_is_found_by_name_and_number() {
    let quraan = corpus();
    let found = quraan.find_ayah("Al-Baqarah", 2).unwrap();
    assert!(std::ptr::eq(found, &quraan.ayat[3]));
    let found = quraan.find_ayah("الفاتحة", 3).unwrap();
    assert!(std::ptr::eq(found, &quraan.ayat[5]));
    assert_eq!(quraan.find_ayah("Al-Baqarah", 4), None);
    assert_eq!(quraan.find_ayah("Al-Imran", 1), None);
}

#[test]
fn the_first_of_equal_verses_is_found() {
    let mut quraan = corpus();
    quraan.ayat.push(verse("Al-Baqarah", "البقرة", 1, 9));
    let found = quraan.find_ayah("Al-Baqarah", 1).unwrap();
    assert_eq!(found.page, 2);
    let found = quraan.find_ayah("البقرة", 1).unwrap();
    assert_eq!(found.page, 2);
}

#[test]
fn a_name_that_is_part_of_another_is_another_name() {
    let quraan = corpus();
    let ayah = &quraan.ayat[2];
    for name in ["Al-Baqara", "Al-Baqarahh", "l-Baqarah", "Al-Baqarab", "البقر", "البقرةة", "لبقرة", "البقره"] {
        assert!(!ayah.in_surah(name));
        assert_eq!(quraan.find_ayah(name, 1), None);
    }
    assert!(ayah.in_surah("Al-Baqarah"));
    assert!(ayah.in_surah("البقرة"));
}

#[test]
fn pages_come_once_and_ascending() {
    let ayat = vec![
        verse("s", "s", 1, 5),
        verse("s", "s", 2, 3),
        verse("s", "s", 3, 5),
        verse("s", "s", 4, 4),
        verse("s", "s", 5, 3),
        verse("s", "s", 6, 604),
        verse("s", "s", 7, 0),
    ];
    let refs: Vec<&Ayat> = ayat.iter().collect();
    assert_eq!(distinct_pages(&refs), vec![0, 3, 4, 5, 604]);
}

#[test]
fn no_verses_have_no_pages() {
    assert_eq!(distinct_pages(&Vec::new()), Vec::<u32>::new());
}

#[test]
fn one_verse_has_one_page() {
    let ayah = verse("s", "s", 1, 17);
    assert_eq!(distinct_pages(&vec![&ayah]), vec![17]);
}

#[test]
fn verses_of_one_page_have_one_page() {
    let ayat = vec![verse("s", "s", 1, 2), verse("s", "s", 2, 2), verse("s", "s", 3, 2)];
    let refs: Vec<&Ayat> = ayat.iter().collect();
    assert_eq!(distinct_pages(&refs), vec![2]);
}

#[test]
fn the_pages_of_a_surah_are_those_of_its_verses() {
    let quraan = corpus();
    assert_eq!(distinct_pages(&quraan.surah_ayat("Al-Baqarah")), vec![2, 3]);
    assert_eq!(distinct_pages(&quraan.surah_ayat("Al-Fatiha")), vec![1]);
    assert_eq!(distinct_pages(&quraan.surah_ayat("nothing")), Vec::<u32>::new());
}
