//! The corpus and its records: verses, the builder that assembles one verse
//! field by field, and the corpus that owns them.
use vstd::prelude::*;

verus! {

/// The fields of a verse record, in the order in which a record lists them.
#[derive(Clone, Copy, PartialEq, Eq, Structural, Debug)]
pub enum Field {
    Id,
    Jozz,
    Page,
    SuraNo,
    SuraNameEn,
    SuraNameAr,
    LineStart,
    LineEnd,
    AyaNo,
    AyaText,
    AyaTextEmlaey,
    AyaTafseer,
}

/// One verse.
#[derive(Debug, PartialEq, Eq)]
pub struct Ayat {
    pub id: usize,
    pub jozz: u32,
    pub page: u32,
    pub sura_no: u32,
    pub sura_name_en: String,
    /// The Arabic name of the surah, without vocalization marks.
    pub sura_name_ar: String,
    pub line_start: u32,
    pub line_end: u32,
    pub aya_no: u32,
    pub aya_text: String,
    pub aya_text_emlaey: String,
    /// The commentary on the verse, where a source supplied one.
    pub aya_tafseer: Option<String>,
}

/// The mathematical value of a verse.
pub struct AyatView {
    pub id: usize,
    pub jozz: u32,
    pub page: u32,
    pub sura_no: u32,
    pub sura_name_en: Seq<char>,
    pub sura_name_ar: Seq<char>,
    pub line_start: u32,
    pub line_end: u32,
    pub aya_no: u32,
    pub aya_text: Seq<char>,
    pub aya_text_emlaey: Seq<char>,
    pub aya_tafseer: Option<Seq<char>>,
}

/// The view of an optional string.
pub open spec fn text_view(text: Option<String>) -> Option<Seq<char>> {
    match text {
        Some(s) => Some(s@),
        None => None,
    }
}

impl View for Ayat {
    type V = AyatView;

    open spec fn view(&self) -> AyatView {
        AyatView {
            id: self.id,
            jozz: self.jozz,
            page: self.page,
            sura_no: self.sura_no,
            sura_name_en: self.sura_name_en@,
            sura_name_ar: self.sura_name_ar@,
            line_start: self.line_start,
            line_end: self.line_end,
            aya_no: self.aya_no,
            aya_text: self.aya_text@,
            aya_text_emlaey: self.aya_text_emlaey@,
            aya_tafseer: text_view(self.aya_tafseer),
        }
    }
}

/// The whole corpus: every verse, in document order.
#[derive(Debug, PartialEq, Eq)]
pub struct Quraan {
    pub ayat: Vec<Ayat>,
}

impl View for Quraan {
    type V = Seq<AyatView>;

    open spec fn view(&self) -> Seq<AyatView> {
        self.ayat@.map_values(|a: Ayat| a@)
    }
}

impl Default for Quraan {
    fn default() -> (quraan: Quraan)
        ensures
            quraan@ == Seq::<AyatView>::empty(),
    {
        Quraan { ayat: Vec::new() }
    }
}

/// What the query operations are handed: the corpus, built once and only read
/// afterwards.
#[derive(Debug)]
pub struct Data {
    pub quraan: Quraan,
}

/// A record was closed before all its required fields were set.
#[derive(Clone, Copy, PartialEq, Eq, Structural, Debug)]
pub struct IncompleteRecordError {
    /// The first required field that was never set.
    pub missing: Field,
}

/// A verse under construction: every field is absent until it is set.
#[derive(Debug)]
pub struct AyatBuilder {
    pub id: Option<usize>,
    pub jozz: Option<u32>,
    pub page: Option<u32>,
    pub sura_no: Option<u32>,
    pub sura_name_en: Option<String>,
    pub sura_name_ar: Option<String>,
    pub line_start: Option<u32>,
    pub line_end: Option<u32>,
    pub aya_no: Option<u32>,
    pub aya_text: Option<String>,
    pub aya_text_emlaey: Option<String>,
    pub aya_tafseer: Option<String>,
}

/// The mathematical value of a builder.
pub struct AyatBuilderView {
    pub id: Option<usize>,
    pub jozz: Option<u32>,
    pub page: Option<u32>,
    pub sura_no: Option<u32>,
    pub sura_name_en: Option<Seq<char>>,
    pub sura_name_ar: Option<Seq<char>>,
    pub line_start: Option<u32>,
    pub line_end: Option<u32>,
    pub aya_no: Option<u32>,
    pub aya_text: Option<Seq<char>>,
    pub aya_text_emlaey: Option<Seq<char>>,
    pub aya_tafseer: Option<Seq<char>>,
}

impl View for AyatBuilder {
    type V = AyatBuilderView;

    open spec fn view(&self) -> AyatBuilderView {
        AyatBuilderView {
            id: self.id,
            jozz: self.jozz,
            page: self.page,
            sura_no: self.sura_no,
            sura_name_en: text_view(self.sura_name_en),
            sura_name_ar: text_view(self.sura_name_ar),
            line_start: self.line_start,
            line_end: self.line_end,
            aya_no: self.aya_no,
            aya_text: text_view(self.aya_text),
            aya_text_emlaey: text_view(self.aya_text_emlaey),
            aya_tafseer: text_view(self.aya_tafseer),
        }
    }
}

impl AyatBuilderView {
    /// The builder in which nothing is set.
    pub open spec fn empty() -> AyatBuilderView {
        AyatBuilderView {
            id: None,
            jozz: None,
            page: None,
            sura_no: None,
            sura_name_en: None,
            sura_name_ar: None,
            line_start: None,
            line_end: None,
            aya_no: None,
            aya_text: None,
            aya_text_emlaey: None,
            aya_tafseer: None,
        }
    }

    /// The first required field that is not set. Every field is required but
    /// the commentary.
    pub open spec fn first_missing(self) -> Option<Field> {
        if self.id is None {
            Some(Field::Id)
        } else if self.jozz is None {
            Some(Field::Jozz)
        } else if self.page is None {
            Some(Field::Page)
        } else if self.sura_no is None {
            Some(Field::SuraNo)
        } else if self.sura_name_en is None {
            Some(Field::SuraNameEn)
        } else if self.sura_name_ar is None {
            Some(Field::SuraNameAr)
        } else if self.line_start is None {
            Some(Field::LineStart)
        } else if self.line_end is None {
            Some(Field::LineEnd)
        } else if self.aya_no is None {
            Some(Field::AyaNo)
        } else if self.aya_text is None {
            Some(Field::AyaText)
        } else if self.aya_text_emlaey is None {
            Some(Field::AyaTextEmlaey)
        } else {
            None
        }
    }

    /// Whether every required field is set.
    pub open spec fn is_complete(self) -> bool {
        self.first_missing() is None
    }

    /// The verse that a complete builder stands for.
    pub open spec fn record(self) -> AyatView
        recommends
            self.is_complete(),
    {
        AyatView {
            id: self.id->0,
            jozz: self.jozz->0,
            page: self.page->0,
            sura_no: self.sura_no->0,
            sura_name_en: self.sura_name_en->0,
            sura_name_ar: self.sura_name_ar->0,
            line_start: self.line_start->0,
            line_end: self.line_end->0,
            aya_no: self.aya_no->0,
            aya_text: self.aya_text->0,
            aya_text_emlaey: self.aya_text_emlaey->0,
            aya_tafseer: self.aya_tafseer,
        }
    }

    /// What closing the record gives: the verse, or the first missing field.
    pub open spec fn finalized(self) -> Result<AyatView, IncompleteRecordError> {
        match self.first_missing() {
            Some(missing) => Err(IncompleteRecordError { missing }),
            None => Ok(self.record()),
        }
    }
}

impl AyatBuilder {
    /// A builder in which nothing is set.
    pub fn new() -> (builder: AyatBuilder)
        ensures
            builder@ == AyatBuilderView::empty(),
    {
        AyatBuilder {
            id: None,
            jozz: None,
            page: None,
            sura_no: None,
            sura_name_en: None,
            sura_name_ar: None,
            line_start: None,
            line_end: None,
            aya_no: None,
            aya_text: None,
            aya_text_emlaey: None,
            aya_tafseer: None,
        }
    }

    /// Closes the record. The builder is left as it was.
    pub fn build(&self) -> (built: Result<Ayat, IncompleteRecordError>)
        ensures
            match built {
                Ok(ayat) => self@.finalized() == Ok::<AyatView, IncompleteRecordError>(ayat@),
                Err(e) => self@.finalized() == Err::<AyatView, IncompleteRecordError>(e),
            },
    {
        let id = match self.id {
            Some(v) => v,
            None => return Err(IncompleteRecordError { missing: Field::Id }),
        };
        let jozz = match self.jozz {
            Some(v) => v,
            None => return Err(IncompleteRecordError { missing: Field::Jozz }),
        };
        let page = match self.page {
            Some(v) => v,
            None => return Err(IncompleteRecordError { missing: Field::Page }),
        };
        let sura_no = match self.sura_no {
            Some(v) => v,
            None => return Err(IncompleteRecordError { missing: Field::SuraNo }),
        };
        let sura_name_en = match &self.sura_name_en {
            Some(s) => s.clone(),
            None => return Err(IncompleteRecordError { missing: Field::SuraNameEn }),
        };
        let sura_name_ar = match &self.sura_name_ar {
            Some(s) => s.clone(),
            None => return Err(IncompleteRecordError { missing: Field::SuraNameAr }),
        };
        let line_start = match self.line_start {
            Some(v) => v,
            None => return Err(IncompleteRecordError { missing: Field::LineStart }),
        };
        let line_end = match self.line_end {
            Some(v) => v,
            None => return Err(IncompleteRecordError { missing: Field::LineEnd }),
        };
        let aya_no = match self.aya_no {
            Some(v) => v,
            None => return Err(IncompleteRecordError { missing: Field::AyaNo }),
        };
        let aya_text = match &self.aya_text {
            Some(s) => s.clone(),
            None => return Err(IncompleteRecordError { missing: Field::AyaText }),
        };
        let aya_text_emlaey = match &self.aya_text_emlaey {
            Some(s) => s.clone(),
            None => return Err(IncompleteRecordError { missing: Field::AyaTextEmlaey }),
        };
        let aya_tafseer = match &self.aya_tafseer {
            Some(s) => Some(s.clone()),
            None => None,
        };
        Ok(
            Ayat {
                id,
                jozz,
                page,
                sura_no,
                sura_name_en,
                sura_name_ar,
                line_start,
                line_end,
                aya_no,
                aya_text,
                aya_text_emlaey,
                aya_tafseer,
            },
        )
    }

    /// Sets the running number of the verse in the corpus.
    pub fn id(&mut self, id: usize)
        ensures
            final(self)@ == (AyatBuilderView { id: Some(id), ..old(self)@ }),
    {
        self.id = Some(id);
    }

    /// Sets the text of the verse in plain spelling.
    pub fn aya_text_emlaey(&mut self, aya_text_emlaey: String)
        ensures
            final(self)@ == (AyatBuilderView {
                aya_text_emlaey: Some(aya_text_emlaey@),
                ..old(self)@
            }),
    {
        self.aya_text_emlaey = Some(aya_text_emlaey);
    }

    /// Sets the text of the verse as it is printed.
    pub fn aya_text(&mut self, aya_text: String)
        ensures
            final(self)@ == (AyatBuilderView { aya_text: Some(aya_text@), ..old(self)@ }),
    {
        self.aya_text = Some(aya_text);
    }

    /// Sets the number of the verse in its surah.
    pub fn aya_no(&mut self, aya_no: u32)
        ensures
            final(self)@ == (AyatBuilderView { aya_no: Some(aya_no), ..old(self)@ }),
    {
        self.aya_no = Some(aya_no);
    }

    /// Sets the line of the page on which the verse ends.
    pub fn line_end(&mut self, line_end: u32)
        ensures
            final(self)@ == (AyatBuilderView { line_end: Some(line_end), ..old(self)@ }),
    {
        self.line_end = Some(line_end);
    }

    /// Sets the line of the page on which the verse starts.
    pub fn line_start(&mut self, line_start: u32)
        ensures
            final(self)@ == (AyatBuilderView { line_start: Some(line_start), ..old(self)@ }),
    {
        self.line_start = Some(line_start);
    }

    /// Sets the Arabic name of the surah.
    pub fn sura_name_ar(&mut self, sura_name_ar: String)
        ensures
            final(self)@ == (AyatBuilderView { sura_name_ar: Some(sura_name_ar@), ..old(self)@ }),
    {
        self.sura_name_ar = Some(sura_name_ar);
    }

    /// Sets the English name of the surah.
    pub fn sura_name_en(&mut self, sura_name_en: String)
        ensures
            final(self)@ == (AyatBuilderView { sura_name_en: Some(sura_name_en@), ..old(self)@ }),
    {
        self.sura_name_en = Some(sura_name_en);
    }

    /// Sets the number of the surah.
    pub fn sura_no(&mut self, sura_no: u32)
        ensures
            final(self)@ == (AyatBuilderView { sura_no: Some(sura_no), ..old(self)@ }),
    {
        self.sura_no = Some(sura_no);
    }

    /// Sets the page on which the verse is printed.
    pub fn page(&mut self, page: u32)
        ensures
            final(self)@ == (AyatBuilderView { page: Some(page), ..old(self)@ }),
    {
        self.page = Some(page);
    }

    /// Sets the number of the juz' that holds the verse.
    pub fn jozz(&mut self, jozz: u32)
        ensures
            final(self)@ == (AyatBuilderView { jozz: Some(jozz), ..old(self)@ }),
    {
        self.jozz = Some(jozz);
    }

    /// Sets the commentary on the verse.
    pub fn aya_tafseer(&mut self, aya_tafseer: String)
        ensures
            final(self)@ == (AyatBuilderView { aya_tafseer: Some(aya_tafseer@), ..old(self)@ }),
    {
        self.aya_tafseer = Some(aya_tafseer);
    }
}

impl Default for AyatBuilder {
    fn default() -> (builder: AyatBuilder)
        ensures
            builder@ == AyatBuilderView::empty(),
    {
        AyatBuilder::new()
    }
}

/// A record with a required field unset never closes into a verse.
pub proof fn incomplete_record_never_builds(builder: AyatBuilderView)
    requires
        builder.id is None || builder.jozz is None || builder.page is None
            || builder.sura_no is None || builder.sura_name_en is None
            || builder.sura_name_ar is None || builder.line_start is None
            || builder.line_end is None || builder.aya_no is None || builder.aya_text is None
            || builder.aya_text_emlaey is None,
    ensures
        builder.finalized() is Err,
{
}

} // verus!
