//! Loading the corpus from a document of verse records.
//!
//! A record is a `ROW` element. Each of its child elements holds one field of
//! the verse as text, and is named after the field.
use crate::corpus::{
    Ayat, AyatBuilder, AyatBuilderView, AyatView, Field, IncompleteRecordError, Quraan,
};
use crate::markup::{
    document_events, error_view, event_views, is_event_stream, next_event, open_document,
    pending_events, MarkupEvent, MarkupEventView, MarkupStreamError,
};
use crate::text::{
    parse_u32, parse_unsigned, parse_usize, remove_surah_name_harakat, str_eq, strip_harakat,
    trim, trimmed,
};
use vstd::prelude::*;

verus! {

/// Why a load was given up.
#[derive(Clone, Copy, PartialEq, Eq, Structural, Debug)]
pub enum LoadError {
    /// A record was closed with a required field unset.
    IncompleteRecord(IncompleteRecordError),
    /// The text of a numeric field is no number, or one too large.
    InvalidNumber { field: Field },
}

/// A finished load.
#[derive(Debug, PartialEq, Eq)]
pub struct Loaded {
    pub quraan: Quraan,
    /// Set where the document broke off; `quraan` then holds the verses that
    /// were closed before that.
    pub stream_error: Option<MarkupStreamError>,
}

/// The mathematical value of a finished load.
pub struct LoadedView {
    pub ayat: Seq<AyatView>,
    pub stream_error: Option<Seq<char>>,
}

impl View for Loaded {
    type V = LoadedView;

    open spec fn view(&self) -> LoadedView {
        LoadedView { ayat: self.quraan@, stream_error: error_view(self.stream_error) }
    }
}

/// The field that an element of the given name holds.
pub open spec fn tag_field(name: Seq<char>) -> Option<Field> {
    if name == "id"@ {
        Some(Field::Id)
    } else if name == "jozz"@ {
        Some(Field::Jozz)
    } else if name == "page"@ {
        Some(Field::Page)
    } else if name == "sura_no"@ {
        Some(Field::SuraNo)
    } else if name == "sura_name_en"@ {
        Some(Field::SuraNameEn)
    } else if name == "sura_name_ar"@ {
        Some(Field::SuraNameAr)
    } else if name == "line_start"@ {
        Some(Field::LineStart)
    } else if name == "line_end"@ {
        Some(Field::LineEnd)
    } else if name == "aya_no"@ {
        Some(Field::AyaNo)
    } else if name == "aya_text"@ {
        Some(Field::AyaText)
    } else if name == "aya_text_emlaey"@ {
        Some(Field::AyaTextEmlaey)
    } else if name == "aya_tafseer"@ {
        Some(Field::AyaTafseer)
    } else {
        None
    }
}

/// Whether an element of the given name is a record.
pub open spec fn is_record_tag(name: Seq<char>) -> bool {
    name == "ROW"@
}

/// A 32-bit number read from text, or the error of the field it was for.
pub open spec fn number_for(field: Field, text: Seq<char>) -> Result<u32, LoadError> {
    match parse_unsigned(text, u32::MAX as nat) {
        Some(v) => Ok(v as u32),
        None => Err(LoadError::InvalidNumber { field }),
    }
}

/// The builder after the text was stored in the field. A number is read as
/// decimal; the Arabic surah name loses its vocalization marks.
pub open spec fn set_field(builder: AyatBuilderView, field: Field, text: Seq<char>) -> Result<
    AyatBuilderView,
    LoadError,
> {
    match field {
        Field::Id => match parse_unsigned(text, usize::MAX as nat) {
            Some(v) => Ok(AyatBuilderView { id: Some(v as usize), ..builder }),
            None => Err(LoadError::InvalidNumber { field }),
        },
        Field::Jozz => match number_for(field, text) {
            Ok(v) => Ok(AyatBuilderView { jozz: Some(v), ..builder }),
            Err(e) => Err(e),
        },
        Field::Page => match number_for(field, text) {
            Ok(v) => Ok(AyatBuilderView { page: Some(v), ..builder }),
            Err(e) => Err(e),
        },
        Field::SuraNo => match number_for(field, text) {
            Ok(v) => Ok(AyatBuilderView { sura_no: Some(v), ..builder }),
            Err(e) => Err(e),
        },
        Field::SuraNameEn => Ok(AyatBuilderView { sura_name_en: Some(text), ..builder }),
        Field::SuraNameAr => Ok(
            AyatBuilderView { sura_name_ar: Some(strip_harakat(text)), ..builder },
        ),
        Field::LineStart => match number_for(field, text) {
            Ok(v) => Ok(AyatBuilderView { line_start: Some(v), ..builder }),
            Err(e) => Err(e),
        },
        Field::LineEnd => match number_for(field, text) {
            Ok(v) => Ok(AyatBuilderView { line_end: Some(v), ..builder }),
            Err(e) => Err(e),
        },
        Field::AyaNo => match number_for(field, text) {
            Ok(v) => Ok(AyatBuilderView { aya_no: Some(v), ..builder }),
            Err(e) => Err(e),
        },
        Field::AyaText => Ok(AyatBuilderView { aya_text: Some(text), ..builder }),
        Field::AyaTextEmlaey => Ok(AyatBuilderView { aya_text_emlaey: Some(text), ..builder }),
        Field::AyaTafseer => Ok(AyatBuilderView { aya_tafseer: Some(text), ..builder }),
    }
}

/// The state of a load between two events.
pub struct LoaderView {
    /// The verses closed so far.
    pub ayat: Seq<AyatView>,
    /// The record under construction.
    pub current: AyatBuilderView,
    /// The field that text is routed to.
    pub open_field: Option<Field>,
}

impl LoaderView {
    /// The state before the first event.
    pub open spec fn initial() -> LoaderView {
        LoaderView { ayat: Seq::empty(), current: AyatBuilderView::empty(), open_field: None }
    }

    /// The state after one event that is not terminal.
    ///
    /// An opening tag picks the field that text goes to, or none, and a
    /// record's opening tag starts a fresh record. Text is trimmed and stored
    /// in the field picked last. A record's closing tag closes the record.
    pub open spec fn step(self, event: MarkupEventView) -> Result<LoaderView, LoadError> {
        match event {
            MarkupEventView::Start { name, attributes } => Ok(
                LoaderView {
                    ayat: self.ayat,
                    current: if is_record_tag(name) {
                        AyatBuilderView::empty()
                    } else {
                        self.current
                    },
                    open_field: tag_field(name),
                },
            ),
            MarkupEventView::Text(text) => match self.open_field {
                Some(field) => match set_field(self.current, field, trimmed(text)) {
                    Ok(current) => Ok(LoaderView { current, ..self }),
                    Err(e) => Err(e),
                },
                None => Ok(self),
            },
            MarkupEventView::End { name } => if is_record_tag(name) {
                match self.current.finalized() {
                    Ok(ayat) => Ok(LoaderView { ayat: self.ayat.push(ayat), ..self }),
                    Err(e) => Err(LoadError::IncompleteRecord(e)),
                }
            } else {
                Ok(self)
            },
            _ => Ok(self),
        }
    }

    /// The outcome of feeding the events in order, from this state on.
    ///
    /// The load ends at the first terminal event, with the verses closed
    /// until then, and is given up at the first event that fails.
    pub open spec fn run(self, events: Seq<MarkupEventView>) -> Result<LoadedView, LoadError>
        decreases events.len(),
    {
        if events.len() == 0 {
            Ok(LoadedView { ayat: self.ayat, stream_error: None })
        } else {
            match events[0] {
                MarkupEventView::Finished => Ok(
                    LoadedView { ayat: self.ayat, stream_error: None },
                ),
                MarkupEventView::Malformed { message } => Ok(
                    LoadedView { ayat: self.ayat, stream_error: Some(message) },
                ),
                event => match self.step(event) {
                    Ok(next) => next.run(events.skip(1)),
                    Err(e) => Err(e),
                },
            }
        }
    }
}

/// A record that closes with a required field unset gives the load up: it
/// never enters the corpus.
pub proof fn incomplete_record_never_loads(state: LoaderView, name: Seq<char>)
    requires
        is_record_tag(name),
        !state.current.is_complete(),
    ensures
        state.step(MarkupEventView::End { name }) is Err,
        forall|rest: Seq<MarkupEventView>|
            (#[trigger] state.run(seq![MarkupEventView::End { name }] + rest)) is Err,
{
    assert forall|rest: Seq<MarkupEventView>|
        (#[trigger] state.run(seq![MarkupEventView::End { name }] + rest)) is Err by {
        // The run starts with the closing tag, which fails.
        assert((seq![MarkupEventView::End { name }] + rest)[0] == MarkupEventView::End { name });
    }
}

/// The corpus that a stream of events loads.
pub open spec fn load(events: Seq<MarkupEventView>) -> Result<LoadedView, LoadError> {
    LoaderView::initial().run(events)
}

/// The view of the outcome of a load.
pub open spec fn outcome_view(outcome: Result<Loaded, LoadError>) -> Result<
    LoadedView,
    LoadError,
> {
    match outcome {
        Ok(loaded) => Ok(loaded@),
        Err(e) => Err(e),
    }
}

/// The field that an element of the given name holds.
pub fn field_of_tag(name: &str) -> (field: Option<Field>)
    ensures
        field == tag_field(name@),
{
    if str_eq(name, "id") {
        Some(Field::Id)
    } else if str_eq(name, "jozz") {
        Some(Field::Jozz)
    } else if str_eq(name, "page") {
        Some(Field::Page)
    } else if str_eq(name, "sura_no") {
        Some(Field::SuraNo)
    } else if str_eq(name, "sura_name_en") {
        Some(Field::SuraNameEn)
    } else if str_eq(name, "sura_name_ar") {
        Some(Field::SuraNameAr)
    } else if str_eq(name, "line_start") {
        Some(Field::LineStart)
    } else if str_eq(name, "line_end") {
        Some(Field::LineEnd)
    } else if str_eq(name, "aya_no") {
        Some(Field::AyaNo)
    } else if str_eq(name, "aya_text") {
        Some(Field::AyaText)
    } else if str_eq(name, "aya_text_emlaey") {
        Some(Field::AyaTextEmlaey)
    } else if str_eq(name, "aya_tafseer") {
        Some(Field::AyaTafseer)
    } else {
        None
    }
}

fn read_number(field: Field, text: &str) -> (number: Result<u32, LoadError>)
    ensures
        number == number_for(field, text@),
{
    match parse_u32(text) {
        Some(v) => Ok(v),
        None => Err(LoadError::InvalidNumber { field }),
    }
}

/// Stores the text in a field of the builder.
pub fn store_field(builder: &mut AyatBuilder, field: Field, text: String) -> (stored: Result<
    (),
    LoadError,
>)
    ensures
        match stored {
            Ok(()) => set_field(old(builder)@, field, text@) == Ok::<AyatBuilderView, LoadError>(
                final(builder)@,
            ),
            Err(e) => set_field(old(builder)@, field, text@) == Err::<AyatBuilderView, LoadError>(
                e,
            ) && final(builder)@ == old(builder)@,
        },
{
    match field {
        Field::Id => match parse_usize(text.as_str()) {
            Some(v) => builder.id(v),
            None => return Err(LoadError::InvalidNumber { field }),
        },
        Field::Jozz => builder.jozz(read_number(field, text.as_str())?),
        Field::Page => builder.page(read_number(field, text.as_str())?),
        Field::SuraNo => builder.sura_no(read_number(field, text.as_str())?),
        Field::SuraNameEn => builder.sura_name_en(text),
        Field::SuraNameAr => builder.sura_name_ar(remove_surah_name_harakat(text.as_str())),
        Field::LineStart => builder.line_start(read_number(field, text.as_str())?),
        Field::LineEnd => builder.line_end(read_number(field, text.as_str())?),
        Field::AyaNo => builder.aya_no(read_number(field, text.as_str())?),
        Field::AyaText => builder.aya_text(text),
        Field::AyaTextEmlaey => builder.aya_text_emlaey(text),
        Field::AyaTafseer => builder.aya_tafseer(text),
    }
    Ok(())
}

/// A load in progress.
pub struct Loader {
    pub quraan: Quraan,
    pub current: AyatBuilder,
    pub open_field: Option<Field>,
}

impl View for Loader {
    type V = LoaderView;

    open spec fn view(&self) -> LoaderView {
        LoaderView { ayat: self.quraan@, current: self.current@, open_field: self.open_field }
    }
}

impl Loader {
    /// A load before its first event.
    pub fn new() -> (loader: Loader)
        ensures
            loader@ == LoaderView::initial(),
    {
        Loader { quraan: Quraan::default(), current: AyatBuilder::new(), open_field: None }
    }

    /// Takes one event in. An event that fails leaves the load as it was.
    pub fn feed(&mut self, event: &MarkupEvent) -> (fed: Result<(), LoadError>)
        ensures
            match fed {
                Ok(()) => old(self)@.step(event@) == Ok::<LoaderView, LoadError>(final(self)@),
                Err(e) => old(self)@.step(event@) == Err::<LoaderView, LoadError>(e)
                    && final(self)@ == old(self)@,
            },
    {
        match event {
            MarkupEvent::Start { name, attributes } => {
                if str_eq(name.as_str(), "ROW") {
                    self.current = AyatBuilder::new();
                }
                self.open_field = field_of_tag(name.as_str());
                Ok(())
            },
            MarkupEvent::Text(text) => {
                match self.open_field {
                    Some(field) => store_field(&mut self.current, field, trim(text.as_str())),
                    None => Ok(()),
                }
            },
            MarkupEvent::End { name } => {
                if str_eq(name.as_str(), "ROW") {
                    match self.current.build() {
                        Ok(ayat) => {
                            proof {
                                assert(self.quraan.ayat@.push(ayat).map_values(|a: Ayat| a@)
                                    == self.quraan.ayat@.map_values(|a: Ayat| a@).push(ayat@));
                            }
                            self.quraan.ayat.push(ayat);
                            Ok(())
                        },
                        Err(e) => Err(LoadError::IncompleteRecord(e)),
                    }
                } else {
                    Ok(())
                }
            },
            _ => Ok(()),
        }
    }
}

/// Loads the corpus from events that were read before.
pub fn load_events(events: &Vec<MarkupEvent>) -> (outcome: Result<Loaded, LoadError>)
    ensures
        outcome_view(outcome) == load(event_views(events@)),
{
    let ghost all = event_views(events@);
    let mut loader = Loader::new();
    let mut i: usize = 0;
    proof {
        assert(all.skip(0) == all);
    }
    while i < events.len()
        invariant
            i <= events.len(),
            all == event_views(events@),
            loader@.run(all.skip(i as int)) == load(all),
        decreases events.len() - i,
    {
        proof {
            assert(all.skip(i as int).skip(1) == all.skip(i + 1));
        }
        match &events[i] {
            MarkupEvent::Finished => {
                return Ok(Loaded { quraan: loader.quraan, stream_error: None });
            },
            MarkupEvent::Malformed { message } => {
                return Ok(
                    Loaded {
                        quraan: loader.quraan,
                        stream_error: Some(MarkupStreamError { message: message.clone() }),
                    },
                );
            },
            event => {
                match loader.feed(event) {
                    Ok(()) => {},
                    Err(e) => {
                        return Err(e);
                    },
                }
            },
        }
        i = i + 1;
    }
    Ok(Loaded { quraan: loader.quraan, stream_error: None })
}

/// Loads the corpus from a document of verse records.
///
/// The verses come in document order. A malformed document ends the load
/// where it breaks, and the verses closed before that are kept. A record
/// that closes incomplete, or a numeric field that holds no number, gives the
/// whole load up.
pub fn parse_tafseer_mouaser(bytes: &[u8]) -> (outcome: Result<Loaded, LoadError>)
    ensures
        outcome_view(outcome) == load(document_events(bytes@)),
{
    let mut reader = open_document(bytes);
    let mut loader = Loader::new();
    loop
        invariant
            is_event_stream(pending_events(&reader)),
            loader@.run(pending_events(&reader)) == load(document_events(bytes@)),
        decreases pending_events(&reader).len(),
    {
        let event = next_event(&mut reader);
        match event {
            MarkupEvent::Finished => {
                return Ok(Loaded { quraan: loader.quraan, stream_error: None });
            },
            MarkupEvent::Malformed { message } => {
                return Ok(
                    Loaded {
                        quraan: loader.quraan,
                        stream_error: Some(MarkupStreamError { message }),
                    },
                );
            },
            event => {
                match loader.feed(&event) {
                    Ok(()) => {},
                    Err(e) => {
                        return Err(e);
                    },
                }
            },
        }
    }
}

} // verus!
