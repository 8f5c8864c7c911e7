//! Merging a separate commentary document into a loaded corpus.
//!
//! The commentary document lists surahs as `sura` elements and, inside them,
//! verses as `aya` elements. Both carry their number in the attribute `index`;
//! an `aya` carries the commentary in the attribute `text`. An entry is keyed
//! by the numbers of the surah that encloses it and of its verse, and goes to
//! the verse of the corpus with the same two numbers. An entry without such a
//! verse is dropped.
//!
//! While the document is read, the surah that opened last is selected if the
//! corpus holds it. A surah that the corpus lacks, or one without a number,
//! selects nothing: its entries are dropped, and none of them can go to the
//! surah that was selected before it.
use crate::corpus::{AyatView, Quraan};
use crate::markup::{
    attribute_views, document_events, error_view, event_views, is_event_stream, next_event,
    open_document, pending_events, stream_error, Attribute, MarkupEvent, MarkupEventView,
    MarkupStreamError,
};
use crate::text::{parse_u32, parse_unsigned, str_eq};
use vstd::prelude::*;

verus! {

/// One commentary of the commentary document, with the key it stands under.
pub struct CommentaryEntry {
    pub surah: u32,
    pub verse: u32,
    pub text: Seq<char>,
}

/// The value of the first attribute of the given name.
pub open spec fn attribute_value(
    attributes: Seq<(Seq<char>, Seq<char>)>,
    name: Seq<char>,
) -> Option<Seq<char>>
    decreases attributes.len(),
{
    if attributes.len() == 0 {
        None
    } else if attributes[0].0 == name {
        Some(attributes[0].1)
    } else {
        attribute_value(attributes.skip(1), name)
    }
}

/// The number in the attribute `index`, where there is one.
pub open spec fn element_index(attributes: Seq<(Seq<char>, Seq<char>)>) -> Option<u32> {
    match attribute_value(attributes, "index"@) {
        Some(value) => match parse_unsigned(value, u32::MAX as nat) {
            Some(n) => Some(n as u32),
            None => None,
        },
        None => None,
    }
}

/// Whether the verse has the given surah and verse numbers.
pub open spec fn has_key(ayat: AyatView, surah: u32, verse: u32) -> bool {
    ayat.sura_no == surah && ayat.aya_no == verse
}

/// Whether some verse of the corpus belongs to the surah.
pub open spec fn has_surah(ayat: Seq<AyatView>, surah: u32) -> bool {
    exists|i: int| 0 <= i < ayat.len() && (#[trigger] ayat[i]).sura_no == surah
}

/// Whether `i` is the place of the first verse with the given key.
pub open spec fn is_first_with_key(ayat: Seq<AyatView>, surah: u32, verse: u32, i: int) -> bool {
    &&& 0 <= i < ayat.len()
    &&& has_key(ayat[i], surah, verse)
    &&& forall|j: int| 0 <= j < i ==> !has_key(#[trigger] ayat[j], surah, verse)
}

/// Whether the corpus holds a verse with the given key.
pub open spec fn has_verse(ayat: Seq<AyatView>, surah: u32, verse: u32) -> bool {
    exists|i: int| 0 <= i < ayat.len() && has_key(#[trigger] ayat[i], surah, verse)
}

/// The place of the first verse with the given key.
pub open spec fn verse_position(ayat: Seq<AyatView>, surah: u32, verse: u32) -> int
    recommends
        has_verse(ayat, surah, verse),
{
    choose|i: int| is_first_with_key(ayat, surah, verse, i)
}

/// The corpus after one entry: the first verse with the entry's key gets its
/// text as commentary; without such a verse nothing changes.
pub open spec fn attach(ayat: Seq<AyatView>, entry: CommentaryEntry) -> Seq<AyatView> {
    if has_verse(ayat, entry.surah, entry.verse) {
        let i = verse_position(ayat, entry.surah, entry.verse);
        ayat.update(i, AyatView { aya_tafseer: Some(entry.text), ..ayat[i] })
    } else {
        ayat
    }
}

/// The corpus after the entries, taken in order.
pub open spec fn attach_all(ayat: Seq<AyatView>, entries: Seq<CommentaryEntry>) -> Seq<AyatView>
    decreases entries.len(),
{
    if entries.len() == 0 {
        ayat
    } else {
        attach_all(attach(ayat, entries[0]), entries.skip(1))
    }
}

/// The entry that an `aya` element makes under the given surah, where its
/// surah is known and it has both a number and a text.
pub open spec fn verse_entry(surah: Option<u32>, attributes: Seq<(Seq<char>, Seq<char>)>) -> Option<
    CommentaryEntry,
> {
    match (surah, element_index(attributes), attribute_value(attributes, "text"@)) {
        (Some(surah), Some(verse), Some(text)) => Some(CommentaryEntry { surah, verse, text }),
        _ => None,
    }
}

/// The number of the `sura` element that opened last, after one more event;
/// nothing if that element had no number.
pub open spec fn opened_surah(surah: Option<u32>, event: MarkupEventView) -> Option<u32> {
    match event {
        MarkupEventView::Start { name, attributes } => if name == "sura"@ {
            element_index(attributes)
        } else {
            surah
        },
        _ => surah,
    }
}

/// The entry that an event makes under the `sura` element that opened last.
pub open spec fn event_entry(surah: Option<u32>, event: MarkupEventView) -> Option<
    CommentaryEntry,
> {
    match event {
        MarkupEventView::Start { name, attributes } => if name != "sura"@ && name == "aya"@ {
            verse_entry(surah, attributes)
        } else {
            None
        },
        _ => None,
    }
}

/// The entries of a commentary stream up to its first terminal event, in
/// order. `surah` is the number of the last `sura` element that opened before
/// the stream starts, if that had one.
pub open spec fn commentary_entries(events: Seq<MarkupEventView>, surah: Option<u32>) -> Seq<
    CommentaryEntry,
>
    decreases events.len(),
{
    if events.len() == 0 || events[0].is_terminal() {
        Seq::empty()
    } else {
        let rest = commentary_entries(events.skip(1), opened_surah(surah, events[0]));
        match event_entry(surah, events[0]) {
            Some(entry) => seq![entry] + rest,
            None => rest,
        }
    }
}

/// The surah under which verses are attached: the one that opened last, as
/// long as the corpus holds it.
pub open spec fn selected_surah(ayat: Seq<AyatView>, surah: Option<u32>) -> Option<u32> {
    match surah {
        Some(s) => if has_surah(ayat, s) {
            Some(s)
        } else {
            None
        },
        None => None,
    }
}

/// The corpus and the selected surah after one event that is not terminal.
///
/// A `sura` element selects its surah if the corpus holds it, and otherwise
/// clears the selection. An `aya` element attaches its text to the verse of
/// its number in the selected surah; with no surah selected, or no such
/// verse, it is passed over.
pub open spec fn merge_step(ayat: Seq<AyatView>, selected: Option<u32>, event: MarkupEventView) -> (
    Seq<AyatView>,
    Option<u32>,
) {
    match event {
        MarkupEventView::Start { name, attributes } => if name == "sura"@ {
            (ayat, selected_surah(ayat, element_index(attributes)))
        } else if name == "aya"@ {
            match verse_entry(selected, attributes) {
                Some(entry) => (attach(ayat, entry), selected),
                None => (ayat, selected),
            }
        } else {
            (ayat, selected)
        },
        _ => (ayat, selected),
    }
}

/// The value of the first attribute of the given name.
pub fn attribute<'a>(attributes: &'a Vec<Attribute>, name: &str) -> (value: Option<&'a String>)
    ensures
        match value {
            Some(v) => attribute_value(attribute_views(attributes@), name@) == Some(
                v@,
            ),
            None => attribute_value(attribute_views(attributes@), name@) is None,
        },
{
    let ghost all = attribute_views(attributes@);
    let mut i: usize = 0;
    proof {
        assert(all.skip(0) == all);
    }
    while i < attributes.len()
        invariant
            i <= attributes.len(),
            all == attribute_views(attributes@),
            attribute_value(all.skip(i as int), name@) == attribute_value(all, name@),
        decreases attributes.len() - i,
    {
        proof {
            assert(all.skip(i as int).skip(1) == all.skip(i + 1));
        }
        if str_eq(attributes[i].name.as_str(), name) {
            return Some(&attributes[i].value);
        }
        i = i + 1;
    }
    None
}

/// The number in the attribute `index`, where there is one.
pub fn index_of_element(attributes: &Vec<Attribute>) -> (index: Option<u32>)
    ensures
        index == element_index(attribute_views(attributes@)),
{
    match attribute(attributes, "index") {
        Some(value) => parse_u32(value.as_str()),
        None => None,
    }
}

impl Quraan {
    /// Whether some verse belongs to the surah of the given number.
    pub fn has_surah(&self, surah: u32) -> (found: bool)
        ensures
            found == has_surah(self@, surah),
    {
        let mut i: usize = 0;
        while i < self.ayat.len()
            invariant
                i <= self.ayat.len(),
                forall|j: int| 0 <= j < i ==> (#[trigger] self@[j]).sura_no != surah,
            decreases self.ayat.len() - i,
        {
            if self.ayat[i].sura_no == surah {
                assert(self@[i as int].sura_no == surah);
                return true;
            }
            i = i + 1;
        }
        false
    }

    /// The place of the first verse with the given surah and verse numbers.
    pub fn position(&self, surah: u32, verse: u32) -> (place: Option<usize>)
        ensures
            match place {
                Some(i) => is_first_with_key(self@, surah, verse, i as int),
                None => !has_verse(self@, surah, verse),
            },
    {
        let mut i: usize = 0;
        while i < self.ayat.len()
            invariant
                i <= self.ayat.len(),
                forall|j: int| 0 <= j < i ==> !has_key(#[trigger] self@[j], surah, verse),
            decreases self.ayat.len() - i,
        {
            if self.ayat[i].sura_no == surah && self.ayat[i].aya_no == verse {
                return Some(i);
            }
            i = i + 1;
        }
        None
    }

    /// Attaches a commentary to the first verse with the given surah and
    /// verse numbers, and says whether there was one.
    pub fn attach(&mut self, surah: u32, verse: u32, text: String) -> (attached: bool)
        ensures
            attached == has_verse(old(self)@, surah, verse),
            final(self)@ == attach(old(self)@, CommentaryEntry { surah, verse, text: text@ }),
    {
        match self.position(surah, verse) {
            Some(i) => {
                proof {
                    lemma_first_is_position(self@, surah, verse, i as int);
                }
                self.ayat[i].aya_tafseer = Some(text);
                true
            },
            None => false,
        }
    }
}

/// Among the verses with a key there is a first.
proof fn lemma_first_below(ayat: Seq<AyatView>, surah: u32, verse: u32, n: int)
    requires
        0 <= n < ayat.len(),
        has_key(ayat[n], surah, verse),
    ensures
        exists|i: int| is_first_with_key(ayat, surah, verse, i),
    decreases n,
{
    if forall|j: int| 0 <= j < n ==> !has_key(#[trigger] ayat[j], surah, verse) {
        assert(is_first_with_key(ayat, surah, verse, n));
    } else {
        let j = choose|j: int| 0 <= j < n && has_key(#[trigger] ayat[j], surah, verse);
        lemma_first_below(ayat, surah, verse, j);
    }
}

/// Where the corpus holds a verse with a key, `verse_position` names the
/// first such verse.
pub proof fn lemma_position_is_first(ayat: Seq<AyatView>, surah: u32, verse: u32)
    requires
        has_verse(ayat, surah, verse),
    ensures
        is_first_with_key(ayat, surah, verse, verse_position(ayat, surah, verse)),
{
    let n = choose|i: int| 0 <= i < ayat.len() && has_key(#[trigger] ayat[i], surah, verse);
    lemma_first_below(ayat, surah, verse, n);
}

/// The first verse with a key is the one that `verse_position` names.
pub proof fn lemma_first_is_position(ayat: Seq<AyatView>, surah: u32, verse: u32, i: int)
    requires
        is_first_with_key(ayat, surah, verse, i),
    ensures
        has_verse(ayat, surah, verse),
        verse_position(ayat, surah, verse) == i,
{
    // Two first places cannot differ: the earlier one rules the later out.
    let k = verse_position(ayat, surah, verse);
    assert(k == i);
}

/// Attaching changes nothing but commentaries.
pub proof fn lemma_attach_keeps_verses(ayat: Seq<AyatView>, entry: CommentaryEntry)
    ensures
        attach(ayat, entry).len() == ayat.len(),
        forall|i: int|
            0 <= i < ayat.len() ==> #[trigger] attach(ayat, entry)[i] == (AyatView {
                aya_tafseer: attach(ayat, entry)[i].aya_tafseer,
                ..ayat[i]
            }),
        forall|s: u32| has_surah(attach(ayat, entry), s) == has_surah(ayat, s),
        forall|s: u32, v: u32, i: int|
            is_first_with_key(attach(ayat, entry), s, v, i) == is_first_with_key(ayat, s, v, i),
{
    let after = attach(ayat, entry);
    if has_verse(ayat, entry.surah, entry.verse) {
        lemma_position_is_first(ayat, entry.surah, entry.verse);
    }
    assert forall|s: u32| has_surah(after, s) == has_surah(ayat, s) by {
        if has_surah(ayat, s) {
            let i = choose|i: int| 0 <= i < ayat.len() && (#[trigger] ayat[i]).sura_no == s;
            assert(after[i].sura_no == s);
        }
        if has_surah(after, s) {
            let i = choose|i: int| 0 <= i < after.len() && (#[trigger] after[i]).sura_no == s;
            assert(ayat[i].sura_no == s);
        }
    }
    assert forall|s: u32, v: u32, i: int|
        is_first_with_key(after, s, v, i) == is_first_with_key(ayat, s, v, i) by {
        lemma_same_keys_same_first(ayat, after, s, v);
    }
}

/// One event keeps the corpus of the merge as the entries define it: what the
/// step does under the selected surah is what the entry of the event asks for.
proof fn lemma_merge_step(
    ayat: Seq<AyatView>,
    surah: Option<u32>,
    events: Seq<MarkupEventView>,
)
    requires
        events.len() > 0,
        !events[0].is_terminal(),
    ensures
        ({
            let (after, selected) = merge_step(ayat, selected_surah(ayat, surah), events[0]);
            let opened = opened_surah(surah, events[0]);
            &&& selected == selected_surah(after, opened)
            &&& attach_all(after, commentary_entries(events.skip(1), opened)) == attach_all(
                ayat,
                commentary_entries(events, surah),
            )
        }),
{
    if let Some(entry) = event_entry(surah, events[0]) {
        let tail = commentary_entries(events.skip(1), surah);
        assert((seq![entry] + tail).skip(1) == tail);
        lemma_attach_keeps_verses(ayat, entry);
        // Under a surah that the corpus lacks there is no verse to go to.
        if !has_surah(ayat, entry.surah) && has_verse(ayat, entry.surah, entry.verse) {
            let i = choose|i: int|
                0 <= i < ayat.len() && has_key(#[trigger] ayat[i], entry.surah, entry.verse);
            assert(ayat[i].sura_no == entry.surah);
        }
    }
}

/// Takes one event of a commentary stream in, under the selected surah, and
/// gives the surah selected after it.
pub fn merge_event(quraan: &mut Quraan, selected: Option<u32>, event: &MarkupEvent) -> (next:
    Option<u32>)
    ensures
        (final(quraan)@, next) == merge_step(old(quraan)@, selected, event@),
{
    match event {
        MarkupEvent::Start { name, attributes } => {
            if str_eq(name.as_str(), "sura") {
                match index_of_element(attributes) {
                    Some(surah) => if quraan.has_surah(surah) {
                        Some(surah)
                    } else {
                        None
                    },
                    None => None,
                }
            } else if str_eq(name.as_str(), "aya") {
                match (selected, index_of_element(attributes), attribute(attributes, "text")) {
                    (Some(surah), Some(verse), Some(text)) => {
                        quraan.attach(surah, verse, text.clone());
                    },
                    _ => {},
                }
                selected
            } else {
                selected
            }
        },
        _ => selected,
    }
}

/// Merges the commentaries of a stream that was read before into the corpus.
pub fn merge_events(quraan: &mut Quraan, events: &Vec<MarkupEvent>) -> (error: Option<
    MarkupStreamError,
>)
    ensures
        final(quraan)@ == attach_all(
            old(quraan)@,
            commentary_entries(event_views(events@), None),
        ),
        error_view(error) == stream_error(event_views(events@)),
{
    let ghost all = event_views(events@);
    let ghost mut surah: Option<u32> = None;
    let mut selected: Option<u32> = None;
    let mut i: usize = 0;
    proof {
        assert(all.skip(0) == all);
    }
    while i < events.len()
        invariant
            i <= events.len(),
            all == event_views(events@),
            selected == selected_surah(quraan@, surah),
            attach_all(quraan@, commentary_entries(all.skip(i as int), surah)) == attach_all(
                old(quraan)@,
                commentary_entries(all, None),
            ),
            stream_error(all.skip(i as int)) == stream_error(all),
        decreases events.len() - i,
    {
        let ghost pending = all.skip(i as int);
        proof {
            assert(pending.skip(1) == all.skip(i + 1));
        }
        match &events[i] {
            MarkupEvent::Finished => {
                return None;
            },
            MarkupEvent::Malformed { message } => {
                return Some(MarkupStreamError { message: message.clone() });
            },
            event => {
                proof {
                    lemma_merge_step(quraan@, surah, pending);
                    surah = opened_surah(surah, pending[0]);
                }
                selected = merge_event(quraan, selected, event);
            },
        }
        i = i + 1;
    }
    None
}

/// Merges a commentary document into the corpus.
///
/// Each commentary goes to the first verse with the numbers of its surah and
/// verse; where several are given for one verse, the last one stays. A
/// malformed document ends the merge where it breaks: what was attached
/// before that is kept, and the error is returned.
pub fn merge_commentary(quraan: &mut Quraan, bytes: &[u8]) -> (error: Option<MarkupStreamError>)
    ensures
        final(quraan)@ == attach_all(
            old(quraan)@,
            commentary_entries(document_events(bytes@), None),
        ),
        error_view(error) == stream_error(document_events(bytes@)),
{
    let ghost all = document_events(bytes@);
    let ghost mut surah: Option<u32> = None;
    let mut selected: Option<u32> = None;
    let mut reader = open_document(bytes);
    loop
        invariant
            all == document_events(bytes@),
            is_event_stream(pending_events(&reader)),
            selected == selected_surah(quraan@, surah),
            attach_all(quraan@, commentary_entries(pending_events(&reader), surah)) == attach_all(
                old(quraan)@,
                commentary_entries(all, None),
            ),
            stream_error(pending_events(&reader)) == stream_error(all),
        decreases pending_events(&reader).len(),
    {
        let ghost pending = pending_events(&reader);
        let event = next_event(&mut reader);
        match event {
            MarkupEvent::Finished => {
                return None;
            },
            MarkupEvent::Malformed { message } => {
                return Some(MarkupStreamError { message });
            },
            event => {
                proof {
                    lemma_merge_step(quraan@, surah, pending);
                    surah = opened_surah(surah, pending[0]);
                }
                selected = merge_event(quraan, selected, &event);
            },
        }
    }
}

/// The text of the last entry with the given key.
pub open spec fn last_text_for(entries: Seq<CommentaryEntry>, surah: u32, verse: u32) -> Option<
    Seq<char>,
>
    decreases entries.len(),
{
    if entries.len() == 0 {
        None
    } else if entries.last().surah == surah && entries.last().verse == verse {
        Some(entries.last().text)
    } else {
        last_text_for(entries.drop_last(), surah, verse)
    }
}

/// The commentary of the verse at `i` after the entries: the text of the last
/// entry with the verse's key, if the verse is the first with that key and
/// there is such an entry, and else the commentary it had.
pub open spec fn commentary_after(
    ayat: Seq<AyatView>,
    entries: Seq<CommentaryEntry>,
    i: int,
) -> Option<Seq<char>> {
    if is_first_with_key(ayat, ayat[i].sura_no, ayat[i].aya_no, i) {
        match last_text_for(entries, ayat[i].sura_no, ayat[i].aya_no) {
            Some(text) => Some(text),
            None => ayat[i].aya_tafseer,
        }
    } else {
        ayat[i].aya_tafseer
    }
}

/// Entries may be attached one after the other.
proof fn lemma_attach_all_push(
    ayat: Seq<AyatView>,
    entries: Seq<CommentaryEntry>,
    entry: CommentaryEntry,
)
    ensures
        attach_all(ayat, entries.push(entry)) == attach(attach_all(ayat, entries), entry),
    decreases entries.len(),
{
    if entries.len() == 0 {
        assert(entries.push(entry).skip(1) == entries);
        assert(attach_all(attach(ayat, entry), entries) == attach(ayat, entry));
    } else {
        assert(entries.push(entry).skip(1) == entries.skip(1).push(entry));
        lemma_attach_all_push(attach(ayat, entries[0]), entries.skip(1), entry);
    }
}

/// The merge is safe by key. It adds and removes no verse and changes
/// nothing but commentaries. A verse that is the first with its surah and
/// verse numbers ends with the text of the last entry under these numbers,
/// or, if there is no such entry, with the commentary it had. A verse that
/// repeats the numbers of an earlier one keeps the commentary it had. So an
/// entry under numbers that the corpus lacks leaves no trace.
pub proof fn merge_is_key_safe(ayat: Seq<AyatView>, entries: Seq<CommentaryEntry>)
    ensures
        attach_all(ayat, entries).len() == ayat.len(),
        forall|i: int|
            0 <= i < ayat.len() ==> #[trigger] attach_all(ayat, entries)[i] == (AyatView {
                aya_tafseer: commentary_after(ayat, entries, i),
                ..ayat[i]
            }),
    decreases entries.len(),
{
    if entries.len() > 0 {
        let front = entries.drop_last();
        let entry = entries.last();
        let before = attach_all(ayat, front);
        merge_is_key_safe(ayat, front);
        assert(front.push(entry) == entries);
        lemma_attach_all_push(ayat, front, entry);
        lemma_attach_keeps_verses(before, entry);
        assert forall|i: int| 0 <= i < ayat.len() implies #[trigger] attach(before, entry)[i] == (
        AyatView { aya_tafseer: commentary_after(ayat, entries, i), ..ayat[i] }) by {
            lemma_attach_at(ayat, before, entry, i);
        }
    }
}

/// What one more entry does to the verse at `i`, in a corpus that has the
/// keys of `ayat`.
proof fn lemma_attach_at(
    ayat: Seq<AyatView>,
    before: Seq<AyatView>,
    entry: CommentaryEntry,
    i: int,
)
    requires
        0 <= i < ayat.len(),
        before.len() == ayat.len(),
        forall|j: int|
            0 <= j < ayat.len() ==> (#[trigger] before[j]).sura_no == ayat[j].sura_no
                && before[j].aya_no == ayat[j].aya_no,
    ensures
        attach(before, entry).len() == ayat.len(),
        attach(before, entry)[i] == (AyatView {
            aya_tafseer: if is_first_with_key(ayat, entry.surah, entry.verse, i) {
                Some(entry.text)
            } else {
                before[i].aya_tafseer
            },
            ..before[i]
        }),
{
    lemma_same_keys_same_first(ayat, before, entry.surah, entry.verse);
    if has_verse(before, entry.surah, entry.verse) {
        lemma_position_is_first(before, entry.surah, entry.verse);
        if is_first_with_key(ayat, entry.surah, entry.verse, i) {
            lemma_first_is_position(before, entry.surah, entry.verse, i);
        }
    }
}

/// Two corpora with the same keys at every place have the same first verse
/// for each key.
proof fn lemma_same_keys_same_first(a: Seq<AyatView>, b: Seq<AyatView>, surah: u32, verse: u32)
    requires
        a.len() == b.len(),
        forall|i: int|
            0 <= i < a.len() ==> (#[trigger] b[i]).sura_no == a[i].sura_no && b[i].aya_no
                == a[i].aya_no,
    ensures
        forall|i: int| is_first_with_key(b, surah, verse, i) == is_first_with_key(a, surah, verse, i),
        has_verse(b, surah, verse) == has_verse(a, surah, verse),
{
    assert forall|j: int| 0 <= j < a.len() implies has_key(#[trigger] b[j], surah, verse)
        == has_key(a[j], surah, verse) by {
        assert(b[j].sura_no == a[j].sura_no);
    }
    assert forall|i: int|
        is_first_with_key(b, surah, verse, i) == is_first_with_key(a, surah, verse, i) by {
        if is_first_with_key(a, surah, verse, i) {
            assert forall|j: int| 0 <= j < i implies !has_key(#[trigger] b[j], surah, verse) by {
                assert(!has_key(a[j], surah, verse));
            }
        }
        if is_first_with_key(b, surah, verse, i) {
            assert forall|j: int| 0 <= j < i implies !has_key(#[trigger] a[j], surah, verse) by {
                assert(!has_key(b[j], surah, verse));
            }
        }
    }
    if has_verse(a, surah, verse) {
        let i = choose|i: int| 0 <= i < a.len() && has_key(#[trigger] a[i], surah, verse);
        assert(has_key(b[i], surah, verse));
    }
    if has_verse(b, surah, verse) {
        let i = choose|i: int| 0 <= i < b.len() && has_key(#[trigger] b[i], surah, verse);
        assert(has_key(a[i], surah, verse));
    }
}

} // verus!
