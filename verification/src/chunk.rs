//! Cutting a run of texts into messages of bounded length.
use vstd::prelude::*;

verus! {

/// The number of characters that a message filled from several texts stays
/// below.
pub const MESSAGE_THRESHOLD: usize = 1700;

/// The texts cut into chunks.
///
/// There is always a first chunk. Each text goes whole to the end of the last
/// chunk, unless that would bring the chunk to `threshold` characters or
/// more: then a new chunk is opened for the text first. The lengths are
/// looked at before the text is added, so a chunk is closed below the
/// threshold, and only a text that alone has `threshold` characters or more
/// makes a chunk that long.
pub open spec fn chunked(texts: Seq<Seq<char>>, threshold: nat) -> Seq<Seq<char>>
    decreases texts.len(),
{
    if texts.len() == 0 {
        seq![Seq::empty()]
    } else {
        let before = chunked(texts.drop_last(), threshold);
        if before.last().len() + texts.last().len() >= threshold {
            before.push(texts.last())
        } else {
            before.update(before.len() - 1, before.last() + texts.last())
        }
    }
}

/// The views of strings.
pub open spec fn text_views(texts: Seq<String>) -> Seq<Seq<char>> {
    texts.map_values(|s: String| s@)
}

/// There is always a first chunk.
pub proof fn chunks_are_never_none(texts: Seq<Seq<char>>, threshold: nat)
    ensures
        chunked(texts, threshold).len() >= 1,
        chunked(texts, threshold).len() <= texts.len() + 1,
    decreases texts.len(),
{
    if texts.len() > 0 {
        chunks_are_never_none(texts.drop_last(), threshold);
    }
}

/// No texts give one chunk, which is empty.
pub proof fn no_texts_give_one_empty_chunk(threshold: nat)
    ensures
        chunked(Seq::empty(), threshold) == seq![Seq::<char>::empty()],
{
}

/// The chunks, put end to end, are the texts put end to end: nothing is
/// lost, repeated or moved.
pub proof fn chunks_keep_the_texts(texts: Seq<Seq<char>>, threshold: nat)
    ensures
        chunked(texts, threshold).flatten() == texts.flatten(),
    decreases texts.len(),
{
    if texts.len() == 0 {
        seq![Seq::<char>::empty()].lemma_flatten_singleton();
    } else {
        let front = texts.drop_last();
        let text = texts.last();
        let before = chunked(front, threshold);
        chunks_keep_the_texts(front, threshold);
        chunks_are_never_none(front, threshold);
        assert(front.push(text) == texts);
        front.lemma_flatten_push(text);
        if before.last().len() + text.len() >= threshold {
            before.lemma_flatten_push(text);
        } else {
            let head = before.drop_last();
            assert(head.push(before.last()) == before);
            assert(before.update(before.len() - 1, before.last() + text) == head.push(
                before.last() + text,
            ));
            head.lemma_flatten_push(before.last());
            head.lemma_flatten_push(before.last() + text);
        }
    }
}

/// Whether the chunk is shorter than the threshold, or empty, or one of the
/// texts alone.
pub open spec fn within_threshold(chunk: Seq<char>, texts: Seq<Seq<char>>, threshold: nat) -> bool {
    chunk.len() < threshold || chunk.len() == 0 || exists|j: int|
        0 <= j < texts.len() && #[trigger] texts[j] == chunk
}

/// No chunk reaches the threshold, but one that holds a single text which
/// alone is that long.
pub proof fn chunks_stay_within_threshold(texts: Seq<Seq<char>>, threshold: nat)
    ensures
        forall|k: int|
            0 <= k < chunked(texts, threshold).len() ==> within_threshold(
                #[trigger] chunked(texts, threshold)[k],
                texts,
                threshold,
            ),
    decreases texts.len(),
{
    if texts.len() > 0 {
        let front = texts.drop_last();
        let text = texts.last();
        let before = chunked(front, threshold);
        let after = chunked(texts, threshold);
        chunks_stay_within_threshold(front, threshold);
        chunks_are_never_none(front, threshold);
        assert forall|k: int| 0 <= k < after.len() implies within_threshold(
            #[trigger] after[k],
            texts,
            threshold,
        ) by {
            // An earlier chunk is one of the earlier texts, if it is that long.
            if k < before.len() - 1 || before.last().len() + text.len() >= threshold {
                if after[k].len() >= threshold && after[k].len() > 0 && k < before.len() {
                    let j = choose|j: int| 0 <= j < front.len() && #[trigger] front[j] == after[k];
                    assert(texts[j] == after[k]);
                }
            }
        }
    }
}

/// Cuts the texts into chunks.
pub fn chunk_texts(texts: &Vec<String>, threshold: usize) -> (chunks: Vec<String>)
    ensures
        text_views(chunks@) == chunked(text_views(texts@), threshold as nat),
{
    let ghost all = text_views(texts@);
    let mut chunks: Vec<String> = Vec::new();
    chunks.push(String::new());
    // The length of the last chunk.
    let mut length: usize = 0;
    let mut i: usize = 0;
    while i < texts.len()
        invariant
            i <= texts.len(),
            all == text_views(texts@),
            chunks@.len() >= 1,
            text_views(chunks@) == chunked(all.take(i as int), threshold as nat),
            length == chunks@.last()@.len(),
        decreases texts.len() - i,
    {
        proof {
            assert(all.take(i + 1).drop_last() == all.take(i as int));
        }
        let text = texts[i].as_str();
        let added = text.unicode_len();
        let fits = match length.checked_add(added) {
            Some(sum) => sum < threshold,
            None => false,
        };
        if fits {
            length = length + added;
        } else {
            chunks.push(String::new());
            length = added;
        }
        let last = chunks.len() - 1;
        chunks[last].append(text);
        i = i + 1;
    }
    proof {
        assert(all.take(texts@.len() as int) == all);
    }
    chunks
}

} // verus!
