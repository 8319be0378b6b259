//! The metadata cache: what was once fetched of a video is kept under the
//! video's id, for every user, and only ever refreshed.

use crate::error::StoreError;
use crate::json::{last_member, lemma_put, member, member_views, put, Json, JsonView};
use crate::store::{MetadataView, Store, VideoMetadata};
use crate::table::Key;
use crate::text::views;
use vstd::prelude::*;

verus! {

/// The most ids that one lookup in the storage engine can take.
pub const MAX_LOOKUP: usize = 999;

/// Caches what is known of one video, over what was cached of it before.
pub fn save_video_metadata(
    store: &mut Store,
    video_id: String,
    title: String,
    author: String,
    view_count: String,
    channel_id: String,
    published_year: String,
    duration: i32,
)
    requires
        old(store).wf(),
    ensures
        final(store).wf(),
        final(store)@.tenants == old(store)@.tenants,
        final(store)@.metadata == old(store)@.metadata.insert(
            video_id@,
            MetadataView {
                title: title@,
                author: author@,
                view_count: view_count@,
                channel_id: channel_id@,
                published_year: published_year@,
                duration,
            },
        ),
{
    store.put_metadata(
        VideoMetadata { video_id, title, author, view_count, channel_id, published_year, duration },
    );
}

/// The text under `key`, or `fallback` where the member is no string or is
/// not there.
pub open spec fn text_or(item: JsonView, key: Seq<char>, fallback: Seq<char>) -> Seq<char> {
    match item.member(key) {
        Some(JsonView::Str(s)) => s,
        _ => fallback,
    }
}

/// The low 32 bits of an integer, read with a sign.
pub open spec fn low_bits(i: i64) -> i32 {
    i as i32
}

/// The duration that an entry gives: its `duration` where that is an
/// integer, cut to 32 bits, and 1 otherwise.
pub open spec fn duration_of(item: JsonView) -> i32 {
    match item.member("duration"@) {
        Some(JsonView::Int(i)) => low_bits(i),
        _ => 1,
    }
}

/// The video id and the metadata that a batch entry stands for. An entry
/// must give its `videoId` as a string; whatever else it leaves out or
/// gives in another kind is filled in.
pub open spec fn decoded_entry(item: JsonView) -> Option<(Key, MetadataView)> {
    match item.member("videoId"@) {
        Some(JsonView::Str(id)) => Some(
            (
                id,
                MetadataView {
                    title: text_or(item, "title"@, ""@),
                    author: text_or(item, "author"@, ""@),
                    view_count: text_or(item, "viewCount"@, "0"@),
                    channel_id: text_or(item, "channelId"@, ""@),
                    published_year: text_or(item, "publishedYear"@, ""@),
                    duration: duration_of(item),
                },
            ),
        ),
        _ => None,
    }
}

/// Reads the text under `key`, or takes `fallback`.
fn read_text_or(item: &Json, key: &str, fallback: &str) -> (r: String)
    ensures
        r@ == text_or(item@, key@, fallback@),
{
    match item.get(key) {
        Some(j) => match j.as_str() {
            Some(s) => s.clone(),
            None => fallback.to_owned(),
        },
        None => fallback.to_owned(),
    }
}

/// The low 32 bits of an integer, read with a sign.
pub fn cut_to_32(i: i64) -> (r: i32)
    ensures
        r == low_bits(i),
{
    #[verifier::truncate]
    (i as i32)
}

/// Reads a batch entry.
pub fn decode_entry(item: &Json) -> (r: Option<VideoMetadata>)
    ensures
        match r {
            Some(m) => decoded_entry(item@) == Some((m.video_id@, m@)),
            None => decoded_entry(item@) is None,
        },
{
    let video_id = match item.get("videoId") {
        Some(j) => match j.as_str() {
            Some(s) => s.clone(),
            None => return None,
        },
        None => return None,
    };
    let duration = match item.get("duration") {
        Some(j) => match j.as_i64() {
            Some(i) => cut_to_32(i),
            None => 1,
        },
        None => 1,
    };
    Some(
        VideoMetadata {
            video_id,
            title: read_text_or(item, "title", ""),
            author: read_text_or(item, "author", ""),
            view_count: read_text_or(item, "viewCount", "0"),
            channel_id: read_text_or(item, "channelId", ""),
            published_year: read_text_or(item, "publishedYear", ""),
            duration,
        },
    )
}

/// Every entry of the batch can be read.
pub open spec fn all_readable(items: Seq<JsonView>) -> bool {
    forall|i: int| 0 <= i < items.len() ==> decoded_entry(#[trigger] items[i]) is Some
}

/// The cache with each entry of the batch written in, one after the other,
/// so that of two entries for one video the later one stays.
pub open spec fn with_batch(cache: Map<Key, MetadataView>, items: Seq<JsonView>) -> Map<
    Key,
    MetadataView,
>
    decreases items.len(),
{
    if items.len() == 0 {
        cache
    } else {
        let entry = decoded_entry(items.last())->0;
        with_batch(cache, items.drop_last()).insert(entry.0, entry.1)
    }
}

/// Caches a batch of entries together: all of them where every entry gives
/// its video id, and none where one does not.
pub fn save_video_metadata_batch(store: &mut Store, metadata: &Vec<Json>) -> (r: Result<
    (),
    StoreError,
>)
    requires
        old(store).wf(),
    ensures
        final(store).wf(),
        final(store)@.tenants == old(store)@.tenants,
        all_readable(views(metadata@)) ==> r is Ok && final(store)@.metadata == with_batch(
            old(store)@.metadata,
            views(metadata@),
        ),
        !all_readable(views(metadata@)) ==> r == Err::<(), StoreError>(
            StoreError::MissingVideoId,
        ) && final(store)@ == old(store)@,
{
    let ghost items = views(metadata@);
    let mut entries: Vec<VideoMetadata> = Vec::new();
    let mut i: usize = 0;
    while i < metadata.len()
        invariant
            i <= metadata.len(),
            items == views(metadata@),
            entries.len() == i,
            *store == *old(store),
            store.wf(),
            forall|k: int|
                0 <= k < i ==> decoded_entry(#[trigger] items[k]) == Some(
                    (entries[k].video_id@, entries[k]@),
                ),
        decreases metadata.len() - i,
    {
        match decode_entry(&metadata[i]) {
            Some(m) => entries.push(m),
            None => {
                assert(decoded_entry(items[i as int]) is None);
                return Err(StoreError::MissingVideoId);
            },
        }
        i += 1;
    }
    let mut k: usize = 0;
    while k < entries.len()
        invariant
            k <= entries.len(),
            entries.len() == items.len(),
            store.wf(),
            store@.tenants == old(store)@.tenants,
            store@.metadata == with_batch(old(store)@.metadata, items.take(k as int)),
            forall|j: int|
                0 <= j < items.len() ==> decoded_entry(#[trigger] items[j]) == Some(
                    (entries[j].video_id@, entries[j]@),
                ),
        decreases entries.len() - k,
    {
        proof {
            assert(items.take(k + 1).drop_last() =~= items.take(k as int));
        }
        store.put_metadata(entries[k].clone());
        k += 1;
    }
    proof {
        assert(items.take(items.len() as int) =~= items);
    }
    Ok(())
}

/// The document that the metadata of a video is handed out as.
pub open spec fn metadata_document(m: MetadataView) -> JsonView {
    JsonView::Object(
        seq![
            ("title"@, JsonView::Str(m.title)),
            ("author"@, JsonView::Str(m.author)),
            ("viewCount"@, JsonView::Str(m.view_count)),
            ("channelId"@, JsonView::Str(m.channel_id)),
            ("publishedYear"@, JsonView::Str(m.published_year)),
            ("duration"@, JsonView::Int(m.duration as i64)),
        ],
    )
}

/// The entries of a lookup: for each id, in turn, that has metadata in the
/// cache, the id with the document of that metadata; an id that was
/// looked up before keeps its place.
pub open spec fn found(ids: Seq<Key>, cache: Map<Key, MetadataView>) -> Seq<(Key, JsonView)>
    decreases ids.len(),
{
    if ids.len() == 0 {
        Seq::empty()
    } else if cache.contains_key(ids.last()) {
        put(found(ids.drop_last(), cache), ids.last(), metadata_document(cache[ids.last()]))
    } else {
        found(ids.drop_last(), cache)
    }
}

/// The ids of all batches, one batch after the other.
pub open spec fn joined(batches: Seq<Seq<Key>>) -> Seq<Key>
    decreases batches.len(),
{
    if batches.len() == 0 {
        Seq::empty()
    } else {
        joined(batches.drop_last()) + batches.last()
    }
}

/// The views of the ids of each batch.
pub open spec fn batch_views(batches: Seq<Vec<String>>) -> Seq<Seq<Key>> {
    batches.map_values(|b: Vec<String>| views(b@))
}

/// Splits a list of ids into batches of at most `limit` ids, in order:
/// every batch but the last is full, and none is empty.
pub fn partition(ids: &Vec<String>, limit: usize) -> (r: Vec<Vec<String>>)
    requires
        limit > 0,
    ensures
        joined(batch_views(r@)) == views(ids@),
        forall|j: int| 0 <= j < r.len() ==> 0 < (#[trigger] r[j]).len() <= limit,
        forall|j: int| 0 <= j < r.len() - 1 ==> (#[trigger] r[j]).len() == limit,
{
    let ghost all = views(ids@);
    let mut batches: Vec<Vec<String>> = Vec::new();
    let mut start: usize = 0;
    while start < ids.len()
        invariant
            limit > 0,
            start <= ids.len(),
            all == views(ids@),
            joined(batch_views(batches@)) == all.take(start as int),
            forall|j: int| 0 <= j < batches.len() ==> 0 < (#[trigger] batches[j]).len() <= limit,
            forall|j: int|
                0 <= j < batches.len() ==> (#[trigger] batches[j]).len() == limit || (j
                    == batches.len() - 1 && start == ids.len()),
        decreases ids.len() - start,
    {
        let mut batch: Vec<String> = Vec::new();
        let mut k: usize = start;
        while k < ids.len() && batch.len() < limit
            invariant
                start <= k <= ids.len(),
                all == views(ids@),
                batch.len() == k - start,
                batch.len() <= limit,
                limit > 0,
                views(batch@) == all.subrange(start as int, k as int),
            decreases ids.len() - k,
        {
            batch.push(ids[k].clone());
            k += 1;
        }
        let ghost before = batch_views(batches@);
        let ghost chunk = views(batch@);
        batches.push(batch);
        proof {
            assert(batch_views(batches@).drop_last() =~= before);
            assert(all.take(start as int) + all.subrange(start as int, k as int) =~= all.take(
                k as int,
            ));
        }
        start = k;
    }
    proof {
        assert(all.take(ids.len() as int) =~= all);
    }
    batches
}

/// Looks up the metadata of many videos.
///
/// The ids are looked up in batches of at most [`MAX_LOOKUP`]. The result
/// is an object that holds, under its id, the metadata of each video that
/// was asked for and has metadata in the cache. An id without metadata is
/// simply not in the result.
pub fn get_video_metadata_batch(store: &Store, video_ids: &Vec<String>) -> (r: Json)
    requires
        store.wf(),
    ensures
        r@ == JsonView::Object(found(views(video_ids@), store@.metadata)),
{
    let ghost all = views(video_ids@);
    let ghost cache = store@.metadata;
    let batches = partition(video_ids, MAX_LOOKUP);
    let ghost parts = batch_views(batches@);
    let mut members: Vec<(String, Json)> = Vec::new();
    let mut j: usize = 0;
    while j < batches.len()
        invariant
            j <= batches.len(),
            store.wf(),
            cache == store@.metadata,
            parts == batch_views(batches@),
            member_views(members@) == found(joined(parts.take(j as int)), cache),
        decreases batches.len() - j,
    {
        let batch = &batches[j];
        let ghost done = joined(parts.take(j as int));
        let ghost chunk = views(batch@);
        let mut k: usize = 0;
        while k < batch.len()
            invariant
                k <= batch.len(),
                store.wf(),
                cache == store@.metadata,
                chunk == views(batch@),
                member_views(members@) == found(done + chunk.take(k as int), cache),
            decreases batch.len() - k,
        {
            let ghost now = member_views(members@);
            proof {
                let next = done + chunk.take(k + 1);
                assert(next.drop_last() =~= done + chunk.take(k as int));
            }
            match store.metadata(batch[k].as_str()) {
                Some(m) => {
                    let doc = encode_metadata(m);
                    match find_member(&members, batch[k].as_str()) {
                        Some(place) => {
                            members.set(place, (batch[k].clone(), doc));
                            assert(member_views(members@) =~= now.update(
                                place as int,
                                (chunk[k as int], doc@),
                            ));
                        },
                        None => {
                            members.push((batch[k].clone(), doc));
                        },
                    }
                },
                None => {},
            }
            k += 1;
        }
        proof {
            assert(chunk.take(batch.len() as int) =~= chunk);
            assert(parts.take(j + 1).drop_last() =~= parts.take(j as int));
        }
        j += 1;
    }
    proof {
        assert(parts.take(batches.len() as int) =~= parts);
        Json::lemma_object_view(members);
    }
    Json::Object(members)
}

/// The place of the member that is read under a key.
fn find_member(members: &Vec<(String, Json)>, key: &str) -> (r: Option<usize>)
    ensures
        match r {
            Some(i) => i < members.len() && crate::json::last_place(member_views(members@), key@)
                == Some(i as int),
            None => crate::json::last_place(member_views(members@), key@) is None,
        },
{
    let ghost all = member_views(members@);
    proof {
        assert(all.take(all.len() as int) =~= all);
    }
    let mut i: usize = members.len();
    while i > 0
        invariant
            i <= members.len(),
            all == member_views(members@),
            crate::json::last_place(all, key@) == crate::json::last_place(
                all.take(i as int),
                key@,
            ),
        decreases i,
    {
        i -= 1;
        proof {
            assert(all.take(i + 1).drop_last() =~= all.take(i as int));
        }
        if crate::text::same_text(members[i].0.as_str(), key) {
            return Some(i);
        }
    }
    None
}

/// Writes the metadata of a video as a document.
pub fn encode_metadata(m: &VideoMetadata) -> (r: Json)
    ensures
        r@ == metadata_document(m@),
{
    let mut members: Vec<(String, Json)> = Vec::new();
    members.push(member("title", Json::Str(m.title.clone())));
    members.push(member("author", Json::Str(m.author.clone())));
    members.push(member("viewCount", Json::Str(m.view_count.clone())));
    members.push(member("channelId", Json::Str(m.channel_id.clone())));
    members.push(member("publishedYear", Json::Str(m.published_year.clone())));
    members.push(member("duration", Json::Int(m.duration as i64)));
    proof {
        Json::lemma_object_view(members);
        assert(member_views(members@) =~= metadata_document(m@)->Object_0);
    }
    Json::Object(members)
}

/// A lookup finds exactly the videos that were asked for and have
/// metadata: under each of their ids the result holds the document of the
/// metadata, and under every other id it holds nothing.
pub proof fn law_lookup_finds_stored(ids: Seq<Key>, cache: Map<Key, MetadataView>, id: Key)
    ensures
        last_member(found(ids, cache), id) == if ids.contains(id) && cache.contains_key(id) {
            Some(metadata_document(cache[id]))
        } else {
            None
        },
    decreases ids.len(),
{
    if ids.len() > 0 {
        let front = ids.drop_last();
        law_lookup_finds_stored(front, cache, id);
        assert(ids.contains(id) <==> front.contains(id) || ids.last() == id) by {
            if front.contains(id) {
                let i = choose|i: int| 0 <= i < front.len() && front[i] == id;
            }
            if ids.contains(id) {
                let i = choose|i: int| 0 <= i < ids.len() && ids[i] == id;
                if i < front.len() {
                    assert(front[i] == id);
                }
            }
            if ids.last() == id {
                assert(ids[ids.len() - 1] == id);
            }
        }
        if cache.contains_key(ids.last()) {
            lemma_put(found(front, cache), ids.last(), metadata_document(cache[ids.last()]), id);
        }
    }
}

/// Caching a batch drops nothing: what was cached of a video before is
/// cached of it afterwards, as it was or refreshed.
pub proof fn law_batch_keeps_cache(cache: Map<Key, MetadataView>, items: Seq<JsonView>, id: Key)
    requires
        cache.contains_key(id),
    ensures
        with_batch(cache, items).contains_key(id),
    decreases items.len(),
{
    if items.len() > 0 {
        law_batch_keeps_cache(cache, items.drop_last(), id);
    }
}

/// After a batch is cached, something is cached of each video of the
/// batch.
pub proof fn law_batch_then_lookup(cache: Map<Key, MetadataView>, items: Seq<JsonView>, i: int)
    requires
        all_readable(items),
        0 <= i < items.len(),
    ensures
        with_batch(cache, items).contains_key((decoded_entry(items[i])->0).0),
    decreases items.len(),
{
    let front = items.drop_last();
    if i < items.len() - 1 {
        assert(all_readable(front)) by {
            assert forall|k: int| 0 <= k < front.len() implies decoded_entry(
                #[trigger] front[k],
            ) is Some by {
                assert(decoded_entry(items[k]) is Some);
            }
        }
        law_batch_then_lookup(cache, front, i);
    }
}

} // verus!
