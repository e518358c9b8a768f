//! What holds of every load, whatever happens on the way.
use vstd::prelude::*;
use crate::address::{
    are_numerals_of, lemma_file_name_by_numerals, lemma_missing_by_numerals, lemma_url_by_numerals,
    spec_refusal, TerrariumCoords,
};
use crate::cache::{
    height, law_tile_not_had_is_at_sea_level, lemma_missing, missing, readable, TileCache, TileKey,
};
use crate::load::{
    decoded_view, ensure_tiles_loaded, given_up, key_of, next_stage, EventView, LoadAction,
    LoadEvent, Stage, StageView, TileLoad,
};
use crate::tile_image::{dummy_view, TileImage, TileView};

verus! {

/// The stage that `stage` has come to after the events.
pub open spec fn run(
    coords: TerrariumCoords,
    stage: StageView,
    events: Seq<EventView>,
) -> StageView
    decreases events.len(),
{
    if events.len() == 0 {
        stage
    } else {
        next_stage(coords, run(coords, stage, events.drop_last()), events.last())
    }
}

/// Whether the event is an answer to the action that the stage asks for.
pub open spec fn answers(stage: StageView, event: EventView) -> bool {
    match stage {
        StageView::Probing => event is FileExists,
        StageView::Requesting => event is Failed || event is Response,
        StageView::Receiving => event is Failed || event is Body,
        StageView::Writing(_) => event is Failed || event is Written,
        StageView::Reading(_) => event is FileRead,
        StageView::Decoding(_) => event is Decoded,
        StageView::Finished(_) => false,
    }
}

/// Whether each of the events answers the stage at which it comes.
pub open spec fn all_answer(
    coords: TerrariumCoords,
    stage: StageView,
    events: Seq<EventView>,
) -> bool {
    forall|i: int|
        0 <= i < events.len() ==> answers(run(coords, stage, events.take(i)), #[trigger] events[i])
}

/// At most this many answers lie between the stage and the end.
pub open spec fn remaining(stage: StageView) -> nat {
    match stage {
        StageView::Probing => 6,
        StageView::Requesting => 5,
        StageView::Receiving => 4,
        StageView::Writing(_) => 3,
        StageView::Reading(_) => 2,
        StageView::Decoding(_) => 1,
        StageView::Finished(_) => 0,
    }
}

/// An answer brings a load closer to its end; any other event leaves it as it is.
pub proof fn law_answers_advance(coords: TerrariumCoords, stage: StageView, event: EventView)
    ensures
        answers(stage, event) ==> remaining(next_stage(coords, stage, event)) < remaining(stage),
        !answers(stage, event) ==> next_stage(coords, stage, event) == stage,
{
}

/// Every load ends: answers to what it asks for bring it to its end, and nothing else happens to it,
/// after six of them at the latest.
pub proof fn law_load_ends(coords: TerrariumCoords, stage: StageView, events: Seq<EventView>)
    requires
        all_answer(coords, stage, events),
    ensures
        events.len() + remaining(run(coords, stage, events)) <= remaining(stage),
        events.len() <= 6,
        events.len() == remaining(stage) ==> run(coords, stage, events) is Finished,
    decreases events.len(),
{
    if events.len() > 0 {
        let before = events.drop_last();
        assert(before =~= events.take(events.len() - 1));
        assert(answers(run(coords, stage, before), events[events.len() - 1]));
        assert forall|i: int| 0 <= i < before.len() implies answers(
            run(coords, stage, before.take(i)),
            #[trigger] before[i],
        ) by {
            assert(before.take(i) =~= events.take(i));
            assert(before[i] == events[i]);
        }
        law_load_ends(coords, stage, before);
        law_answers_advance(coords, run(coords, stage, before), events.last());
    }
}

/// A load whose file is on disk sends no request, receives nothing and writes nothing: all that
/// follows is reading the file and decoding it.
pub proof fn law_no_download_of_file_on_disk(coords: TerrariumCoords, events: Seq<EventView>)
    ensures
        ({
            let stage = run(
                coords,
                next_stage(coords, StageView::Probing, EventView::FileExists(true)),
                events,
            );
            stage == StageView::Reading(None) || stage is Decoding || stage is Finished
        }),
    decreases events.len(),
{
    if events.len() > 0 {
        law_no_download_of_file_on_disk(coords, events.drop_last());
    }
}

/// Whether the file was found missing at event `i`, the server agreed at event `j` and sent `body` at
/// event `k`.
pub open spec fn downloaded(
    events: Seq<EventView>,
    i: int,
    j: int,
    k: int,
    body: Seq<u8>,
) -> bool {
    &&& 0 <= i < j < k < events.len()
    &&& events[i] == EventView::FileExists(false)
    &&& events[j] matches EventView::Response(success, _) && success
    &&& events[k] == EventView::Body(body)
}

/// Whether the file was found missing at event `i` and the server agreed at event `j`.
spec fn agreed(events: Seq<EventView>, i: int, j: int) -> bool {
    &&& 0 <= i < j < events.len()
    &&& events[i] == EventView::FileExists(false)
    &&& events[j] matches EventView::Response(success, _) && success
}

/// Whether the file was found missing at event `i`.
spec fn absent(events: Seq<EventView>, i: int) -> bool {
    0 <= i < events.len() && events[i] == EventView::FileExists(false)
}

/// How the request of a tile is reached.
proof fn lemma_requested(coords: TerrariumCoords, events: Seq<EventView>) -> (i: int)
    requires
        run(coords, StageView::Probing, events) is Requesting,
    ensures
        absent(events, i),
    decreases events.len(),
{
    let before = events.drop_last();
    let last = events.len() - 1;
    if run(coords, StageView::Probing, before) is Requesting {
        lemma_requested(coords, before)
    } else {
        last
    }
}

/// How the reception of a tile is reached.
proof fn lemma_received(coords: TerrariumCoords, events: Seq<EventView>) -> (at: (int, int))
    requires
        run(coords, StageView::Probing, events) is Receiving,
    ensures
        agreed(events, at.0, at.1),
    decreases events.len(),
{
    let before = events.drop_last();
    let last = events.len() - 1;
    if run(coords, StageView::Probing, before) is Receiving {
        lemma_received(coords, before)
    } else {
        (lemma_requested(coords, before), last)
    }
}

/// What is written to a tile's file is what the server sent, after a response that means success,
/// for a tile whose file was not on disk.
pub proof fn law_written_is_downloaded(
    coords: TerrariumCoords,
    events: Seq<EventView>,
    body: Seq<u8>,
)
    requires
        run(coords, StageView::Probing, events) == StageView::Writing(body),
    ensures
        exists|i: int, j: int, k: int| downloaded(events, i, j, k, body),
    decreases events.len(),
{
    let before = events.drop_last();
    let last = events.len() - 1;
    if run(coords, StageView::Probing, before) == StageView::Writing(body) {
        law_written_is_downloaded(coords, before, body);
        let (i, j, k) = choose|i: int, j: int, k: int| downloaded(before, i, j, k, body);
        assert(downloaded(events, i, j, k, body));
    } else {
        let (i, j) = lemma_received(coords, before);
        assert(downloaded(events, i, j, last, body));
    }
}

/// What is decoded is what was read of the tile's file, and not nothing.
pub proof fn law_decoded_is_what_was_read(
    coords: TerrariumCoords,
    events: Seq<EventView>,
    bytes: Seq<u8>,
)
    requires
        run(coords, StageView::Probing, events) == StageView::Decoding(bytes),
    ensures
        bytes.len() > 0,
        events.contains(EventView::FileRead(bytes)),
    decreases events.len(),
{
    let before = events.drop_last();
    let last = events.len() - 1;
    if run(coords, StageView::Probing, before) == StageView::Decoding(bytes) {
        law_decoded_is_what_was_read(coords, before, bytes);
        let i = choose|i: int| 0 <= i < before.len() && before[i] == EventView::FileRead(bytes);
        assert(events[i] == EventView::FileRead(bytes));
    } else {
        assert(events[last] == EventView::FileRead(bytes));
    }
}

/// The tile for what was read of its file and what the decoder made of that: the decoded image, or
/// the dummy tile if nothing was read or nothing was decoded.
pub open spec fn tile_view(bytes: Seq<u8>, decoded: Option<TileView>) -> TileView {
    if bytes.len() == 0 {
        dummy_view()
    } else {
        decoded_view(decoded)
    }
}

/// Reading the file ends a load: with the image decoded from it, or with the dummy tile.
pub proof fn law_file_becomes_tile(
    coords: TerrariumCoords,
    warning: Option<Seq<char>>,
    bytes: Seq<u8>,
    decoded: Option<TileView>,
)
    ensures
        run(
            coords,
            StageView::Reading(warning),
            seq![EventView::FileRead(bytes), EventView::Decoded(decoded)],
        ) == StageView::Finished(tile_view(bytes, decoded)),
{
    lemma_run_two(
        coords,
        StageView::Reading(warning),
        EventView::FileRead(bytes),
        EventView::Decoded(decoded),
    );
}

/// A download that goes wrong at any stage does not stop the load: the warning names the tile and the
/// reason, and the tile is made of what the file holds.
pub proof fn law_failed_download_is_read_anyway(
    coords: TerrariumCoords,
    stage: StageView,
    error: Seq<char>,
    bytes: Seq<u8>,
    decoded: Option<TileView>,
)
    requires
        stage is Requesting || stage is Receiving || stage is Writing,
    ensures
        next_stage(coords, stage, EventView::Failed(error)) == given_up(coords, error),
        run(
            coords,
            stage,
            seq![
                EventView::Failed(error),
                EventView::FileRead(bytes),
                EventView::Decoded(decoded),
            ],
        ) == StageView::Finished(tile_view(bytes, decoded)),
{
    lemma_run_three(
        coords,
        stage,
        EventView::Failed(error),
        EventView::FileRead(bytes),
        EventView::Decoded(decoded),
    );
}

/// A request that the server refuses is answered in the same way; the reason names the address and
/// the status.
pub proof fn law_refused_request_is_read_anyway(
    coords: TerrariumCoords,
    status: Seq<char>,
    bytes: Seq<u8>,
    decoded: Option<TileView>,
)
    ensures
        next_stage(coords, StageView::Requesting, EventView::Response(false, status)) == given_up(
            coords,
            spec_refusal(coords.spec_url(), status),
        ),
        run(
            coords,
            StageView::Requesting,
            seq![
                EventView::Response(false, status),
                EventView::FileRead(bytes),
                EventView::Decoded(decoded),
            ],
        ) == StageView::Finished(tile_view(bytes, decoded)),
{
    lemma_run_three(
        coords,
        StageView::Requesting,
        EventView::Response(false, status),
        EventView::FileRead(bytes),
        EventView::Decoded(decoded),
    );
}

/// A tile that can neither be downloaded nor read from disk, or whose file cannot be decoded, ends up
/// in the cache all the same, at sea level.
pub proof fn law_tile_not_obtained_is_at_sea_level(
    tiles: Map<TileKey, TileView>,
    coords: TerrariumCoords,
    warning: Option<Seq<char>>,
    bytes: Seq<u8>,
    decoded: Option<TileView>,
    x: nat,
    y: nat,
)
    requires
        bytes.len() == 0 || decoded is None,
    ensures
        run(
            coords,
            StageView::Reading(warning),
            seq![EventView::FileRead(bytes), EventView::Decoded(decoded)],
        ) matches StageView::Finished(image) && {
            let after = tiles.insert(key_of(coords), image);
            &&& after.contains_key(key_of(coords))
            &&& readable(after, key_of(coords), x, y)
            &&& height(after, key_of(coords), x, y) == 0
        },
{
    law_file_becomes_tile(coords, warning, bytes, decoded);
    law_tile_not_had_is_at_sea_level(
        tiles.insert(key_of(coords), dummy_view()),
        key_of(coords),
        x,
        y,
    );
}

/// Whether the view is that of a whole tile at sea level: 512 pixels along each side, with red 128 and
/// nothing else.
pub open spec fn is_flat(view: TileView) -> bool {
    &&& view.width == 512
    &&& view.height == 512
    &&& view.samples.len() == 3 * 512 * 512
    &&& forall|i: int|
        0 <= i < view.samples.len() ==> #[trigger] view.samples[i] == (if i % 3 == 0 {
            128u8
        } else {
            0u8
        })
}

/// Whether the file is on disk decides what a load does first: it reads the file if it is there, with
/// no warning, and requests the tile if it is not.
pub proof fn law_missing_file_is_requested(load: TileLoad, on_disk: bool, after: TileLoad)
    requires
        load.stage is Probing,
        call_ensures(TileLoad::step, (load, LoadEvent::FileExists(on_disk)), after),
    ensures
        after.coords == load.coords,
        on_disk ==> after.stage == Stage::Reading(None),
        !on_disk ==> after.stage is Requesting,
{
}

/// Whatever the server sends after it has agreed is written to the tile's file, all of it and nothing
/// else, and then the file is read, with no warning.
pub proof fn law_all_that_is_sent_is_written(
    load: TileLoad,
    status: String,
    receiving: TileLoad,
    body: Vec<u8>,
    writing: TileLoad,
    reading: TileLoad,
)
    requires
        load.stage is Requesting,
        call_ensures(TileLoad::step, (load, LoadEvent::Response(true, status)), receiving),
        call_ensures(TileLoad::step, (receiving, LoadEvent::Body(body)), writing),
        call_ensures(TileLoad::step, (writing, LoadEvent::Written), reading),
    ensures
        receiving.stage is Receiving,
        writing.stage matches Stage::Writing(bytes) && bytes@ == body@,
        reading.stage == Stage::Reading(None),
        receiving.coords == load.coords,
        writing.coords == load.coords,
        reading.coords == load.coords,
{
}

/// A file that is not on disk is downloaded, written, read and decoded to the tile, for every tile,
/// every body and every image.
pub proof fn law_download_becomes_tile(
    coords: TerrariumCoords,
    status: Seq<char>,
    body: Seq<u8>,
    bytes: Seq<u8>,
    image: TileView,
)
    requires
        bytes.len() > 0,
    ensures
        ({
            let asked = seq![EventView::FileExists(false)];
            let agreed = asked.push(EventView::Response(true, status));
            let sent = agreed.push(EventView::Body(body));
            let written = sent.push(EventView::Written);
            let read = written.push(EventView::FileRead(bytes));
            let decoded = read.push(EventView::Decoded(Some(image)));
            &&& run(coords, StageView::Probing, asked) == StageView::Requesting
            &&& run(coords, StageView::Probing, agreed) == StageView::Receiving
            &&& run(coords, StageView::Probing, sent) == StageView::Writing(body)
            &&& run(coords, StageView::Probing, written) == StageView::Reading(None)
            &&& run(coords, StageView::Probing, read) == StageView::Decoding(bytes)
            &&& run(coords, StageView::Probing, decoded) == StageView::Finished(image)
        }),
{
    let asked = seq![EventView::FileExists(false)];
    let agreed = asked.push(EventView::Response(true, status));
    let sent = agreed.push(EventView::Body(body));
    let written = sent.push(EventView::Written);
    let read = written.push(EventView::FileRead(bytes));
    let decoded = read.push(EventView::Decoded(Some(image)));
    reveal_with_fuel(run, 2);
    assert(asked.drop_last().len() == 0);
    assert(agreed.drop_last() =~= asked);
    assert(sent.drop_last() =~= agreed);
    assert(written.drop_last() =~= sent);
    assert(read.drop_last() =~= written);
    assert(decoded.drop_last() =~= read);
}

/// A download that goes wrong, wherever it does, is followed by reading the file, with a warning that
/// names the tile by its numerals and ends with the reason.
pub proof fn law_failure_is_warned_of(
    load: TileLoad,
    error: String,
    after: TileLoad,
    z: Seq<char>,
    x: Seq<char>,
    y: Seq<char>,
)
    requires
        load.stage is Requesting || load.stage is Receiving || load.stage is Writing,
        call_ensures(TileLoad::step, (load, LoadEvent::Failed(error)), after),
        are_numerals_of(load.coords, z, x, y),
    ensures
        after.coords == load.coords,
        after.stage matches Stage::Reading(Some(warning)) && warning@ == "Missing tile "@ + z
            + "/"@ + x + "/"@ + y + ": "@ + error@,
{
    lemma_missing_by_numerals(load.coords, error@, z, x, y);
}

/// A refusal is followed by reading the file, with a warning that names the tile, the address that was
/// asked and the status.
pub proof fn law_refusal_is_warned_of(
    load: TileLoad,
    status: String,
    after: TileLoad,
    z: Seq<char>,
    x: Seq<char>,
    y: Seq<char>,
)
    requires
        load.stage is Requesting,
        call_ensures(TileLoad::step, (load, LoadEvent::Response(false, status)), after),
        are_numerals_of(load.coords, z, x, y),
    ensures
        after.coords == load.coords,
        after.stage matches Stage::Reading(Some(warning)) && warning@ == "Missing tile "@ + z
            + "/"@ + x + "/"@ + y + ": "@ + ("Server responded to "@ + (
        "https://tiles.mapterhorn.com/"@ + z + "/"@ + x + "/"@ + y + ".webp"@)
            + " with status: "@ + status@),
{
    let error = spec_refusal(load.coords.spec_url(), status@);
    lemma_missing_by_numerals(load.coords, error, z, x, y);
    lemma_url_by_numerals(load.coords, z, x, y);
}

/// What is read of the file is what is decoded, all of it; if nothing is read, the tile is at sea
/// level.
pub proof fn law_all_that_is_read_is_decoded(load: TileLoad, bytes: Vec<u8>, after: TileLoad)
    requires
        load.stage is Reading,
        call_ensures(TileLoad::step, (load, LoadEvent::FileRead(bytes)), after),
    ensures
        after.coords == load.coords,
        bytes@.len() > 0 ==> (after.stage matches Stage::Decoding(read) && read@ == bytes@),
        bytes@.len() == 0 ==> (after.stage matches Stage::Finished(image) && is_flat(image@)),
{
}

/// The tile is the image that was decoded, whatever image it is; if none was, the tile is at sea level.
pub proof fn law_decoded_image_is_the_tile(
    load: TileLoad,
    decoded: Option<TileImage>,
    after: TileLoad,
)
    requires
        load.stage is Decoding,
        call_ensures(TileLoad::step, (load, LoadEvent::Decoded(decoded)), after),
    ensures
        after.coords == load.coords,
        match decoded {
            Some(image) => after.stage matches Stage::Finished(tile) && tile@ == image@,
            None => after.stage matches Stage::Finished(tile) && is_flat(tile@),
        },
{
}

/// Whether the event is an answer to what a load at the stage asks for.
pub open spec fn is_answer(stage: Stage, event: LoadEvent) -> bool {
    match stage {
        Stage::Probing => event is FileExists,
        Stage::Requesting => event is Failed || event is Response,
        Stage::Receiving => event is Failed || event is Body,
        Stage::Writing(_) => event is Failed || event is Written,
        Stage::Reading(_) => event is FileRead,
        Stage::Decoding(_) => event is Decoded,
        Stage::Finished(_) => false,
    }
}

/// Whether the stages are the same, with the same bytes, the same warning or the same image.
pub open spec fn same_stage(s: Stage, t: Stage) -> bool {
    match (s, t) {
        (Stage::Probing, Stage::Probing) => true,
        (Stage::Requesting, Stage::Requesting) => true,
        (Stage::Receiving, Stage::Receiving) => true,
        (Stage::Writing(body), Stage::Writing(other)) => body@ == other@,
        (Stage::Reading(None), Stage::Reading(None)) => true,
        (Stage::Reading(Some(warning)), Stage::Reading(Some(other))) => warning@ == other@,
        (Stage::Decoding(bytes), Stage::Decoding(other)) => bytes@ == other@,
        (Stage::Finished(image), Stage::Finished(other)) => image@ == other@,
        _ => false,
    }
}

/// An event that is no answer to what a load asks for leaves it as it is; and no event changes which
/// tile is loaded.
pub proof fn law_other_events_change_nothing(load: TileLoad, event: LoadEvent, after: TileLoad)
    requires
        call_ensures(TileLoad::step, (load, event), after),
    ensures
        after.coords == load.coords,
        !is_answer(load.stage, event) ==> same_stage(load.stage, after.stage),
{
}

/// What a load asks for: to look for the tile's own file, to request the tile's own address, to write
/// all the bytes received to that file, to read that file, after the warning if there is one, to decode
/// all the bytes read, and to store the tile in the end.
pub proof fn law_actions_are_about_the_tile(
    load: TileLoad,
    action: LoadAction,
    z: Seq<char>,
    x: Seq<char>,
    y: Seq<char>,
)
    requires
        call_ensures(TileLoad::action, (&load,), action),
        are_numerals_of(load.coords, z, x, y),
    ensures
        ({
            let file = "terrain_cache/"@ + z + "_"@ + x + "_"@ + y + ".webp"@;
            let address = "https://tiles.mapterhorn.com/"@ + z + "/"@ + x + "/"@ + y + ".webp"@;
            match load.stage {
                Stage::Probing => action matches LoadAction::CheckFile(path) && path@ == file,
                Stage::Requesting => action matches LoadAction::Request(url) && url@ == address,
                Stage::Receiving => action is ReceiveBody,
                Stage::Writing(bytes) => action matches LoadAction::WriteFile(path, body) && path@
                    == file && body@ == bytes@,
                Stage::Reading(warning) => action matches LoadAction::ReadFile(path, text) && path@
                    == file && (warning is None <==> text is None) && (warning matches Some(
                    expected,
                ) ==> text->0@ == expected@),
                Stage::Decoding(bytes) => action matches LoadAction::Decode(body) && body@
                    == bytes@,
                Stage::Finished(_) => action is Store,
            }
        }),
{
    lemma_file_name_by_numerals(load.coords, z, x, y);
    lemma_url_by_numerals(load.coords, z, x, y);
}

/// A load is of the tile that it was made for, and begins by looking for its file.
pub proof fn law_load_is_of_its_tile(key: TileKey, load: TileLoad)
    requires
        call_ensures(TileLoad::new, (key,), load),
    ensures
        load.coords.z == key.0,
        load.coords.x == key.1,
        load.coords.y == key.2,
        load.stage is Probing,
{
}

/// Whether one of the loads is of the tile.
pub open spec fn is_loaded(loads: Seq<TileLoad>, key: TileKey) -> bool {
    exists|i: int|
        0 <= i < loads.len() && ({
            let coords = (#[trigger] loads[i]).coords;
            coords.z == key.0 && coords.x == key.1 && coords.y == key.2
        })
}

/// A tile is loaded if it is required and not in the cache, and in no other case; every load begins by
/// looking for its file. So nothing is loaded once every required tile is in the cache.
pub proof fn law_only_absent_tiles_are_loaded(
    cache: TileCache,
    required: Vec<TileKey>,
    loads: Vec<TileLoad>,
    key: TileKey,
)
    requires
        call_ensures(ensure_tiles_loaded, (&cache, &required), loads),
    ensures
        is_loaded(loads@, key) <==> required@.contains(key) && !cache@.contains_key(key),
        forall|i: int| 0 <= i < loads@.len() ==> (#[trigger] loads@[i]).stage is Probing,
        (forall|i: int|
            0 <= i < required@.len() ==> cache@.contains_key(#[trigger] required@[i]))
            ==> loads@.len() == 0,
{
    lemma_missing(cache@, required@, key);
    let keys = missing(cache@, required@);
    if keys.contains(key) {
        let i = choose|i: int| 0 <= i < keys.len() && keys[i] == key;
        assert(key_of(loads@[i].coords) == keys[i]);
        assert(is_loaded(loads@, key));
    }
    if is_loaded(loads@, key) {
        let i = choose|i: int|
            0 <= i < loads@.len() && ({
                let coords = (#[trigger] loads@[i]).coords;
                coords.z == key.0 && coords.x == key.1 && coords.y == key.2
            });
        assert(keys[i] == key);
    }
    assert forall|i: int| 0 <= i < loads@.len() implies (#[trigger] loads@[i]).stage is Probing by {
        assert(loads@[i].stage@ == StageView::Probing);
    }
    if loads@.len() > 0 && forall|i: int|
        0 <= i < required@.len() ==> cache@.contains_key(#[trigger] required@[i]) {
        lemma_missing(cache@, required@, keys[0]);
        assert(keys.contains(keys[0]));
        let i = choose|i: int| 0 <= i < required@.len() && required@[i] == keys[0];
        assert(cache@.contains_key(required@[i]));
    }
}

/// Tiles are loaded in the order in which they are required, as often as they are: one more required
/// tile makes one more load, at the end, if it is not in the cache, and none if it is.
pub proof fn law_one_more_required_tile(
    cache: TileCache,
    required: Vec<TileKey>,
    loads: Vec<TileLoad>,
    more: Vec<TileKey>,
    more_loads: Vec<TileLoad>,
    key: TileKey,
    i: int,
)
    requires
        call_ensures(ensure_tiles_loaded, (&cache, &required), loads),
        call_ensures(ensure_tiles_loaded, (&cache, &more), more_loads),
        more@ == required@.push(key),
    ensures
        required@.len() == 0 ==> loads@.len() == 0,
        more_loads@.len() == loads@.len() + (if cache@.contains_key(key) {
            0int
        } else {
            1
        }),
        0 <= i < loads@.len() ==> more_loads@[i].coords == loads@[i].coords,
        !cache@.contains_key(key) ==> ({
            let coords = more_loads@.last().coords;
            coords.z == key.0 && coords.x == key.1 && coords.y == key.2
        }),
{
    reveal(Seq::filter);
    assert(more@.drop_last() =~= required@);
    let keys = missing(cache@, required@);
    let more_keys = missing(cache@, more@);
    assert(more_keys == if cache@.contains_key(key) {
        keys
    } else {
        keys.push(key)
    });
    if 0 <= i < loads@.len() {
        assert(key_of(loads@[i].coords) == keys[i]);
        assert(key_of(more_loads@[i].coords) == more_keys[i]);
    }
    if !cache@.contains_key(key) {
        let last = more_loads@.len() - 1;
        assert(key_of(more_loads@[last].coords) == more_keys[last]);
    }
}

/// A finished load puts its image into the cache under the key of its own tile, and nothing else
/// changes; one that is not finished is handed back, and nothing changes.
pub proof fn law_store_keeps_all_other_tiles(
    load: TileLoad,
    cache: &mut TileCache,
    result: Result<(), TileLoad>,
    other: TileKey,
)
    requires
        call_ensures(TileLoad::store, (load, cache), result),
    ensures
        match load.stage {
            Stage::Finished(image) => {
                let key = (load.coords.z, load.coords.x, load.coords.y);
                &&& result is Ok
                &&& final(cache)@.contains_key(key)
                &&& final(cache)@[key] == image@
                &&& other != key ==> {
                    &&& final(cache)@.contains_key(other) == old(cache)@.contains_key(other)
                    &&& final(cache)@[other] == old(cache)@[other]
                }
            },
            _ => {
                &&& result matches Err(back) && back.coords == load.coords && same_stage(
                    back.stage,
                    load.stage,
                )
                &&& final(cache)@.contains_key(other) == old(cache)@.contains_key(other)
                &&& final(cache)@[other] == old(cache)@[other]
            },
        },
{
}

/// A run of two events is two steps.
proof fn lemma_run_two(coords: TerrariumCoords, stage: StageView, e: EventView, f: EventView)
    ensures
        run(coords, stage, seq![e, f]) == next_stage(coords, next_stage(coords, stage, e), f),
{
    reveal_with_fuel(run, 3);
    assert(seq![e, f].drop_last() =~= seq![e]);
    assert(seq![e].drop_last() =~= seq![]);
}

/// A run of three events is three steps.
proof fn lemma_run_three(
    coords: TerrariumCoords,
    stage: StageView,
    e: EventView,
    f: EventView,
    g: EventView,
)
    ensures
        run(coords, stage, seq![e, f, g]) == next_stage(
            coords,
            next_stage(coords, next_stage(coords, stage, e), f),
            g,
        ),
{
    lemma_run_two(coords, stage, e, f);
    assert(seq![e, f, g].drop_last() =~= seq![e, f]);
}

/// The cache after the images have been put into it one after the other.
pub open spec fn stored(
    tiles: Map<TileKey, TileView>,
    images: Seq<(TileKey, TileView)>,
) -> Map<TileKey, TileView>
    decreases images.len(),
{
    if images.len() == 0 {
        tiles
    } else {
        stored(tiles, images.drop_last()).insert(images.last().0, images.last().1)
    }
}

/// What is put into the cache stays there until something else is put in its place: a key has the
/// last image stored under it, or what it had before if there is none.
pub proof fn law_last_image_stays(
    tiles: Map<TileKey, TileView>,
    images: Seq<(TileKey, TileView)>,
    key: TileKey,
)
    ensures
        (forall|i: int| 0 <= i < images.len() ==> (#[trigger] images[i]).0 != key) ==> {
            &&& stored(tiles, images).contains_key(key) == tiles.contains_key(key)
            &&& stored(tiles, images)[key] == tiles[key]
        },
        forall|i: int|
            #![trigger images[i]]
            0 <= i < images.len() && images[i].0 == key && (forall|j: int|
                i < j < images.len() ==> (#[trigger] images[j]).0 != key) ==> {
                &&& stored(tiles, images).contains_key(key)
                &&& stored(tiles, images)[key] == images[i].1
            },
    decreases images.len(),
{
    if images.len() > 0 {
        let before = images.drop_last();
        law_last_image_stays(tiles, before, key);
        assert(images.last() == images[images.len() - 1]);
        assert forall|i: int|
            #![trigger images[i]]
            0 <= i < images.len() && images[i].0 == key && (forall|j: int|
                i < j < images.len() ==> (#[trigger] images[j]).0 != key) implies {
            &&& stored(tiles, images).contains_key(key)
            &&& stored(tiles, images)[key] == images[i].1
        } by {
            if i < images.len() - 1 {
                assert(before[i] == images[i]);
                assert forall|j: int| i < j < before.len() implies (#[trigger] before[j]).0
                    != key by {
                    assert(before[j] == images[j]);
                }
            }
        }
        if forall|i: int| 0 <= i < images.len() ==> (#[trigger] images[i]).0 != key {
            assert forall|i: int| 0 <= i < before.len() implies (#[trigger] before[i]).0 != key by {
                assert(before[i] == images[i]);
            }
        }
    }
}

/// Nothing leaves the cache when images are put into it.
pub proof fn law_nothing_is_evicted(
    tiles: Map<TileKey, TileView>,
    images: Seq<(TileKey, TileView)>,
    key: TileKey,
)
    requires
        tiles.contains_key(key),
    ensures
        stored(tiles, images).contains_key(key),
    decreases images.len(),
{
    if images.len() > 0 {
        law_nothing_is_evicted(tiles, images.drop_last(), key);
    }
}

/// An image that has been put into the cache is there, whatever is put in after it.
proof fn lemma_stored_is_there(
    tiles: Map<TileKey, TileView>,
    images: Seq<(TileKey, TileView)>,
    i: int,
)
    requires
        0 <= i < images.len(),
    ensures
        stored(tiles, images).contains_key(images[i].0),
    decreases images.len(),
{
    if i < images.len() - 1 {
        assert(images.drop_last()[i] == images[i]);
        lemma_stored_is_there(tiles, images.drop_last(), i);
    }
}

/// Whether some image is stored under the key.
pub open spec fn has_image(images: Seq<(TileKey, TileView)>, key: TileKey) -> bool {
    exists|i: int| 0 <= i < images.len() && (#[trigger] images[i]).0 == key
}

/// Once an image has been stored for each of the required tiles that was missing, in any order and
/// among any others, every required tile is in the cache.
pub proof fn law_required_tiles_are_loaded(
    tiles: Map<TileKey, TileView>,
    required: Seq<TileKey>,
    images: Seq<(TileKey, TileView)>,
    key: TileKey,
)
    requires
        forall|k: TileKey| #[trigger]
            missing(tiles, required).contains(k) ==> has_image(images, k),
        required.contains(key),
    ensures
        stored(tiles, images).contains_key(key),
{
    if tiles.contains_key(key) {
        law_nothing_is_evicted(tiles, images, key);
    } else {
        let absent = |k: TileKey| !tiles.contains_key(k);
        let at = choose|at: int| 0 <= at < required.len() && required[at] == key;
        required.lemma_filter_contains(absent, at);
        assert(missing(tiles, required).contains(key));
        let i = choose|i: int| 0 <= i < images.len() && (#[trigger] images[i]).0 == key;
        lemma_stored_is_there(tiles, images, i);
    }
}

} // verus!
