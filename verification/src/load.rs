//! How a tile gets into the cache: from its file on disk, downloaded first if need be.
//!
//! A [`TileLoad`] says what has to be done next ([`TileLoad::action`]); whoever does it reports what
//! came of it ([`TileLoad::step`]), until there is an image to put into the cache
//! ([`TileLoad::store`]).
use std::sync::Arc;
use vstd::prelude::*;
use crate::address::{refusal, spec_refusal, TerrariumCoords};
use crate::cache::{missing, TileCache, TileKey};
use crate::tile_image::{dummy_view, TileImage, TileView};

verus! {

/// How far a load has come.
pub enum StageView {
    /// It has to be found out whether the tile's file is on disk.
    Probing,
    /// The tile has to be requested from the server.
    Requesting,
    /// The server has agreed to send the tile, whose bytes have to be received.
    Receiving,
    /// The bytes received have to be written to the tile's file.
    Writing(Seq<u8>),
    /// The tile's file has to be read, after the warning, if any, has been logged.
    Reading(Option<Seq<char>>),
    /// The bytes of the tile's file, of which there are some, have to be decoded.
    Decoding(Seq<u8>),
    /// This image has to be put into the cache.
    Finished(TileView),
}

/// What has come of the last action.
pub enum EventView {
    /// Whether the tile's file is on disk.
    FileExists(bool),
    /// The download went wrong, for the reason given.
    Failed(Seq<char>),
    /// The server has responded, with a status that means success or not.
    Response(bool, Seq<char>),
    /// The bytes that the server has sent.
    Body(Seq<u8>),
    /// The tile's file has been written.
    Written,
    /// The bytes of the tile's file, none if it could not be read.
    FileRead(Seq<u8>),
    /// The image that the bytes of the tile's file were decoded to, if they were.
    Decoded(Option<TileView>),
}

/// The stage after a download that went wrong for the reason given.
pub open spec fn given_up(coords: TerrariumCoords, error: Seq<char>) -> StageView {
    StageView::Reading(Some(coords.spec_missing(error)))
}

/// The tile for an outcome of the decoder: the image, or the dummy tile if there is none.
pub open spec fn decoded_view(decoded: Option<TileView>) -> TileView {
    match decoded {
        Some(image) => image,
        None => dummy_view(),
    }
}

/// The stage that follows `stage` on `event`. An event that has nothing to do with the stage changes
/// nothing.
pub open spec fn next_stage(
    coords: TerrariumCoords,
    stage: StageView,
    event: EventView,
) -> StageView {
    match (stage, event) {
        (StageView::Probing, EventView::FileExists(true)) => StageView::Reading(None),
        (StageView::Probing, EventView::FileExists(false)) => StageView::Requesting,
        (StageView::Requesting, EventView::Failed(error)) => given_up(coords, error),
        (StageView::Requesting, EventView::Response(true, _)) => StageView::Receiving,
        (StageView::Requesting, EventView::Response(false, status)) => given_up(
            coords,
            spec_refusal(coords.spec_url(), status),
        ),
        (StageView::Receiving, EventView::Failed(error)) => given_up(coords, error),
        (StageView::Receiving, EventView::Body(body)) => StageView::Writing(body),
        (StageView::Writing(_), EventView::Failed(error)) => given_up(coords, error),
        (StageView::Writing(_), EventView::Written) => StageView::Reading(None),
        (StageView::Reading(_), EventView::FileRead(bytes)) => if bytes.len() == 0 {
            StageView::Finished(dummy_view())
        } else {
            StageView::Decoding(bytes)
        },
        (StageView::Decoding(_), EventView::Decoded(decoded)) => StageView::Finished(
            decoded_view(decoded),
        ),
        _ => stage,
    }
}

/// How far a load has come.
#[derive(Debug)]
pub enum Stage {
    Probing,
    Requesting,
    Receiving,
    Writing(Vec<u8>),
    Reading(Option<String>),
    Decoding(Vec<u8>),
    Finished(TileImage),
}

impl View for Stage {
    type V = StageView;

    open spec fn view(&self) -> StageView {
        match *self {
            Stage::Probing => StageView::Probing,
            Stage::Requesting => StageView::Requesting,
            Stage::Receiving => StageView::Receiving,
            Stage::Writing(body) => StageView::Writing(body@),
            Stage::Reading(None) => StageView::Reading(None),
            Stage::Reading(Some(warning)) => StageView::Reading(Some(warning@)),
            Stage::Decoding(bytes) => StageView::Decoding(bytes@),
            Stage::Finished(image) => StageView::Finished(image@),
        }
    }
}

/// What has come of the last action.
#[derive(Debug)]
pub enum LoadEvent {
    FileExists(bool),
    Failed(String),
    Response(bool, String),
    Body(Vec<u8>),
    Written,
    FileRead(Vec<u8>),
    Decoded(Option<TileImage>),
}

impl View for LoadEvent {
    type V = EventView;

    open spec fn view(&self) -> EventView {
        match *self {
            LoadEvent::FileExists(exists) => EventView::FileExists(exists),
            LoadEvent::Failed(error) => EventView::Failed(error@),
            LoadEvent::Response(success, status) => EventView::Response(success, status@),
            LoadEvent::Body(body) => EventView::Body(body@),
            LoadEvent::Written => EventView::Written,
            LoadEvent::FileRead(bytes) => EventView::FileRead(bytes@),
            LoadEvent::Decoded(Some(image)) => EventView::Decoded(Some(image@)),
            LoadEvent::Decoded(None) => EventView::Decoded(None),
        }
    }
}

/// What has to be done next.
#[derive(Debug)]
pub enum LoadAction<'a> {
    /// Find out whether the file is on disk.
    CheckFile(String),
    /// Wait for a free slot, then send a request for the address.
    Request(String),
    /// Receive the bytes of the response.
    ReceiveBody,
    /// Write the bytes to the file.
    WriteFile(String, &'a Vec<u8>),
    /// Log the warning, if there is one, and read the file.
    ReadFile(String, Option<&'a String>),
    /// Decode the bytes, as a WebP image reduced to RGB.
    Decode(&'a Vec<u8>),
    /// Put the image into the cache, with [`TileLoad::store`].
    Store,
}

/// The key under which the tile is kept in the cache.
pub open spec fn key_of(coords: TerrariumCoords) -> TileKey {
    (coords.z, coords.x, coords.y)
}

/// A tile on its way into the cache.
#[derive(Debug)]
pub struct TileLoad {
    pub coords: TerrariumCoords,
    pub stage: Stage,
}

impl TileLoad {
    /// A load of the tile, at its start.
    pub fn new(key: TileKey) -> (load: TileLoad)
        ensures
            key_of(load.coords) == key,
            (load.coords.z, load.coords.x, load.coords.y) == key,
            load.stage@ == StageView::Probing,
            load.stage is Probing,
    {
        TileLoad {
            coords: TerrariumCoords { z: key.0, x: key.1, y: key.2 },
            stage: Stage::Probing,
        }
    }

    /// What has to be done next.
    pub fn action(&self) -> (action: LoadAction<'_>)
        ensures
            match self.stage {
                Stage::Probing => action matches LoadAction::CheckFile(path) && path@
                    == self.coords.spec_file_name(),
                Stage::Requesting => action matches LoadAction::Request(url) && url@
                    == self.coords.spec_url(),
                Stage::Receiving => action is ReceiveBody,
                Stage::Writing(bytes) => action matches LoadAction::WriteFile(path, body) && path@
                    == self.coords.spec_file_name() && *body == bytes,
                Stage::Reading(None) => action matches LoadAction::ReadFile(path, warning) && path@
                    == self.coords.spec_file_name() && warning is None,
                Stage::Reading(Some(text)) => action matches LoadAction::ReadFile(path, warning)
                    && path@ == self.coords.spec_file_name() && warning == Some(&text),
                Stage::Decoding(bytes) => action matches LoadAction::Decode(body) && *body == bytes,
                Stage::Finished(_) => action is Store,
            },
    {
        match &self.stage {
            Stage::Probing => LoadAction::CheckFile(self.coords.file_name()),
            Stage::Requesting => LoadAction::Request(self.coords.url()),
            Stage::Receiving => LoadAction::ReceiveBody,
            Stage::Writing(body) => LoadAction::WriteFile(self.coords.file_name(), body),
            Stage::Reading(warning) => {
                let warning = match warning {
                    Some(text) => Some(text),
                    None => None,
                };
                LoadAction::ReadFile(self.coords.file_name(), warning)
            },
            Stage::Decoding(bytes) => LoadAction::Decode(bytes),
            Stage::Finished(_) => LoadAction::Store,
        }
    }

    /// The stage after a download that went wrong for the reason given.
    fn give_up(coords: &TerrariumCoords, error: &str) -> (stage: Stage)
        ensures
            stage@ == given_up(*coords, error@),
    {
        Stage::Reading(Some(coords.missing(error)))
    }

    /// The load after `event`.
    pub fn step(self, event: LoadEvent) -> (load: TileLoad)
        ensures
            load.coords == self.coords,
            load.stage@ == next_stage(self.coords, self.stage@, event@),
    {
        let TileLoad { coords, stage } = self;
        let stage = match stage {
            Stage::Probing => match event {
                LoadEvent::FileExists(true) => Stage::Reading(None),
                LoadEvent::FileExists(false) => Stage::Requesting,
                _ => Stage::Probing,
            },
            Stage::Requesting => match event {
                LoadEvent::Failed(error) => TileLoad::give_up(&coords, error.as_str()),
                LoadEvent::Response(true, _) => Stage::Receiving,
                LoadEvent::Response(false, status) => {
                    let error = refusal(coords.url().as_str(), status.as_str());
                    TileLoad::give_up(&coords, error.as_str())
                },
                _ => Stage::Requesting,
            },
            Stage::Receiving => match event {
                LoadEvent::Failed(error) => TileLoad::give_up(&coords, error.as_str()),
                LoadEvent::Body(body) => Stage::Writing(body),
                _ => Stage::Receiving,
            },
            Stage::Writing(body) => match event {
                LoadEvent::Failed(error) => TileLoad::give_up(&coords, error.as_str()),
                LoadEvent::Written => Stage::Reading(None),
                _ => Stage::Writing(body),
            },
            Stage::Reading(warning) => match event {
                LoadEvent::FileRead(bytes) => if bytes.len() == 0 {
                    Stage::Finished(TileImage::dummy())
                } else {
                    Stage::Decoding(bytes)
                },
                _ => Stage::Reading(warning),
            },
            Stage::Decoding(bytes) => match event {
                LoadEvent::Decoded(Some(image)) => Stage::Finished(image),
                LoadEvent::Decoded(None) => Stage::Finished(TileImage::dummy()),
                _ => Stage::Decoding(bytes),
            },
            Stage::Finished(image) => Stage::Finished(image),
        };
        TileLoad { coords, stage }
    }

    /// Puts the image of a finished load into the cache; a load that is not finished is handed back
    /// and the cache stays as it is.
    pub fn store(self, cache: &mut TileCache) -> (stored: Result<(), TileLoad>)
        ensures
            match self.stage@ {
                StageView::Finished(image) => stored is Ok && final(cache)@ == old(cache)@.insert(
                    key_of(self.coords),
                    image,
                ),
                _ => stored == Err::<(), TileLoad>(self) && final(cache)@ == old(cache)@,
            },
            match self.stage {
                Stage::Finished(image) => {
                    let key = (self.coords.z, self.coords.x, self.coords.y);
                    &&& stored is Ok
                    &&& final(cache)@.contains_key(key)
                    &&& final(cache)@[key] == image@
                    &&& forall|other: TileKey|
                        #![trigger final(cache)@.contains_key(other)]
                        #![trigger final(cache)@[other]]
                        other != key ==> {
                            &&& final(cache)@.contains_key(other) == old(cache)@.contains_key(
                                other,
                            )
                            &&& final(cache)@[other] == old(cache)@[other]
                        }
                },
                _ => stored is Err && final(cache)@ == old(cache)@,
            },
    {
        match self {
            TileLoad { coords, stage: Stage::Finished(image) } => {
                cache.insert((coords.z, coords.x, coords.y), Arc::new(image));
                Ok(())
            },
            load => Err(load),
        }
    }
}

/// A load, at its start, for each of the required tiles that is not in the cache, in order.
pub fn ensure_tiles_loaded(cache: &TileCache, required: &Vec<TileKey>) -> (loads: Vec<TileLoad>)
    ensures
        loads@.len() == missing(cache@, required@).len(),
        forall|i: int|
            0 <= i < loads@.len() ==> key_of((#[trigger] loads@[i]).coords) == missing(
                cache@,
                required@,
            )[i],
        forall|i: int|
            0 <= i < loads@.len() ==> (#[trigger] loads@[i]).stage@ == StageView::Probing,
{
    let keys = cache.missing(required);
    let mut loads: Vec<TileLoad> = Vec::new();
    let mut i: usize = 0;
    while i < keys.len()
        invariant
            i <= keys@.len(),
            loads@.len() == i,
            forall|j: int| 0 <= j < i ==> key_of((#[trigger] loads@[j]).coords) == keys@[j],
            forall|j: int| 0 <= j < i ==> (#[trigger] loads@[j]).stage@ == StageView::Probing,
        decreases keys@.len() - i,
    {
        loads.push(TileLoad::new(keys[i]));
        i = i + 1;
    }
    loads
}

} // verus!
