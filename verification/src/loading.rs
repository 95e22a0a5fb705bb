//! The startup phase: plan every asset the widgets will need, take in
//! what persistent storage already holds, and walk the rest through the
//! generation collaborator one request at a time.
//!
//! Reading cache files and calling the generation service are the
//! embedding program's steps; this module makes every decision between
//! them: what to request, what counts as already resolved, and what to do
//! with each outcome.

use vstd::prelude::*;
use vstd::string::StringExecFns;

use crate::cache::AssetCache;
use crate::cache::AssetKey;
use crate::cache::AssetRequest;
use crate::cache::CacheModel;
use crate::cache::spec_stored;
use crate::codec::png_decoding_of;
use crate::generation::GenerationError;
use crate::image_data::RasterImage;
use crate::text::format_usize;
use crate::text::spec_decimal;
use crate::ui::AppUi;
use crate::ui::standard_layout;
use crate::widgets::Button;
use crate::widgets::asset_stem;
use crate::widgets::spec_asset_stem;

verus! {

/// Where the loading phase stands, for the status line.
#[derive(PartialEq, Eq, Structural, Clone, Copy, Debug)]
pub enum LoadStatus {
    /// Every required asset was already in persistent storage.
    AllCached,
    /// This many assets still need generation.
    NeedToGenerate(usize),
    /// The named asset was most recently sent for generation.
    Generating(AssetKey),
    /// Generating the named asset failed; its key stays absent, to be
    /// retried on a later run.
    GenerationFailed(AssetKey),
}

/// The wording of each loading status, as shown on the loading screen.
pub open spec fn spec_status_message(status: LoadStatus) -> Seq<char> {
    match status {
        LoadStatus::AllCached => "All assets loaded from cache. Starting..."@,
        LoadStatus::NeedToGenerate(n) => "Need to generate "@ + spec_decimal(n as int)
            + " assets."@,
        LoadStatus::Generating(k) => "Generating: '"@ + spec_asset_stem(k) + "'..."@,
        LoadStatus::GenerationFailed(k) => "Error generating: '"@ + spec_asset_stem(k) + "'!"@,
    }
}

/// The status line the loading screen shows.
pub fn status_message(status: &LoadStatus) -> (r: String)
    ensures
        r@ == spec_status_message(*status),
{
    match status {
        LoadStatus::AllCached => <String as StringExecFns>::from_str(
            "All assets loaded from cache. Starting...",
        ),
        LoadStatus::NeedToGenerate(n) => <String as StringExecFns>::from_str("Need to generate ")
            .concat(format_usize(*n).as_str()).concat(" assets."),
        LoadStatus::Generating(k) => <String as StringExecFns>::from_str("Generating: '").concat(
            asset_stem(*k).as_str(),
        ).concat("'..."),
        LoadStatus::GenerationFailed(k) => <String as StringExecFns>::from_str(
            "Error generating: '",
        ).concat(asset_stem(*k).as_str()).concat("'!"),
    }
}

/// Every asset request the fixed widget layout will ever need: one per
/// button per visual state.
pub fn standard_requests() -> (r: Vec<AssetRequest>)
    ensures
        r@.len() == 6,
        forall|i: int, j: int| 0 <= i < j < 6 ==> (#[trigger] r@[i]).key != (#[trigger] r@[j]).key,
        forall|i: int|
            0 <= i < 6 ==> (#[trigger] r@[i]).prompt@ == crate::widgets::spec_prompt_for_state(
                r@[i].key.state,
            ),
        forall|i: int| 0 <= i < 3 ==> (#[trigger] r@[i]).key.widget_id == 0,
        forall|i: int| 3 <= i < 6 ==> (#[trigger] r@[i]).key.widget_id == 1,
        forall|i: int| 0 <= i < 3 ==> (#[trigger] r@[i]).width == 200 && r@[i].height == 60,
        forall|i: int| 3 <= i < 6 ==> (#[trigger] r@[i]).width == 150 && r@[i].height == 60,
        r@[0].key.state == crate::animator::VisualState::Idle,
        r@[1].key.state == crate::animator::VisualState::Hovered,
        r@[2].key.state == crate::animator::VisualState::Pressed,
        r@[3].key.state == crate::animator::VisualState::Idle,
        r@[4].key.state == crate::animator::VisualState::Hovered,
        r@[5].key.state == crate::animator::VisualState::Pressed,
{
    let submit = Button::new(0, 50, 50, 200, 60, <String as vstd::string::StringExecFns>::from_str("Submit"));
    let clear = Button::new(1, 270, 50, 150, 60, <String as vstd::string::StringExecFns>::from_str("Clear"));
    let mut requests = submit.get_render_prompts();
    let mut more = clear.get_render_prompts();
    requests.append(&mut more);
    requests
}

/// One startup ingestion step: what the cache holds after being offered
/// the bytes (if any) that persistent storage had for one request.
pub open spec fn spec_ingest_step(c: CacheModel, request: AssetRequest, file: Option<Vec<u8>>)
    -> CacheModel {
    match file {
        Option::Some(bytes) => match png_decoding_of(bytes@) {
            Option::Some(m) => if request.fits(m) && !c.mem.dom().contains(request.key) {
                CacheModel {
                    mem: c.mem.insert(request.key, m),
                    disk: c.disk.insert(request.key, bytes@),
                }
            } else {
                c
            },
            Option::None => c,
        },
        Option::None => c,
    }
}

/// The cache after every request has been offered its persistent bytes.
pub open spec fn spec_ingest_all(
    c: CacheModel,
    requests: Seq<AssetRequest>,
    files: Seq<Option<Vec<u8>>>,
) -> CacheModel
    decreases requests.len(),
{
    if requests.len() == 0 {
        c
    } else {
        spec_ingest_step(
            spec_ingest_all(c, requests.drop_last(), files.drop_last()),
            requests.last(),
            files.last(),
        )
    }
}

/// A request's persistent bytes resolve it: they exist and decode at the
/// requested dimensions.
pub open spec fn spec_file_usable(request: AssetRequest, file: Option<Vec<u8>>) -> bool {
    match file {
        Option::Some(bytes) => match png_decoding_of(bytes@) {
            Option::Some(m) => request.fits(m),
            Option::None => false,
        },
        Option::None => false,
    }
}

/// The requests persistent storage could not resolve, in order: the
/// generation queue.
pub open spec fn spec_pending(requests: Seq<AssetRequest>, files: Seq<Option<Vec<u8>>>) -> Seq<
    AssetRequest,
>
    decreases requests.len(),
{
    if requests.len() == 0 {
        Seq::empty()
    } else {
        let rest = spec_pending(requests.drop_last(), files.drop_last());
        if spec_file_usable(requests.last(), files.last()) {
            rest
        } else {
            rest.push(requests.last())
        }
    }
}

/// The empty cache model.
pub open spec fn spec_empty_cache() -> CacheModel {
    CacheModel { mem: Map::empty(), disk: Map::empty() }
}

/// The startup state: the cache as far as persistent storage filled it,
/// and the queue of assets still to generate.
pub struct LoadingState {
    pub cache: AssetCache,
    pub pending: Vec<AssetRequest>,
    pub next: usize,
    pub status: LoadStatus,
}

impl LoadingState {
    /// Takes in what persistent storage already holds: `files` gives, for
    /// each request in order, the bytes its cache file held, or None
    /// where there was no file. Files that fail to decode, or decode at
    /// the wrong dimensions, count as misses and join the generation
    /// queue.
    pub fn new(requests: Vec<AssetRequest>, files: Vec<Option<Vec<u8>>>) -> (r: LoadingState)
        requires
            files@.len() == requests@.len(),
            forall|a: int, b: int|
                0 <= a < b < requests@.len() ==> (#[trigger] requests@[a]).key != (
                #[trigger] requests@[b]).key,
        ensures
            r.cache.wf(),
            r.cache@ == spec_ingest_all(spec_empty_cache(), requests@, files@),
            r.pending@ == spec_pending(requests@, files@),
            r.next == 0,
            r.status == (if spec_pending(requests@, files@).len() == 0 {
                LoadStatus::AllCached
            } else {
                LoadStatus::NeedToGenerate(spec_pending(requests@, files@).len() as usize)
            }),
    {
        let ghost requests0 = requests@;
        let ghost files0 = files@;
        let total = requests.len();
        let mut cache = AssetCache::new();
        let mut pending: Vec<AssetRequest> = Vec::new();
        let mut files = files;
        let mut i: usize = 0;
        while i < total
            invariant
                i <= total,
                total == requests0.len(),
                requests@ == requests0,
                files0.len() == requests0.len(),
                files@ == files0.skip(i as int),
                forall|a: int, b: int|
                    0 <= a < b < requests0.len() ==> (#[trigger] requests0[a]).key != (
                    #[trigger] requests0[b]).key,
                cache.wf(),
                cache@ == spec_ingest_all(
                    spec_empty_cache(),
                    requests0.take(i as int),
                    files0.take(i as int),
                ),
                pending@ == spec_pending(requests0.take(i as int), files0.take(i as int)),
                forall|j: int|
                    i <= j < requests0.len() ==> !cache@.mem.dom().contains(
                        (#[trigger] requests0[j]).key,
                    ),
            decreases total - i,
        {
            proof {
                assert(requests0.take(i as int + 1).drop_last() =~= requests0.take(i as int));
                assert(files0.take(i as int + 1).drop_last() =~= files0.take(i as int));
                assert(files0.skip(i as int).drop_first() =~= files0.skip(i as int + 1));
            }
            let request = request_copy(&requests, i);
            let file = files.remove(0);
            match file {
                Option::Some(bytes) => {
                    let kept = cache.ingest_disk_entry(&request, bytes);
                    if !kept {
                        pending.push(request);
                    }
                },
                Option::None => {
                    pending.push(request);
                },
            }
            i = i + 1;
        }
        proof {
            assert(requests0.take(total as int) =~= requests0);
            assert(files0.take(total as int) =~= files0);
        }
        let status = if pending.len() == 0 {
            LoadStatus::AllCached
        } else {
            LoadStatus::NeedToGenerate(pending.len())
        };
        LoadingState { cache, pending, next: 0, status }
    }

    /// The next asset to generate, if any; taking it marks it as in
    /// flight in the status line.
    pub fn next_request(&mut self) -> (r: Option<AssetRequest>)
        ensures
            final(self).cache == old(self).cache,
            final(self).pending@ == old(self).pending@,
            final(self).next == old(self).next,
            ({
                if old(self).next < old(self).pending@.len() {
                    r == Some(old(self).pending@[old(self).next as int]) && final(self).status
                        == LoadStatus::Generating(old(self).pending@[old(self).next as int].key)
                } else {
                    r is None && final(self).status == old(self).status
                }
            }),
    {
        if self.next < self.pending.len() {
            let request = request_copy(&self.pending, self.next);
            self.status = LoadStatus::Generating(request.key);
            Some(request)
        } else {
            None
        }
    }

    /// Applies one generation outcome to the queue's current request: a
    /// fitting image is stored in both tiers; any failure leaves the key
    /// absent — the status names it — and loading moves on.
    pub fn apply_generation(&mut self, outcome: Result<RasterImage, GenerationError>)
        requires
            old(self).cache.wf(),
            old(self).next < old(self).pending@.len(),
        ensures
            final(self).cache.wf(),
            final(self).pending@ == old(self).pending@,
            final(self).next == old(self).next + 1,
            ({
                let request = old(self).pending@[old(self).next as int];
                let k = request.key;
                match outcome {
                    Ok(img) => if !request.fits(img@) {
                        final(self).cache == old(self).cache && final(self).status
                            == LoadStatus::GenerationFailed(k)
                    } else if old(self).cache@.mem.dom().contains(k) {
                        final(self).cache == old(self).cache && final(self).status
                            == LoadStatus::Generating(k)
                    } else {
                        &&& ((spec_stored(old(self).cache@, final(self).cache@, k, img@)
                            && final(self).status == LoadStatus::Generating(k))
                            || (final(self).cache == old(self).cache
                            && final(self).status == LoadStatus::GenerationFailed(k)))
                        &&& (request.width > 0 && request.height > 0 ==> final(self).status
                            == LoadStatus::Generating(k))
                    },
                    Err(_) => final(self).cache == old(self).cache && final(self).status
                        == LoadStatus::GenerationFailed(k),
                }
            }),
    {
        let queue_len: usize = self.pending.len();
        proof {
            assert(self.next < queue_len);
        }
        let request = request_copy(&self.pending, self.next);
        match outcome {
            Ok(img) => {
                match self.cache.store_generated(&request, img) {
                    Ok(()) => {
                        self.status = LoadStatus::Generating(request.key);
                    },
                    Err(_) => {
                        self.status = LoadStatus::GenerationFailed(request.key);
                    },
                }
            },
            Err(_) => {
                self.status = LoadStatus::GenerationFailed(request.key);
            },
        }
        self.next = self.next + 1;
    }

    /// Hands the filled cache over to the running UI, once the queue is
    /// exhausted.
    pub fn into_ui(self) -> (r: AppUi)
        ensures
            standard_layout(r),
            r.cache == self.cache,
            !r.text_input.is_focused,
            r.text_input.text@ == Seq::<char>::empty(),
    {
        AppUi::new(self.cache)
    }
}

/// A copy of the request at an index.
fn request_copy(requests: &Vec<AssetRequest>, i: usize) -> (r: AssetRequest)
    requires
        i < requests@.len(),
    ensures
        r == requests@[i as int],
{
    let request = &requests[i];
    AssetRequest {
        key: request.key,
        prompt: request.prompt.clone(),
        width: request.width,
        height: request.height,
    }
}

} // verus!
