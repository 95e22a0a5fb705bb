//! The asset cache: a key → image store with a memory tier backed by a
//! persistent tier, filled on miss by the generation collaborator.
//!
//! Persistent storage is the source of truth across restarts; the memory
//! tier is a pure cache of it. An entry, once resolved, is never
//! overwritten, and each key holds at most one entry. Resolution failure
//! is non-fatal: the key stays absent and callers draw a flat fallback.
//!
//! The persistent tier is held here as data — one encoded byte string per
//! key; reading those bytes from files at startup and writing new entries
//! back out is the embedding program's concern.

use vstd::prelude::*;

use crate::animator::VisualState;
use crate::codec::decode_png;
use crate::codec::encode_png;
use crate::codec::png_decoding_of;
use crate::codec::png_encoding_of;
use crate::generation::GenerationError;
use crate::image_data::ImageModel;
use crate::image_data::RasterImage;

verus! {

/// Stable identifier of one generated bitmap variant of one widget. It
/// survives restarts and doubles as the stem of the entry's
/// persistent-storage path.
#[derive(PartialEq, Eq, Structural, Clone, Copy, Debug, Hash)]
pub struct AssetKey {
    pub widget_id: usize,
    pub state: VisualState,
}

/// One asset a widget will need: its key, the prompt that generates it,
/// and the dimensions it is requested at.
pub struct AssetRequest {
    pub key: AssetKey,
    pub prompt: String,
    pub width: u32,
    pub height: u32,
}

impl AssetRequest {
    /// An image has exactly the dimensions this request asks for.
    pub open spec fn fits(self, img: ImageModel) -> bool {
        img.width == self.width as nat && img.height == self.height as nat
    }
}

/// The mathematical model of the cache: one finite map per tier.
pub ghost struct CacheModel {
    pub mem: Map<AssetKey, ImageModel>,
    pub disk: Map<AssetKey, Seq<u8>>,
}

/// The memory tier an association list denotes; a later entry for a key
/// would shadow an earlier one, though the cache keeps keys unique.
pub open spec fn mem_map_of(entries: Seq<(AssetKey, RasterImage)>) -> Map<AssetKey, ImageModel>
    decreases entries.len(),
{
    if entries.len() == 0 {
        Map::empty()
    } else {
        mem_map_of(entries.drop_last()).insert(entries.last().0, entries.last().1@)
    }
}

/// The persistent tier an association list denotes.
pub open spec fn disk_map_of(entries: Seq<(AssetKey, Vec<u8>)>) -> Map<AssetKey, Seq<u8>>
    decreases entries.len(),
{
    if entries.len() == 0 {
        Map::empty()
    } else {
        disk_map_of(entries.drop_last()).insert(entries.last().0, entries.last().1@)
    }
}

/// No key occurs twice in an association list.
pub open spec fn unique_keys<V>(entries: Seq<(AssetKey, V)>) -> bool {
    forall|i: int, j: int|
        0 <= i < j < entries.len() ==> (#[trigger] entries[i]).0 != (#[trigger] entries[j]).0
}

/// What a memory-tier lookup serves for a key.
pub open spec fn spec_lookup(c: CacheModel, key: AssetKey) -> Option<ImageModel> {
    if c.mem.dom().contains(key) {
        Some(c.mem[key])
    } else {
        None
    }
}

/// The key → image store shared by every widget.
pub struct AssetCache {
    mem: Vec<(AssetKey, RasterImage)>,
    disk: Vec<(AssetKey, Vec<u8>)>,
}

impl View for AssetCache {
    type V = CacheModel;

    closed spec fn view(&self) -> CacheModel {
        CacheModel { mem: mem_map_of(self.mem@), disk: disk_map_of(self.disk@) }
    }
}

impl AssetCache {
    /// Each tier holds at most one entry per key.
    pub closed spec fn keys_unique(self) -> bool {
        unique_keys(self.mem@) && unique_keys(self.disk@)
    }

    /// The memory tier is a pure cache of the persistent tier: every
    /// memory entry is the decoding of the persistent bytes under its
    /// key.
    pub open spec fn tiers_consistent(self) -> bool {
        forall|k: AssetKey|
            #[trigger] self@.mem.dom().contains(k) ==> self@.disk.dom().contains(k)
                && png_decoding_of(self@.disk[k]) == Some(self@.mem[k]) && self@.mem[k].wf()
    }

    pub open spec fn wf(self) -> bool {
        self.keys_unique() && self.tiers_consistent()
    }

    /// An empty cache: nothing resolved, nothing persisted.
    pub fn new() -> (r: AssetCache)
        ensures
            r.wf(),
            r@.mem == Map::<AssetKey, ImageModel>::empty(),
            r@.disk == Map::<AssetKey, Seq<u8>>::empty(),
    {
        AssetCache { mem: Vec::new(), disk: Vec::new() }
    }

    /// The index of a key's entry in the memory tier, if any.
    fn find_mem(&self, key: AssetKey) -> (r: Option<usize>)
        ensures
            match r {
                Some(i) => i < self.mem@.len() && self.mem@[i as int].0 == key,
                None => forall|j: int| 0 <= j < self.mem@.len() ==> self.mem@[j].0 != key,
            },
    {
        let mut i: usize = 0;
        while i < self.mem.len()
            invariant
                i <= self.mem@.len(),
                forall|j: int| 0 <= j < i ==> self.mem@[j].0 != key,
            decreases self.mem@.len() - i,
        {
            if self.mem[i].0 == key {
                return Some(i);
            }
            i = i + 1;
        }
        None
    }

    /// The index of a key's entry in the persistent tier, if any.
    fn find_disk(&self, key: AssetKey) -> (r: Option<usize>)
        ensures
            match r {
                Some(i) => i < self.disk@.len() && self.disk@[i as int].0 == key,
                None => forall|j: int| 0 <= j < self.disk@.len() ==> self.disk@[j].0 != key,
            },
    {
        let mut i: usize = 0;
        while i < self.disk.len()
            invariant
                i <= self.disk@.len(),
                forall|j: int| 0 <= j < i ==> self.disk@[j].0 != key,
            decreases self.disk@.len() - i,
        {
            if self.disk[i].0 == key {
                return Some(i);
            }
            i = i + 1;
        }
        None
    }

    /// The encoded bytes the persistent tier holds for a key — what the
    /// entry's cache file must contain.
    pub fn disk_bytes(&self, key: AssetKey) -> (r: Option<&Vec<u8>>)
        requires
            self.wf(),
        ensures
            match r {
                Some(bytes) => self@.disk.dom().contains(key) && bytes@ == self@.disk[key],
                None => !self@.disk.dom().contains(key),
            },
    {
        match self.find_disk(key) {
            Some(i) => {
                proof {
                    lemma_disk_map_entry(self.disk@, i as int);
                }
                Some(&self.disk[i].1)
            },
            None => {
                proof {
                    lemma_disk_map_absent(self.disk@, key);
                }
                None
            },
        }
    }

    /// Looks a key up in the memory tier: never blocks, never generates.
    pub fn lookup(&self, key: AssetKey) -> (r: Option<&RasterImage>)
        requires
            self.wf(),
        ensures
            match r {
                Some(img) => spec_lookup(self@, key) == Some(img@) && img.wf(),
                None => spec_lookup(self@, key) is None,
            },
    {
        match self.find_mem(key) {
            Some(i) => {
                proof {
                    lemma_mem_map_entry(self.mem@, i as int);
                }
                Some(&self.mem[i].1)
            },
            None => {
                proof {
                    lemma_mem_map_absent(self.mem@, key);
                }
                None
            },
        }
    }
}

/// How a request stands with the cache alone, before any generation: an
/// image it already resolves to, a memory entry at the wrong dimensions,
/// or nothing usable.
pub ghost enum LocalResolution {
    Hit(ImageModel),
    Mismatch,
    Absent,
}

/// What the cache alone says about a request: a memory entry wins; else
/// persistent bytes that decode at the requested dimensions; stale or
/// undecodable bytes count as a miss, to be regenerated.
pub open spec fn spec_local_resolution(c: CacheModel, request: AssetRequest) -> LocalResolution {
    let k = request.key;
    if c.mem.dom().contains(k) {
        if request.fits(c.mem[k]) {
            LocalResolution::Hit(c.mem[k])
        } else {
            LocalResolution::Mismatch
        }
    } else if c.disk.dom().contains(k) {
        match png_decoding_of(c.disk[k]) {
            Option::Some(m) => if request.fits(m) {
                LocalResolution::Hit(m)
            } else {
                LocalResolution::Absent
            },
            Option::None => LocalResolution::Absent,
        }
    } else {
        LocalResolution::Absent
    }
}

/// Both tiers after a fresh entry is stored: the memory tier holds the
/// image, the persistent tier its encoding.
pub open spec fn spec_stored(old_c: CacheModel, new_c: CacheModel, k: AssetKey, img: ImageModel)
    -> bool {
    new_c.mem == old_c.mem.insert(k, img) && new_c.disk == old_c.disk.insert(
        k,
        png_encoding_of(img),
    )
}

impl AssetCache {
    /// Replaces or appends a persistent-tier entry; the memory tier is
    /// untouched.
    fn disk_put(&mut self, key: AssetKey, bytes: Vec<u8>)
        requires
            unique_keys(old(self).disk@),
        ensures
            unique_keys(final(self).disk@),
            final(self)@.disk == old(self)@.disk.insert(key, bytes@),
            final(self).mem@ == old(self).mem@,
    {
        match self.find_disk(key) {
            Some(i) => {
                proof {
                    lemma_disk_map_update(self.disk@, i as int, key, bytes);
                }
                let ghost before = self.disk@;
                self.disk.set(i, (key, bytes));
                proof {
                    assert forall|a: int, b: int|
                        0 <= a < b < self.disk@.len() implies (#[trigger] self.disk@[a]).0 != (
                    #[trigger] self.disk@[b]).0 by {
                        assert(self.disk@[a].0 == before[a].0);
                        assert(self.disk@[b].0 == before[b].0);
                    }
                }
            },
            None => {
                proof {
                    lemma_disk_map_push(self.disk@, key, bytes);
                }
                let ghost before = self.disk@;
                self.disk.push((key, bytes));
                proof {
                    assert forall|a: int, b: int|
                        0 <= a < b < self.disk@.len() implies (#[trigger] self.disk@[a]).0 != (
                    #[trigger] self.disk@[b]).0 by {
                        if b < before.len() as int {
                            assert(before[a].0 != before[b].0);
                        } else {
                            assert(self.disk@[b] == (key, bytes));
                            assert(before[a].0 != key);
                        }
                    }
                }
            },
        }
    }

    /// Appends a memory-tier entry for a key with no entry yet; the
    /// persistent tier is untouched.
    fn mem_push(&mut self, key: AssetKey, img: RasterImage)
        requires
            unique_keys(old(self).mem@),
            forall|j: int| 0 <= j < old(self).mem@.len() ==> old(self).mem@[j].0 != key,
        ensures
            unique_keys(final(self).mem@),
            final(self)@.mem == old(self)@.mem.insert(key, img@),
            final(self).disk@ == old(self).disk@,
    {
        proof {
            lemma_mem_map_push(self.mem@, key, img);
        }
        let ghost before = self.mem@;
        self.mem.push((key, img));
        proof {
            assert forall|a: int, b: int|
                0 <= a < b < self.mem@.len() implies (#[trigger] self.mem@[a]).0 != (
            #[trigger] self.mem@[b]).0 by {
                if b < before.len() as int {
                    assert(before[a].0 != before[b].0);
                } else {
                    assert(self.mem@[b] == (key, img));
                    assert(before[a].0 != key);
                }
            }
        }
    }

    /// Brings one persistent-storage entry in at startup: the bytes read
    /// from a key's file. They are kept — in both tiers — only if they
    /// decode to an image of the requested dimensions; anything else
    /// counts as a miss, left for regeneration.
    pub fn ingest_disk_entry(&mut self, request: &AssetRequest, bytes: Vec<u8>) -> (r: bool)
        requires
            old(self).wf(),
        ensures
            final(self).wf(),
            ({
                let k = request.key;
                if old(self)@.mem.dom().contains(k) {
                    r && *final(self) == *old(self)
                } else {
                    match png_decoding_of(bytes@) {
                        Option::Some(m) => if request.fits(m) {
                            r && final(self)@.mem == old(self)@.mem.insert(k, m)
                                && final(self)@.disk == old(self)@.disk.insert(k, bytes@)
                        } else {
                            !r && *final(self) == *old(self)
                        },
                        Option::None => !r && *final(self) == *old(self),
                    }
                }
            }),
    {
        let key = request.key;
        match self.find_mem(key) {
            Some(i) => {
                proof {
                    lemma_mem_map_entry(self.mem@, i as int);
                }
                true
            },
            None => {
                proof {
                    lemma_mem_map_absent(self.mem@, key);
                }
                match decode_png(&bytes) {
                    Option::Some(img) => {
                        if img.width() == request.width && img.height() == request.height {
                            let ghost old_c = self@;
                            self.disk_put(key, bytes);
                            self.mem_push(key, img);
                            proof {
                                lemma_consistent_after_store(old_c, self@, key, img@, bytes@);
                            }
                            true
                        } else {
                            false
                        }
                    },
                    Option::None => false,
                }
            },
        }
    }

    /// Resolves a request: the memory tier first; then persistent bytes,
    /// decoded, promoted into memory and returned; only when neither
    /// serves is the generation collaborator invoked, its product checked
    /// against the requested dimensions, encoded losslessly into the
    /// persistent tier and kept in memory — success owed whenever the
    /// request has at least one pixel. A failure inserts nothing, so a
    /// later call may retry. For a key the cache already serves, the
    /// outcome is fixed by the cache alone — the collaborator plays no
    /// part and is never invoked.
    pub fn load_or_generate<F: Fn() -> Result<RasterImage, GenerationError>>(
        &mut self,
        request: &AssetRequest,
        generator: F,
    ) -> (r: Result<RasterImage, GenerationError>)
        requires
            old(self).wf(),
            call_requires(generator, ()),
        ensures
            final(self).wf(),
            match spec_local_resolution(old(self)@, *request) {
                LocalResolution::Hit(m) => match r {
                    Ok(img) => img@ == m && final(self)@.mem == old(self)@.mem.insert(
                        request.key,
                        m,
                    ) && final(self)@.disk == old(self)@.disk,
                    Err(_) => false,
                },
                LocalResolution::Mismatch => r == Err::<RasterImage, GenerationError>(
                    GenerationError::DimensionMismatch,
                ) && *final(self) == *old(self),
                LocalResolution::Absent => exists|gr: Result<RasterImage, GenerationError>|
                    {
                        &&& #[trigger] call_ensures(generator, (), gr)
                        &&& match gr {
                            Ok(img) => if img@.wf() && request.fits(img@) {
                                &&& (match r {
                                    Ok(out) => out@ == img@ && spec_stored(
                                        old(self)@,
                                        final(self)@,
                                        request.key,
                                        img@,
                                    ),
                                    Err(e) => e == GenerationError::EncodeFailure && *final(self)
                                        == *old(self),
                                })
                                &&& (request.width > 0 && request.height > 0 ==> r is Ok)
                            } else {
                                r == Err::<RasterImage, GenerationError>(
                                    GenerationError::DimensionMismatch,
                                ) && *final(self) == *old(self)
                            },
                            Err(e) => r == Err::<RasterImage, GenerationError>(e) && *final(self)
                                == *old(self),
                        }
                    },
            },
            match r {
                Ok(img) => img.wf() && request.fits(img@) && final(self)@.mem.dom().contains(
                    request.key,
                ) && final(self)@.mem[request.key] == img@,
                Err(_) => true,
            },
    {
        let key = request.key;
        match self.find_mem(key) {
            Some(i) => {
                proof {
                    lemma_mem_map_entry(self.mem@, i as int);
                }
                let img = &self.mem[i].1;
                if img.width() == request.width && img.height() == request.height {
                    proof {
                        assert(self@.mem.insert(key, self@.mem[key]) =~= self@.mem);
                    }
                    return Ok(img.clone_image());
                } else {
                    return Err(GenerationError::DimensionMismatch);
                }
            },
            None => {
                proof {
                    lemma_mem_map_absent(self.mem@, key);
                }
            },
        }
        match self.find_disk(key) {
            Some(i) => {
                proof {
                    lemma_disk_map_entry(self.disk@, i as int);
                }
                match decode_png(&self.disk[i].1) {
                    Option::Some(img) => {
                        if img.width() == request.width && img.height() == request.height {
                            let out = img.clone_image();
                            let ghost old_c = self@;
                            self.mem_push(key, img);
                            proof {
                                assert(final(self)@.disk =~= old_c.disk);
                                lemma_consistent_after_promote(old_c, self@, key);
                            }
                            return Ok(out);
                        }
                    },
                    Option::None => {},
                }
            },
            None => {
                proof {
                    lemma_disk_map_absent(self.disk@, key);
                }
            },
        }
        let generated = generator();
        match generated {
            Ok(img) => {
                proof {
                    use_type_invariant(&img);
                }
                if !(img.width() == request.width && img.height() == request.height) {
                    return Err(GenerationError::DimensionMismatch);
                }
                match encode_png(&img) {
                    Option::Some(bytes) => {
                        let out = img.clone_image();
                        let ghost old_c = self@;
                        let ghost stored_bytes = bytes@;
                        self.disk_put(key, bytes);
                        self.mem_push(key, img);
                        proof {
                            lemma_consistent_after_store(old_c, self@, key, out@, stored_bytes);
                        }
                        Ok(out)
                    },
                    Option::None => Err(GenerationError::EncodeFailure),
                }
            },
            Err(e) => Err(e),
        }
    }
}

impl AssetCache {
    /// Stores a freshly generated image under a request's key: encoded
    /// losslessly into the persistent tier and kept in the memory tier.
    /// An image of the wrong dimensions is rejected; a key already
    /// resolved is left as it is, never overwritten. A fitting image with
    /// at least one pixel always stores: the encoder fails only on zero
    /// dimensions.
    pub fn store_generated(&mut self, request: &AssetRequest, image: RasterImage) -> (r: Result<
        (),
        GenerationError,
    >)
        requires
            old(self).wf(),
        ensures
            final(self).wf(),
            ({
                let k = request.key;
                if !request.fits(image@) {
                    r == Err::<(), GenerationError>(GenerationError::DimensionMismatch) && *final(self) == *old(self)
                } else if old(self)@.mem.dom().contains(k) {
                    r == Ok::<(), GenerationError>(()) && *final(self) == *old(self)
                } else {
                    &&& ((r == Ok::<(), GenerationError>(()) && spec_stored(
                        old(self)@,
                        final(self)@,
                        k,
                        image@,
                    )) || (r == Err::<(), GenerationError>(GenerationError::EncodeFailure)
                        && *final(self) == *old(self)))
                    &&& (request.width > 0 && request.height > 0 ==> r == Ok::<
                        (),
                        GenerationError,
                    >(()))
                }
            }),
    {
        proof {
            use_type_invariant(&image);
        }
        let key = request.key;
        if !(image.width() == request.width && image.height() == request.height) {
            return Err(GenerationError::DimensionMismatch);
        }
        match self.find_mem(key) {
            Some(i) => {
                proof {
                    lemma_mem_map_entry(self.mem@, i as int);
                }
                Ok(())
            },
            None => {
                proof {
                    lemma_mem_map_absent(self.mem@, key);
                }
                match encode_png(&image) {
                    Option::Some(bytes) => {
                        let ghost old_c = self@;
                        let ghost stored_bytes = bytes@;
                        let ghost model = image@;
                        self.disk_put(key, bytes);
                        self.mem_push(key, image);
                        proof {
                            lemma_consistent_after_store(old_c, self@, key, model, stored_bytes);
                        }
                        Ok(())
                    },
                    Option::None => Err(GenerationError::EncodeFailure),
                }
            },
        }
    }
}

/// Consistency of the tiers is kept when a key is stored in both at once
/// with bytes that decode to its image.
proof fn lemma_consistent_after_store(
    old_c: CacheModel,
    new_c: CacheModel,
    key: AssetKey,
    img: ImageModel,
    bytes: Seq<u8>,
)
    requires
        forall|k: AssetKey|
            #[trigger] old_c.mem.dom().contains(k) ==> old_c.disk.dom().contains(k)
                && png_decoding_of(old_c.disk[k]) == Some(old_c.mem[k]) && old_c.mem[k].wf(),
        new_c.mem == old_c.mem.insert(key, img),
        new_c.disk == old_c.disk.insert(key, bytes),
        png_decoding_of(bytes) == Some(img),
        img.wf(),
    ensures
        forall|k: AssetKey|
            #[trigger] new_c.mem.dom().contains(k) ==> new_c.disk.dom().contains(k)
                && png_decoding_of(new_c.disk[k]) == Some(new_c.mem[k]) && new_c.mem[k].wf(),
{
}

/// Consistency of the tiers is kept when a persistent entry is promoted
/// into memory as the image its bytes decode to.
proof fn lemma_consistent_after_promote(old_c: CacheModel, new_c: CacheModel, key: AssetKey)
    requires
        forall|k: AssetKey|
            #[trigger] old_c.mem.dom().contains(k) ==> old_c.disk.dom().contains(k)
                && png_decoding_of(old_c.disk[k]) == Some(old_c.mem[k]) && old_c.mem[k].wf(),
        old_c.disk.dom().contains(key),
        new_c.disk == old_c.disk,
        png_decoding_of(old_c.disk[key]) is Some,
        new_c.mem == old_c.mem.insert(key, png_decoding_of(old_c.disk[key])->Some_0),
        (png_decoding_of(old_c.disk[key])->Some_0).wf(),
    ensures
        forall|k: AssetKey|
            #[trigger] new_c.mem.dom().contains(k) ==> new_c.disk.dom().contains(k)
                && png_decoding_of(new_c.disk[k]) == Some(new_c.mem[k]) && new_c.mem[k].wf(),
{
}

/// Law: a key the memory tier already serves at its requested dimensions
/// resolves from the cache alone — `load_or_generate`'s outcome for it is
/// fixed without reference to the generation collaborator, which is never
/// invoked for it.
pub proof fn lemma_resolved_key_needs_no_generation(c: CacheModel, request: AssetRequest)
    requires
        c.mem.dom().contains(request.key),
        request.fits(c.mem[request.key]),
    ensures
        spec_local_resolution(c, request) == LocalResolution::Hit(c.mem[request.key]),
{
}

/// Law: after a request resolves successfully — its key bound in the
/// memory tier to the returned image, which fits the request — a lookup
/// of that key serves exactly that image, whose dimensions equal the
/// requested width and height.
pub proof fn lemma_lookup_after_resolution(c: CacheModel, request: AssetRequest, m: ImageModel)
    requires
        c.mem.dom().contains(request.key),
        c.mem[request.key] == m,
        request.fits(m),
    ensures
        spec_lookup(c, request.key) == Some(m),
        m.width == request.width as nat,
        m.height == request.height as nat,
{
}

/// Law: every resolved entry round-trips through persistent storage: the
/// bytes the cache persisted for a key decode back, pixel for pixel, to
/// the image the memory tier serves for it.
pub proof fn lemma_persisted_entry_round_trips(c: AssetCache, k: AssetKey)
    requires
        c.wf(),
        c@.mem.dom().contains(k),
    ensures
        c@.disk.dom().contains(k),
        png_decoding_of(c@.disk[k]) == Some(c@.mem[k]),
{
}

/// In a unique-keyed association list, the entry at index `i` is what the
/// memory tier maps its key to.
proof fn lemma_mem_map_entry(entries: Seq<(AssetKey, RasterImage)>, i: int)
    requires
        unique_keys(entries),
        0 <= i < entries.len(),
    ensures
        mem_map_of(entries).dom().contains(entries[i].0),
        mem_map_of(entries)[entries[i].0] == entries[i].1@,
    decreases entries.len(),
{
    if i < entries.len() - 1 {
        lemma_mem_map_entry(entries.drop_last(), i);
        assert(entries.last().0 != entries[i].0);
    }
}

/// A key under which no entry stands is outside the memory tier's domain.
proof fn lemma_mem_map_absent(entries: Seq<(AssetKey, RasterImage)>, key: AssetKey)
    requires
        forall|j: int| 0 <= j < entries.len() ==> entries[j].0 != key,
    ensures
        !mem_map_of(entries).dom().contains(key),
    decreases entries.len(),
{
    if entries.len() > 0 {
        lemma_mem_map_absent(entries.drop_last(), key);
    }
}

/// In a unique-keyed association list, the entry at index `i` is what the
/// persistent tier maps its key to.
proof fn lemma_disk_map_entry(entries: Seq<(AssetKey, Vec<u8>)>, i: int)
    requires
        unique_keys(entries),
        0 <= i < entries.len(),
    ensures
        disk_map_of(entries).dom().contains(entries[i].0),
        disk_map_of(entries)[entries[i].0] == entries[i].1@,
    decreases entries.len(),
{
    if i < entries.len() - 1 {
        lemma_disk_map_entry(entries.drop_last(), i);
        assert(entries.last().0 != entries[i].0);
    }
}

/// A key under which no entry stands is outside the persistent tier's
/// domain.
proof fn lemma_disk_map_absent(entries: Seq<(AssetKey, Vec<u8>)>, key: AssetKey)
    requires
        forall|j: int| 0 <= j < entries.len() ==> entries[j].0 != key,
    ensures
        !disk_map_of(entries).dom().contains(key),
    decreases entries.len(),
{
    if entries.len() > 0 {
        lemma_disk_map_absent(entries.drop_last(), key);
    }
}

/// Appending an entry inserts its key.
proof fn lemma_mem_map_push(entries: Seq<(AssetKey, RasterImage)>, key: AssetKey, img: RasterImage)
    ensures
        mem_map_of(entries.push((key, img))) == mem_map_of(entries).insert(key, img@),
{
    assert(entries.push((key, img)).drop_last() =~= entries);
}

/// Appending an entry inserts its key.
proof fn lemma_disk_map_push(entries: Seq<(AssetKey, Vec<u8>)>, key: AssetKey, bytes: Vec<u8>)
    ensures
        disk_map_of(entries.push((key, bytes))) == disk_map_of(entries).insert(key, bytes@),
{
    assert(entries.push((key, bytes)).drop_last() =~= entries);
}

/// Overwriting the entry that holds a key re-inserts that key.
proof fn lemma_disk_map_update(
    entries: Seq<(AssetKey, Vec<u8>)>,
    i: int,
    key: AssetKey,
    bytes: Vec<u8>,
)
    requires
        unique_keys(entries),
        0 <= i < entries.len(),
        entries[i].0 == key,
    ensures
        disk_map_of(entries.update(i, (key, bytes))) == disk_map_of(entries).insert(key, bytes@),
    decreases entries.len(),
{
    let updated = entries.update(i, (key, bytes));
    if i == entries.len() - 1 {
        assert(updated.drop_last() =~= entries.drop_last());
        assert(disk_map_of(updated) == disk_map_of(entries.drop_last()).insert(key, bytes@));
        assert(disk_map_of(entries.drop_last()).insert(key, entries[i].1@).insert(key, bytes@)
            =~= disk_map_of(entries.drop_last()).insert(key, bytes@));
    } else {
        assert(updated.drop_last() =~= entries.drop_last().update(i, (key, bytes)));
        lemma_disk_map_update(entries.drop_last(), i, key, bytes);
        let last = entries.last();
        assert(updated.last() == last);
        assert(last.0 != key);
        assert(disk_map_of(entries.drop_last()).insert(key, bytes@).insert(last.0, last.1@)
            =~= disk_map_of(entries.drop_last()).insert(last.0, last.1@).insert(key, bytes@));
    }
}

} // verus!
