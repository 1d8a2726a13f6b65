//! Texture resource cache: maps opaque texture ids to host-native texture
//! handles and owns their lifetime.
//!
//! The host's create/update/delete entry points live behind an unverified
//! edge, so the cache works in steps: it decides what the host must do for
//! one delta entry (`update_texture_entry`), takes back the handle a create
//! call returned (`complete_texture_create`), and hands out the handles to
//! release when ids are freed (`free_textures`). Exactly one native handle is
//! held per cache entry, and it leaves the cache exactly once.

use vstd::prelude::*;
use std::collections::HashMap;

use crate::error::DrawError;

verus! {

broadcast use vstd::std_specs::hash::group_hash_axioms;

/// A host texture held by the cache: the native handle (nonzero) and the
/// creation parameters, kept for in-place region updates.
pub struct OwnedBwTexture {
    /// Native handle the host returned; 0 is the host's failure sentinel and
    /// never stored.
    pub texture: usize,
    /// 1 for bilinear filtering, 0 for nearest. The UI toolkit's separate
    /// minification/magnification choices are coalesced into this one mode,
    /// since the host supports no split filtering.
    pub filtering: u8,
    /// Pixel format; 0 (RGBA8) is the only format emitted here.
    pub format: u8,
    /// Wrap mode; 0 (clamp) always.
    pub wrap_mode: u8,
}

/// Arguments for one call of the host's texture-creation entry point.
#[derive(Clone, Copy, PartialEq, Eq, Structural, Debug)]
pub struct TextureCreateParams {
    pub width: u32,
    pub height: u32,
    /// 1 for bilinear, 0 for nearest.
    pub filtering: u32,
    /// Always 0: RGBA8.
    pub format: u32,
    /// Always 0: clamp.
    pub wrap_mode: u32,
}

/// Arguments for one call of the host's texture-update entry point.
#[derive(Clone, Copy, PartialEq, Eq, Structural, Debug)]
pub struct TextureUpdateParams {
    /// Native handle of the texture to update in place.
    pub handle: usize,
    pub x: u32,
    pub y: u32,
    pub width: u32,
    pub height: u32,
    /// Source row length in pixels; the payload is tightly packed.
    pub row_length: u32,
    pub format: u32,
    pub filtering: u32,
    pub wrap_mode: u32,
}

/// One "set" entry of a texture delta, reduced to plain values: the payload
/// bytes stay at the edge, only their length is judged here.
#[derive(Clone, Copy, Debug)]
pub struct TextureSet {
    /// Texture id the UI toolkit speaks of.
    pub id: u64,
    /// A partial update's position, or `None` for a whole-texture create.
    pub pos: Option<(u32, u32)>,
    /// Extent of the payload in pixels.
    pub width: u32,
    pub height: u32,
    /// Byte length of the RGBA8 payload; must be `4 * width * height`.
    pub data_len: u64,
    /// Whether either of the toolkit's filters asked for linear filtering.
    pub bilinear: bool,
}

/// What the host edge must do for one "set" entry.
#[derive(Clone, Copy, PartialEq, Eq, Structural, Debug)]
pub enum TextureAction {
    /// Call the host's create entry point, then hand the returned handle to
    /// `complete_texture_create`.
    Create(TextureCreateParams),
    /// Call the host's update entry point in place; the cache is unchanged.
    Update(TextureUpdateParams),
    /// A partial update named an id the cache does not hold: a stale update
    /// after eviction, reported and skipped, never an error.
    SkipStale,
    /// The payload length does not match `4 * width * height`: a logic error
    /// reported and skipped, never attempted against the host.
    SkipInvalidData,
}

/// State persisted across frames: the texture cache. At teardown the
/// embedder frees every id still held (the map's keys) through
/// `free_textures`, which hands each native handle out for release exactly
/// once; the cache itself releases nothing on its own.
pub struct RenderState {
    /// Host textures by the UI toolkit's texture id.
    pub textures: HashMap<u64, OwnedBwTexture>,
}

impl RenderState {
    /// An empty cache, as set up when the overlay attaches.
    pub fn new() -> (r: RenderState)
        ensures
            r.textures@ == Map::<u64, OwnedBwTexture>::empty(),
    {
        RenderState { textures: HashMap::with_capacity(16) }
    }
}

/// The payload length a `width` by `height` RGBA8 image must have.
pub open spec fn rgba_len(width: int, height: int) -> int {
    4 * width * height
}

/// Decides the create-call parameters for a new RGBA8 texture, or refuses a
/// payload whose length does not match its extent — before any host call is
/// made.
pub fn texture_create_params(size: (u32, u32), data_len: u64, bilinear: bool) -> (r: Option<
    TextureCreateParams,
>)
    requires
        (size.0 as int) * (size.1 as int) <= 0xffff_ffff,
    ensures
        r is Some <==> data_len == rgba_len(size.0 as int, size.1 as int),
        r matches Some(p) ==> p == (TextureCreateParams {
            width: size.0,
            height: size.1,
            filtering: if bilinear {
                1u32
            } else {
                0u32
            },
            format: 0u32,
            wrap_mode: 0u32,
        }),
{
    let pixels = (size.0 as u64) * (size.1 as u64);
    proof {
        assert((size.0 as int) * (size.1 as int) >= 0) by (nonlinear_arith);
        assert(4 * (size.0 as int) * (size.1 as int) == 4 * ((size.0 as int) * (size.1
            as int))) by (nonlinear_arith);
    }
    if data_len != 4 * pixels {
        return None;
    }
    let filtering: u32 = if bilinear {
        1
    } else {
        0
    };
    Some(TextureCreateParams { width: size.0, height: size.1, filtering, format: 0, wrap_mode: 0 })
}

impl OwnedBwTexture {
    /// The native handle, for binding into a draw command.
    pub fn bw(&self) -> (r: usize)
        ensures
            r == self.texture,
    {
        self.texture
    }

    /// Wraps the handle the host's create entry point returned for the given
    /// parameters; `None` when the host returned its failure sentinel 0.
    pub fn new_rgba(params: TextureCreateParams, texture: usize) -> (r: Option<OwnedBwTexture>)
        requires
            params.filtering <= 1,
            params.format == 0,
            params.wrap_mode == 0,
        ensures
            r is Some <==> texture != 0,
            r matches Some(t) ==> t == (OwnedBwTexture {
                texture,
                filtering: params.filtering as u8,
                format: params.format as u8,
                wrap_mode: params.wrap_mode as u8,
            }),
    {
        if texture == 0 {
            None
        } else {
            Some(
                OwnedBwTexture {
                    texture,
                    filtering: params.filtering as u8,
                    format: params.format as u8,
                    wrap_mode: params.wrap_mode as u8,
                },
            )
        }
    }
}

/// Judges one "set" entry of a texture delta against the cache: a whole
/// image for an id becomes a create request, a positioned update on a held
/// id becomes an in-place host update with the entry's stored parameters, a
/// positioned update on an unknown id is skipped as stale, and a payload
/// whose length belies its extent is never handed to the host.
pub fn update_texture_entry(state: &RenderState, set: &TextureSet) -> (r: TextureAction)
    requires
        (set.width as int) * (set.height as int) <= 0xffff_ffff,
    ensures
        ({
            let len_ok = set.data_len == rgba_len(set.width as int, set.height as int);
            match set.pos {
                None => {
                    &&& len_ok ==> (r matches TextureAction::Create(p) && p
                        == (TextureCreateParams {
                        width: set.width,
                        height: set.height,
                        filtering: if set.bilinear {
                            1u32
                        } else {
                            0u32
                        },
                        format: 0u32,
                        wrap_mode: 0u32,
                    }))
                    &&& !len_ok ==> r == TextureAction::SkipInvalidData
                },
                Some(pos) => {
                    &&& !state.textures@.contains_key(set.id) ==> r == TextureAction::SkipStale
                    &&& state.textures@.contains_key(set.id) && !len_ok ==> r
                        == TextureAction::SkipInvalidData
                    &&& state.textures@.contains_key(set.id) && len_ok ==> (r
                        matches TextureAction::Update(u) && u == (TextureUpdateParams {
                        handle: state.textures@[set.id].texture,
                        x: pos.0,
                        y: pos.1,
                        width: set.width,
                        height: set.height,
                        row_length: set.width,
                        format: state.textures@[set.id].format as u32,
                        filtering: state.textures@[set.id].filtering as u32,
                        wrap_mode: state.textures@[set.id].wrap_mode as u32,
                    }))
                },
            }
        }),
{
    proof {
        assert((set.width as int) * (set.height as int) >= 0) by (nonlinear_arith);
        assert(4 * (set.width as int) * (set.height as int) == 4 * ((set.width as int) * (
        set.height as int))) by (nonlinear_arith);
    }
    match set.pos {
        Some(pos) => {
            match state.textures.get(&set.id) {
                Some(tex) => {
                    let pixels = (set.width as u64) * (set.height as u64);
                    if set.data_len != 4 * pixels {
                        TextureAction::SkipInvalidData
                    } else {
                        TextureAction::Update(
                            TextureUpdateParams {
                                handle: tex.texture,
                                x: pos.0,
                                y: pos.1,
                                width: set.width,
                                height: set.height,
                                row_length: set.width,
                                format: tex.format as u32,
                                filtering: tex.filtering as u32,
                                wrap_mode: tex.wrap_mode as u32,
                            },
                        )
                    }
                },
                None => TextureAction::SkipStale,
            }
        },
        None => {
            match texture_create_params((set.width, set.height), set.data_len, set.bilinear) {
                Some(p) => TextureAction::Create(p),
                None => TextureAction::SkipInvalidData,
            }
        },
    }
}

/// Takes back the handle the host's create entry point returned. A real
/// handle enters the cache under `id`; the failure sentinel 0 leaves the
/// cache unchanged (the id stays absent) and the edge reports the failure.
/// A create for an id the cache already holds replaces its entry, and the
/// displaced entry's native handle comes back as `Ok(Some(handle))`: the
/// edge must release it, exactly once, like a freed one — the cache never
/// holds or leaks two handles for one id.
pub fn complete_texture_create(
    state: &mut RenderState,
    id: u64,
    params: TextureCreateParams,
    texture: usize,
) -> (r: Result<Option<usize>, DrawError>)
    requires
        params.filtering <= 1,
        params.format == 0,
        params.wrap_mode == 0,
    ensures
        r is Ok <==> texture != 0,
        r is Err ==> r == Err::<Option<usize>, DrawError>(DrawError::TextureCreationFailed),
        texture != 0 ==> final(state).textures@ == old(state).textures@.insert(
            id,
            OwnedBwTexture {
                texture,
                filtering: params.filtering as u8,
                format: params.format as u8,
                wrap_mode: params.wrap_mode as u8,
            },
        ),
        texture != 0 && old(state).textures@.contains_key(id) ==> r == Ok::<
            Option<usize>,
            DrawError,
        >(Some(old(state).textures@[id].texture)),
        texture != 0 && !old(state).textures@.contains_key(id) ==> r == Ok::<
            Option<usize>,
            DrawError,
        >(None),
        texture == 0 ==> final(state).textures@ == old(state).textures@,
{
    match OwnedBwTexture::new_rgba(params, texture) {
        Some(tex) => {
            match state.textures.insert(id, tex) {
                Some(displaced) => Ok(Some(displaced.texture)),
                None => Ok(None),
            }
        },
        None => Err(DrawError::TextureCreationFailed),
    }
}

/// The error one texture action reports: a payload whose length belies its
/// extent is `InvalidImageData`; a stale update and the host calls proper
/// report nothing here.
pub fn texture_action_error(action: &TextureAction) -> (r: Option<DrawError>)
    ensures
        r is Some <==> *action is SkipInvalidData,
        r is Some ==> r == Some(DrawError::InvalidImageData),
{
    match action {
        TextureAction::SkipInvalidData => Some(DrawError::InvalidImageData),
        _ => None,
    }
}

/// The cache after the ids in `ids` are freed, in order.
pub open spec fn remove_ids(m: Map<u64, OwnedBwTexture>, ids: Seq<u64>) -> Map<
    u64,
    OwnedBwTexture,
>
    decreases ids.len(),
{
    if ids.len() == 0 {
        m
    } else {
        remove_ids(m.remove(ids[0]), ids.drop_first())
    }
}

/// The native handles released while freeing `ids` in order: one handle per
/// id held by the cache at that moment, none for ids it does not hold.
pub open spec fn released_handles(m: Map<u64, OwnedBwTexture>, ids: Seq<u64>) -> Seq<usize>
    decreases ids.len(),
{
    if ids.len() == 0 {
        Seq::empty()
    } else if m.contains_key(ids[0]) {
        seq![m[ids[0]].texture] + released_handles(m.remove(ids[0]), ids.drop_first())
    } else {
        released_handles(m, ids.drop_first())
    }
}

/// Frees the given texture ids: each held id leaves the cache and its native
/// handle is handed back for the host edge to release — exactly once. An id
/// the cache does not hold is a no-op.
#[verifier::loop_isolation(false)]
pub fn free_textures(state: &mut RenderState, free: &Vec<u64>) -> (released: Vec<usize>)
    ensures
        final(state).textures@ == remove_ids(old(state).textures@, free@),
        released@ == released_handles(old(state).textures@, free@),
{
    let mut released: Vec<usize> = Vec::new();
    let mut i: usize = 0;
    proof {
        assert(free@.subrange(0, free@.len() as int) =~= free@);
        assert(Seq::<usize>::empty() + released_handles(state.textures@, free@)
            =~= released_handles(state.textures@, free@));
    }
    while i < free.len()
        invariant
            i <= free.len(),
            remove_ids(old(state).textures@, free@) == remove_ids(
                state.textures@,
                free@.subrange(i as int, free@.len() as int),
            ),
            released_handles(old(state).textures@, free@) == released@ + released_handles(
                state.textures@,
                free@.subrange(i as int, free@.len() as int),
            ),
        decreases free.len() - i,
    {
        let ghost pre = state.textures@;
        let ghost rest = free@.subrange(i as int, free@.len() as int);
        let id = free[i];
        let removed = state.textures.remove(&id);
        proof {
            assert(rest[0] == id);
            assert(rest.drop_first() =~= free@.subrange(i + 1, free@.len() as int));
        }
        match removed {
            Some(tex) => {
                let ghost prev_released = released@;
                released.push(tex.texture);
                proof {
                    assert(pre.contains_key(id) && pre[id] == tex);
                    assert(state.textures@ == pre.remove(id));
                    assert(remove_ids(pre, rest) == remove_ids(
                        state.textures@,
                        rest.drop_first(),
                    ));
                    let tail = released_handles(state.textures@, rest.drop_first());
                    assert(released_handles(pre, rest) == seq![tex.texture] + tail);
                    assert(prev_released + (seq![tex.texture] + tail) =~= released@ + tail);
                }
            },
            None => {
                proof {
                    assert(!pre.contains_key(id));
                    assert(state.textures@ =~= pre.remove(id));
                    assert(pre.remove(id) =~= pre);
                    assert(remove_ids(pre, rest) == remove_ids(
                        state.textures@,
                        rest.drop_first(),
                    ));
                    assert(released_handles(pre, rest) == released_handles(
                        state.textures@,
                        rest.drop_first(),
                    ));
                }
            },
        }
        i = i + 1;
    }
    proof {
        assert(free@.subrange(free@.len() as int, free@.len() as int) =~= Seq::<u64>::empty());
    }
    released
}

/// TESTABLE PROPERTY — freeing ids that the cache does not hold is a no-op:
/// the cache keeps every entry and no handle is released.
pub proof fn lemma_free_absent_is_noop(m: Map<u64, OwnedBwTexture>, ids: Seq<u64>)
    requires
        forall|j: int| 0 <= j < ids.len() ==> !m.contains_key(#[trigger] ids[j]),
    ensures
        remove_ids(m, ids) == m,
        released_handles(m, ids) == Seq::<usize>::empty(),
    decreases ids.len(),
{
    if ids.len() > 0 {
        assert(!m.contains_key(ids[0]));
        assert(m.remove(ids[0]) =~= m);
        assert(forall|j: int|
            0 <= j < ids.drop_first().len() ==> !m.contains_key(
                #[trigger] ids.drop_first()[j],
            ));
        lemma_free_absent_is_noop(m, ids.drop_first());
    }
}

/// TESTABLE PROPERTY — freeing the same id twice releases its handle exactly
/// once: the second free finds the id gone and is a no-op, so no handle can
/// be released twice through the cache.
pub proof fn lemma_double_free_releases_once(m: Map<u64, OwnedBwTexture>, id: u64)
    ensures
        m.contains_key(id) ==> released_handles(m, seq![id, id]) == seq![m[id].texture],
        !m.contains_key(id) ==> released_handles(m, seq![id, id]) == Seq::<usize>::empty(),
{
    let ids = seq![id, id];
    assert(ids.drop_first() =~= seq![id]);
    assert(seq![id].drop_first() =~= Seq::<u64>::empty());
    if m.contains_key(id) {
        let m1 = m.remove(id);
        assert(!m1.contains_key(id));
        assert(released_handles(m1, seq![id]) == released_handles(
            m1,
            Seq::<u64>::empty(),
        ));
        assert(released_handles(m, ids) =~= seq![m[id].texture]);
    } else {
        assert(released_handles(m, ids) == released_handles(m, seq![id]));
        assert(released_handles(m, seq![id]) == released_handles(m, Seq::<u64>::empty()));
    }
}

} // verus!
