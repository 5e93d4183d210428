//! Kitty graphics image storage and state management.
use std::collections::hash_map::Entry;
use std::collections::{HashMap, HashSet};
use vstd::prelude::*;

use crate::graphics::GraphicData;
use crate::kitty::animation::{AnimationState, AnimationView};
use crate::kitty_parser::{DeleteTarget, KittyCommand};

verus! {

broadcast use vstd::std_specs::hash::group_hash_axioms;

/// Maximum total memory for kitty image storage (320 MiB).
pub const STORAGE_QUOTA: usize = 320 * 1024 * 1024;

/// A stored kitty image, potentially with multiple placements on screen.
#[derive(Debug)]
pub struct KittyImage {
    /// The decoded pixel data. Retained for re-placement and animation.
    pub data: GraphicData,
    /// Size of the pixel data in bytes (for quota tracking).
    pub total_bytes: usize,
    /// When the image was last stored or placed, by the clock of the state.
    pub last_used: u64,
}

/// Accumulator for chunked image transfers.
#[derive(Debug)]
pub struct KittyLoadingImage {
    /// The command from the first chunk (carries format, medium, etc.).
    pub command: KittyCommand,
    /// Accumulated decoded bytes across chunks.
    ///
    /// Each chunk's base64 is decoded on arrival and the raw bytes are
    /// appended here. This handles clients that independently base64-encode
    /// each chunk (e.g. chafa), which would corrupt group alignment if we
    /// concatenated base64 strings and decoded once at the end.
    pub data: Vec<u8>,
}

/// What a chunked transfer holds.
#[verifier::ext_equal]
pub struct LoadingView {
    pub command: KittyCommand,
    pub data: Seq<u8>,
}

impl View for KittyLoadingImage {
    type V = LoadingView;

    open spec fn view(&self) -> LoadingView {
        LoadingView { command: self.command, data: self.data@ }
    }
}

/// A tracked kitty image placement on the terminal grid.
///
/// Coordinates are 0-based, matching the internal grid coordinate system.
/// The `row` field is `i32` to represent scrollback (negative values).
#[derive(Debug, Clone, PartialEq, Eq)]
pub struct KittyPlacement {
    /// Image ID this placement refers to.
    pub image_id: u32,
    /// Placement ID (0 = unspecified / default).
    pub placement_id: u32,
    /// Column where the top-left corner is placed (0-based).
    pub col: usize,
    /// Row where the top-left corner is placed (0-based, negative for scrollback).
    pub row: i32,
    /// Number of columns the placement spans.
    pub width: usize,
    /// Number of rows the placement spans.
    pub height: usize,
    /// Z-index for layering.
    pub z_index: i32,
}

impl KittyPlacement {
    /// Whether the placement spans the column `col`.
    pub open spec fn covers_col(self, col: int) -> bool {
        self.col <= col < self.col + self.width
    }

    /// Whether the placement spans the row `row`.
    pub open spec fn covers_row(self, row: int) -> bool {
        self.row <= row < self.row + self.height as i32
    }

    /// Whether the placement spans the cell at `col` and `row`.
    pub open spec fn covers_cell(self, col: int, row: int) -> bool {
        self.covers_col(col) && self.covers_row(row)
    }

    /// Check whether this placement overlaps the given column.
    pub fn overlaps_col(&self, col: usize) -> (r: bool)
        ensures
            r == self.covers_col(col as int),
    {
        col >= self.col && col - self.col < self.width
    }

    /// Check whether this placement overlaps the given row.
    pub fn overlaps_row(&self, row: i32) -> (r: bool)
        ensures
            r == self.covers_row(row as int),
    {
        row >= self.row && (row as i64) < self.row as i64 + (self.height as i32) as i64
    }

    /// Check whether this placement overlaps the given cell.
    pub fn overlaps_cell(&self, col: usize, row: i32) -> (r: bool)
        ensures
            r == self.covers_cell(col as int, row as int),
    {
        self.overlaps_col(col) && self.overlaps_row(row)
    }
}

/// Kitty graphics protocol state, stored inside `Graphics`.
#[derive(Debug)]
pub struct KittyState {
    /// Stored images keyed by image ID.
    pub images: HashMap<u32, KittyImage>,
    /// Mapping from image number (`I=`) to image ID (`i=`).
    pub number_to_id: HashMap<u32, u32>,
    /// Animation states keyed by image ID.
    pub animation_states: HashMap<u32, AnimationState>,
    /// Image currently being loaded via chunked transfer.
    pub loading: Option<KittyLoadingImage>,
    /// Total bytes used by stored images (for quota enforcement).
    pub used_memory: usize,
    /// Tracked placements on the terminal grid.
    pub placements: Vec<KittyPlacement>,
    /// Next auto-assigned image ID (when client doesn't provide one).
    pub next_image_id: u32,
    /// Counts the uses of images, to tell which was used last.
    pub clock: u64,
}

/// What the state holds.
#[verifier::ext_equal]
pub struct StateView {
    pub images: Map<u32, KittyImage>,
    pub number_to_id: Map<u32, u32>,
    pub animations: Map<u32, AnimationView>,
    pub loading: Option<LoadingView>,
    pub used_memory: usize,
    pub placements: Seq<KittyPlacement>,
    pub next_image_id: u32,
    pub clock: u64,
}

impl View for KittyState {
    type V = StateView;

    open spec fn view(&self) -> StateView {
        StateView {
            images: self.images@,
            number_to_id: self.number_to_id@,
            animations: self.animation_states@.map_values(|a: AnimationState| a@),
            loading: match self.loading {
                Some(l) => Some(l@),
                None => None,
            },
            used_memory: self.used_memory,
            placements: self.placements@,
            next_image_id: self.next_image_id,
            clock: self.clock,
        }
    }
}

// ── Stored bytes ───────────────────────────────────────────────────────

/// The bytes that the images of a finite map take together.
pub open spec fn stored_bytes(images: Map<u32, KittyImage>) -> nat
    decreases images.dom().len(),
    when images.dom().finite()
{
    if images.dom().len() == 0 {
        0
    } else {
        let id = images.dom().choose();
        images[id].total_bytes as nat + stored_bytes(images.remove(id))
    }
}

/// `used` less `bytes`, at least 0.
pub open spec fn less(used: usize, bytes: int) -> usize {
    if used >= bytes {
        (used - bytes) as usize
    } else {
        0
    }
}

/// Taking any one image out takes its bytes out.
pub proof fn lemma_stored_bytes_remove(images: Map<u32, KittyImage>, id: u32)
    requires
        images.dom().finite(),
        images.contains_key(id),
    ensures
        stored_bytes(images) == images[id].total_bytes + stored_bytes(images.remove(id)),
    decreases images.dom().len(),
{
    let first = images.dom().choose();
    if first != id {
        let rest = images.remove(first);
        lemma_stored_bytes_remove(rest, id);
        lemma_stored_bytes_remove(images.remove(id), first);
        assert(rest.remove(id) =~= images.remove(id).remove(first));
    }
}

/// Taking one more image out of a selection.
proof fn lemma_stored_bytes_restrict(images: Map<u32, KittyImage>, gone: Set<u32>, id: u32)
    requires
        images.dom().finite(),
        !gone.contains(id),
    ensures
        images.restrict(gone).dom().finite(),
        stored_bytes(images.restrict(gone.insert(id))) == stored_bytes(images.restrict(gone)) + (
        if images.contains_key(id) {
            images[id].total_bytes as int
        } else {
            0
        }),
{
    assert(images.restrict(gone).dom() =~= images.dom().intersect(gone));
    assert(images.restrict(gone.insert(id)).dom() =~= images.dom().intersect(gone.insert(id)));
    if images.contains_key(id) {
        lemma_stored_bytes_remove(images.restrict(gone.insert(id)), id);
        assert(images.restrict(gone.insert(id)).remove(id) =~= images.restrict(gone));
    } else {
        assert(images.restrict(gone.insert(id)) =~= images.restrict(gone));
    }
}

/// A selection of nothing takes no bytes.
proof fn lemma_stored_bytes_none(images: Map<u32, KittyImage>)
    ensures
        stored_bytes(images.restrict(Set::empty())) == 0,
{
    assert(images.restrict(Set::empty()).dom() =~= Set::empty());
}

// ── What the operations make of a state ────────────────────────────────

/// The entries of `numbers` whose image ID passes `keep`.
pub open spec fn numbers_where(numbers: Map<u32, u32>, keep: spec_fn(u32) -> bool) -> Map<u32, u32> {
    Map::new(|n: u32| numbers.contains_key(n) && keep(numbers[n]), |n: u32| numbers[n])
}

/// The 0-based column that the 1-based `src_x` names; the cursor's where that
/// is 0.
pub open spec fn column_of(src_x: u32, cursor_col: usize) -> int {
    if src_x > 0 {
        src_x - 1
    } else {
        cursor_col as int
    }
}

/// The 0-based row that the 1-based `src_y` names; the cursor's where that is 0.
pub open spec fn row_of(src_y: u32, cursor_row: usize) -> int {
    if src_y > 0 {
        (src_y - 1) as i32 as int
    } else {
        cursor_row as i32 as int
    }
}

/// The image ID that follows `id`: the next one up, 0 left out.
pub open spec fn id_after(id: u32) -> u32 {
    if id == u32::MAX {
        1
    } else {
        (id + 1) as u32
    }
}

/// The first image ID after `id` that is not among `taken`, looking at no more
/// than `tries` more of them after the next.
pub open spec fn free_id_after(taken: Set<u32>, id: u32, tries: nat) -> u32
    decreases tries,
{
    let next = id_after(id);
    if tries == 0 || !taken.contains(next) {
        next
    } else {
        free_id_after(taken, next, (tries - 1) as nat)
    }
}

/// The next reading of the clock.
pub open spec fn tick(clock: u64) -> u64 {
    if clock == u64::MAX {
        clock
    } else {
        (clock + 1) as u64
    }
}

/// Whether a target that selects placements selects `p`.
pub open spec fn selects(
    target: DeleteTarget,
    cmd: KittyCommand,
    cursor_col: usize,
    cursor_row: usize,
    p: KittyPlacement,
) -> bool {
    let col = column_of(cmd.src_x, cursor_col);
    let row = row_of(cmd.src_y, cursor_row);
    match target {
        DeleteTarget::AtCursor | DeleteTarget::AtCursorIncludingScrollback => p.covers_cell(
            cursor_col as int,
            cursor_row as i32 as int,
        ),
        DeleteTarget::ByPlacementId | DeleteTarget::ByPlacementIdIncludingScrollback => {
            p.placement_id == cmd.placement_id && (cmd.image_id == 0 || p.image_id == cmd.image_id)
        },
        DeleteTarget::ByColumn | DeleteTarget::ByColumnIncludingScrollback => p.covers_col(col),
        DeleteTarget::ByRow | DeleteTarget::ByRowIncludingScrollback => p.covers_row(row),
        DeleteTarget::ByCell | DeleteTarget::ByCellIncludingScrollback => p.covers_cell(col, row),
        DeleteTarget::ByCellZ | DeleteTarget::ByCellZIncludingScrollback => {
            p.covers_cell(col, row) && p.z_index == cmd.z_index
        },
        DeleteTarget::ByZIndex | DeleteTarget::ByZIndexIncludingScrollback => p.z_index
            == cmd.z_index,
        _ => false,
    }
}

/// Whether a target that selects placements also takes the images that lose
/// their last placement.
pub open spec fn takes_orphans(target: DeleteTarget) -> bool {
    match target {
        DeleteTarget::AtCursorIncludingScrollback
        | DeleteTarget::ByPlacementIdIncludingScrollback
        | DeleteTarget::ByColumnIncludingScrollback
        | DeleteTarget::ByRowIncludingScrollback
        | DeleteTarget::ByCellIncludingScrollback
        | DeleteTarget::ByCellZIncludingScrollback
        | DeleteTarget::ByZIndexIncludingScrollback => true,
        _ => false,
    }
}

/// The `n`-th image ID after `id`.
pub open spec fn nth_id_after(id: u32, n: nat) -> u32
    decreases n,
{
    if n == 0 {
        id
    } else {
        id_after(nth_id_after(id, (n - 1) as nat))
    }
}

/// Image IDs run through all values but 0 before they repeat.
pub proof fn lemma_nth_id(id: u32, n: nat)
    requires
        1 <= n,
    ensures
        nth_id_after(id, n) == (id + n - 1) % 0xffff_ffff + 1,
    decreases n,
{
    if n == 1 {
        reveal_with_fuel(nth_id_after, 2);
    } else {
        lemma_nth_id(id, (n - 1) as nat);
    }
}

/// Counting on from the next ID.
proof fn lemma_nth_from_next(id: u32, n: nat)
    ensures
        nth_id_after(id_after(id), n) == nth_id_after(id, n + 1),
    decreases n,
{
    if n == 0 {
        reveal_with_fuel(nth_id_after, 2);
    } else {
        lemma_nth_from_next(id, (n - 1) as nat);
    }
}

/// The ID found is the first one of those looked at that is not taken, or the
/// last one looked at.
pub proof fn lemma_free_id_is_first(taken: Set<u32>, id: u32, tries: nat) -> (n: nat)
    ensures
        1 <= n <= tries + 1,
        free_id_after(taken, id, tries) == nth_id_after(id, n),
        forall|k: nat| 1 <= k < n ==> taken.contains(#[trigger] nth_id_after(id, k)),
        taken.contains(nth_id_after(id, n)) ==> n == tries + 1,
    decreases tries,
{
    let next = id_after(id);
    reveal_with_fuel(nth_id_after, 2);
    if tries == 0 || !taken.contains(next) {
        1
    } else {
        let m = lemma_free_id_is_first(taken, next, (tries - 1) as nat);
        lemma_nth_from_next(id, m);
        assert forall|k: nat| 1 <= k < m + 1 implies taken.contains(
            #[trigger] nth_id_after(id, k),
        ) by {
            if k > 1 {
                lemma_nth_from_next(id, (k - 1) as nat);
                assert(taken.contains(nth_id_after(next, (k - 1) as nat)));
            }
        }
        m + 1
    }
}

/// The ID found is taken only where every ID is.
pub proof fn lemma_free_id_is_free(taken: Set<u32>, id: u32, free: u32)
    requires
        free != 0,
        !taken.contains(free),
    ensures
        !taken.contains(free_id_after(taken, id, u32::MAX as nat)),
{
    let n = lemma_free_id_is_first(taken, id, u32::MAX as nat);
    if taken.contains(nth_id_after(id, n)) {
        // Every ID was looked at, `free` too.
        let k: nat = if free > id {
            (free - id) as nat
        } else {
            (free - id + 0xffff_ffff) as nat
        };
        if k > 0 {
            lemma_nth_id(id, k);
            assert(nth_id_after(id, k) == free);
        }
    }
}

/// The IDs from 1 to `n` are `n` in number.
proof fn lemma_ids_counted(n: u32)
    ensures
        Set::new(|i: u32| 1 <= i <= n).finite(),
        Set::new(|i: u32| 1 <= i <= n).len() == n,
    decreases n,
{
    let ids = Set::new(|i: u32| 1 <= i <= n);
    if n == 0 {
        assert(ids =~= Set::empty());
    } else {
        let fewer = (n - 1) as u32;
        lemma_ids_counted(fewer);
        assert(ids =~= Set::new(|i: u32| 1 <= i <= fewer).insert(n));
    }
}

/// With fewer IDs taken than there are, the ID found is not taken.
proof fn lemma_free_id(taken: Set<u32>, id: u32)
    requires
        taken.finite(),
        taken.len() < u32::MAX,
    ensures
        !taken.contains(free_id_after(taken, id, u32::MAX as nat)),
{
    let ids = Set::new(|i: u32| 1 <= i <= u32::MAX);
    if forall|i: u32| 1 <= i ==> taken.contains(i) {
        lemma_ids_counted(u32::MAX);
        vstd::set_lib::lemma_len_subset(ids, taken);
    } else {
        let free = choose|i: u32| 1 <= i && !taken.contains(i);
        lemma_free_id_is_free(taken, id, free);
    }
}

impl StateView {
    /// A state that holds nothing.
    pub open spec fn empty() -> StateView {
        StateView {
            images: Map::empty(),
            number_to_id: Map::empty(),
            animations: Map::empty(),
            loading: None,
            used_memory: 0,
            placements: Seq::empty(),
            next_image_id: 0,
            clock: 0,
        }
    }

    /// Whether some placement shows the image `id`.
    pub open spec fn referenced(self, id: u32) -> bool {
        exists|i: int| 0 <= i < self.placements.len() && (#[trigger] self.placements[i]).image_id == id
    }

    /// The state without the images `gone`, their bytes and their animations.
    pub open spec fn without_images(self, gone: Set<u32>) -> StateView {
        StateView {
            images: self.images.remove_keys(gone),
            animations: self.animations.remove_keys(gone),
            used_memory: less(self.used_memory, stored_bytes(self.images.restrict(gone)) as int),
            ..self
        }
    }

    /// The state without the image numbers that stand for `gone`.
    pub open spec fn without_numbers_of(self, gone: Set<u32>) -> StateView {
        StateView {
            number_to_id: numbers_where(self.number_to_id, |id: u32| !gone.contains(id)),
            ..self
        }
    }

    /// The state without the placements that pass `out`.
    pub open spec fn without_placements(self, out: spec_fn(KittyPlacement) -> bool) -> StateView {
        StateView { placements: self.placements.filter(|p: KittyPlacement| !out(p)), ..self }
    }

    /// The images with a placement that passes `out`.
    pub open spec fn images_of(self, out: spec_fn(KittyPlacement) -> bool) -> Set<u32> {
        Set::new(
            |id: u32|
                exists|i: int|
                    0 <= i < self.placements.len() && out(#[trigger] self.placements[i])
                        && self.placements[i].image_id == id,
        )
    }

    /// The images among `ids` that no placement shows.
    pub open spec fn orphans(self, ids: Set<u32>) -> Set<u32> {
        Set::new(|id: u32| ids.contains(id) && !self.referenced(id))
    }

    /// The image ID assigned next: the first one after the last assigned that no
    /// stored image has.
    pub open spec fn fresh_id(self) -> u32 {
        free_id_after(self.images.dom(), self.next_image_id, u32::MAX as nat)
    }

    /// Whether `gone` is a selection that eviction may make: images that no
    /// placement shows, none of them used later than such an image that stays; no
    /// more of them than it takes to get down to the quota, and all of them where
    /// that is still not enough.
    pub open spec fn may_evict(self, gone: Set<u32>) -> bool {
        let excess = self.used_memory - STORAGE_QUOTA;
        &&& gone.subset_of(self.images.dom())
        &&& forall|id: u32| #[trigger] gone.contains(id) ==> !self.referenced(id)
        &&& forall|id: u32, other: u32|
            #![trigger gone.contains(id), self.images.contains_key(other)]
            gone.contains(id) && self.images.contains_key(other) && !gone.contains(other)
                && !self.referenced(other) ==> self.images[id].last_used
                <= self.images[other].last_used
        &&& gone.is_empty() || exists|last: u32| #[trigger]
            gone.contains(last) && stored_bytes(self.images.restrict(gone.remove(last))) < excess
        &&& stored_bytes(self.images.restrict(gone)) >= excess || forall|id: u32| #[trigger]
            self.images.contains_key(id) && !self.referenced(id) ==> gone.contains(id)
    }

    /// The state after evicting `gone`: without those images and their bytes, and
    /// without the image numbers that stand for no stored image.
    pub open spec fn evicted(self, gone: Set<u32>) -> StateView {
        let images = self.images.remove_keys(gone);
        StateView {
            images,
            used_memory: less(self.used_memory, stored_bytes(self.images.restrict(gone)) as int),
            number_to_id: numbers_where(self.number_to_id, |id: u32| images.contains_key(id)),
            ..self
        }
    }

    /// Whether enforcing the quota may turn `self` into `after`.
    pub open spec fn quota_enforced(self, after: StateView) -> bool {
        if self.used_memory <= STORAGE_QUOTA {
            after == self
        } else {
            exists|gone: Set<u32>| #[trigger] self.may_evict(gone) && after == self.evicted(gone)
        }
    }

    /// The state with the image `id` out and `bytes` accounted for in its stead.
    pub open spec fn reserved(self, id: u32, bytes: int) -> StateView {
        StateView {
            images: self.images.remove(id),
            used_memory: (self.free_of(id) + bytes) as usize,
            ..self
        }
    }

    /// The bytes used once the image `id` is out.
    pub open spec fn free_of(self, id: u32) -> usize {
        if self.images.contains_key(id) {
            less(self.used_memory, self.images[id].total_bytes as int)
        } else {
            self.used_memory
        }
    }

    /// The image that storing `data` now makes.
    pub open spec fn image_of(self, data: GraphicData) -> KittyImage {
        KittyImage { data, total_bytes: data.pixels.len(), last_used: tick(self.clock) }
    }

    /// Whether storing `data` under `id` may turn `self` into `after`: the bytes
    /// are accounted for, the quota is enforced, then the image is inserted.
    pub open spec fn stored(self, id: u32, data: GraphicData, after: StateView) -> bool {
        exists|room: StateView| #[trigger]
            self.reserved(id, data.pixels.len() as int).quota_enforced(room) && after == (
            StateView {
                images: room.images.insert(id, self.image_of(data)),
                clock: tick(self.clock),
                ..room
            })
    }

    /// The state with the image `id` marked as used now.
    pub open spec fn touched(self, id: u32) -> StateView {
        StateView {
            images: if self.images.contains_key(id) {
                self.images.insert(
                    id,
                    KittyImage { last_used: tick(self.clock), ..self.images[id] },
                )
            } else {
                self.images
            },
            clock: tick(self.clock),
            ..self
        }
    }

    /// What deleting by `target` leaves.
    pub open spec fn deleted(
        self,
        target: DeleteTarget,
        cmd: KittyCommand,
        cursor_col: usize,
        cursor_row: usize,
    ) -> StateView {
        match target {
            DeleteTarget::All | DeleteTarget::AllIncludingScrollback => StateView {
                loading: self.loading,
                next_image_id: self.next_image_id,
                clock: self.clock,
                ..StateView::empty()
            },
            DeleteTarget::ById | DeleteTarget::ByIdIncludingScrollback => {
                let gone = set![cmd.image_id];
                if cmd.image_id != 0 {
                    self.without_placements(
                        |p: KittyPlacement| p.image_id == cmd.image_id,
                    ).without_images(gone).without_numbers_of(gone)
                } else {
                    self
                }
            },
            DeleteTarget::ByNumber | DeleteTarget::ByNumberIncludingScrollback => {
                let number = cmd.image_number;
                let image_id = self.number_to_id[number];
                if number != 0 && self.number_to_id.contains_key(number) {
                    StateView {
                        number_to_id: self.number_to_id.remove(number),
                        ..self.without_placements(
                            |p: KittyPlacement| p.image_id == image_id,
                        ).without_images(set![image_id])
                    }
                } else {
                    self
                }
            },
            DeleteTarget::AnimationFrames | DeleteTarget::AnimationFramesIncludingScrollback => {
                if cmd.image_id != 0 {
                    StateView { animations: self.animations.remove(cmd.image_id), ..self }
                } else {
                    self
                }
            },
            _ => {
                let out = |p: KittyPlacement| selects(target, cmd, cursor_col, cursor_row, p);
                let left = self.without_placements(out);
                let gone = left.orphans(self.images_of(out));
                if takes_orphans(target) {
                    left.without_images(gone).without_numbers_of(gone)
                } else {
                    left
                }
            },
        }
    }
}

// ── Operations ─────────────────────────────────────────────────────────

impl Default for KittyState {
    fn default() -> (r: Self)
        ensures
            r@ == StateView::empty(),
    {
        let r = KittyState {
            images: HashMap::new(),
            number_to_id: HashMap::new(),
            animation_states: HashMap::new(),
            loading: None,
            used_memory: 0,
            placements: Vec::new(),
            next_image_id: 0,
            clock: 0,
        };
        assert(r@ =~= StateView::empty());
        r
    }
}

/// Keeps the entries of `numbers` whose image ID passes `keep`.
fn retain_numbers<F: Fn(u32) -> bool>(
    numbers: &mut HashMap<u32, u32>,
    keep: F,
    Ghost(kept): Ghost<spec_fn(u32) -> bool>,
)
    requires
        forall|id: u32| call_requires(keep, (id,)),
        forall|id: u32, b: bool| call_ensures(keep, (id,), b) ==> b == kept(id),
    ensures
        final(numbers)@ == numbers_where(old(numbers)@, kept),
{
    let ghost all = numbers@;
    let mut stale: Vec<u32> = Vec::new();
    for (number, id) in iter: numbers.iter()
        invariant
            all == numbers@,
            forall|id: u32| call_requires(keep, (id,)),
            forall|id: u32, b: bool| call_ensures(keep, (id,), b) ==> b == kept(id),
            forall|j: int|
                0 <= j < stale.len() ==> all.contains_key(#[trigger] stale[j]) && !kept(
                    all[stale[j]],
                ),
            forall|j: int|
                0 <= j < iter.index() && !kept(*(#[trigger] iter.seq()[j]).1) ==> stale@.contains(
                    *iter.seq()[j].0,
                ),
    {
        if !keep(*id) {
            stale.push(*number);
        }
        proof {
            broadcast use vstd::seq_lib::group_seq_properties;
        }
    }
    let mut k: usize = 0;
    while k < stale.len()
        invariant
            k <= stale.len(),
            numbers@ == all.remove_keys(stale@.take(k as int).to_set()),
        decreases stale.len() - k,
    {
        numbers.remove(&stale[k]);
        proof {
            assert(stale@.take(k + 1) =~= stale@.take(k as int).push(stale@[k as int]));
            stale@.take(k as int).lemma_push_to_set_commute(stale@[k as int]);
            assert(numbers@ =~= all.remove_keys(stale@.take(k + 1).to_set()));
        }
        k = k + 1;
    }
    assert(stale@.take(k as int) =~= stale@);
    assert(numbers@ =~= numbers_where(all, kept));
}

impl KittyState {
    /// Remove placements matching a predicate, returning the set of image IDs
    /// that had at least one placement removed.
    fn remove_placements_matching<F>(
        &mut self,
        predicate: F,
        Ghost(out): Ghost<spec_fn(KittyPlacement) -> bool>,
    ) -> (r: HashSet<u32>) where F: Fn(&KittyPlacement) -> bool
        requires
            forall|p: KittyPlacement| call_requires(predicate, (&p,)),
            forall|p: KittyPlacement, b: bool| call_ensures(predicate, (&p,), b) ==> b == out(p),
        ensures
            final(self)@ == old(self)@.without_placements(out),
            r@ == old(self)@.images_of(out),
    {
        let mut all: Vec<KittyPlacement> = Vec::new();
        std::mem::swap(&mut all, &mut self.placements);
        let ghost given = all@;
        let ghost keep = |p: KittyPlacement| !out(p);
        let mut kept: Vec<KittyPlacement> = Vec::new();
        let mut removed: HashSet<u32> = HashSet::new();
        for p in iter: all
            invariant
                iter.seq() == given,
                forall|p: KittyPlacement| call_requires(predicate, (&p,)),
                forall|p: KittyPlacement, b: bool|
                    call_ensures(predicate, (&p,), b) ==> b == out(p),
                keep == (|p: KittyPlacement| !out(p)),
                kept@ == given.take(iter.index()).filter(keep),
                forall|id: u32|
                    removed@.contains(id) <==> exists|i: int|
                        0 <= i < iter.index() && out(#[trigger] given[i]) && given[i].image_id == id,
        {
            proof {
                let k = iter.index();
                assert(given.take(k + 1).drop_last() =~= given.take(k));
                reveal(Seq::filter);
            }
            if predicate(&p) {
                removed.insert(p.image_id);
            } else {
                kept.push(p);
            }
        }
        assert(given.take(given.len() as int) =~= given);
        self.placements = kept;
        assert(removed@ =~= old(self)@.images_of(out));
        removed
    }

    /// Whether some placement shows the image `id`.
    fn is_referenced(&self, id: u32) -> (r: bool)
        ensures
            r == self@.referenced(id),
    {
        let mut i: usize = 0;
        while i < self.placements.len()
            invariant
                i <= self.placements.len(),
                forall|j: int| 0 <= j < i ==> (#[trigger] self@.placements[j]).image_id != id,
            decreases self.placements.len() - i,
        {
            if self.placements[i].image_id == id {
                assert(self@.placements[i as int].image_id == id);
                return true;
            }
            i = i + 1;
        }
        false
    }

    /// Takes the image `id` out of the storage, if it is there.
    fn remove_image(&mut self, id: u32)
        ensures
            final(self)@ == (StateView {
                images: old(self)@.images.remove(id),
                used_memory: old(self)@.free_of(id),
                ..old(self)@
            }),
    {
        if let Some(img) = self.images.remove(&id) {
            self.used_memory = self.used_memory.saturating_sub(img.total_bytes);
        } else {
            assert(self@.images =~= old(self)@.images.remove(id));
        }
    }

    /// Removes the animation of the image `id`, if there is one.
    fn remove_animation(&mut self, id: u32)
        ensures
            final(self)@ == (StateView {
                animations: old(self)@.animations.remove(id),
                ..old(self)@
            }),
    {
        self.animation_states.remove(&id);
        assert(self@.animations =~= old(self)@.animations.remove(id));
    }

    /// Remove images whose IDs are in `ids` and that are no longer referenced
    /// by any remaining placement. Also cleans up `number_to_id` mappings.
    fn remove_orphaned_images(&mut self, ids: &HashSet<u32>)
        ensures
            final(self)@ == old(self)@.without_images(
                old(self)@.orphans(ids@),
            ).without_numbers_of(old(self)@.orphans(ids@)),
    {
        let ghost start = self@;
        let ghost mut gone: Set<u32> = Set::empty();
        proof {
            lemma_stored_bytes_none(start.images);
            assert(start.images.remove_keys(gone) =~= start.images);
            assert(start.animations.remove_keys(gone) =~= start.animations);
            assert(numbers_where(start.number_to_id, |id: u32| !gone.contains(id))
                =~= start.number_to_id);
        }
        for id in iter: ids.iter()
            invariant
                ids@ == iter.seq().unref().to_set(),
                iter.seq().no_duplicates(),
                start.images.dom().finite(),
                gone.subset_of(start.orphans(ids@)),
                forall|j: int|
                    0 <= j < iter.index() ==> start.orphans(ids@).contains(
                        *#[trigger] iter.seq()[j],
                    ) ==> gone.contains(*iter.seq()[j]),
                forall|x: u32| #[trigger]
                    gone.contains(x) ==> exists|j: int|
                        0 <= j < iter.index() && *#[trigger] iter.seq()[j] == x,
                self@ == start.without_images(gone).without_numbers_of(gone),
        {
            let ghost before = self@;
            if !self.is_referenced(*id) {
                self.remove_image(*id);
                let orphan: u32 = *id;
                let keep = |img_id: u32| -> (b: bool)
                    ensures
                        b == (img_id != orphan),
                    { img_id != orphan };
                retain_numbers(
                    &mut self.number_to_id,
                    keep,
                    Ghost(|img_id: u32| img_id != orphan),
                );
                self.remove_animation(*id);
                proof {
                    assert(before.referenced(*id) == start.referenced(*id));
                    assert(iter.seq()[iter.index()] == id);
                    assert(iter.seq().unref()[iter.index()] == *id);
                    assert(ids@.contains(*id));
                    assert(!gone.contains(*id));
                    lemma_stored_bytes_restrict(start.images, gone, *id);
                    let more = gone.insert(*id);
                    assert(self@.images =~= start.images.remove_keys(more));
                    assert(self@.animations =~= start.animations.remove_keys(more));
                    assert(self@.number_to_id =~= numbers_where(
                        start.number_to_id,
                        |id: u32| !more.contains(id),
                    ));
                    gone = more;
                }
            }
        }
        assert(gone =~= start.orphans(ids@)) by {
            assert forall|x: u32| start.orphans(ids@).contains(x) implies gone.contains(x) by {
                assert(ids@.contains(x));
            }
        }
    }

    /// Resolve a 1-based column value from the kitty protocol to 0-based,
    /// falling back to `cursor_col` when the value is 0 (not specified).
    pub fn resolve_col(src_x: u32, cursor_col: usize) -> (r: usize)
        ensures
            r == column_of(src_x, cursor_col),
    {
        if src_x > 0 {
            (src_x - 1) as usize
        } else {
            cursor_col
        }
    }

    /// Resolve a 1-based row value from the kitty protocol to 0-based,
    /// falling back to `cursor_row` when the value is 0 (not specified).
    pub fn resolve_row(src_y: u32, cursor_row: usize) -> (r: i32)
        ensures
            r == row_of(src_y, cursor_row),
    {
        if src_y > 0 {
            (src_y - 1) as i32
        } else {
            cursor_row as i32
        }
    }

    /// Whether a target that selects placements selects `p`.
    fn is_selected(
        target: DeleteTarget,
        cmd: &KittyCommand,
        cursor_col: usize,
        cursor_row: usize,
        p: &KittyPlacement,
    ) -> (r: bool)
        ensures
            r == selects(target, *cmd, cursor_col, cursor_row, *p),
    {
        let col: usize = Self::resolve_col(cmd.src_x, cursor_col);
        let row: i32 = Self::resolve_row(cmd.src_y, cursor_row);
        match target {
            DeleteTarget::AtCursor | DeleteTarget::AtCursorIncludingScrollback => {
                p.overlaps_cell(cursor_col, cursor_row as i32)
            },
            DeleteTarget::ByPlacementId | DeleteTarget::ByPlacementIdIncludingScrollback => {
                p.placement_id == cmd.placement_id && (cmd.image_id == 0 || p.image_id
                    == cmd.image_id)
            },
            DeleteTarget::ByColumn | DeleteTarget::ByColumnIncludingScrollback => {
                p.overlaps_col(col)
            },
            DeleteTarget::ByRow | DeleteTarget::ByRowIncludingScrollback => p.overlaps_row(row),
            DeleteTarget::ByCell | DeleteTarget::ByCellIncludingScrollback => {
                p.overlaps_cell(col, row)
            },
            DeleteTarget::ByCellZ | DeleteTarget::ByCellZIncludingScrollback => {
                p.overlaps_cell(col, row) && p.z_index == cmd.z_index
            },
            DeleteTarget::ByZIndex | DeleteTarget::ByZIndexIncludingScrollback => {
                p.z_index == cmd.z_index
            },
            _ => false,
        }
    }

    /// Whether a target that selects placements also takes the images that
    /// lose their last placement.
    fn removes_orphans(target: DeleteTarget) -> (r: bool)
        ensures
            r == takes_orphans(target),
    {
        match target {
            DeleteTarget::AtCursorIncludingScrollback
            | DeleteTarget::ByPlacementIdIncludingScrollback
            | DeleteTarget::ByColumnIncludingScrollback
            | DeleteTarget::ByRowIncludingScrollback
            | DeleteTarget::ByCellIncludingScrollback
            | DeleteTarget::ByCellZIncludingScrollback
            | DeleteTarget::ByZIndexIncludingScrollback => true,
            _ => false,
        }
    }

    /// Removes the image `id` with its placements and its animation.
    fn remove_image_and_placements(&mut self, id: u32)
        ensures
            final(self)@ == old(self)@.without_placements(
                |p: KittyPlacement| p.image_id == id,
            ).without_images(set![id]),
    {
        let ghost start = self@;
        let shows = |p: &KittyPlacement| -> (b: bool)
            ensures
                b == (p.image_id == id),
            { p.image_id == id };
        let ghost out = |p: KittyPlacement| p.image_id == id;
        self.remove_placements_matching(shows, Ghost(out));
        self.remove_image(id);
        self.remove_animation(id);
        proof {
            let none = Set::<u32>::empty();
            lemma_stored_bytes_none(start.images);
            lemma_stored_bytes_restrict(start.images, none, id);
            assert(none.insert(id) =~= set![id]);
            assert(self@.images =~= start.images.remove_keys(set![id]));
            assert(self@.animations =~= start.animations.remove_keys(set![id]));
        }
    }

    /// Delete images and/or placements according to the given target.
    ///
    /// `cursor_col` and `cursor_row` are 0-based grid coordinates of the
    /// terminal cursor, used for cursor-relative and fallback positioning.
    pub fn delete(
        &mut self,
        target: DeleteTarget,
        cmd: &KittyCommand,
        cursor_col: usize,
        cursor_row: usize,
    )
        ensures
            final(self)@ == old(self)@.deleted(target, *cmd, cursor_col, cursor_row),
    {
        match target {
            DeleteTarget::All | DeleteTarget::AllIncludingScrollback => {
                self.used_memory = 0;
                self.images.clear();
                self.number_to_id.clear();
                self.placements.clear();
                self.animation_states.clear();
                assert(self@ =~= old(self)@.deleted(target, *cmd, cursor_col, cursor_row));
            },
            DeleteTarget::ById | DeleteTarget::ByIdIncludingScrollback => {
                let id: u32 = cmd.image_id;
                if id != 0 {
                    self.remove_image_and_placements(id);
                    let keep = |img_id: u32| -> (b: bool)
                        ensures
                            b == (img_id != id),
                        { img_id != id };
                    retain_numbers(
                        &mut self.number_to_id,
                        keep,
                        Ghost(|img_id: u32| img_id != id),
                    );
                    assert(self@ =~= old(self)@.deleted(target, *cmd, cursor_col, cursor_row));
                }
            },
            DeleteTarget::ByNumber | DeleteTarget::ByNumberIncludingScrollback => {
                if cmd.image_number != 0 {
                    if let Some(image_id) = self.number_to_id.remove(&cmd.image_number) {
                        self.remove_image_and_placements(image_id);
                    }
                }
                assert(self@ =~= old(self)@.deleted(target, *cmd, cursor_col, cursor_row));
            },
            DeleteTarget::AnimationFrames | DeleteTarget::AnimationFramesIncludingScrollback => {
                if cmd.image_id != 0 {
                    self.remove_animation(cmd.image_id);
                }
            },
            _ => {
                let matches = |p: &KittyPlacement| -> (b: bool)
                    ensures
                        b == selects(target, *cmd, cursor_col, cursor_row, *p),
                    { Self::is_selected(target, cmd, cursor_col, cursor_row, p) };
                let removed = self.remove_placements_matching(
                    matches,
                    Ghost(|p: KittyPlacement| selects(target, *cmd, cursor_col, cursor_row, p)),
                );
                if Self::removes_orphans(target) {
                    self.remove_orphaned_images(&removed);
                }
            },
        }
    }

    /// The unreferenced image that was used the longest time ago, if there is an
    /// unreferenced image.
    fn oldest_unreferenced(&self) -> (r: Option<u32>)
        ensures
            match r {
                Some(id) => {
                    &&& self@.images.contains_key(id)
                    &&& !self@.referenced(id)
                    &&& forall|other: u32| #[trigger]
                        self@.images.contains_key(other) && !self@.referenced(other)
                            ==> self@.images[id].last_used <= self@.images[other].last_used
                },
                None => forall|other: u32| #[trigger]
                    self@.images.contains_key(other) ==> self@.referenced(other),
            },
    {
        let mut oldest: Option<(u32, u64)> = None;
        for (id, img) in iter: self.images.iter()
            invariant
                match oldest {
                    Some((best, used)) => {
                        &&& self@.images.contains_key(best)
                        &&& !self@.referenced(best)
                        &&& self@.images[best].last_used == used
                        &&& forall|j: int|
                            0 <= j < iter.index() && !self@.referenced(
                                *(#[trigger] iter.seq()[j]).0,
                            ) ==> used <= (*iter.seq()[j].1).last_used
                    },
                    None => forall|j: int|
                        0 <= j < iter.index() ==> self@.referenced(*(#[trigger] iter.seq()[j]).0),
                },
        {
            assert(self.images@.contains_key(*iter.seq()[iter.index()].0));
            if !self.is_referenced(*id) {
                let older = match oldest {
                    Some((_, used)) => img.last_used < used,
                    None => true,
                };
                if older {
                    oldest = Some((*id, img.last_used));
                }
            }
        }
        match oldest {
            Some((best, _)) => Some(best),
            None => None,
        }
    }

    /// Evict unreferenced images until we're under the storage quota, those first
    /// that were used the longest time ago.
    pub fn enforce_quota(&mut self)
        ensures
            old(self)@.quota_enforced(final(self)@),
    {
        if self.used_memory <= STORAGE_QUOTA {
            return;
        }
        let ghost start = self@;
        let ghost excess = start.used_memory - STORAGE_QUOTA;
        let ghost mut gone: Set<u32> = Set::empty();
        proof {
            lemma_stored_bytes_none(start.images);
            assert(start.images.remove_keys(gone) =~= start.images);
        }
        while self.used_memory > STORAGE_QUOTA
            invariant
                start.used_memory > STORAGE_QUOTA,
                excess == start.used_memory - STORAGE_QUOTA,
                start.images.dom().finite(),
                self@ == (StateView {
                    images: start.images.remove_keys(gone),
                    used_memory: less(
                        start.used_memory,
                        stored_bytes(start.images.restrict(gone)) as int,
                    ),
                    ..start
                }),
                gone.subset_of(start.images.dom()),
                forall|id: u32| #[trigger] gone.contains(id) ==> !start.referenced(id),
                forall|id: u32, other: u32|
                    #![trigger gone.contains(id), start.images.contains_key(other)]
                    gone.contains(id) && start.images.contains_key(other) && !gone.contains(other)
                        && !start.referenced(other) ==> start.images[id].last_used
                        <= start.images[other].last_used,
                gone.is_empty() || exists|last: u32| #[trigger]
                    gone.contains(last) && stored_bytes(
                        start.images.restrict(gone.remove(last)),
                    ) < excess,
            ensures
                self.used_memory <= STORAGE_QUOTA || forall|id: u32| #[trigger]
                    start.images.contains_key(id) && !start.referenced(id) ==> gone.contains(id),
            decreases self@.images.dom().len(),
        {
            let ghost before = self@;
            assert(before.placements == start.placements);
            assert(before.images.dom() =~= start.images.dom().difference(gone));
            match self.oldest_unreferenced() {
                Some(id) => {
                    self.remove_image(id);
                    proof {
                        assert(before.referenced(id) == start.referenced(id));
                        assert(!gone.contains(id));
                        lemma_stored_bytes_restrict(start.images, gone, id);
                        let more = gone.insert(id);
                        assert(more.remove(id) =~= gone);
                        assert(self@.images =~= start.images.remove_keys(more));
                        assert(more.contains(id));
                        assert forall|e: u32, other: u32|
                            #![trigger more.contains(e), start.images.contains_key(other)]
                            more.contains(e) && start.images.contains_key(other) && !more.contains(
                                other,
                            ) && !start.referenced(other) implies start.images[e].last_used
                            <= start.images[other].last_used by {
                            assert(before.images.contains_key(other));
                            assert(before.referenced(other) == start.referenced(other));
                            if e != id {
                                assert(gone.contains(e));
                            }
                        }
                        gone = more;
                    }
                },
                None => {
                    proof {
                        assert forall|id: u32| #[trigger]
                            start.images.contains_key(id) && !start.referenced(
                                id,
                            ) implies gone.contains(id) by {
                            if !gone.contains(id) {
                                assert(before.images.contains_key(id));
                                assert(before.referenced(id) == start.referenced(id));
                            }
                        }
                    }
                    break;
                },
            }
        }
        let ghost left = self@.images;
        let images = &self.images;
        let keep = |img_id: u32| -> (b: bool)
            ensures
                b == images@.contains_key(img_id),
            { images.contains_key(&img_id) };
        retain_numbers(
            &mut self.number_to_id,
            keep,
            Ghost(|img_id: u32| left.contains_key(img_id)),
        );
        assert(self@ =~= start.evicted(gone));
        assert(start.may_evict(gone));
    }

    /// The next reading of the clock.
    fn next_tick(&self) -> (r: u64)
        ensures
            r == tick(self@.clock),
    {
        if self.clock == u64::MAX {
            self.clock
        } else {
            self.clock + 1
        }
    }

    /// Store an image. Enforces quota before inserting.
    pub fn store_image(&mut self, image_id: u32, data: GraphicData) -> (r: u32)
        requires
            old(self)@.free_of(image_id) + data.pixels.len() <= usize::MAX,
        ensures
            r == image_id,
            old(self)@.stored(image_id, data, final(self)@),
    {
        let total_bytes: usize = data.pixels.len();
        let last_used: u64 = self.next_tick();
        self.remove_image(image_id);
        self.used_memory = self.used_memory + total_bytes;
        assert(self@ == old(self)@.reserved(image_id, total_bytes as int));
        self.enforce_quota();
        let ghost room = self@;
        self.images.insert(image_id, KittyImage { data, total_bytes, last_used });
        self.clock = last_used;
        assert(old(self)@.reserved(image_id, total_bytes as int).quota_enforced(room));
        image_id
    }

    /// Marks the image `image_id` as used now.
    pub(crate) fn touch(&mut self, image_id: u32)
        ensures
            final(self)@ == old(self)@.touched(image_id),
    {
        self.clock = self.next_tick();
        if let Some(mut img) = self.images.remove(&image_id) {
            img.last_used = self.clock;
            self.images.insert(image_id, img);
        }
        assert(self@.images =~= old(self)@.touched(image_id).images);
    }

    /// The image ID that `next_id` assigns next.
    pub(crate) fn peek_id(&self) -> (r: u32)
        ensures
            r == self@.fresh_id(),
            r != 0,
            self@.images.dom().len() < u32::MAX ==> !self@.images.contains_key(r),
    {
        let ghost taken = self@.images.dom();
        let mut id: u32 = self.next_image_id;
        let mut tries: u32 = u32::MAX;
        loop
            invariant_except_break
                free_id_after(taken, id, tries as nat) == self@.fresh_id(),
            invariant
                taken == self@.images.dom(),
            ensures
                id == self@.fresh_id(),
                id != 0,
            decreases tries,
        {
            id = if id == u32::MAX {
                1
            } else {
                id + 1
            };
            if tries == 0 || !self.images.contains_key(&id) {
                break;
            }
            tries = tries - 1;
        }
        proof {
            if taken.len() < u32::MAX && taken.contains(id) {
                lemma_free_id(taken, self.next_image_id);
            }
        }
        id
    }

    /// Allocate a new unique image ID.
    pub fn next_id(&mut self) -> (r: u32)
        ensures
            r == old(self)@.fresh_id(),
            r != 0,
            old(self)@.images.dom().len() < u32::MAX ==> !old(self)@.images.contains_key(r),
            final(self)@ == (StateView { next_image_id: r, ..old(self)@ }),
    {
        self.next_image_id = self.peek_id();
        self.next_image_id
    }

    /// Look up an image by ID.
    pub fn get_image(&self, image_id: u32) -> (r: Option<&KittyImage>)
        ensures
            match r {
                Some(img) => self@.images.contains_key(image_id) && *img == self@.images[image_id],
                None => !self@.images.contains_key(image_id),
            },
    {
        self.images.get(&image_id)
    }

    /// Resolve an image number to an image ID, if mapped.
    pub fn resolve_number(&self, image_number: u32) -> (r: Option<u32>)
        ensures
            r == self@.number_to_id.get(image_number),
    {
        match self.number_to_id.get(&image_number) {
            Some(id) => Some(*id),
            None => None,
        }
    }

    /// Lets an image number stand for an image ID.
    pub(crate) fn map_number(&mut self, image_number: u32, image_id: u32)
        ensures
            final(self)@ == (StateView {
                number_to_id: old(self)@.number_to_id.insert(image_number, image_id),
                ..old(self)@
            }),
    {
        self.number_to_id.insert(image_number, image_id);
    }

    /// Register a placement on the grid.
    ///
    /// Called from `place_image()` for each image that is placed on the grid.
    /// Coordinates are 0-based.
    pub fn register_placement(&mut self, placement: KittyPlacement)
        ensures
            final(self)@ == (StateView {
                placements: old(self)@.placements.push(placement),
                ..old(self)@
            }),
    {
        self.placements.push(placement);
    }

    /// Look up an animation state by image ID.
    pub fn get_animation(&self, image_id: u32) -> (r: Option<&AnimationState>)
        ensures
            match r {
                Some(anim) => self@.animations.contains_key(image_id) && anim@
                    == self@.animations[image_id],
                None => !self@.animations.contains_key(image_id),
            },
    {
        self.animation_states.get(&image_id)
    }

    /// Sets the animation of the image `image_id`.
    pub(crate) fn put_animation(&mut self, image_id: u32, anim: AnimationState)
        ensures
            final(self)@ == (StateView {
                animations: old(self)@.animations.insert(image_id, anim@),
                ..old(self)@
            }),
    {
        self.animation_states.insert(image_id, anim);
        assert(self@.animations =~= old(self)@.animations.insert(image_id, anim@));
    }

    /// Look up a mutable animation state by image ID.
    pub fn get_animation_mut(&mut self, image_id: u32) -> (r: Option<&mut AnimationState>)
        ensures
            match r {
                Some(anim) => {
                    &&& old(self)@.animations.contains_key(image_id)
                    &&& (*anim)@ == old(self)@.animations[image_id]
                    &&& final(self)@ == (StateView {
                        animations: old(self)@.animations.insert(image_id, (*final(anim))@),
                        ..old(self)@
                    })
                },
                None => !old(self)@.animations.contains_key(image_id) && final(self)@ == old(self)@,
            },
    {
        match self.animation_states.entry(image_id) {
            Entry::Occupied(entry) => Some(entry.into_mut()),
            Entry::Vacant(_) => None,
        }
    }
}

} // verus!
