//! Laws of the image storage.
use vstd::prelude::*;

use crate::graphics::GraphicData;
use crate::kitty::state;
use crate::kitty::state::{KittyImage, KittyPlacement, StateView, STORAGE_QUOTA};
use crate::kitty_parser::{DeleteTarget, KittyCommand};

verus! {

// ── Storing ────────────────────────────────────────────────────────────

/// A stored image is there afterwards, as it was given.
pub proof fn law_stored_image_is_there(
    before: StateView,
    id: u32,
    data: GraphicData,
    after: StateView,
)
    requires
        before.stored(id, data, after),
    ensures
        after.images.contains_key(id),
        after.images[id] == before.image_of(data),
        after.images[id].data == data,
{
}

/// Storing keeps within the quota: afterwards the memory in use is within it, or
/// nothing else is left that no placement shows.
pub proof fn law_quota_is_enforced(
    before: StateView,
    id: u32,
    data: GraphicData,
    after: StateView,
)
    requires
        before.stored(id, data, after),
    ensures
        after.used_memory <= STORAGE_QUOTA || forall|other: u32| #[trigger]
            after.images.contains_key(other) && other != id ==> after.referenced(other),
{
    let reserved = before.reserved(id, data.pixels.len() as int);
    let room = choose|room: StateView| #[trigger]
        reserved.quota_enforced(room) && after == (StateView {
            images: room.images.insert(id, before.image_of(data)),
            clock: state::tick(before.clock),
            ..room
        });
    assert(after.placements == reserved.placements);
    if reserved.used_memory > STORAGE_QUOTA && after.used_memory > STORAGE_QUOTA {
        let gone = choose|gone: Set<u32>| #[trigger]
            reserved.may_evict(gone) && room == reserved.evicted(gone);
        assert forall|other: u32| #[trigger]
            after.images.contains_key(other) && other != id implies after.referenced(other) by {
            assert(reserved.images.contains_key(other));
            assert(!gone.contains(other));
            assert(reserved.referenced(other));
            let i = choose|i: int|
                0 <= i < reserved.placements.len() && (#[trigger] reserved.placements[i]).image_id
                    == other;
            assert(after.placements[i].image_id == other);
        }
    }
}

/// Storing an image never costs another image that a placement shows.
pub proof fn law_shown_images_survive_storing(
    before: StateView,
    id: u32,
    data: GraphicData,
    after: StateView,
    other: u32,
)
    requires
        before.stored(id, data, after),
        other != id,
        before.images.contains_key(other),
        before.referenced(other),
    ensures
        after.images.contains_key(other),
        after.images[other] == before.images[other],
{
    let reserved = before.reserved(id, data.pixels.len() as int);
    let i = choose|i: int|
        0 <= i < before.placements.len() && (#[trigger] before.placements[i]).image_id == other;
    assert(reserved.placements[i].image_id == other);
    assert(reserved.referenced(other));
}

/// While there is room in the quota, storing an image touches no other image and
/// no image number.
pub proof fn law_nothing_is_evicted_within_quota(
    before: StateView,
    id: u32,
    data: GraphicData,
    after: StateView,
)
    requires
        before.stored(id, data, after),
        before.free_of(id) + data.pixels.len() <= STORAGE_QUOTA,
    ensures
        after.images == before.images.insert(id, before.image_of(data)),
        after == (StateView {
            images: after.images,
            used_memory: (before.free_of(id) + data.pixels.len()) as usize,
            clock: state::tick(before.clock),
            ..before
        }),
{
    assert(after.images =~= before.images.insert(id, before.image_of(data)));
}

/// The image that is stored counts for as many bytes as it has, under the memory in
/// use too, and as the one used last. Placements, animations and the transfer under
/// way stay, and no ID is used up. No image comes in, or changes, but the one stored.
pub proof fn law_storing_keeps_the_rest(
    before: StateView,
    id: u32,
    data: GraphicData,
    after: StateView,
)
    requires
        before.stored(id, data, after),
    ensures
        after.images[id].total_bytes == data.pixels.len(),
        before.clock < u64::MAX ==> after.images[id].last_used == before.clock + 1 && after.clock
            == before.clock + 1,
        after.placements == before.placements,
        after.animations == before.animations,
        after.loading == before.loading,
        after.next_image_id == before.next_image_id,
        forall|other: u32|
            other != id && #[trigger] after.images.contains_key(other)
                ==> before.images.contains_key(other) && after.images[other]
                == before.images[other],
        forall|n: u32| #[trigger]
            after.number_to_id.contains_key(n) ==> before.number_to_id.contains_key(n)
                && after.number_to_id[n] == before.number_to_id[n],
        forall|n: u32|
            #![trigger after.number_to_id.contains_key(n)]
            before.number_to_id.contains_key(n) && before.number_to_id[n] != id
                && after.images.contains_key(before.number_to_id[n])
                ==> after.number_to_id.contains_key(n),
{
}

/// Eviction takes no more than it must: where images went to make room for one that
/// is stored, the last of them had to go, for with it the quota would be exceeded.
pub proof fn law_eviction_stops_at_the_quota(
    before: StateView,
    id: u32,
    data: GraphicData,
    after: StateView,
    evicted: u32,
)
    requires
        books_balance(before),
        before.stored(id, data, after),
        before.free_of(id) + data.pixels.len() <= usize::MAX,
        evicted != id,
        before.images.contains_key(evicted),
        !after.images.contains_key(evicted),
    ensures
        exists|last: u32|
            last != id && #[trigger] before.images.contains_key(last) && !after.images.contains_key(
                last,
            ) && after.used_memory + before.images[last].total_bytes > STORAGE_QUOTA,
{
    let reserved = before.reserved(id, data.pixels.len() as int);
    let room = choose|room: StateView| #[trigger]
        reserved.quota_enforced(room) && after == (StateView {
            images: room.images.insert(id, before.image_of(data)),
            clock: state::tick(before.clock),
            ..room
        });
    if before.images.contains_key(id) {
        state::lemma_stored_bytes_remove(before.images, id);
    } else {
        assert(before.images.remove(id) =~= before.images);
    }
    let gone = choose|gone: Set<u32>| #[trigger]
        reserved.may_evict(gone) && room == reserved.evicted(gone);
    assert(reserved.images.contains_key(evicted));
    assert(gone.contains(evicted));
    let last = choose|last: u32| #[trigger]
        gone.contains(last) && state::stored_bytes(reserved.images.restrict(gone.remove(last)))
            < reserved.used_memory - STORAGE_QUOTA;
    lemma_parts(reserved.images, gone);
    state::lemma_stored_bytes_remove(reserved.images.restrict(gone), last);
    assert(reserved.images.restrict(gone).remove(last) =~= reserved.images.restrict(
        gone.remove(last),
    ));
    assert(before.images.contains_key(last));
}

/// Enforcing the quota changes nothing while it is kept. Beyond it images go that no
/// placement shows, with their bytes and the numbers that stand for nothing stored any
/// more, until it is kept or only images on display are left. All else stays.
pub proof fn law_enforcing_the_quota(before: StateView, after: StateView)
    requires
        books_balance(before),
        before.quota_enforced(after),
    ensures
        before.used_memory <= STORAGE_QUOTA ==> after == before,
        books_balance(after),
        after.used_memory <= STORAGE_QUOTA || forall|id: u32| #[trigger]
            after.images.contains_key(id) ==> before.referenced(id),
        forall|id: u32| #[trigger]
            after.images.contains_key(id) ==> before.images.contains_key(id) && after.images[id]
                == before.images[id],
        forall|id: u32|
            before.images.contains_key(id) && before.referenced(id)
                ==> #[trigger] after.images.contains_key(id),
        before.used_memory > STORAGE_QUOTA ==> forall|n: u32| #[trigger]
            after.number_to_id.contains_key(n) <==> before.number_to_id.contains_key(n)
                && after.images.contains_key(before.number_to_id[n]),
        forall|n: u32| #[trigger]
            after.number_to_id.contains_key(n) ==> after.number_to_id[n] == before.number_to_id[n],
        after == (StateView {
            images: after.images,
            number_to_id: after.number_to_id,
            used_memory: after.used_memory,
            ..before
        }),
{
    if before.used_memory > STORAGE_QUOTA {
        let gone = choose|gone: Set<u32>| #[trigger]
            before.may_evict(gone) && after == before.evicted(gone);
        lemma_parts(before.images, gone);
        assert forall|id: u32|
            before.images.contains_key(id) && before.referenced(
                id,
            ) implies #[trigger] after.images.contains_key(id) by {
            assert(!gone.contains(id));
        }
        if after.used_memory > STORAGE_QUOTA {
            assert forall|id: u32| #[trigger]
                after.images.contains_key(id) implies before.referenced(id) by {
                assert(before.images.contains_key(id));
                assert(!gone.contains(id));
            }
        }
    }
}

/// A placement spans a column, a row or a cell where that lies within its width and
/// height from its corner.
pub proof fn law_placement_spans_from_its_corner(p: KittyPlacement, col: int, row: int)
    requires
        p.height <= i32::MAX,
    ensures
        p.covers_col(col) <==> spans_column(p, col),
        p.covers_row(row) <==> spans_row(p, row),
        p.covers_cell(col, row) <==> spans_column(p, col) && spans_row(p, row),
{
}

/// Columns and rows in commands count from 1, and 0 stands for the cursor's.
pub proof fn law_columns_and_rows_count_from_one(n: u32, cursor_col: usize, cursor_row: usize)
    requires
        cursor_row <= i32::MAX,
        n <= 0x8000_0000,
    ensures
        state::column_of(0, cursor_col) == cursor_col,
        state::row_of(0, cursor_row) == cursor_row,
        n > 0 ==> state::column_of(n, cursor_col) == n - 1,
        n > 0 ==> state::row_of(n, cursor_row) == n - 1,
{
}

/// A new state holds nothing, and the first ID it assigns is 1.
pub proof fn law_new_state_is_empty()
    ensures
        ({
            let s = StateView::empty();
            &&& s.images == Map::<u32, KittyImage>::empty()
            &&& s.number_to_id == Map::<u32, u32>::empty()
            &&& s.animations.dom() == Set::<u32>::empty()
            &&& s.placements == Seq::<KittyPlacement>::empty()
            &&& s.loading is None
            &&& s.used_memory == 0
            &&& s.fresh_id() == 1
        }),
{
    let s = StateView::empty();
    law_assigned_ids_count_up(s, 1);
    law_assigned_id_is_new(s, 1);
}

/// The quota is 320 MiB.
pub proof fn law_quota_is_320_mebibytes()
    ensures
        STORAGE_QUOTA == 335_544_320,
{
}

/// Eviction is by last use: an unreferenced image that is evicted was used no
/// later than any unreferenced image that stays.
pub proof fn law_least_recently_used_goes_first(
    before: StateView,
    after: StateView,
    evicted: u32,
    kept: u32,
)
    requires
        before.quota_enforced(after),
        before.images.contains_key(evicted),
        !after.images.contains_key(evicted),
        after.images.contains_key(kept),
        !before.referenced(kept),
    ensures
        before.images[evicted].last_used <= before.images[kept].last_used,
{
    let gone = choose|gone: Set<u32>| #[trigger]
        before.may_evict(gone) && after == before.evicted(gone);
    assert(gone.contains(evicted));
    assert(before.images.contains_key(kept));
}

/// Storing evicts by last use too: an image that goes to make room was used no later
/// than any other image that stays and that no placement shows. With it go the numbers
/// that stand for nothing stored any more.
pub proof fn law_storing_evicts_the_least_recently_used(
    before: StateView,
    id: u32,
    data: GraphicData,
    after: StateView,
    evicted: u32,
    kept: u32,
)
    requires
        before.stored(id, data, after),
        evicted != id,
        before.images.contains_key(evicted),
        !after.images.contains_key(evicted),
    ensures
        !before.referenced(evicted),
        kept != id && after.images.contains_key(kept) && !before.referenced(kept)
            ==> before.images[evicted].last_used <= before.images[kept].last_used,
        forall|n: u32| #[trigger]
            after.number_to_id.contains_key(n) ==> after.number_to_id[n] != id
                && after.images.contains_key(after.number_to_id[n]),
{
    let reserved = before.reserved(id, data.pixels.len() as int);
    let room = choose|room: StateView| #[trigger]
        reserved.quota_enforced(room) && after == (StateView {
            images: room.images.insert(id, before.image_of(data)),
            clock: state::tick(before.clock),
            ..room
        });
    assert(reserved.images.contains_key(evicted));
    let gone = choose|gone: Set<u32>| #[trigger]
        reserved.may_evict(gone) && room == reserved.evicted(gone);
    assert(gone.contains(evicted));
    assert forall|other: u32| reserved.referenced(other) == #[trigger] before.referenced(other) by {
        if before.referenced(other) {
            let i = choose|i: int|
                0 <= i < before.placements.len() && (#[trigger] before.placements[i]).image_id
                    == other;
            assert(reserved.placements[i].image_id == other);
        }
        if reserved.referenced(other) {
            let i = choose|i: int|
                0 <= i < reserved.placements.len() && (#[trigger] reserved.placements[i]).image_id
                    == other;
            assert(before.placements[i].image_id == other);
        }
    }
    assert(reserved.referenced(evicted) == before.referenced(evicted));
    assert(reserved.referenced(kept) == before.referenced(kept));
    if kept != id && after.images.contains_key(kept) {
        assert(reserved.images.contains_key(kept));
        assert(!gone.contains(kept));
    }
}

/// Storing or placing an image makes it the one used last.
pub proof fn law_use_is_recorded(before: StateView, id: u32, data: GraphicData, after: StateView)
    requires
        forall|other: u32| #[trigger]
            before.images.contains_key(other) ==> before.images[other].last_used <= before.clock,
    ensures
        before.stored(id, data, after) ==> forall|other: u32| #[trigger]
            after.images.contains_key(other) ==> after.images[other].last_used
                <= after.images[id].last_used == after.clock,
        before.images.contains_key(id) ==> forall|other: u32| #[trigger]
            before.touched(id).images.contains_key(other) ==> before.touched(
                id,
            ).images[other].last_used <= before.touched(id).images[id].last_used
                == before.touched(id).clock,
{
    if before.stored(id, data, after) {
        let reserved = before.reserved(id, data.pixels.len() as int);
        assert forall|other: u32| #[trigger] after.images.contains_key(other) implies {
            after.images[other].last_used <= after.images[id].last_used == after.clock
        } by {
            if other != id {
                assert(reserved.images.contains_key(other));
                assert(before.images.contains_key(other));
            }
        }
    }
}

// ── Accounting ─────────────────────────────────────────────────────────

/// Whether the books are right: the memory in use is what the stored images take,
/// and each image takes what its pixels do.
pub open spec fn books_balance(s: StateView) -> bool {
    &&& s.images.dom().finite()
    &&& s.used_memory == state::stored_bytes(s.images)
    &&& forall|id: u32| #[trigger]
        s.images.contains_key(id) ==> s.images[id].total_bytes == s.images[id].data.pixels.len()
}

/// Images taken out and images left make up the whole.
proof fn lemma_parts(images: Map<u32, KittyImage>, gone: Set<u32>)
    requires
        images.dom().finite(),
    ensures
        images.restrict(gone).dom().finite(),
        images.remove_keys(gone).dom().finite(),
        state::stored_bytes(images) == state::stored_bytes(images.restrict(gone))
            + state::stored_bytes(images.remove_keys(gone)),
    decreases images.dom().len(),
{
    assert(images.restrict(gone).dom() =~= images.dom().intersect(gone));
    assert(images.remove_keys(gone).dom() =~= images.dom().difference(gone));
    if images.dom().len() == 0 {
        assert(images.restrict(gone).dom() =~= Set::empty());
        assert(images.remove_keys(gone).dom() =~= Set::empty());
    } else {
        let id = images.dom().choose();
        let rest = images.remove(id);
        lemma_parts(rest, gone);
        state::lemma_stored_bytes_remove(images, id);
        if gone.contains(id) {
            state::lemma_stored_bytes_remove(images.restrict(gone), id);
            assert(images.restrict(gone).remove(id) =~= rest.restrict(gone));
            assert(images.remove_keys(gone) =~= rest.remove_keys(gone));
        } else {
            state::lemma_stored_bytes_remove(images.remove_keys(gone), id);
            assert(images.remove_keys(gone).remove(id) =~= rest.remove_keys(gone));
            assert(images.restrict(gone) =~= rest.restrict(gone));
        }
    }
}

/// The bytes of stored images add up: none without images, and those of an image more
/// with it.
pub proof fn law_bytes_add_up(images: Map<u32, KittyImage>, id: u32, image: KittyImage)
    requires
        images.dom().finite(),
        !images.contains_key(id),
    ensures
        state::stored_bytes(Map::<u32, KittyImage>::empty()) == 0,
        state::stored_bytes(images.insert(id, image)) == state::stored_bytes(images)
            + image.total_bytes,
{
    state::lemma_stored_bytes_remove(images.insert(id, image), id);
    assert(images.insert(id, image).remove(id) =~= images);
}

/// An image is referenced exactly while some placement is of it, wherever and however
/// it is shown.
pub proof fn law_placed_image_is_referenced(s: StateView, id: u32)
    ensures
        s.referenced(id) <==> exists|p: KittyPlacement| #[trigger]
            s.placements.contains(p) && p.image_id == id,
{
    if s.referenced(id) {
        let i = choose|i: int|
            0 <= i < s.placements.len() && (#[trigger] s.placements[i]).image_id == id;
        assert(s.placements.contains(s.placements[i]));
    }
}

/// The books of an empty state are right.
pub proof fn law_books_balance_at_first()
    ensures
        books_balance(StateView::empty()),
{
}

/// Taking images out keeps the books right.
proof fn lemma_books_without(s: StateView, gone: Set<u32>)
    requires
        books_balance(s),
    ensures
        books_balance(s.without_images(gone)),
        books_balance(s.evicted(gone)),
{
    lemma_parts(s.images, gone);
}

/// Storing an image keeps the books right.
pub proof fn law_storing_keeps_books(
    before: StateView,
    id: u32,
    data: GraphicData,
    after: StateView,
)
    requires
        books_balance(before),
        before.stored(id, data, after),
        before.free_of(id) + data.pixels.len() <= usize::MAX,
    ensures
        books_balance(after),
{
    let reserved = before.reserved(id, data.pixels.len() as int);
    let room = choose|room: StateView| #[trigger]
        reserved.quota_enforced(room) && after == (StateView {
            images: room.images.insert(id, before.image_of(data)),
            clock: state::tick(before.clock),
            ..room
        });
    if before.images.contains_key(id) {
        state::lemma_stored_bytes_remove(before.images, id);
    } else {
        assert(before.images.remove(id) =~= before.images);
    }
    assert(reserved.used_memory == state::stored_bytes(reserved.images) + data.pixels.len());
    if reserved.used_memory > STORAGE_QUOTA {
        let gone = choose|gone: Set<u32>| #[trigger]
            reserved.may_evict(gone) && room == reserved.evicted(gone);
        lemma_parts(reserved.images, gone);
    }
    assert(!room.images.contains_key(id));
    state::lemma_stored_bytes_remove(after.images, id);
    assert(after.images.remove(id) =~= room.images);
}

/// Marking an image as used keeps the books right.
pub proof fn law_use_keeps_books(s: StateView, id: u32)
    requires
        books_balance(s),
    ensures
        books_balance(s.touched(id)),
{
    if s.images.contains_key(id) {
        state::lemma_stored_bytes_remove(s.images, id);
        state::lemma_stored_bytes_remove(s.touched(id).images, id);
        assert(s.touched(id).images.remove(id) =~= s.images.remove(id));
    }
}

/// Deleting, whatever the target, keeps the books right.
pub proof fn law_deleting_keeps_books(
    s: StateView,
    target: DeleteTarget,
    cmd: KittyCommand,
    cursor_col: usize,
    cursor_row: usize,
)
    requires
        books_balance(s),
    ensures
        books_balance(s.deleted(target, cmd, cursor_col, cursor_row)),
{
    lemma_books_without(s, set![cmd.image_id]);
    lemma_books_without(s, set![s.number_to_id[cmd.image_number]]);
    let out = |p: KittyPlacement| state::selects(target, cmd, cursor_col, cursor_row, p);
    let left = s.without_placements(out);
    lemma_books_without(left, left.orphans(s.images_of(out)));
}

// ── Deleting ───────────────────────────────────────────────────────────

/// Deleting all leaves no image, number, placement or animation, and no memory
/// in use. A transfer under way goes on, and assigned IDs are not used again.
pub proof fn law_delete_all_leaves_nothing(
    s: StateView,
    target: DeleteTarget,
    cmd: KittyCommand,
    cursor_col: usize,
    cursor_row: usize,
)
    requires
        target == DeleteTarget::All || target == DeleteTarget::AllIncludingScrollback,
    ensures
        s.deleted(target, cmd, cursor_col, cursor_row) == (StateView {
            images: Map::empty(),
            number_to_id: Map::empty(),
            animations: Map::empty(),
            loading: s.loading,
            used_memory: 0,
            placements: Seq::empty(),
            next_image_id: s.next_image_id,
            clock: s.clock,
        }),
{
}

/// Deleting by image ID leaves nothing of that image, and every other image with
/// its placements, numbers and animation as it was.
pub proof fn law_delete_by_id_takes_just_that_image(
    s: StateView,
    target: DeleteTarget,
    cmd: KittyCommand,
    cursor_col: usize,
    cursor_row: usize,
)
    requires
        target == DeleteTarget::ById || target == DeleteTarget::ByIdIncludingScrollback,
        cmd.image_id != 0,
    ensures
        ({
            let after = s.deleted(target, cmd, cursor_col, cursor_row);
            &&& !after.images.contains_key(cmd.image_id)
            &&& !after.animations.contains_key(cmd.image_id)
            &&& !after.referenced(cmd.image_id)
            &&& forall|n: u32| #[trigger]
                after.number_to_id.contains_key(n) ==> after.number_to_id[n] != cmd.image_id
            &&& forall|id: u32|
                id != cmd.image_id ==> (#[trigger] after.images.contains_key(id)
                    == s.images.contains_key(id)) && after.images[id] == s.images[id]
            &&& forall|id: u32|
                id != cmd.image_id ==> (#[trigger] after.animations.contains_key(id)
                    == s.animations.contains_key(id)) && after.animations[id] == s.animations[id]
            &&& forall|n: u32| #[trigger]
                s.number_to_id.contains_key(n) && s.number_to_id[n] != cmd.image_id
                    ==> after.number_to_id.contains_key(n) && after.number_to_id[n]
                    == s.number_to_id[n]
            &&& after.placements == s.placements.filter(
                |p: KittyPlacement| p.image_id != cmd.image_id,
            )
        }),
{
    let after = s.deleted(target, cmd, cursor_col, cursor_row);
    let out = |p: KittyPlacement| p.image_id == cmd.image_id;
    lemma_filter_same(
        s.placements,
        |p: KittyPlacement| !out(p),
        |p: KittyPlacement| p.image_id != cmd.image_id,
    );
    lemma_left_not_out(s, out);
    assert forall|id: u32| id != cmd.image_id implies (#[trigger] after.images.contains_key(id)
        == s.images.contains_key(id)) && after.images[id] == s.images[id] by {
        if !s.images.contains_key(id) {
            assert(after.images =~= s.images.remove(cmd.image_id));
        }
    }
    assert(after.images =~= s.images.remove(cmd.image_id));
    assert(after.animations =~= s.animations.remove(cmd.image_id));
}

/// Filters that agree on every element give the same.
proof fn lemma_filter_same(
    s: Seq<KittyPlacement>,
    f: spec_fn(KittyPlacement) -> bool,
    g: spec_fn(KittyPlacement) -> bool,
)
    requires
        forall|p: KittyPlacement| #[trigger] f(p) == g(p),
    ensures
        s.filter(f) == s.filter(g),
    decreases s.len(),
{
    reveal(Seq::filter);
    if s.len() > 0 {
        lemma_filter_same(s.drop_last(), f, g);
    }
}

/// What is left after removing placements passes no more.
proof fn lemma_left_not_out(s: StateView, out: spec_fn(KittyPlacement) -> bool)
    ensures
        forall|i: int|
            0 <= i < s.without_placements(out).placements.len() ==> !out(
                #[trigger] s.without_placements(out).placements[i],
            ) && s.placements.contains(s.without_placements(out).placements[i]),
{
    let keep = |p: KittyPlacement| !out(p);
    s.placements.lemma_filter_len(keep);
    let left = s.placements.filter(keep);
    assert forall|i: int| 0 <= i < left.len() implies !out(#[trigger] left[i])
        && s.placements.contains(left[i]) by {
        s.placements.lemma_filter_pred(keep, i);
        lemma_filter_from(s.placements, keep, i);
    }
}

/// Every element of a filtered sequence comes from the sequence.
proof fn lemma_filter_from(s: Seq<KittyPlacement>, keep: spec_fn(KittyPlacement) -> bool, i: int)
    requires
        0 <= i < s.filter(keep).len(),
    ensures
        s.contains(s.filter(keep)[i]),
    decreases s.len(),
{
    reveal(Seq::filter);
    if s.len() > 0 {
        let rest = s.drop_last();
        if i < rest.filter(keep).len() {
            lemma_filter_from(rest, keep, i);
            let j = choose|j: int| 0 <= j < rest.len() && rest[j] == rest.filter(keep)[i];
            assert(s[j] == s.filter(keep)[i]);
        } else {
            assert(s[s.len() - 1] == s.filter(keep)[i]);
        }
    }
}

/// Deleting by image number leaves no image, placement or animation of the image
/// that the number stands for, nor that number. Other images, their placements in
/// their order, their animations and all other numbers stay.
pub proof fn law_delete_by_number_takes_just_that_image(
    s: StateView,
    target: DeleteTarget,
    cmd: KittyCommand,
    cursor_col: usize,
    cursor_row: usize,
)
    requires
        target == DeleteTarget::ByNumber || target == DeleteTarget::ByNumberIncludingScrollback,
        cmd.image_number != 0,
        s.number_to_id.contains_key(cmd.image_number),
    ensures
        ({
            let after = s.deleted(target, cmd, cursor_col, cursor_row);
            let id = s.number_to_id[cmd.image_number];
            &&& after.images == s.images.remove(id)
            &&& after.animations == s.animations.remove(id)
            &&& after.number_to_id == s.number_to_id.remove(cmd.image_number)
            &&& !after.referenced(id)
            &&& after.placements == s.placements.filter(|p: KittyPlacement| p.image_id != id)
        }),
{
    let after = s.deleted(target, cmd, cursor_col, cursor_row);
    let id = s.number_to_id[cmd.image_number];
    let out = |p: KittyPlacement| p.image_id == id;
    lemma_left_not_out(s, out);
    lemma_filter_same(
        s.placements,
        |p: KittyPlacement| !out(p),
        |p: KittyPlacement| p.image_id != id,
    );
    assert(after.images =~= s.images.remove(id));
    assert(after.animations =~= s.animations.remove(id));
}

/// Whether a placement spans the column `col`.
pub open spec fn spans_column(p: KittyPlacement, col: int) -> bool {
    p.col <= col && col < p.col + p.width
}

/// Whether a placement spans the row `row`.
pub open spec fn spans_row(p: KittyPlacement, row: int) -> bool {
    p.row <= row && row < p.row + p.height
}

/// Whether a delete by `target` is meant for the placement `p`: it lies at the
/// cursor; it has the placement ID and, where an image ID is given, shows that image;
/// it spans the column `x=`, the row `y=` or the cell of both (1-based, the cursor's
/// where 0); it lies in the layer `z=`.
pub open spec fn is_meant(
    target: DeleteTarget,
    cmd: KittyCommand,
    cursor_col: usize,
    cursor_row: usize,
    p: KittyPlacement,
) -> bool {
    let col = if cmd.src_x == 0 {
        cursor_col as int
    } else {
        cmd.src_x - 1
    };
    let row = if cmd.src_y == 0 {
        cursor_row as int
    } else {
        cmd.src_y - 1
    };
    match target {
        DeleteTarget::AtCursor | DeleteTarget::AtCursorIncludingScrollback => {
            spans_column(p, cursor_col as int) && spans_row(p, cursor_row as int)
        },
        DeleteTarget::ByPlacementId | DeleteTarget::ByPlacementIdIncludingScrollback => {
            p.placement_id == cmd.placement_id && (cmd.image_id != 0 ==> p.image_id == cmd.image_id)
        },
        DeleteTarget::ByColumn | DeleteTarget::ByColumnIncludingScrollback => spans_column(p, col),
        DeleteTarget::ByRow | DeleteTarget::ByRowIncludingScrollback => spans_row(p, row),
        DeleteTarget::ByCell | DeleteTarget::ByCellIncludingScrollback => {
            spans_column(p, col) && spans_row(p, row)
        },
        DeleteTarget::ByCellZ | DeleteTarget::ByCellZIncludingScrollback => {
            spans_column(p, col) && spans_row(p, row) && p.z_index == cmd.z_index
        },
        DeleteTarget::ByZIndex | DeleteTarget::ByZIndexIncludingScrollback => {
            p.z_index == cmd.z_index
        },
        _ => false,
    }
}

/// Whether a delete of placements reaches into the scrollback.
pub open spec fn reaches_scrollback(target: DeleteTarget) -> bool {
    ||| target == DeleteTarget::AtCursorIncludingScrollback
    ||| target == DeleteTarget::ByPlacementIdIncludingScrollback
    ||| target == DeleteTarget::ByColumnIncludingScrollback
    ||| target == DeleteTarget::ByRowIncludingScrollback
    ||| target == DeleteTarget::ByCellIncludingScrollback
    ||| target == DeleteTarget::ByCellZIncludingScrollback
    ||| target == DeleteTarget::ByZIndexIncludingScrollback
}

/// Whether a delete of placements is confined to what is visible.
pub open spec fn is_visible_only(target: DeleteTarget) -> bool {
    ||| target == DeleteTarget::AtCursor
    ||| target == DeleteTarget::ByPlacementId
    ||| target == DeleteTarget::ByColumn
    ||| target == DeleteTarget::ByRow
    ||| target == DeleteTarget::ByCell
    ||| target == DeleteTarget::ByCellZ
    ||| target == DeleteTarget::ByZIndex
}

/// Whether rows are counted within 32 bits.
pub open spec fn rows_fit(s: StateView, cmd: KittyCommand, cursor_row: usize) -> bool {
    &&& cursor_row <= i32::MAX
    &&& cmd.src_y <= 0x8000_0000
    &&& forall|i: int|
        0 <= i < s.placements.len() ==> (#[trigger] s.placements[i]).height <= i32::MAX
}

/// Filters that agree on the elements of a sequence give the same.
proof fn lemma_filter_same_here(
    s: Seq<KittyPlacement>,
    f: spec_fn(KittyPlacement) -> bool,
    g: spec_fn(KittyPlacement) -> bool,
)
    requires
        forall|i: int| 0 <= i < s.len() ==> f(#[trigger] s[i]) == g(s[i]),
    ensures
        s.filter(f) == s.filter(g),
    decreases s.len(),
{
    reveal(Seq::filter);
    if s.len() > 0 {
        let rest = s.drop_last();
        assert forall|i: int| 0 <= i < rest.len() implies f(#[trigger] rest[i]) == g(rest[i]) by {
            assert(rest[i] == s[i]);
        }
        lemma_filter_same_here(rest, f, g);
        assert(f(s[s.len() - 1]) == g(s[s.len() - 1]));
    }
}

/// Deleting placements removes those that the target is meant for and leaves the
/// others in their order. What is confined to the visible touches nothing else.
pub proof fn law_delete_takes_what_it_is_meant_for(
    s: StateView,
    target: DeleteTarget,
    cmd: KittyCommand,
    cursor_col: usize,
    cursor_row: usize,
)
    requires
        is_visible_only(target) || reaches_scrollback(target),
        rows_fit(s, cmd, cursor_row),
    ensures
        ({
            let after = s.deleted(target, cmd, cursor_col, cursor_row);
            &&& after.placements == s.placements.filter(
                |p: KittyPlacement| !is_meant(target, cmd, cursor_col, cursor_row, p),
            )
            &&& is_visible_only(target) ==> after == (StateView {
                placements: after.placements,
                ..s
            })
        }),
{
    let out = |p: KittyPlacement| state::selects(target, cmd, cursor_col, cursor_row, p);
    assert forall|i: int| 0 <= i < s.placements.len() implies out(#[trigger] s.placements[i])
        == is_meant(target, cmd, cursor_col, cursor_row, s.placements[i]) by {
        let p = s.placements[i];
        assert(p.height <= i32::MAX);
    }
    lemma_filter_same_here(
        s.placements,
        |p: KittyPlacement| !out(p),
        |p: KittyPlacement| !is_meant(target, cmd, cursor_col, cursor_row, p),
    );
}

/// Deleting placements with the scrollback also takes every image that it took the
/// last placement from, with its numbers and its animation, and no other image: one
/// that had no placement before stays.
pub proof fn law_scrollback_delete_takes_images_out_of_sight(
    s: StateView,
    target: DeleteTarget,
    cmd: KittyCommand,
    cursor_col: usize,
    cursor_row: usize,
    id: u32,
)
    requires
        reaches_scrollback(target),
        rows_fit(s, cmd, cursor_row),
    ensures
        ({
            let after = s.deleted(target, cmd, cursor_col, cursor_row);
            let was_shown = exists|i: int|
                0 <= i < s.placements.len() && (#[trigger] s.placements[i]).image_id == id;
            let is_shown = exists|i: int|
                0 <= i < after.placements.len() && (#[trigger] after.placements[i]).image_id == id;
            let gone = was_shown && !is_shown;
            &&& after.images.contains_key(id) <==> s.images.contains_key(id) && !gone
            &&& after.images.contains_key(id) ==> after.images[id] == s.images[id]
            &&& after.animations.contains_key(id) <==> s.animations.contains_key(id) && !gone
            &&& after.animations.contains_key(id) ==> after.animations[id] == s.animations[id]
            &&& forall|n: u32|
                s.number_to_id.contains_key(n) && s.number_to_id[n] == id ==> (
                #[trigger] after.number_to_id.contains_key(n) <==> !gone)
            &&& forall|n: u32| #[trigger]
                after.number_to_id.contains_key(n) ==> s.number_to_id.contains_key(n)
                    && after.number_to_id[n] == s.number_to_id[n]
        }),
{
    let after = s.deleted(target, cmd, cursor_col, cursor_row);
    let out = |p: KittyPlacement| state::selects(target, cmd, cursor_col, cursor_row, p);
    let keep = |p: KittyPlacement| !out(p);
    let left = s.without_placements(out);
    assert(after.placements == left.placements);
    assert(left.referenced(id) == after.referenced(id)) by {
        if left.referenced(id) {
            let i = choose|i: int|
                0 <= i < left.placements.len() && (#[trigger] left.placements[i]).image_id == id;
            assert(after.placements[i].image_id == id);
        }
        if after.referenced(id) {
            let i = choose|i: int|
                0 <= i < after.placements.len() && (#[trigger] after.placements[i]).image_id == id;
            assert(left.placements[i].image_id == id);
        }
    }
    // An image that is out of sight now lost a placement, or had none.
    if s.referenced(id) && !left.referenced(id) {
        let i = choose|i: int|
            0 <= i < s.placements.len() && (#[trigger] s.placements[i]).image_id == id;
        if keep(s.placements[i]) {
            lemma_filter_has(s.placements, keep, i);
            let j = choose|j: int|
                0 <= j < left.placements.len() && left.placements[j] == s.placements[i];
            assert(left.placements[j].image_id == id);
        }
        assert(out(s.placements[i]));
        assert(s.images_of(out).contains(id));
    }
    if s.images_of(out).contains(id) {
        let i = choose|i: int|
            0 <= i < s.placements.len() && out(#[trigger] s.placements[i])
                && s.placements[i].image_id == id;
        assert(s.referenced(id));
    }
}

/// Every element that passes is in the filtered sequence.
proof fn lemma_filter_has(s: Seq<KittyPlacement>, keep: spec_fn(KittyPlacement) -> bool, i: int)
    requires
        0 <= i < s.len(),
        keep(s[i]),
    ensures
        exists|j: int| 0 <= j < s.filter(keep).len() && s.filter(keep)[j] == s[i],
    decreases s.len(),
{
    reveal(Seq::filter);
    let rest = s.drop_last();
    if i < s.len() - 1 {
        assert(rest[i] == s[i]);
        lemma_filter_has(rest, keep, i);
        let j = choose|j: int| 0 <= j < rest.filter(keep).len() && rest.filter(keep)[j] == rest[i];
        assert(s.filter(keep)[j] == s[i]);
    } else {
        assert(s.filter(keep)[rest.filter(keep).len() as int] == s[i]);
    }
}

/// Whether a target selects placements by where or how they are shown.
pub open spec fn selects_placements(target: DeleteTarget) -> bool {
    match target {
        DeleteTarget::All
        | DeleteTarget::AllIncludingScrollback
        | DeleteTarget::ById
        | DeleteTarget::ByIdIncludingScrollback
        | DeleteTarget::ByNumber
        | DeleteTarget::ByNumberIncludingScrollback
        | DeleteTarget::AnimationFrames
        | DeleteTarget::AnimationFramesIncludingScrollback => false,
        _ => true,
    }
}

/// Deleting placements without the scrollback removes the selected placements
/// and nothing else: images stay for later placements.
pub proof fn law_visible_delete_keeps_images(
    s: StateView,
    target: DeleteTarget,
    cmd: KittyCommand,
    cursor_col: usize,
    cursor_row: usize,
)
    requires
        selects_placements(target),
        !state::takes_orphans(target),
    ensures
        ({
            let after = s.deleted(target, cmd, cursor_col, cursor_row);
            &&& after == (StateView { placements: after.placements, ..s })
            &&& after.placements == s.placements.filter(
                |p: KittyPlacement| !state::selects(target, cmd, cursor_col, cursor_row, p),
            )
        }),
{
    let out = |p: KittyPlacement| state::selects(target, cmd, cursor_col, cursor_row, p);
    lemma_filter_same(
        s.placements,
        |p: KittyPlacement| !out(p),
        |p: KittyPlacement| !state::selects(target, cmd, cursor_col, cursor_row, p),
    );
}

/// Deleting placements with the scrollback also removes an image exactly when
/// it lost a placement and has none left, with its numbers and its animation.
pub proof fn law_scrollback_delete_takes_orphans(
    s: StateView,
    target: DeleteTarget,
    cmd: KittyCommand,
    cursor_col: usize,
    cursor_row: usize,
    id: u32,
)
    requires
        selects_placements(target),
        state::takes_orphans(target),
    ensures
        ({
            let after = s.deleted(target, cmd, cursor_col, cursor_row);
            let lost = exists|i: int|
                0 <= i < s.placements.len() && state::selects(
                    target,
                    cmd,
                    cursor_col,
                    cursor_row,
                    #[trigger] s.placements[i],
                ) && s.placements[i].image_id == id;
            let orphaned = lost && !after.referenced(id);
            &&& s.images.contains_key(id) ==> (after.images.contains_key(id) <==> !orphaned)
            &&& s.animations.contains_key(id) ==> (after.animations.contains_key(id) <==> !orphaned)
            &&& forall|n: u32| #[trigger]
                s.number_to_id.contains_key(n) && s.number_to_id[n] == id ==> (
                after.number_to_id.contains_key(n) <==> !orphaned)
            &&& after.images.contains_key(id) ==> after.images[id] == s.images[id]
        }),
{
    let after = s.deleted(target, cmd, cursor_col, cursor_row);
    let out = |p: KittyPlacement| state::selects(target, cmd, cursor_col, cursor_row, p);
    let left = s.without_placements(out);
    assert(after.placements == left.placements);
    assert(after.referenced(id) == left.referenced(id)) by {
        if left.referenced(id) {
            let i = choose|i: int|
                0 <= i < left.placements.len() && (#[trigger] left.placements[i]).image_id == id;
            assert(after.placements[i].image_id == id);
        }
        if after.referenced(id) {
            let i = choose|i: int|
                0 <= i < after.placements.len() && (#[trigger] after.placements[i]).image_id == id;
            assert(left.placements[i].image_id == id);
        }
    }
    if s.images_of(out).contains(id) {
        let i = choose|i: int|
            0 <= i < s.placements.len() && out(#[trigger] s.placements[i])
                && s.placements[i].image_id == id;
        assert(state::selects(target, cmd, cursor_col, cursor_row, s.placements[i]));
    }
    if exists|i: int|
        0 <= i < s.placements.len() && state::selects(
            target,
            cmd,
            cursor_col,
            cursor_row,
            #[trigger] s.placements[i],
        ) && s.placements[i].image_id == id {
        let i = choose|i: int|
            0 <= i < s.placements.len() && state::selects(
                target,
                cmd,
                cursor_col,
                cursor_row,
                #[trigger] s.placements[i],
            ) && s.placements[i].image_id == id;
        assert(out(s.placements[i]));
    }
}

/// A delete that names nothing changes nothing: by image ID 0, by an image
/// number that is 0 or stands for nothing, of frames of image ID 0.
pub proof fn law_delete_of_nothing_is_noop(
    s: StateView,
    target: DeleteTarget,
    cmd: KittyCommand,
    cursor_col: usize,
    cursor_row: usize,
)
    requires
        match target {
            DeleteTarget::ById
            | DeleteTarget::ByIdIncludingScrollback
            | DeleteTarget::AnimationFrames
            | DeleteTarget::AnimationFramesIncludingScrollback => cmd.image_id == 0,
            DeleteTarget::ByNumber | DeleteTarget::ByNumberIncludingScrollback => cmd.image_number
                == 0 || !s.number_to_id.contains_key(cmd.image_number),
            _ => false,
        },
    ensures
        s.deleted(target, cmd, cursor_col, cursor_row) == s,
{
}

/// Deleting frames takes the animation of the image and nothing else: the image
/// itself and its placements stay.
pub proof fn law_delete_frames_keeps_image(
    s: StateView,
    target: DeleteTarget,
    cmd: KittyCommand,
    cursor_col: usize,
    cursor_row: usize,
)
    requires
        target == DeleteTarget::AnimationFrames || target
            == DeleteTarget::AnimationFramesIncludingScrollback,
        cmd.image_id != 0,
    ensures
        s.deleted(target, cmd, cursor_col, cursor_row) == (StateView {
            animations: s.animations.remove(cmd.image_id),
            ..s
        }),
{
}

/// A transfer under way, the assigned IDs and the times of use survive every delete.
pub proof fn law_delete_keeps_transfer(
    s: StateView,
    target: DeleteTarget,
    cmd: KittyCommand,
    cursor_col: usize,
    cursor_row: usize,
)
    ensures
        s.deleted(target, cmd, cursor_col, cursor_row).loading == s.loading,
        s.deleted(target, cmd, cursor_col, cursor_row).next_image_id == s.next_image_id,
        s.deleted(target, cmd, cursor_col, cursor_row).clock == s.clock,
{
}

/// Filtering by what everything passes changes nothing.
proof fn lemma_filter_all(s: Seq<KittyPlacement>, keep: spec_fn(KittyPlacement) -> bool)
    requires
        forall|i: int| 0 <= i < s.len() ==> keep(#[trigger] s[i]),
    ensures
        s.filter(keep) == s,
    decreases s.len(),
{
    reveal(Seq::filter);
    if s.len() > 0 {
        assert forall|i: int| 0 <= i < s.drop_last().len() implies keep(
            #[trigger] s.drop_last()[i],
        ) by {
            assert(s.drop_last()[i] == s[i]);
        }
        lemma_filter_all(s.drop_last(), keep);
        assert(s.drop_last().push(s.last()) =~= s);
    }
}

/// Taking out images that are not there changes nothing.
proof fn lemma_without_absent(s: StateView, gone: Set<u32>)
    requires
        forall|id: u32| #[trigger]
            gone.contains(id) ==> !s.images.contains_key(id) && !s.animations.contains_key(id),
    ensures
        s.without_images(gone) == s,
{
    assert(s.images.remove_keys(gone) =~= s.images);
    assert(s.animations.remove_keys(gone) =~= s.animations);
    assert(s.images.restrict(gone).dom() =~= Set::empty());
}

/// Deleting twice by the same command does no more than deleting once.
pub proof fn law_delete_is_idempotent(
    s: StateView,
    target: DeleteTarget,
    cmd: KittyCommand,
    cursor_col: usize,
    cursor_row: usize,
)
    ensures
        s.deleted(target, cmd, cursor_col, cursor_row).deleted(target, cmd, cursor_col, cursor_row)
            == s.deleted(target, cmd, cursor_col, cursor_row),
{
    let once = s.deleted(target, cmd, cursor_col, cursor_row);
    let twice = once.deleted(target, cmd, cursor_col, cursor_row);
    match target {
        DeleteTarget::All | DeleteTarget::AllIncludingScrollback => {},
        DeleteTarget::ById | DeleteTarget::ByIdIncludingScrollback => {
            if cmd.image_id != 0 {
                let gone = set![cmd.image_id];
                let out = |p: KittyPlacement| p.image_id == cmd.image_id;
                lemma_left_not_out(s, out);
                lemma_filter_all(once.placements, |p: KittyPlacement| !out(p));
                lemma_without_absent(once.without_placements(out), gone);
                assert(twice.number_to_id =~= once.number_to_id);
            }
        },
        DeleteTarget::ByNumber | DeleteTarget::ByNumberIncludingScrollback => {},
        DeleteTarget::AnimationFrames | DeleteTarget::AnimationFramesIncludingScrollback => {
            assert(twice.animations =~= once.animations);
        },
        _ => {
            let out = |p: KittyPlacement| state::selects(target, cmd, cursor_col, cursor_row, p);
            lemma_left_not_out(s, out);
            lemma_filter_all(once.placements, |p: KittyPlacement| !out(p));
            let left = once.without_placements(out);
            let gone = left.orphans(once.images_of(out));
            assert(gone =~= Set::empty());
            lemma_without_absent(left, gone);
            assert(numbers_kept(left.number_to_id, gone) =~= left.number_to_id);
        },
    }
}

/// The numbers that do not stand for `gone`.
spec fn numbers_kept(numbers: Map<u32, u32>, gone: Set<u32>) -> Map<u32, u32> {
    state::numbers_where(numbers, |id: u32| !gone.contains(id))
}

// ── Image IDs ──────────────────────────────────────────────────────────

/// An assigned ID is never 0, and no stored image has it as long as there is an
/// ID that none has.
pub proof fn law_assigned_id_is_new(s: StateView, free: u32)
    requires
        free != 0,
        !s.images.contains_key(free),
    ensures
        s.fresh_id() != 0,
        !s.images.contains_key(s.fresh_id()),
{
    let n = state::lemma_free_id_is_first(s.images.dom(), s.next_image_id, u32::MAX as nat);
    state::lemma_free_id_is_free(s.images.dom(), s.next_image_id, free);
}

/// Assigned IDs count up from the last one assigned, and from 1 again behind the
/// highest. An ID is passed over only where an image has it.
pub proof fn law_assigned_ids_count_up(s: StateView, skipped: u32)
    requires
        skipped != 0,
        !s.images.contains_key(skipped),
    ensures
        s.next_image_id < s.fresh_id() ==> !(s.next_image_id < skipped < s.fresh_id()),
        s.fresh_id() <= s.next_image_id ==> skipped <= s.next_image_id && !(skipped
            < s.fresh_id()),
{
    let id = s.next_image_id;
    let taken = s.images.dom();
    let n = state::lemma_free_id_is_first(taken, id, u32::MAX as nat);
    state::lemma_free_id_is_free(taken, id, skipped);
    state::lemma_nth_id(id, n);
    let k: nat = if skipped > id {
        (skipped - id) as nat
    } else {
        (skipped - id + 0xffff_ffff) as nat
    };
    if k > 0 {
        state::lemma_nth_id(id, k);
        assert(state::nth_id_after(id, k) == skipped);
        assert(n <= k);
    }
}

/// Between two assignments of one ID all other IDs were assigned or taken: as
/// long as some other ID is free, the next ID assigned differs from the last.
pub proof fn law_successive_ids_differ(s: StateView, free: u32)
    requires
        free != 0,
        free != s.next_image_id,
        !s.images.contains_key(free),
    ensures
        s.fresh_id() != s.next_image_id,
{
    let id = s.next_image_id;
    let taken = s.images.dom();
    let n = state::lemma_free_id_is_first(taken, id, u32::MAX as nat);
    state::lemma_nth_id(id, n);
    let k: nat = if free > id {
        (free - id) as nat
    } else {
        (free - id + 0xffff_ffff) as nat
    };
    state::lemma_nth_id(id, k);
    assert(state::nth_id_after(id, k) == free);
    assert(n <= k);
}

/// The IDs after an ID repeat only once all 4294967295 of them have come.
pub proof fn law_ids_run_through_all(id: u32, i: nat, j: nat)
    requires
        1 <= i < j,
        j - i < u32::MAX,
    ensures
        state::nth_id_after(id, i) != 0,
        state::nth_id_after(id, i) != state::nth_id_after(id, j),
{
    state::lemma_nth_id(id, i);
    state::lemma_nth_id(id, j);
    let a = (id + i - 1) % 0xffff_ffff;
    let b = (id + j - 1) % 0xffff_ffff;
    assert(a != b);
}

} // verus!
