//! Pictures in panes: where they are put, what the terminal holds and what is asked for.

use vstd::prelude::*;

use crate::geometry::Rect;
use crate::graphics::{self, Asset, KeyView, PlacementView, Stage};
use crate::proto::{ImageData, ImagePlacement, PaneId};
use crate::text;

verus! {

// -------------------------------------------------------------------------------- places

/// A picture is put where the program put it, moved to where the pane is; what is cut off
/// at the top is cut off of the pixels in the same proportion.
pub proof fn law_pictures_are_put_in_their_pane(source: ImagePlacement, inner: Rect)
    requires
        inner.fits(),
    ensures
        graphics::clipped(source, inner) matches Some((part, area)) ==> {
            let above = if source.row < 0 {
                -source.row
            } else {
                0
            };
            let skipped = part.source_y - source.source_y;
            &&& area.x == inner.x + source.col
            &&& area.y == inner.y + source.row + above
            &&& area.width <= source.cols
            &&& area.width == source.cols || area.x + area.width == inner.x + inner.width
            &&& area.height + above == source.rows || area.y + area.height == inner.y + inner.height
            &&& skipped * source.rows <= source.source_height * above < (skipped + 1) * source.rows
            &&& part.source_width * source.cols <= source.source_width * area.width
            &&& part.image == source.image
            &&& part.revision == source.revision
            &&& part.placement == source.placement
            &&& part.source_x == source.source_x
            &&& part.z == source.z
        },
{
    if let Some((part, area)) = graphics::clipped(source, inner) {
        let above = if source.row < 0 {
            -source.row
        } else {
            0
        };
        let n = source.source_height * above;
        let d = source.rows as int;
        let skipped = graphics::pixels(source.source_height as int, above, d);
        let w = source.source_width * area.width;
        let c = source.cols as int;
        lemma_parts(n, d);
        lemma_parts(w, c);
        lemma_whole(source, inner);
    }
}

proof fn lemma_parts(n: int, d: int)
    requires
        d > 0,
    ensures
        (n / d) * d <= n < (n / d + 1) * d,
{
    assert((n / d) * d <= n < (n / d + 1) * d) by (nonlinear_arith)
        requires
            d > 0,
    ;
}

proof fn lemma_whole(source: ImagePlacement, inner: Rect)
    requires
        inner.fits(),
        graphics::clipped(source, inner) is Some,
    ensures
        graphics::clipped(source, inner) matches Some((part, area)) && part.source_y
            == source.source_y + graphics::pixels(
            source.source_height as int,
            if source.row < 0 {
                -source.row
            } else {
                0
            },
            source.rows as int,
        ) && part.source_width == graphics::pixels(
            source.source_width as int,
            area.width as int,
            source.cols as int,
        ),
{
    let left = source.col as int;
    let right = if source.col + source.cols < inner.width {
        source.col + source.cols
    } else {
        inner.width as int
    };
    let w = source.source_width as int;
    let n = right - left;
    let c = source.cols as int;
    if source.cols > 0 && left < right {
        assert(0 <= w * n / c <= w) by (nonlinear_arith)
            requires
                0 <= w,
                0 <= n <= c,
                0 < c,
        ;
    }
}

/// The canvas of a pane is its rectangle without the border.
pub proof fn law_canvases_are_inside_the_border(rects: Seq<(PaneId, Rect)>, pane: PaneId)
    ensures
        match graphics::canvas(rects, pane) {
            Some(inner) => exists|i: int|
                0 <= i < rects.len() && (#[trigger] rects[i]).0 == pane && inner
                    == rects[i].1.inside() && (forall|j: int|
                    0 <= j < i ==> (#[trigger] rects[j]).0 != pane),
            None => forall|i: int| 0 <= i < rects.len() ==> (#[trigger] rects[i]).0 != pane,
        },
    decreases rects.len(),
{
    if rects.len() > 0 && rects[0].0 != pane {
        let rest = rects.skip(1);
        law_canvases_are_inside_the_border(rest, pane);
        if let Some(inner) = graphics::canvas(rest, pane) {
            let k = choose|i: int|
                0 <= i < rest.len() && (#[trigger] rest[i]).0 == pane && inner == rest[i].1.inside()
                    && (forall|j: int| 0 <= j < i ==> (#[trigger] rest[j]).0 != pane);
            assert(rects[k + 1] == rest[k]);
            assert forall|j: int| 0 <= j < k + 1 implies (#[trigger] rects[j]).0 != pane by {
                if j > 0 {
                    assert(rest[j - 1] == rects[j]);
                }
            }
        } else {
            assert forall|i: int| 0 <= i < rects.len() implies (#[trigger] rects[i]).0 != pane by {
                if i > 0 {
                    assert(rest[i - 1] == rects[i]);
                }
            }
        }
    } else if rects.len() > 0 {
        assert(rects[0].0 == pane);
    }
}

// -------------------------------------------------------------------------------- memory

/// A picture is wanted exactly when it is to be put somewhere.
pub proof fn law_wanted_pictures(desired: Seq<PlacementView>, key: KeyView)
    ensures
        graphics::wants(desired, key) <==> exists|i: int|
            0 <= i < desired.len() && (#[trigger] desired[i]).key == key,
    decreases desired.len(),
{
    if desired.len() > 0 {
        let rest = desired.skip(1);
        law_wanted_pictures(rest, key);
        if desired[0].key == key {
            assert(desired[0].key == key);
        } else if graphics::wants(rest, key) {
            let i = choose|i: int| 0 <= i < rest.len() && (#[trigger] rest[i]).key == key;
            assert(desired[i + 1] == rest[i]);
        }
        if exists|i: int| 0 <= i < desired.len() && (#[trigger] desired[i]).key == key {
            let i = choose|i: int| 0 <= i < desired.len() && (#[trigger] desired[i]).key == key;
            if i > 0 {
                assert(rest[i - 1] == desired[i]);
            }
        }
    }
}

/// What the terminal holds for a picture is found exactly when it holds something.
pub proof fn law_held_pictures_are_found(assets: Seq<(KeyView, Asset)>, key: KeyView)
    ensures
        match graphics::asset_of(assets, key) {
            Some(asset) => assets.contains((key, asset)),
            None => forall|i: int| 0 <= i < assets.len() ==> (#[trigger] assets[i]).0 != key,
        },
    decreases assets.len(),
{
    if assets.len() > 0 {
        if assets[0].0 == key {
            assert(assets[0] == (key, assets[0].1));
        } else {
            let rest = assets.skip(1);
            law_held_pictures_are_found(rest, key);
            if let Some(asset) = graphics::asset_of(rest, key) {
                assert(assets[rest.index_of((key, asset)) + 1] == (key, asset));
            } else {
                assert forall|i: int| 0 <= i < assets.len() implies (#[trigger] assets[i]).0
                    != key by {
                    if i > 0 {
                        assert(rest[i - 1] == assets[i]);
                    }
                }
            }
        }
    }
}

/// The bytes that are held are those of all that is held.
pub proof fn law_bytes_are_added_up(assets: Seq<(KeyView, Asset)>, key: KeyView, asset: Asset)
    ensures
        graphics::total_bytes(assets.push((key, asset))) == graphics::total_bytes(assets)
            + asset.bytes,
        graphics::total_bytes(Seq::empty()) == 0,
{
    assert(assets.push((key, asset)).drop_last() =~= assets);
}

/// There is room for another picture while there are fewer than thirty-two and all of them
/// together take no more than thirty-two mebibytes.
pub proof fn law_room_is_limited(assets: Seq<(KeyView, Asset)>, bytes: int)
    ensures
        graphics::has_room(assets, bytes) <==> assets.len() <= 31 && graphics::total_bytes(assets)
            + bytes <= 32 * 1024 * 1024,
{
}

/// What is dropped first is the oldest that is not wanted.
pub proof fn law_unwanted_pictures_go_first(
    assets: Seq<(KeyView, Asset)>,
    desired: Seq<PlacementView>,
)
    ensures
        match graphics::stale(assets, desired) {
            Some(i) => 0 <= i < assets.len() && !graphics::wants(desired, assets[i].0) && forall|
                j: int,
            |
                0 <= j < i ==> graphics::wants(desired, (#[trigger] assets[j]).0),
            None => forall|j: int|
                0 <= j < assets.len() ==> graphics::wants(desired, (#[trigger] assets[j]).0),
        },
    decreases assets.len(),
{
    if assets.len() > 0 && graphics::wants(desired, assets[0].0) {
        let rest = assets.skip(1);
        law_unwanted_pictures_go_first(rest, desired);
        let bound = match graphics::stale(rest, desired) {
            Some(i) => i + 1,
            None => assets.len() as int,
        };
        assert forall|j: int| 0 <= j < bound implies graphics::wants(
            desired,
            (#[trigger] assets[j]).0,
        ) by {
            if j > 0 {
                assert(rest[j - 1] == assets[j]);
            }
        }
    }
}

/// Pictures are dropped only for want of room, and until there is room or none is left
/// that could be dropped.
pub proof fn law_no_more_is_dropped_than_needed(
    assets: Seq<(KeyView, Asset)>,
    desired: Seq<PlacementView>,
    bytes: int,
)
    ensures
        graphics::has_room(assets, bytes) ==> graphics::evicted(assets, desired, bytes).0 == assets
            && graphics::evicted(assets, desired, bytes).1.len() == 0,
        graphics::has_room(graphics::evicted(assets, desired, bytes).0, bytes) || graphics::stale(
            graphics::evicted(assets, desired, bytes).0,
            desired,
        ) is None,
    decreases assets.len(),
{
    law_unwanted_pictures_go_first(assets, desired);
    if !graphics::has_room(assets, bytes) {
        if let Some(i) = graphics::stale(assets, desired) {
            law_no_more_is_dropped_than_needed(assets.remove(i), desired, bytes);
        }
    }
}

/// A key that is taken out is gone, and every other stays.
pub proof fn law_keys_are_taken_out(keys: Seq<KeyView>, key: KeyView, other: KeyView)
    ensures
        graphics::without(keys, key).contains(other) <==> keys.contains(other) && other != key,
    decreases keys.len(),
{
    let left = graphics::without(keys, key);
    if keys.len() > 0 {
        let front = keys.drop_last();
        law_keys_are_taken_out(front, key, other);
        let before = graphics::without(front, key);
        if keys.contains(other) && other != key {
            let i = keys.index_of(other);
            if i < front.len() {
                assert(front[i] == other);
                let j = before.index_of(other);
                assert(left[j] == other);
            } else {
                assert(left[left.len() - 1] == other);
            }
        }
        if left.contains(other) {
            let j = left.index_of(other);
            if j < before.len() {
                assert(before[j] == other);
                assert(keys[front.index_of(other)] == other);
            } else {
                assert(keys[keys.len() - 1] == other);
            }
        }
    }
}

/// A picture failed lately when it did within the last three seconds.
pub proof fn law_failures_are_remembered_for_a_while(
    failed: Seq<(KeyView, u64)>,
    key: KeyView,
    now: u64,
)
    ensures
        graphics::failed_lately(failed, key, now) <==> exists|i: int|
            0 <= i < failed.len() && (#[trigger] failed[i]).0 == key && now - failed[i].1 < 3000,
    decreases failed.len(),
{
    if failed.len() > 0 {
        let rest = failed.skip(1);
        law_failures_are_remembered_for_a_while(rest, key, now);
        if failed[0].0 == key && now - failed[0].1 < 3000 {
            assert(failed[0].0 == key);
        } else if graphics::failed_lately(rest, key, now) {
            let i = choose|i: int|
                0 <= i < rest.len() && (#[trigger] rest[i]).0 == key && now - rest[i].1 < 3000;
            assert(failed[i + 1] == rest[i]);
        }
        if exists|i: int|
            0 <= i < failed.len() && (#[trigger] failed[i]).0 == key && now - failed[i].1 < 3000 {
            let i = choose|i: int|
                0 <= i < failed.len() && (#[trigger] failed[i]).0 == key && now - failed[i].1 < 3000;
            if i > 0 {
                assert(rest[i - 1] == failed[i]);
            }
        }
    }
}

/// An answer ends the wait for its picture. What has come is held under a number of its
/// own, if it is wanted and there is room; else nothing is held that was not held before.
pub proof fn law_answers_are_held(
    stage: Stage,
    desired: Seq<PlacementView>,
    key: KeyView,
    image: Option<ImageData>,
    now: u64,
    other: KeyView,
)
    ensures
        ({
            let (after, said) = graphics::received(stage, desired, key, image, now);
            &&& !after.pending.contains(key)
            &&& other != key ==> (after.pending.contains(other) <==> stage.pending.contains(other))
            &&& !graphics::wants(desired, key) ==> after.assets == stage.assets && said.len() == 0
            &&& image is None ==> after.assets == stage.assets && said.len() == 0
            &&& image is None && graphics::wants(desired, key) ==> graphics::failed_lately(
                after.failed,
                key,
                now,
            )
            &&& graphics::wants(desired, key) && graphics::has_room(
                stage.assets,
                vstd::utf8::encode_utf8(image->0.data@).len() as int,
            ) && image is Some ==> after.assets.last().0 == key && after.assets.last().1.host
                == after.next_host && after.next_host != 0
        }),
{
    law_keys_are_taken_out(stage.pending, key, key);
    law_keys_are_taken_out(stage.pending, key, other);
    let (after, said) = graphics::received(stage, desired, key, image, now);
    if image is None && graphics::wants(desired, key) {
        law_failures_are_remembered_for_a_while(after.failed, key, now);
        assert(after.failed[after.failed.len() - 1] == (key, now));
    }
    if image is Some && graphics::wants(desired, key) && graphics::has_room(
        stage.assets,
        vstd::utf8::encode_utf8(image->0.data@).len() as int,
    ) {
        law_no_more_is_dropped_than_needed(
            stage.assets,
            desired,
            vstd::utf8::encode_utf8(image->0.data@).len() as int,
        );
    }
}

/// Numbers go up one by one, and past the last start over at one.
pub proof fn law_numbers_go_up(host: u32)
    ensures
        graphics::next_id(host) != 0,
        host < u32::MAX ==> graphics::next_id(host) == host + 1,
        host == u32::MAX ==> graphics::next_id(host) == 1,
{
}

// ------------------------------------------------------------------------------- requests

proof fn lemma_pending(pending: Seq<KeyView>, key: KeyView)
    ensures
        graphics::is_pending(pending, key) <==> pending.contains(key),
    decreases pending.len(),
{
    if pending.len() > 0 {
        let rest = pending.skip(1);
        lemma_pending(rest, key);
        if pending[0] != key {
            if pending.contains(key) {
                let i = pending.index_of(key);
                assert(rest[i - 1] == key);
            }
            if rest.contains(key) {
                assert(pending[rest.index_of(key) + 1] == key);
            }
        } else {
            assert(pending[0] == key);
        }
    }
}

/// Every picture that is to be put somewhere is held, or failed lately, or is waited for,
/// unless two others are waited for already; and what is newly waited for is wanted, not
/// held and did not fail lately.
pub proof fn law_missing_pictures_are_asked_for(
    stage: Stage,
    desired: Seq<PlacementView>,
    now: u64,
    count: int,
    d: int,
)
    requires
        0 <= d < count <= desired.len(),
    ensures
        ({
            let waited = graphics::requested(stage, desired, now, count);
            let key = desired[d].key;
            graphics::asset_of(stage.assets, key) is Some || graphics::failed_lately(
                stage.failed,
                key,
                now,
            ) || waited.contains(key) || waited.len() >= 2
        }),
        forall|k: int|
            stage.pending.len() <= k < graphics::requested(stage, desired, now, count).len() ==> ({
                let key = #[trigger] graphics::requested(stage, desired, now, count)[k];
                graphics::asset_of(stage.assets, key) is None && !graphics::failed_lately(
                    stage.failed,
                    key,
                    now,
                ) && graphics::wants(desired, key)
            }),
    decreases count,
{
    let before = graphics::requested(stage, desired, now, count - 1);
    let waited = graphics::requested(stage, desired, now, count);
    let key = desired[count - 1].key;
    lemma_pending(before, key);
    if count > 1 {
        law_missing_pictures_are_asked_for(
            stage,
            desired,
            now,
            count - 1,
            if d < count - 1 {
                d
            } else {
                0
            },
        );
    } else {
        assert(before == stage.pending);
    }
    if d < count - 1 {
        let wanted = desired[d].key;
        if before.contains(wanted) {
            assert(waited[before.index_of(wanted)] == wanted);
        }
    } else if waited.len() > before.len() {
        assert(waited[waited.len() - 1] == key);
    }
    assert forall|k: int| stage.pending.len() <= k < waited.len() implies ({
        let key = #[trigger] waited[k];
        graphics::asset_of(stage.assets, key) is None && !graphics::failed_lately(
            stage.failed,
            key,
            now,
        ) && graphics::wants(desired, key)
    }) by {
        if k < before.len() {
            assert(waited[k] == before[k]);
        } else {
            law_wanted_pictures(desired, key);
            assert(desired[count - 1].key == key);
        }
    }
}

// ------------------------------------------------------------------------------- drawing

/// What is shown is what is to be shown and is held, in order.
pub proof fn law_held_pictures_are_shown(
    desired: Seq<PlacementView>,
    assets: Seq<(KeyView, Asset)>,
    one: PlacementView,
)
    ensures
        graphics::visible(desired.push(one), assets) == (if graphics::asset_of(
            assets,
            one.key,
        ) is Some {
            graphics::visible(desired, assets).push(one)
        } else {
            graphics::visible(desired, assets)
        }),
        graphics::visible(Seq::empty(), assets).len() == 0,
{
    assert(desired.push(one).drop_last() =~= desired);
}

/// Nothing is said to the terminal while nothing changes on the screen; and what is shown
/// is remembered.
pub proof fn law_nothing_is_said_without_change(stage: Stage, desired: Seq<PlacementView>)
    ensures
        ({
            let (after, said) = graphics::placed(stage, desired);
            &&& after.previous == graphics::visible(desired, stage.assets)
            &&& after.assets == stage.assets
            &&& graphics::placed(after, desired) == (after, Seq::<u8>::empty())
            &&& graphics::visible(desired, stage.assets) == stage.previous ==> said.len() == 0
        }),
{
}

/// The cursor is saved before pictures are drawn and restored after.
pub proof fn law_drawing_keeps_the_cursor(commands: Seq<u8>)
    ensures
        commands.len() == 0 ==> graphics::framed(commands).len() == 0,
        commands.len() > 0 ==> graphics::framed(commands) == vstd::utf8::encode_utf8("\x1b7"@)
            + commands + vstd::utf8::encode_utf8("\x1b8"@),
{
}

/// The first piece of a picture says what it is; each says whether more follow, and only
/// the last says no.
pub proof fn law_pieces_say_whether_more_follow(host: u32, image: ImageData, index: int, count: int)
    requires
        0 <= index < count,
    ensures
        ({
            let head = graphics::piece_head(host, image, index, count);
            let sign = if index + 1 < count {
                '1'
            } else {
                '0'
            };
            &&& index == 0 ==> head.last() == ';' && head[head.len() - 2] == sign
            &&& index > 0 ==> head == "\x1b_Gm="@ + seq![sign] + ",q=2;"@
        }),
{
    reveal_strlit("1");
    reveal_strlit("0");
    reveal_strlit(";");
    let sign = if index + 1 < count {
        '1'
    } else {
        '0'
    };
    assert(graphics::more(index + 1 < count) =~= seq![sign]);
}

/// A picture that came from a program is taken as it says only where its bytes are as many
/// as its size needs, or are a file of that size.
pub proof fn law_pictures_are_what_they_say(
    image: ImageData,
    bytes: Seq<u8>,
    png: Option<(u32, u32)>,
)
    ensures
        image.format == 24 ==> (graphics::as_declared(image, bytes, png) <==> bytes.len()
            == image.width * image.height * 3),
        image.format == 32 ==> (graphics::as_declared(image, bytes, png) <==> bytes.len()
            == image.width * image.height * 4),
        image.format == 100 ==> (graphics::as_declared(image, bytes, png) <==> png == Some(
            (image.width, image.height),
        )),
        image.format != 24 && image.format != 32 && image.format != 100 ==> !graphics::as_declared(
            image,
            bytes,
            png,
        ),
{
}

/// Hiding a picture and dropping it name its number; they differ in one letter.
pub proof fn law_hiding_keeps_the_picture(host: u32)
    ensures
        graphics::hide_command(host) == vstd::utf8::encode_utf8(
            "\x1b_Ga=d,d=i,i="@ + text::decimal(host as nat) + ",q=2\x1b\\"@,
        ),
        graphics::delete_command(host) == vstd::utf8::encode_utf8(
            "\x1b_Ga=d,d=I,i="@ + text::decimal(host as nat) + ",q=2\x1b\\"@,
        ),
{
}

/// A picture that is held anew replaces what was held for it, and no other.
pub proof fn law_pictures_are_held_once(
    assets: Seq<(KeyView, Asset)>,
    key: KeyView,
    asset: Asset,
    other: (KeyView, Asset),
)
    ensures
        graphics::replaced(assets, key, asset).last() == (key, asset),
        other.0 != key ==> (graphics::replaced(assets, key, asset).contains(other)
            <==> assets.contains(other)),
        forall|i: int|
            0 <= i < graphics::replaced(assets, key, asset).len() - 1 ==> (
            #[trigger] graphics::replaced(assets, key, asset)[i]).0 != key,
{
    let left = graphics::assets_without(assets, key);
    lemma_assets_without(assets, key, other);
    let now = graphics::replaced(assets, key, asset);
    if other.0 != key {
        if left.contains(other) {
            assert(now[left.index_of(other)] == other);
        }
        if now.contains(other) {
            let i = now.index_of(other);
            assert(left[i] == other);
        }
    }
    assert forall|i: int| 0 <= i < now.len() - 1 implies (#[trigger] now[i]).0 != key by {
        assert(left[i] == now[i]);
    }
}

proof fn lemma_assets_without(
    assets: Seq<(KeyView, Asset)>,
    key: KeyView,
    other: (KeyView, Asset),
)
    ensures
        other.0 != key ==> (graphics::assets_without(assets, key).contains(other)
            <==> assets.contains(other)),
        forall|i: int|
            0 <= i < graphics::assets_without(assets, key).len() ==> (
            #[trigger] graphics::assets_without(assets, key)[i]).0 != key,
    decreases assets.len(),
{
    if assets.len() > 0 {
        let front = assets.drop_last();
        lemma_assets_without(front, key, other);
        let before = graphics::assets_without(front, key);
        let left = graphics::assets_without(assets, key);
        if other.0 != key {
            if assets.contains(other) {
                let i = assets.index_of(other);
                if i < front.len() {
                    assert(front[i] == other);
                    assert(left[before.index_of(other)] == other);
                } else {
                    assert(left[left.len() - 1] == other);
                }
            }
            if left.contains(other) {
                let i = left.index_of(other);
                if i < before.len() {
                    assert(before[i] == other);
                    assert(assets[front.index_of(other)] == other);
                } else {
                    assert(assets[assets.len() - 1] == other);
                }
            }
        }
        assert forall|i: int| 0 <= i < left.len() implies (#[trigger] left[i]).0 != key by {
            if i < before.len() {
                assert(left[i] == before[i]);
            }
        }
    }
}

/// A picture is shown from the cell where its area starts, counted from one, over as many
/// cells as its area has.
pub proof fn law_pictures_are_shown_in_their_area(host: u32, p: PlacementView)
    ensures
        graphics::show_command(host, p) == vstd::utf8::encode_utf8(
            "\x1b["@ + text::decimal(p.area.y as nat + 1) + ";"@ + text::decimal(
                p.area.x as nat + 1,
            ) + "H\x1b_Ga=p,i="@ + text::decimal(host as nat) + ",p="@ + text::decimal(
                p.source.placement as nat,
            ) + ",q=2,C=1,c="@ + text::decimal(p.area.width as nat) + ",r="@ + text::decimal(
                p.area.height as nat,
            ) + ",x="@ + text::decimal(p.source.source_x as nat) + ",y="@ + text::decimal(
                p.source.source_y as nat,
            ) + ",w="@ + text::decimal(p.source.source_width as nat) + ",h="@ + text::decimal(
                p.source.source_height as nat,
            ) + ",z="@ + text::signed(p.source.z as int) + "\x1b\\"@,
        ),
{
}

/// A failure that is forgotten is forgotten for its picture alone.
pub proof fn law_failures_are_forgotten(
    failed: Seq<(KeyView, u64)>,
    key: KeyView,
    other: (KeyView, u64),
)
    ensures
        graphics::failures_without(failed, key).contains(other) <==> failed.contains(other)
            && other.0 != key,
    decreases failed.len(),
{
    let left = graphics::failures_without(failed, key);
    if failed.len() > 0 {
        let front = failed.drop_last();
        law_failures_are_forgotten(front, key, other);
        let before = graphics::failures_without(front, key);
        if failed.contains(other) && other.0 != key {
            let i = failed.index_of(other);
            if i < front.len() {
                assert(front[i] == other);
                assert(left[before.index_of(other)] == other);
            } else {
                assert(left[left.len() - 1] == other);
            }
        }
        if left.contains(other) {
            let j = left.index_of(other);
            if j < before.len() {
                assert(before[j] == other);
                assert(failed[front.index_of(other)] == other);
            } else {
                assert(failed[failed.len() - 1] == other);
            }
        }
    }
}

/// A picture is sent piece by piece, in order, each between its head and its end.
pub proof fn law_pieces_are_sent_in_order(
    host: u32,
    image: ImageData,
    pieces: Seq<Seq<u8>>,
    upto: int,
)
    requires
        0 < upto <= pieces.len(),
    ensures
        graphics::upload_commands(host, image, pieces, upto) == graphics::upload_commands(
            host,
            image,
            pieces,
            upto - 1,
        ) + vstd::utf8::encode_utf8(
            graphics::piece_head(host, image, upto - 1, pieces.len() as int),
        ) + pieces[upto - 1] + vstd::utf8::encode_utf8("\x1b\\"@),
        graphics::upload_commands(host, image, pieces, 0).len() == 0,
{
}

/// A picture of which a cell falls into the pane is left out only when no pixel of it does.
pub proof fn law_pictures_in_the_pane_are_put(source: ImagePlacement, inner: Rect)
    requires
        inner.fits(),
        source.cols > 0,
        source.rows > 0,
        source.col + source.cols <= inner.width,
        0 <= source.row,
        source.row + source.rows <= inner.height,
        source.source_width > 0,
        source.source_height > 0,
    ensures
        graphics::clipped(source, inner) == Some(
            (
                source,
                Rect {
                    x: (inner.x + source.col) as u16,
                    y: (inner.y + source.row) as u16,
                    width: source.cols,
                    height: source.rows,
                },
            ),
        ),
{
    let w = source.source_width as int;
    let c = source.cols as int;
    let h = source.source_height as int;
    let r = source.rows as int;
    assert(w * c / c == w) by (nonlinear_arith)
        requires
            c > 0,
    ;
    assert(h * r / r == h) by (nonlinear_arith)
        requires
            r > 0,
    ;
    assert(h * 0 / r == 0) by (nonlinear_arith)
        requires
            r > 0,
    ;
}

} // verus!
