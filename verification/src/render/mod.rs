//! Draw calls and their dispatch order.
//!
//! A draw call is data: dispatching one yields the primitive that the
//! rasteriser is to paint. Sprites are dispatched in ascending depth order,
//! shadows before every sprite.

pub mod resource;

use crate::fixed::Fixed;
use crate::linear::Vec2;
use crate::math::{spec_world_to_screen, world_to_screen};
use crate::render::resource::{TextureResource, TextureWrapper};
use crate::scene::world::{SceneEntityView, World};
use vstd::prelude::*;

verus! {

#[derive(Clone, Copy, Debug, PartialEq, Eq, Structural)]
pub struct Color {
    pub r: Fixed,
    pub g: Fixed,
    pub b: Fixed,
    pub a: Fixed,
}

/// A filled triangle in screen space.
#[derive(Clone, Copy, Debug, PartialEq, Eq, Structural)]
pub struct ColoredTriangle {
    pub a: Vec2,
    pub b: Vec2,
    pub c: Vec2,
    pub color: Color,
}

/// A texture stretched over an axis-aligned rectangle in screen space.
#[derive(Clone, Copy, Debug, PartialEq, Eq, Structural)]
pub struct TexturedQuad {
    pub texture: TextureResource,
    pub x: Fixed,
    pub y: Fixed,
    pub dest_size: Vec2,
    pub flip_x: bool,
    pub flip_y: bool,
}

/// The screen position of a world-space point: its image under the
/// world-to-screen transform with the second axis inverted, as the
/// rasteriser's y axis points down.
pub open spec fn spec_screen_position(world: Vec2) -> Vec2 {
    spec_world_to_screen(world).spec_flip_y()
}

pub fn screen_position(world: Vec2) -> (r: Vec2)
    ensures
        r == spec_screen_position(world),
{
    world_to_screen(world).flip_y()
}

/// A rectangle on the ground plane, given in world space.
#[derive(Clone, Copy, Debug, PartialEq, Eq, Structural)]
pub struct WorldSpaceRectDrawCall {
    pub origin: Vec2,
    pub extent: Vec2,
    pub color: Color,
}

impl WorldSpaceRectDrawCall {
    /// The screen position of the corner `origin + (dx, dy)`.
    pub open spec fn spec_corner(&self, dx: Fixed, dy: Fixed) -> Vec2 {
        spec_screen_position(self.origin.spec_plus(Vec2 { x: dx, y: dy }))
    }

    /// The two triangles that cover the rectangle: with the corners numbered
    /// from the origin along x first, corners 1, 2, 3 and corners 1, 3, 4.
    pub open spec fn spec_draw(&self) -> (ColoredTriangle, ColoredTriangle) {
        let zero = Fixed { raw: 0 };
        let v1 = self.spec_corner(zero, zero);
        let v2 = self.spec_corner(self.extent.x, zero);
        let v3 = self.spec_corner(self.extent.x, self.extent.y);
        let v4 = self.spec_corner(zero, self.extent.y);
        (
            ColoredTriangle { a: v1, b: v2, c: v3, color: self.color },
            ColoredTriangle { a: v1, b: v3, c: v4, color: self.color },
        )
    }

    fn corner(&self, dx: Fixed, dy: Fixed) -> (r: Vec2)
        ensures
            r == self.spec_corner(dx, dy),
    {
        screen_position(self.origin.plus(Vec2 { x: dx, y: dy }))
    }

    pub fn draw(&self) -> (r: (ColoredTriangle, ColoredTriangle))
        ensures
            r == self.spec_draw(),
    {
        let zero = Fixed::zero();
        let v1 = self.corner(zero, zero);
        let v2 = self.corner(self.extent.x, zero);
        let v3 = self.corner(self.extent.x, self.extent.y);
        let v4 = self.corner(zero, self.extent.y);
        (
            ColoredTriangle { a: v1, b: v2, c: v3, color: self.color },
            ColoredTriangle { a: v1, b: v3, c: v4, color: self.color },
        )
    }
}

/// A sprite: where it goes on screen, how large, with which texture, and the
/// depth key by which sprites are ordered.
#[derive(Clone, Copy, Debug, PartialEq, Eq, Structural)]
pub struct SpriteDrawCall {
    pub origin: Vec2,
    pub extent: Vec2,
    pub texture: Option<TextureResource>,
    pub flip_x: bool,
    pub flip_y: bool,
    pub order: Fixed,
}

impl SpriteDrawCall {
    /// The draw call of a sprite that has not been placed: no texture, all
    /// numbers zero, no flips.
    pub open spec fn spec_default() -> SpriteDrawCall {
        SpriteDrawCall {
            origin: Vec2::spec_zero(),
            extent: Vec2::spec_zero(),
            texture: None,
            flip_x: false,
            flip_y: false,
            order: Fixed { raw: 0 },
        }
    }

    /// An unplaced draw call bound to `texture`.
    pub open spec fn spec_with_texture(texture: TextureResource) -> SpriteDrawCall {
        SpriteDrawCall { texture: Some(texture), ..SpriteDrawCall::spec_default() }
    }

    pub fn with_texture(texture: TextureResource) -> (r: SpriteDrawCall)
        ensures
            r == SpriteDrawCall::spec_with_texture(texture),
    {
        SpriteDrawCall {
            origin: Vec2::zero(),
            extent: Vec2::zero(),
            texture: Some(texture),
            flip_x: false,
            flip_y: false,
            order: Fixed::zero(),
        }
    }

    /// What dispatching the draw call paints: nothing when it has no
    /// texture, else the texture at `origin`, stretched to `extent`.
    pub open spec fn spec_draw(&self) -> Option<TexturedQuad> {
        match self.texture {
            Some(texture) => Some(
                TexturedQuad {
                    texture,
                    x: self.origin.x,
                    y: self.origin.y,
                    dest_size: self.extent,
                    flip_x: self.flip_x,
                    flip_y: self.flip_y,
                },
            ),
            None => None,
        }
    }

    pub fn draw(&self) -> (r: Option<TexturedQuad>)
        ensures
            r == self.spec_draw(),
    {
        match self.texture {
            Some(texture) => Some(
                TexturedQuad {
                    texture,
                    x: self.origin.x,
                    y: self.origin.y,
                    dest_size: self.extent,
                    flip_x: self.flip_x,
                    flip_y: self.flip_y,
                },
            ),
            None => None,
        }
    }
}

impl Default for SpriteDrawCall {
    fn default() -> (r: SpriteDrawCall)
        ensures
            r == SpriteDrawCall::spec_default(),
    {
        SpriteDrawCall {
            origin: Vec2::zero(),
            extent: Vec2::zero(),
            texture: None,
            flip_x: false,
            flip_y: false,
            order: Fixed::zero(),
        }
    }
}

/// Width and height of a texture in pixels.
pub open spec fn spec_texture_size(tex: &TextureWrapper) -> Vec2 {
    tex.size
}

#[inline]
pub fn get_texture_size(tex: &TextureWrapper) -> (r: Vec2)
    ensures
        r == spec_texture_size(tex),
{
    tex.size
}

/// The depth keys of a sequence of draw calls.
pub open spec fn depth_keys(calls: Seq<SpriteDrawCall>) -> Seq<int> {
    calls.map_values(|call: SpriteDrawCall| call.order@)
}

/// Whether the draw call at position `a` is dispatched before the one at
/// position `b`: its key is smaller, or the keys are equal and it comes
/// first.
pub open spec fn dispatched_before(keys: Seq<int>, a: int, b: int) -> bool {
    keys[a] < keys[b] || (keys[a] == keys[b] && a < b)
}

/// `order` lists every position of `keys` once, each before all those that
/// are dispatched after it: the ascending order of the keys, ties left as
/// they were.
pub open spec fn is_depth_order(order: Seq<usize>, keys: Seq<int>) -> bool {
    &&& order.len() == keys.len()
    &&& forall|i: int| 0 <= i < order.len() ==> (#[trigger] order[i]) < keys.len()
    &&& forall|k: usize| k < keys.len() ==> #[trigger] order.contains(k)
    &&& forall|i: int, j: int|
        0 <= i < j < order.len() ==> dispatched_before(keys, order[i] as int, order[j] as int)
}

/// How many leading entries of `order` have a key of `key` at most.
pub open spec fn insertion_point(order: Seq<usize>, keys: Seq<int>, key: int) -> int
    decreases order.len(),
{
    if order.len() == 0 || keys[order.first() as int] > key {
        0
    } else {
        1 + insertion_point(order.drop_first(), keys, key)
    }
}

/// The depth order of `keys`, built by placing each position in turn behind
/// the positions placed so far whose key is not greater.
pub open spec fn spec_depth_order(keys: Seq<int>) -> Seq<usize>
    decreases keys.len(),
{
    if keys.len() == 0 {
        Seq::empty()
    } else {
        let rest = spec_depth_order(keys.drop_last());
        rest.insert(insertion_point(rest, keys, keys.last()), (keys.len() - 1) as usize)
    }
}

/// The entries before the insertion point have a key of `key` at most, and
/// the entry at it, if there is one, has a greater key.
pub proof fn lemma_insertion_point(order: Seq<usize>, keys: Seq<int>, key: int)
    ensures
        0 <= insertion_point(order, keys, key) <= order.len(),
        forall|i: int|
            0 <= i < insertion_point(order, keys, key) ==> keys[(#[trigger] order[i]) as int] <= key,
        insertion_point(order, keys, key) < order.len() ==> keys[order[insertion_point(
            order,
            keys,
            key,
        )] as int] > key,
    decreases order.len(),
{
    if order.len() == 0 || keys[order.first() as int] > key {
    } else {
        let rest = order.drop_first();
        lemma_insertion_point(rest, keys, key);
        let p = insertion_point(rest, keys, key);
        assert forall|i: int| 0 <= i < p + 1 implies keys[(#[trigger] order[i]) as int] <= key by {
            if i > 0 {
                assert(order[i] == rest[i - 1]);
            }
        }
        if p + 1 < order.len() {
            assert(order[p + 1] == rest[p]);
        }
    }
}

/// The order that `spec_depth_order` builds is the depth order of its keys,
/// for as many keys as a vector can hold.
pub proof fn lemma_depth_order(keys: Seq<int>)
    requires
        keys.len() <= usize::MAX,
    ensures
        is_depth_order(spec_depth_order(keys), keys),
    decreases keys.len(),
{
    if keys.len() > 0 {
        let n = keys.len() - 1;
        let front = keys.drop_last();
        let rest = spec_depth_order(front);
        lemma_depth_order(front);
        lemma_insertion_point(rest, keys, keys.last());
        let p = insertion_point(rest, keys, keys.last());
        let order = spec_depth_order(keys);
        assert(order == rest.insert(p, n as usize));
        assert forall|k: usize| k < keys.len() implies #[trigger] order.contains(k) by {
            if k < n {
                assert(rest.contains(k));
                let i = choose|i: int| 0 <= i < rest.len() && rest[i] == k;
                if i < p {
                    assert(order[i] == k);
                } else {
                    assert(order[i + 1] == k);
                }
            } else {
                assert(order[p] == k);
            }
        }
        assert forall|i: int, j: int| 0 <= i < j < order.len() implies dispatched_before(
            keys,
            order[i] as int,
            order[j] as int,
        ) by {
            let a = if i < p { i } else { i - 1 };
            let b = if j < p { j } else { j - 1 };
            if i != p {
                assert(order[i] == rest[a]);
                assert(keys[rest[a] as int] == front[rest[a] as int]);
            }
            if j != p {
                assert(order[j] == rest[b]);
                assert(keys[rest[b] as int] == front[rest[b] as int]);
            }
            if i == p {
                assert(rest[p] < front.len());
                assert(keys[rest[p] as int] == front[rest[p] as int]);
                assert(keys[rest[p] as int] > keys[n]);
                assert(dispatched_before(front, rest[p] as int, rest[b] as int) || p == b);
            } else if j == p {
                assert(rest[a] < front.len());
                assert(keys[rest[a] as int] <= keys[n]);
            } else {
                assert(dispatched_before(front, rest[a] as int, rest[b] as int));
            }
        }
    }
}

/// Two depth orders of the same keys agree on their first `i` entries.
proof fn lemma_depth_order_prefix(a: Seq<usize>, b: Seq<usize>, keys: Seq<int>, i: int)
    requires
        is_depth_order(a, keys),
        is_depth_order(b, keys),
        0 <= i <= keys.len(),
    ensures
        forall|j: int| 0 <= j < i ==> a[j] == b[j],
    decreases i,
{
    if i > 0 {
        lemma_depth_order_prefix(a, b, keys, i - 1);
        let k = i - 1;
        let x = a[k];
        let y = b[k];
        assert(b.contains(x));
        let p = choose|p: int| 0 <= p < b.len() && b[p] == x;
        assert(a.contains(y));
        let q = choose|q: int| 0 <= q < a.len() && a[q] == y;
        if p < k {
            assert(dispatched_before(keys, a[p] as int, a[k] as int));
        } else if q < k {
            assert(dispatched_before(keys, b[q] as int, b[k] as int));
        } else if p > k {
            assert(dispatched_before(keys, b[k] as int, b[p] as int));
            if q > k {
                assert(dispatched_before(keys, a[k] as int, a[q] as int));
            }
        }
    }
}

/// The keys have one depth order only.
pub proof fn lemma_depth_order_unique(a: Seq<usize>, b: Seq<usize>, keys: Seq<int>)
    requires
        is_depth_order(a, keys),
        is_depth_order(b, keys),
    ensures
        a == b,
{
    lemma_depth_order_prefix(a, b, keys, keys.len() as int);
    assert(a =~= b);
}

/// The order in which to dispatch `calls`: ascending by depth key, draw
/// calls with equal keys in the order in which they were given.
pub fn depth_order(calls: &Vec<SpriteDrawCall>) -> (order: Vec<usize>)
    ensures
        order@ == spec_depth_order(depth_keys(calls@)),
        is_depth_order(order@, depth_keys(calls@)),
{
    let ghost keys = depth_keys(calls@);
    let n: usize = calls.len();
    let mut order: Vec<usize> = Vec::new();
    let mut i: usize = 0;
    proof {
        assert(keys.take(0) == Seq::<int>::empty());
    }
    while i < n
        invariant
            n == calls@.len(),
            keys == depth_keys(calls@),
            i <= n,
            order@ == spec_depth_order(keys.take(i as int)),
        decreases n - i,
    {
        let ghost front = keys.take(i as int);
        let ghost next = keys.take(i as int + 1);
        proof {
            lemma_depth_order(front);
            assert(next.drop_last() == front);
            assert(next.last() == keys[i as int]);
        }
        let key: i64 = calls[i].order.raw;
        let mut p: usize = 0;
        proof {
            assert(order@.skip(0) == order@);
            lemma_depth_order(front);
        }
        while p < order.len() && calls[order[p]].order.raw <= key
            invariant
                n == calls@.len(),
                keys == depth_keys(calls@),
                i < n,
                key == keys[i as int],
                next == keys.take(i as int + 1),
                order@.len() == i,
                forall|k: int| 0 <= k < order@.len() ==> (#[trigger] order@[k]) < i,
                p <= order@.len(),
                insertion_point(order@, next, key as int) == p + insertion_point(
                    order@.skip(p as int),
                    next,
                    key as int,
                ),
            decreases order@.len() - p,
        {
            proof {
                let tail = order@.skip(p as int);
                assert(tail.first() == order@[p as int]);
                assert(tail.drop_first() == order@.skip(p as int + 1));
                assert(next[order@[p as int] as int] == keys[order@[p as int] as int]);
            }
            p += 1;
        }
        proof {
            let tail = order@.skip(p as int);
            if p < order@.len() {
                assert(tail.first() == order@[p as int]);
                assert(next[order@[p as int] as int] == keys[order@[p as int] as int]);
            }
            assert(insertion_point(tail, next, key as int) == 0);
        }
        order.insert(p, i);
        i += 1;
    }
    proof {
        assert(keys.take(n as int) == keys);
        lemma_depth_order(keys);
    }
    order
}

/// The triangles of a list of rectangles: two for each, in their order.
pub open spec fn spec_rect_triangles(calls: Seq<WorldSpaceRectDrawCall>) -> Seq<ColoredTriangle>
    decreases calls.len(),
{
    if calls.len() == 0 {
        Seq::empty()
    } else {
        spec_rect_triangles(calls.drop_last()).push(calls.last().spec_draw().0).push(
            calls.last().spec_draw().1,
        )
    }
}

/// The triangles of every shadow of the world, entity by entity.
pub open spec fn spec_background_geometry(world: Seq<SceneEntityView>) -> Seq<ColoredTriangle>
    decreases world.len(),
{
    if world.len() == 0 {
        Seq::empty()
    } else {
        let rest = spec_background_geometry(world.drop_last());
        match world.last().shadow {
            Some(shadow) => rest + spec_rect_triangles(shadow.draw_calls),
            None => rest,
        }
    }
}

/// Dispatches the shadows of the world. They are not ordered: no shadow
/// hides another, and all of them lie beneath the sprites.
pub fn render_background_geometry(world: &World) -> (r: Vec<ColoredTriangle>)
    ensures
        r@ == spec_background_geometry(world@),
{
    let mut triangles: Vec<ColoredTriangle> = Vec::new();
    let n: usize = world.entities.len();
    let mut i: usize = 0;
    proof {
        assert(world@.take(0) == Seq::<SceneEntityView>::empty());
    }
    while i < n
        invariant
            n == world@.len(),
            n == world.entities@.len(),
            i <= n,
            triangles@ == spec_background_geometry(world@.take(i as int)),
        decreases n - i,
    {
        proof {
            let next = world@.take(i as int + 1);
            assert(next.drop_last() == world@.take(i as int));
            assert(next.last() == world.entities@[i as int]@);
        }
        match &world.entities[i].shadow {
            Some(shadow) => {
                let ghost before = triangles@;
                let m: usize = shadow.draw_calls.len();
                let mut k: usize = 0;
                proof {
                    assert(shadow.draw_calls@.take(0) == Seq::<WorldSpaceRectDrawCall>::empty());
                    assert(triangles@ =~= before + spec_rect_triangles(shadow.draw_calls@.take(0)));
                }
                while k < m
                    invariant
                        m == shadow.draw_calls@.len(),
                        k <= m,
                        triangles@ == before + spec_rect_triangles(
                            shadow.draw_calls@.take(k as int),
                        ),
                    decreases m - k,
                {
                    proof {
                        let next = shadow.draw_calls@.take(k as int + 1);
                        assert(next.drop_last() == shadow.draw_calls@.take(k as int));
                        assert(next.last() == shadow.draw_calls@[k as int]);
                    }
                    let (first, second) = shadow.draw_calls[k].draw();
                    triangles.push(first);
                    triangles.push(second);
                    proof {
                        assert(triangles@ =~= before + spec_rect_triangles(
                            shadow.draw_calls@.take(k as int + 1),
                        ));
                    }
                    k += 1;
                }
                proof {
                    assert(shadow.draw_calls@.take(m as int) == shadow.draw_calls@);
                }
            },
            None => {},
        }
        i += 1;
    }
    proof {
        assert(world@.take(n as int) == world@);
    }
    triangles
}

/// The sprite draw calls of the world, entity by entity.
pub open spec fn spec_sprite_draw_calls(world: Seq<SceneEntityView>) -> Seq<SpriteDrawCall>
    decreases world.len(),
{
    if world.len() == 0 {
        Seq::empty()
    } else {
        let rest = spec_sprite_draw_calls(world.drop_last());
        match world.last().sprite {
            Some(sprite) => rest.push(sprite.draw_call),
            None => rest,
        }
    }
}

/// What dispatching `calls` in the order `order` paints: the quad of each
/// draw call that has a texture.
pub open spec fn spec_dispatch(calls: Seq<SpriteDrawCall>, order: Seq<usize>) -> Seq<TexturedQuad>
    decreases order.len(),
{
    if order.len() == 0 {
        Seq::empty()
    } else {
        let rest = spec_dispatch(calls, order.drop_last());
        match calls[order.last() as int].spec_draw() {
            Some(quad) => rest.push(quad),
            None => rest,
        }
    }
}

/// The sprites of the world, dispatched in depth order.
pub open spec fn spec_foreground_geometry(world: Seq<SceneEntityView>) -> Seq<TexturedQuad> {
    let calls = spec_sprite_draw_calls(world);
    spec_dispatch(calls, spec_depth_order(depth_keys(calls)))
}

fn collect_sprite_draw_calls(world: &World) -> (r: Vec<SpriteDrawCall>)
    ensures
        r@ == spec_sprite_draw_calls(world@),
{
    let mut draw_calls: Vec<SpriteDrawCall> = Vec::new();
    let n: usize = world.entities.len();
    let mut i: usize = 0;
    proof {
        assert(world@.take(0) == Seq::<SceneEntityView>::empty());
    }
    while i < n
        invariant
            n == world@.len(),
            n == world.entities@.len(),
            i <= n,
            draw_calls@ == spec_sprite_draw_calls(world@.take(i as int)),
        decreases n - i,
    {
        proof {
            let next = world@.take(i as int + 1);
            assert(next.drop_last() == world@.take(i as int));
            assert(next.last() == world.entities@[i as int]@);
        }
        match world.entities[i].sprite {
            Some(dc) => {
                draw_calls.push(dc.draw_call);
            },
            None => {},
        }
        i += 1;
    }
    proof {
        assert(world@.take(n as int) == world@);
    }
    draw_calls
}

/// Dispatches the sprites of the world in ascending order of their depth
/// keys, sprites with equal keys in the order of their entities. A draw call
/// without a texture paints nothing.
pub fn render_foreground_geometry(world: &World) -> (r: Vec<TexturedQuad>)
    ensures
        r@ == spec_foreground_geometry(world@),
{
    let draw_calls = collect_sprite_draw_calls(world);
    let order = depth_order(&draw_calls);
    let mut quads: Vec<TexturedQuad> = Vec::new();
    let n: usize = order.len();
    let mut i: usize = 0;
    proof {
        assert(order@.take(0) == Seq::<usize>::empty());
    }
    while i < n
        invariant
            n == order@.len(),
            i <= n,
            is_depth_order(order@, depth_keys(draw_calls@)),
            quads@ == spec_dispatch(draw_calls@, order@.take(i as int)),
        decreases n - i,
    {
        proof {
            let next = order@.take(i as int + 1);
            assert(next.drop_last() == order@.take(i as int));
            assert(next.last() == order@[i as int]);
        }
        match draw_calls[order[i]].draw() {
            Some(quad) => {
                quads.push(quad);
            },
            None => {},
        }
        i += 1;
    }
    proof {
        assert(order@.take(n as int) == order@);
    }
    quads
}

} // verus!
