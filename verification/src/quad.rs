//! Solid rectangles: the triangles they are made of, and the room that their
//! vertices take in two vertex buffers.
//!
//! The background layer is drawn before the text and the overlay layer after
//! it, so the cursor sits on top of glyphs.
use vstd::arithmetic::power2::{
    lemma2_to64, lemma_pow2_pos, lemma_pow2_strictly_increases, lemma_pow2_unfold, pow2,
};
use vstd::prelude::*;

verus! {

/// The size of a vertex in its buffer, in bytes: six 32-bit numbers.
pub const VERTEX_SIZE: u64 = 24;

/// The size of a new vertex buffer, in bytes: room for 256 vertices.
pub const INITIAL_CAPACITY: u64 = 6144;

/// A corner of a triangle, with its position and its colour.
#[derive(Debug, Clone, Copy)]
pub struct QuadVertex<T> {
    pub pos: [T; 2],
    pub color: [T; 4],
}

/// Whether `power` is the least power of two that is not below `n`.
pub open spec fn is_next_power_of_two(n: int, power: int) -> bool {
    &&& n <= power
    &&& exists|k: nat| power == #[trigger] pow2(k)
    &&& forall|k: nat| n <= #[trigger] pow2(k) ==> power <= pow2(k)
}

/// The least power of two that is not below `n`.
pub fn next_power_of_two(n: u64) -> (power: u64)
    requires
        n <= 0x8000_0000_0000_0000,
    ensures
        is_next_power_of_two(n as int, power as int),
{
    let mut power: u64 = 1;
    let ghost mut exponent: nat = 0;
    proof {
        lemma2_to64();
        assert forall|k: nat| 1 <= #[trigger] pow2(k) by {
            lemma_pow2_pos(k);
        }
    }
    while power < n
        invariant
            n <= 0x8000_0000_0000_0000,
            power == pow2(exponent),
            forall|k: nat| n <= #[trigger] pow2(k) ==> power <= pow2(k),
            1 <= power,
        decreases 2 * n - power,
    {
        proof {
            lemma_pow2_unfold(exponent + 1);
            assert forall|k: nat| n <= #[trigger] pow2(k) implies 2 * power <= pow2(k) by {
                if k <= exponent {
                    if k < exponent {
                        lemma_pow2_strictly_increases(k, exponent);
                    }
                } else if k > exponent + 1 {
                    lemma_pow2_strictly_increases(exponent + 1, k);
                }
            }
            exponent = exponent + 1;
        }
        power = power * 2;
    }
    power
}

/// What has to be done with a layer's vertex buffer to hold new vertices.
#[derive(Debug, Clone, Copy, PartialEq, Eq, Structural)]
pub enum UploadPlan {
    /// There are no vertices: the buffer is left alone.
    Clear,
    /// Write the vertices into the buffer.
    Write,
    /// Make a buffer of this many bytes, and write the vertices into it.
    Grow(u64),
}

/// The state of one vertex buffer.
#[derive(Debug, Clone, Copy, PartialEq, Eq, Structural)]
pub struct Layer {
    /// The size of the buffer, in bytes.
    pub capacity: u64,
    /// The number of vertices to draw.
    pub count: u32,
}

impl Layer {
    /// A layer whose buffer is new and holds no vertices.
    pub fn new() -> (layer: Layer)
        ensures
            layer == (Layer { capacity: INITIAL_CAPACITY, count: 0 }),
            layer.capacity == 256 * VERTEX_SIZE,
    {
        Layer { capacity: INITIAL_CAPACITY, count: 0 }
    }

    /// Whether uploading `vertices` takes `before` to `after` with `plan`. The
    /// buffer grows to a power of two where the vertices do not fit, and never
    /// shrinks. The count is what 32 bits hold of the number of vertices.
    pub open spec fn uploads(before: Layer, vertices: int, after: Layer, plan: UploadPlan) -> bool {
        let needed = vertices * VERTEX_SIZE;
        &&& after.count == vertices % 0x1_0000_0000
        &&& if vertices == 0 {
            plan == UploadPlan::Clear && after.capacity == before.capacity
        } else if needed <= before.capacity {
            plan == UploadPlan::Write && after.capacity == before.capacity
        } else {
            plan == UploadPlan::Grow(after.capacity) && is_next_power_of_two(
                needed,
                after.capacity as int,
            )
        }
    }

    /// Takes a number of vertices for the next frame. No buffer of vertices in
    /// memory is larger than the bound.
    pub fn upload(&mut self, vertices: usize) -> (plan: UploadPlan)
        requires
            vertices * VERTEX_SIZE <= 0x8000_0000_0000_0000,
        ensures
            Layer::uploads(*old(self), vertices as int, *final(self), plan),
    {
        if vertices == 0 {
            self.count = 0;
            return UploadPlan::Clear;
        }
        let needed: u64 = vertices as u64 * VERTEX_SIZE;
        let plan = if needed > self.capacity {
            let capacity: u64 = next_power_of_two(needed);
            self.capacity = capacity;
            UploadPlan::Grow(capacity)
        } else {
            UploadPlan::Write
        };
        let wide: u64 = vertices as u64;
        assert(wide as u32 == wide % 0x1_0000_0000) by (bit_vector);
        self.count = wide as u32;
        plan
    }

    /// The number of vertices to draw, or `None` where nothing is drawn.
    pub fn draw(&self) -> (count: Option<u32>)
        ensures
            count == (if self.count == 0 {
                None
            } else {
                Some(self.count)
            }),
    {
        if self.count == 0 {
            None
        } else {
            Some(self.count)
        }
    }
}

/// The two layers of rectangles.
#[derive(Debug, Clone, Copy, PartialEq, Eq, Structural)]
pub struct QuadRenderer {
    pub bg_layer: Layer,
    pub overlay_layer: Layer,
}

impl QuadRenderer {
    pub fn new() -> (renderer: QuadRenderer)
        ensures
            renderer.bg_layer == (Layer { capacity: INITIAL_CAPACITY, count: 0 }),
            renderer.overlay_layer == (Layer { capacity: INITIAL_CAPACITY, count: 0 }),
    {
        QuadRenderer { bg_layer: Layer::new(), overlay_layer: Layer::new() }
    }

    /// Takes vertices for the background layer; the overlay stays.
    pub fn upload_bg(&mut self, vertices: usize) -> (plan: UploadPlan)
        requires
            vertices * VERTEX_SIZE <= 0x8000_0000_0000_0000,
        ensures
            Layer::uploads(old(self).bg_layer, vertices as int, final(self).bg_layer, plan),
            final(self).overlay_layer == old(self).overlay_layer,
    {
        self.bg_layer.upload(vertices)
    }

    /// Takes vertices for the overlay layer; the background stays.
    pub fn upload_overlay(&mut self, vertices: usize) -> (plan: UploadPlan)
        requires
            vertices * VERTEX_SIZE <= 0x8000_0000_0000_0000,
        ensures
            Layer::uploads(old(self).overlay_layer, vertices as int, final(self).overlay_layer, plan),
            final(self).bg_layer == old(self).bg_layer,
    {
        self.overlay_layer.upload(vertices)
    }

    /// The number of background vertices to draw, if any.
    pub fn render_bg(&self) -> (count: Option<u32>)
        ensures
            count == (if self.bg_layer.count == 0 {
                None
            } else {
                Some(self.bg_layer.count)
            }),
    {
        self.bg_layer.draw()
    }

    /// The number of overlay vertices to draw, if any.
    pub fn render_overlay(&self) -> (count: Option<u32>)
        ensures
            count == (if self.overlay_layer.count == 0 {
                None
            } else {
                Some(self.overlay_layer.count)
            }),
    {
        self.overlay_layer.draw()
    }

    /// Appends the two triangles of the rectangle between the corners
    /// `(x, y)` and `(x2, y2)`.
    pub fn push_rect<T: Copy>(
        verts: &mut Vec<QuadVertex<T>>,
        x: T,
        y: T,
        x2: T,
        y2: T,
        color: [T; 4],
    )
        ensures
            final(verts)@ == old(verts)@ + rect_vertices(x, y, x2, y2, color),
    {
        verts.push(QuadVertex { pos: [x, y], color });
        verts.push(QuadVertex { pos: [x2, y], color });
        verts.push(QuadVertex { pos: [x, y2], color });
        verts.push(QuadVertex { pos: [x, y2], color });
        verts.push(QuadVertex { pos: [x2, y], color });
        verts.push(QuadVertex { pos: [x2, y2], color });
        assert(verts@ == old(verts)@ + rect_vertices(x, y, x2, y2, color));
    }
}

/// The two triangles of a rectangle: one at the corner `(x, y)`, one at the
/// corner `(x2, y2)`.
pub open spec fn rect_vertices<T>(x: T, y: T, x2: T, y2: T, color: [T; 4]) -> Seq<QuadVertex<T>> {
    seq![
        QuadVertex { pos: [x, y], color },
        QuadVertex { pos: [x2, y], color },
        QuadVertex { pos: [x, y2], color },
        QuadVertex { pos: [x, y2], color },
        QuadVertex { pos: [x2, y], color },
        QuadVertex { pos: [x2, y2], color },
    ]
}

/// Twice the signed area of a triangle.
pub open spec fn doubled_area(
    a: QuadVertex<int>,
    b: QuadVertex<int>,
    c: QuadVertex<int>,
) -> int {
    (b.pos[0] - a.pos[0]) * (c.pos[1] - a.pos[1]) - (c.pos[0] - a.pos[0]) * (b.pos[1] - a.pos[1])
}

/// The two triangles of a rectangle meet in its diagonal, face the same way and
/// have half its area each.
pub proof fn lemma_triangles_halve_rect(x: int, y: int, x2: int, y2: int, color: [int; 4])
    ensures
        ({
            let v = rect_vertices(x, y, x2, y2, color);
            &&& v[1].pos == v[4].pos
            &&& v[2].pos == v[3].pos
            &&& doubled_area(v[0], v[1], v[2]) == (x2 - x) * (y2 - y)
            &&& doubled_area(v[3], v[4], v[5]) == (x2 - x) * (y2 - y)
        }),
{
    assert((x2 - x) * (y2 - y2) - (x2 - x) * (y - y2) == (x2 - x) * (y2 - y)) by (nonlinear_arith);
    assert((x - x) * (y - y) == 0) by (nonlinear_arith);
}

/// After an upload the buffer holds all the vertices, and it is no smaller than
/// before.
pub proof fn lemma_buffer_holds_vertices(
    before: Layer,
    vertices: int,
    after: Layer,
    plan: UploadPlan,
)
    requires
        Layer::uploads(before, vertices, after, plan),
    ensures
        vertices * VERTEX_SIZE <= after.capacity,
        before.capacity <= after.capacity,
{
}

/// The count to draw is the number of vertices uploaded, as far as 32 bits hold
/// it.
pub proof fn lemma_uploaded_vertices_are_drawn(
    before: Layer,
    vertices: int,
    after: Layer,
    plan: UploadPlan,
)
    requires
        Layer::uploads(before, vertices, after, plan),
        0 <= vertices <= u32::MAX,
    ensures
        after.count == vertices,
{
}

/// The least power of two that is not below a number is less than twice the
/// number. Up to one, it is one.
pub proof fn lemma_next_power_of_two(n: int, power: int)
    requires
        is_next_power_of_two(n, power),
    ensures
        n >= 1 ==> n <= power < 2 * n,
        n <= 1 ==> power == 1,
        exists|k: nat| power == #[trigger] pow2(k),
{
    let k = choose|k: nat| power == #[trigger] pow2(k);
    lemma2_to64();
    lemma_pow2_pos(k);
    if n <= 1 {
        assert(n <= pow2(0));
    }
    if k > 0 {
        lemma_pow2_unfold(k);
        assert(pow2((k - 1) as nat) < power) by {
            lemma_pow2_pos((k - 1) as nat);
        }
    }
}

/// An upload without vertices leaves the buffer, one whose vertices of 24 bytes
/// each fit is written into it, and any other gets a buffer of a power of two
/// that is less than twice what is needed.
pub proof fn lemma_upload_plans(before: Layer, vertices: int, after: Layer, plan: UploadPlan)
    requires
        Layer::uploads(before, vertices, after, plan),
        0 <= vertices,
    ensures
        vertices == 0 <==> plan is Clear,
        vertices > 0 && vertices * 24 <= before.capacity <==> plan is Write,
        vertices > 0 && vertices * 24 > before.capacity <==> plan is Grow,
        plan !is Grow ==> after.capacity == before.capacity,
        plan matches UploadPlan::Grow(size) ==> {
            &&& size == after.capacity
            &&& vertices * 24 <= size < 2 * (vertices * 24)
            &&& exists|k: nat| size == #[trigger] pow2(k)
        },
        0 <= after.count < 0x1_0000_0000,
        (vertices - after.count) % 0x1_0000_0000 == 0,
{
    if plan is Grow {
        lemma_next_power_of_two(vertices * 24, after.capacity as int);
    }
}

/// A rectangle is six vertices of its colour: three corners around `(x, y)`, and
/// three around `(x2, y2)`.
pub proof fn lemma_rect_corners<T>(x: T, y: T, x2: T, y2: T, color: [T; 4], i: int)
    ensures
        ({
            let v = rect_vertices(x, y, x2, y2, color);
            &&& v.len() == 6
            &&& 0 <= i < 6 ==> v[i].color == color
            &&& v[0].pos[0] == x && v[0].pos[1] == y
            &&& v[1].pos[0] == x2 && v[1].pos[1] == y
            &&& v[2].pos[0] == x && v[2].pos[1] == y2
            &&& v[3].pos == v[2].pos
            &&& v[4].pos == v[1].pos
            &&& v[5].pos[0] == x2 && v[5].pos[1] == y2
        }),
{
}

} // verus!
