use vstd::prelude::*;

verus! {

/// A window size in physical pixels.
#[derive(Clone, Copy, Debug, PartialEq, Eq, Structural)]
pub struct Size {
    pub width: u32,
    pub height: u32,
}

/// A key as the input handler tells keys apart.
#[derive(Clone, Copy, Debug, PartialEq, Eq, Structural)]
pub enum Key {
    Space,
    Other,
}

/// The window events that the input handler reads.
#[derive(Clone, Copy, Debug, PartialEq, Eq, Structural)]
pub enum WindowInput {
    CursorMoved,
    /// A key changed state; `keycode` is `None` when the platform gave none.
    Keyboard { keycode: Option<Key>, pressed: bool },
    Other,
}

/// Which texture bind group a frame draws with.
#[derive(Clone, Copy, Debug, PartialEq, Eq, Structural)]
pub enum BindGroup {
    Diffuse,
    Cartoon,
}

/// What one frame draws: the bind group of slot 0, the index range
/// `0 .. index_count` and the instance range `0 .. instance_count`.
#[derive(Clone, Copy, Debug, PartialEq, Eq, Structural)]
pub struct DrawPlan {
    pub bind_group: BindGroup,
    pub index_count: u32,
    pub instance_count: u32,
}

/// The decisions of the renderer, held as plain values.
#[derive(Clone, Copy, Debug, PartialEq, Eq, Structural)]
pub struct State {
    pub size: Size,
    pub is_space_pressed: bool,
    pub num_indices: u32,
}

impl State {
    pub fn new(size: Size, num_indices: u32) -> (r: State)
        ensures
            r == (State { size, is_space_pressed: false, num_indices }),
    {
        State { size, is_space_pressed: false, num_indices }
    }

    /// Takes a new window size when both sides are above zero, and answers
    /// whether it did: only then is the surface to be configured again.
    pub fn resize(&mut self, new_size: Size) -> (r: bool)
        ensures
            r == (new_size.width > 0 && new_size.height > 0),
            *final(self) == (if r { State { size: new_size, ..*old(self) } } else { *old(self) }),
    {
        if new_size.width > 0 && new_size.height > 0 {
            self.size = new_size;
            true
        } else {
            false
        }
    }

    /// Answers whether the event was handled: a cursor move, or a key with
    /// a keycode. A Space key records whether it is now pressed.
    pub fn input(&mut self, event: WindowInput) -> (r: bool)
        ensures
            r == (event is CursorMoved || event matches WindowInput::Keyboard {
                keycode: Some(_),
                ..
            }),
            final(self).is_space_pressed == (match event {
                WindowInput::Keyboard { keycode: Some(Key::Space), pressed } => pressed,
                _ => old(self).is_space_pressed,
            }),
            final(self).size == old(self).size,
            final(self).num_indices == old(self).num_indices,
    {
        match event {
            WindowInput::CursorMoved => true,
            WindowInput::Keyboard { keycode: Some(k), pressed } => {
                if k == Key::Space {
                    self.is_space_pressed = pressed;
                }
                true
            },
            _ => false,
        }
    }

    /// The cartoon texture while Space is held, the diffuse one otherwise;
    /// every index, one instance.
    pub fn render(&self) -> (r: DrawPlan)
        ensures
            r.bind_group == (if self.is_space_pressed { BindGroup::Cartoon } else { BindGroup::Diffuse }),
            r.index_count == self.num_indices,
            r.instance_count == 1,
    {
        let bind_group = if !self.is_space_pressed {
            BindGroup::Diffuse
        } else {
            BindGroup::Cartoon
        };
        DrawPlan { bind_group, index_count: self.num_indices, instance_count: 1 }
    }
}

/// The shape of one vertex attribute.
#[derive(Clone, Copy, Debug, PartialEq, Eq, Structural)]
pub enum VertexFormat {
    Float32x2,
    Float32x3,
}

impl VertexFormat {
    pub open spec fn spec_size(self) -> u64 {
        match self {
            VertexFormat::Float32x2 => 8,
            VertexFormat::Float32x3 => 12,
        }
    }

    /// Its size in bytes.
    pub fn size(&self) -> (r: u64)
        ensures
            r == self.spec_size(),
    {
        match self {
            VertexFormat::Float32x2 => 8,
            VertexFormat::Float32x3 => 12,
        }
    }
}

#[derive(Clone, Copy, Debug, PartialEq, Eq, Structural)]
pub struct VertexAttribute {
    pub offset: u64,
    pub shader_location: u32,
    pub format: VertexFormat,
}

/// How the vertex buffer is read: one vertex every `array_stride` bytes.
pub struct VertexLayout {
    pub array_stride: u64,
    pub attributes: Vec<VertexAttribute>,
}

/// The attributes lie one after another from offset zero, at locations
/// `0, 1, ...`, and the stride is exactly their total size.
pub open spec fn packed(attrs: Seq<VertexAttribute>, stride: u64) -> bool {
    &&& forall|i: int| 0 <= i < attrs.len() ==> (#[trigger] attrs[i]).shader_location == i
    &&& attrs.len() > 0 ==> attrs[0].offset == 0
    &&& forall|i: int|
        0 < i < attrs.len() ==> #[trigger] attrs[i].offset == attrs[i - 1].offset + attrs[i
            - 1].format.spec_size()
    &&& attrs.len() > 0 ==> stride == attrs.last().offset + attrs.last().format.spec_size()
}

/// Number of vertices in the vertex buffer.
pub const VERTEX_COUNT: u16 = 5;

/// The layout of a vertex: a position of three floats, then texture
/// coordinates of two.
pub fn desc() -> (r: VertexLayout)
    ensures
        r.array_stride == 20,
        r.attributes@ == seq![
            VertexAttribute { offset: 0, shader_location: 0, format: VertexFormat::Float32x3 },
            VertexAttribute { offset: 12, shader_location: 1, format: VertexFormat::Float32x2 },
        ],
        packed(r.attributes@, r.array_stride),
{
    let position = VertexAttribute {
        offset: 0,
        shader_location: 0,
        format: VertexFormat::Float32x3,
    };
    let tex_coords = VertexAttribute {
        offset: position.format.size(),
        shader_location: 1,
        format: VertexFormat::Float32x2,
    };
    let array_stride = tex_coords.offset + tex_coords.format.size();
    let attributes = vec![position, tex_coords];
    VertexLayout { array_stride, attributes }
}

/// The index buffer: three triangles of the pentagon, each index naming a
/// vertex of the vertex buffer.
pub fn indices() -> (r: Vec<u16>)
    ensures
        r@ == seq![0u16, 1, 4, 1, 2, 4, 2, 3, 4],
        r@.len() % 3 == 0,
        forall|i: int| 0 <= i < r@.len() ==> #[trigger] r@[i] < VERTEX_COUNT,
{
    let r: Vec<u16> = vec![0, 1, 4, 1, 2, 4, 2, 3, 4];
    assert(r@ =~= seq![0u16, 1, 4, 1, 2, 4, 2, 3, 4]);
    r
}

} // verus!
