//! Batching of drawn primitives into draw commands: consecutive primitives
//! that sample the same pair of textures are drawn by one command.

use vstd::prelude::*;
use crate::texture::StorageId;

verus! {

/// Vertices drawn per primitive (two triangles).
pub const VERTICES_PER_PRIMITIVE: u32 = 6;

/// Draw `num_vertices` vertices sampling the given color and alpha
/// storages.
#[derive(Clone, Copy, Debug, PartialEq, Eq, Structural)]
pub enum DrawCommand {
    Draw { color_storage_id: StorageId, alpha_storage_id: StorageId, num_vertices: u32 },
}

impl DrawCommand {
    /// The pair of storages the command samples.
    pub open spec fn storages(self) -> (StorageId, StorageId) {
        match self {
            DrawCommand::Draw { color_storage_id, alpha_storage_id, .. } => (
                color_storage_id,
                alpha_storage_id,
            ),
        }
    }

    /// The number of vertices the command draws.
    pub open spec fn vertices(self) -> u32 {
        match self {
            DrawCommand::Draw { num_vertices, .. } => num_vertices,
        }
    }
}

/// The sum of the vertices that `commands` draw.
pub open spec fn total_vertices(commands: Seq<DrawCommand>) -> int
    decreases commands.len(),
{
    if commands.len() == 0 {
        0
    } else {
        total_vertices(commands.drop_last()) + commands.last().vertices()
    }
}

/// No two neighbouring commands sample the same pair of storages.
pub open spec fn maximally_batched(commands: Seq<DrawCommand>) -> bool {
    forall|i: int|
        0 < i < commands.len() ==> (#[trigger] commands[i]).storages() != commands[i - 1].storages()
}

/// The draw commands of a frame, the number of primitives they draw, and
/// whether a primitive was skipped because one of its textures was not
/// ready.
pub struct DrawCommands {
    commands: Vec<DrawCommand>,
    primitives: usize,
    has_unready_textures: bool,
}

impl DrawCommands {
    /// The commands, in drawing order.
    pub closed spec fn spec_commands(&self) -> Seq<DrawCommand> {
        self.commands@
    }

    /// Whether a primitive was skipped for an unready texture.
    pub closed spec fn spec_has_unready(&self) -> bool {
        self.has_unready_textures
    }

    /// The number of primitives drawn by the commands.
    pub closed spec fn spec_primitive_count(&self) -> nat {
        self.primitives as nat
    }

    /// There is always a command to extend, commands are maximally
    /// batched, and they draw six vertices per primitive.
    pub open spec fn wf(&self) -> bool {
        &&& self.spec_commands().len() > 0
        &&& maximally_batched(self.spec_commands())
        &&& total_vertices(self.spec_commands()) == VERTICES_PER_PRIMITIVE
            * self.spec_primitive_count()
    }

    /// The commands of an empty frame: one command drawing nothing with
    /// the default storages.
    pub fn new(color: StorageId, alpha: StorageId) -> (r: Self)
        ensures
            r.wf(),
            r.spec_commands() == seq![
                DrawCommand::Draw { color_storage_id: color, alpha_storage_id: alpha, num_vertices: 0 },
            ],
            r.spec_primitive_count() == 0,
            !r.spec_has_unready(),
    {
        let mut commands: Vec<DrawCommand> = Vec::new();
        commands.push(
            DrawCommand::Draw { color_storage_id: color, alpha_storage_id: alpha, num_vertices: 0 },
        );
        let r = DrawCommands { commands, primitives: 0, has_unready_textures: false };
        assert(r.spec_commands() =~= seq![
            DrawCommand::Draw { color_storage_id: color, alpha_storage_id: alpha, num_vertices: 0 },
        ]);
        assert(r.spec_commands().drop_last() =~= Seq::<DrawCommand>::empty());
        assert(total_vertices(r.spec_commands()) == total_vertices(Seq::<DrawCommand>::empty())
            + r.spec_commands().last().vertices());
        r
    }

    /// Start a new frame (as `new` does).
    pub fn reset(&mut self, color: StorageId, alpha: StorageId)
        ensures
            final(self).wf(),
            final(self).spec_commands() == seq![
                DrawCommand::Draw { color_storage_id: color, alpha_storage_id: alpha, num_vertices: 0 },
            ],
            final(self).spec_primitive_count() == 0,
            !final(self).spec_has_unready(),
    {
        *self = DrawCommands::new(color, alpha);
    }

    /// The commands, in drawing order.
    pub fn commands(&self) -> (r: &[DrawCommand])
        ensures
            r@ == self.spec_commands(),
    {
        self.commands.as_slice()
    }

    /// The number of primitives drawn by the commands.
    pub fn primitive_count(&self) -> (r: usize)
        ensures
            r == self.spec_primitive_count(),
    {
        self.primitives
    }

    /// Whether a primitive was skipped for an unready texture.
    pub fn has_unready_textures(&self) -> (r: bool)
        ensures
            r == self.spec_has_unready(),
    {
        self.has_unready_textures
    }

    /// Add a primitive sampling `color` and `alpha`. When a texture is not
    /// ready the primitive is skipped (false is returned and the frame
    /// remembers it); otherwise the last command is extended when it
    /// samples the same storages, else a new command is started, and true
    /// is returned (the caller then records the primitive itself). Either
    /// way the commands draw six vertices per recorded primitive.
    pub fn push(&mut self, color: StorageId, alpha: StorageId, textures_ready: bool) -> (r: bool)
        requires
            old(self).wf(),
            old(self).spec_commands().last().vertices() <= u32::MAX - VERTICES_PER_PRIMITIVE,
            old(self).spec_primitive_count() < usize::MAX,
        ensures
            final(self).wf(),
            r == textures_ready,
            final(self).spec_primitive_count() == old(self).spec_primitive_count() + if textures_ready {
                1int
            } else {
                0int
            },
            !textures_ready ==> final(self).spec_commands() == old(self).spec_commands()
                && final(self).spec_has_unready(),
            textures_ready ==> final(self).spec_has_unready() == old(self).spec_has_unready(),
            textures_ready && old(self).spec_commands().last().storages() == (color, alpha)
                ==> final(self).spec_commands() == old(self).spec_commands().drop_last().push(
                DrawCommand::Draw {
                    color_storage_id: color,
                    alpha_storage_id: alpha,
                    num_vertices: (old(self).spec_commands().last().vertices()
                        + VERTICES_PER_PRIMITIVE) as u32,
                },
            ),
            textures_ready && old(self).spec_commands().last().storages() != (color, alpha)
                ==> final(self).spec_commands() == old(self).spec_commands().push(
                DrawCommand::Draw {
                    color_storage_id: color,
                    alpha_storage_id: alpha,
                    num_vertices: VERTICES_PER_PRIMITIVE,
                },
            ),
            textures_ready ==> total_vertices(final(self).spec_commands()) == total_vertices(
                old(self).spec_commands(),
            ) + VERTICES_PER_PRIMITIVE,
    {
        if !textures_ready {
            self.has_unready_textures = true;
            return false;
        }
        let ghost before = self.commands@;
        let last_index = self.commands.len() - 1;
        let DrawCommand::Draw {
            color_storage_id: prev_color,
            alpha_storage_id: prev_alpha,
            num_vertices,
        } = self.commands[last_index];
        if color == prev_color && alpha == prev_alpha {
            let extended = DrawCommand::Draw {
                color_storage_id: color,
                alpha_storage_id: alpha,
                num_vertices: num_vertices + VERTICES_PER_PRIMITIVE,
            };
            self.commands.set(last_index, extended);
            proof {
                assert(self.commands@ =~= before.drop_last().push(extended));
                assert(self.commands@.drop_last() =~= before.drop_last());
                assert forall|i: int| 0 < i < self.commands@.len() implies (
                #[trigger] self.commands@[i]).storages() != self.commands@[i - 1].storages() by {
                    if i < last_index {
                        assert(self.commands@[i] == before[i]);
                    } else {
                        assert(before[i].storages() == extended.storages());
                    }
                }
            }
        } else {
            let added = DrawCommand::Draw {
                color_storage_id: color,
                alpha_storage_id: alpha,
                num_vertices: VERTICES_PER_PRIMITIVE,
            };
            self.commands.push(added);
            proof {
                assert(self.commands@.drop_last() =~= before);
            }
        }
        self.primitives = self.primitives + 1;
        true
    }
}


/// The vertices each command draws: command `i` draws the vertices from
/// the total of the commands before it, up to (excluding) that total plus
/// its own count.
pub fn vertex_ranges(commands: &[DrawCommand]) -> (r: Vec<(u32, u32)>)
    requires
        total_vertices(commands@) <= u32::MAX,
    ensures
        r@.len() == commands@.len(),
        forall|i: int|
            0 <= i < r@.len() ==> (#[trigger] r@[i]).0 == total_vertices(commands@.subrange(0, i))
                && r@[i].1 == total_vertices(commands@.subrange(0, i + 1)),
{
    let mut r: Vec<(u32, u32)> = Vec::new();
    let mut offset: u32 = 0;
    let mut i: usize = 0;
    while i < commands.len()
        invariant
            i <= commands@.len(),
            r@.len() == i,
            offset == total_vertices(commands@.subrange(0, i as int)),
            total_vertices(commands@) <= u32::MAX,
            forall|k: int|
                0 <= k < i ==> (#[trigger] r@[k]).0 == total_vertices(commands@.subrange(0, k))
                    && r@[k].1 == total_vertices(commands@.subrange(0, k + 1)),
        decreases commands@.len() - i,
    {
        let DrawCommand::Draw { num_vertices, .. } = commands[i];
        proof {
            assert(commands@.subrange(0, i + 1).drop_last() =~= commands@.subrange(0, i as int));
            lemma_total_vertices_prefix(commands@, i + 1);
        }
        let end = offset + num_vertices;
        r.push((offset, end));
        offset = end;
        i += 1;
    }
    r
}

/// The vertices of a prefix of the commands are at most those of all.
pub proof fn lemma_total_vertices_prefix(commands: Seq<DrawCommand>, n: int)
    requires
        0 <= n <= commands.len(),
    ensures
        total_vertices(commands.subrange(0, n)) <= total_vertices(commands),
    decreases commands.len() - n,
{
    if n < commands.len() {
        lemma_total_vertices_prefix(commands, n + 1);
        assert(commands.subrange(0, n + 1).drop_last() =~= commands.subrange(0, n));
    } else {
        assert(commands.subrange(0, n) =~= commands);
    }
}

} // verus!
