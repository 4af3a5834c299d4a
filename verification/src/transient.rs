use vstd::prelude::*;
use std::sync::Arc;
use crate::mesh::{arc_clone, Mesh};
use crate::render_pipeline::{same_pipeline, RenderPipelineBuilder};

verus! {

/// A draw call: a mesh and the pipeline to draw it with.
pub enum RenderCommand<V> {
    Mesh(Arc<Mesh<V>>, RenderPipelineBuilder),
}

/// Whether two draw calls draw the same mesh with the same pipeline.
pub open spec fn same_render_cmd<V>(a: RenderCommand<V>, b: RenderCommand<V>) -> bool {
    match (a, b) {
        (RenderCommand::Mesh(m1, p1), RenderCommand::Mesh(m2, p2)) => *m1 == *m2 && same_pipeline(p1, p2),
    }
}

impl<V> RenderCommand<V> {
    /// A copy of this command, sharing its mesh.
    pub fn duplicate(&self) -> (c: Self)
        ensures
            same_render_cmd(c, *self),
    {
        match self {
            RenderCommand::Mesh(m, p) => RenderCommand::Mesh(arc_clone(m), p.duplicate()),
        }
    }
}

/// Command buffer for draw calls.
pub struct Renderer<V> {
    commands: Vec<RenderCommand<V>>,
}

impl<V> Renderer<V> {
    /// The draw calls, in order.
    pub closed spec fn command_seq(&self) -> Seq<RenderCommand<V>> {
        self.commands@
    }

    /// An empty command buffer.
    pub fn new() -> (r: Self)
        ensures
            r.command_seq().len() == 0,
    {
        Renderer { commands: Vec::new() }
    }

    /// Draw an object to the screen via a render command.
    pub fn draw(&mut self, cmd: RenderCommand<V>)
        ensures
            final(self).command_seq() == old(self).command_seq().push(cmd),
    {
        self.commands.push(cmd);
    }

    /// A copy of the draw calls, in order.
    pub fn get_commands(&self) -> (r: Vec<RenderCommand<V>>)
        ensures
            r@.len() == self.command_seq().len(),
            forall|i: int| 0 <= i < r@.len() ==> same_render_cmd(#[trigger] r@[i], self.command_seq()[i]),
    {
        let mut r: Vec<RenderCommand<V>> = Vec::new();
        let n = self.commands.len();
        let mut i: usize = 0;
        while i < n
            invariant
                n == self.commands@.len(),
                i <= n,
                r@.len() == i,
                forall|j: int| 0 <= j < i ==> same_render_cmd(#[trigger] r@[j], self.commands@[j]),
            decreases n - i,
        {
            r.push(self.commands[i].duplicate());
            i = i + 1;
        }
        r
    }
}

/// An initialization command: a mesh or a pipeline to create.
pub enum InitCommand<V> {
    Mesh(Arc<Mesh<V>>),
    Pipeline(RenderPipelineBuilder),
}

/// Whether two initialization commands create the same thing.
pub open spec fn same_init_cmd<V>(a: InitCommand<V>, b: InitCommand<V>) -> bool {
    match (a, b) {
        (InitCommand::Mesh(m1), InitCommand::Mesh(m2)) => *m1 == *m2,
        (InitCommand::Pipeline(p1), InitCommand::Pipeline(p2)) => same_pipeline(p1, p2),
        _ => false,
    }
}

impl<V> InitCommand<V> {
    /// A copy of this command, sharing its mesh.
    pub fn duplicate(&self) -> (c: Self)
        ensures
            same_init_cmd(c, *self),
    {
        match self {
            InitCommand::Mesh(m) => InitCommand::Mesh(arc_clone(m)),
            InitCommand::Pipeline(p) => InitCommand::Pipeline(p.duplicate()),
        }
    }
}

/// Command buffer for app state initialization. Every command is immediate:
/// the event loop waits until it is done.
pub struct StateInit<V> {
    commands: Vec<InitCommand<V>>,
}

impl<V> StateInit<V> {
    /// The commands, in order.
    pub closed spec fn command_seq(&self) -> Seq<InitCommand<V>> {
        self.commands@
    }

    /// An empty command buffer.
    pub fn new() -> (s: Self)
        ensures
            s.command_seq().len() == 0,
    {
        StateInit { commands: Vec::new() }
    }

    /// Add a pipeline to the initialization commands.
    pub fn add_render_pipeline(&mut self, desc: RenderPipelineBuilder)
        ensures
            final(self).command_seq() == old(self).command_seq().push(InitCommand::Pipeline(desc)),
    {
        self.commands.push(InitCommand::Pipeline(desc));
    }

    /// Add a mesh to the initialization commands.
    pub fn add_mesh(&mut self, mesh: Arc<Mesh<V>>)
        ensures
            final(self).command_seq() == old(self).command_seq().push(InitCommand::Mesh(mesh)),
    {
        self.commands.push(InitCommand::Mesh(mesh));
    }

    /// A copy of the commands, in order.
    pub fn get_commands(&self) -> (r: Vec<InitCommand<V>>)
        ensures
            r@.len() == self.command_seq().len(),
            forall|i: int| 0 <= i < r@.len() ==> same_init_cmd(#[trigger] r@[i], self.command_seq()[i]),
    {
        let mut r: Vec<InitCommand<V>> = Vec::new();
        let n = self.commands.len();
        let mut i: usize = 0;
        while i < n
            invariant
                n == self.commands@.len(),
                i <= n,
                r@.len() == i,
                forall|j: int| 0 <= j < i ==> same_init_cmd(#[trigger] r@[j], self.commands@[j]),
            decreases n - i,
        {
            r.push(self.commands[i].duplicate());
            i = i + 1;
        }
        r
    }
}

} // verus!
