use vstd::prelude::*;
use crate::bind_group::BindGroupLayoutBuilder;
use crate::render_pipeline::{same_pipeline, RenderPipelineBuilder};
use crate::resources::InitMode;

verus! {

/// Command for generating a render pipeline.
pub struct RenderPipelineCommand {
    pub builder: RenderPipelineBuilder,
    pub mode: InitMode,
}

/// Command for generating a bind group layout.
pub struct BindGroupLayoutCommand {
    pub builder: BindGroupLayoutBuilder,
    pub mode: InitMode,
}

/// Whether two pipeline commands ask for the same pipeline in the same mode.
pub open spec fn same_rpip_cmd(a: RenderPipelineCommand, b: RenderPipelineCommand) -> bool {
    same_pipeline(a.builder, b.builder) && a.mode == b.mode
}

/// Whether two layout commands ask for the same layout in the same mode.
pub open spec fn same_bgl_cmd(a: BindGroupLayoutCommand, b: BindGroupLayoutCommand) -> bool {
    &&& a.builder.label@ == b.builder.label@
    &&& a.builder.entries@ == b.builder.entries@
    &&& a.mode == b.mode
}

impl RenderPipelineCommand {
    /// A copy of this command.
    pub fn duplicate(&self) -> (c: Self)
        ensures
            same_rpip_cmd(c, *self),
    {
        RenderPipelineCommand { builder: self.builder.duplicate(), mode: self.mode }
    }
}

impl BindGroupLayoutCommand {
    /// A copy of this command.
    pub fn duplicate(&self) -> (c: Self)
        ensures
            same_bgl_cmd(c, *self),
    {
        BindGroupLayoutCommand { builder: self.builder.duplicate(), mode: self.mode }
    }
}

/// Command buffer for app state initialization: the pipelines and layouts to
/// create, each in the order it was added.
pub struct StateInit {
    rpip_commands: Vec<RenderPipelineCommand>,
    bgl_commands: Vec<BindGroupLayoutCommand>,
}

impl StateInit {
    /// The pipeline commands, in order.
    pub closed spec fn rpip_seq(&self) -> Seq<RenderPipelineCommand> {
        self.rpip_commands@
    }

    /// The layout commands, in order.
    pub closed spec fn bgl_seq(&self) -> Seq<BindGroupLayoutCommand> {
        self.bgl_commands@
    }

    /// An empty command buffer.
    pub fn new() -> (s: Self)
        ensures
            s.rpip_seq().len() == 0,
            s.bgl_seq().len() == 0,
    {
        StateInit { rpip_commands: Vec::new(), bgl_commands: Vec::new() }
    }

    /// Add a render pipeline to the initialization commands.
    pub fn add_render_pipeline(&mut self, builder: RenderPipelineBuilder, mode: InitMode)
        ensures
            final(self).rpip_seq() == old(self).rpip_seq().push(RenderPipelineCommand { builder, mode }),
            final(self).bgl_seq() == old(self).bgl_seq(),
    {
        self.rpip_commands.push(RenderPipelineCommand { builder, mode });
    }

    /// Add a bind group layout to the initialization commands.
    pub fn add_bind_group_layout(&mut self, builder: BindGroupLayoutBuilder, mode: InitMode)
        ensures
            final(self).bgl_seq() == old(self).bgl_seq().push(BindGroupLayoutCommand { builder, mode }),
            final(self).rpip_seq() == old(self).rpip_seq(),
    {
        self.bgl_commands.push(BindGroupLayoutCommand { builder, mode });
    }

    /// A copy of the pipeline commands, in order.
    pub fn get_rpip_cmds(&self) -> (r: Vec<RenderPipelineCommand>)
        ensures
            r@.len() == self.rpip_seq().len(),
            forall|i: int| 0 <= i < r@.len() ==> same_rpip_cmd(#[trigger] r@[i], self.rpip_seq()[i]),
    {
        let mut r: Vec<RenderPipelineCommand> = Vec::new();
        let n = self.rpip_commands.len();
        let mut i: usize = 0;
        while i < n
            invariant
                n == self.rpip_commands@.len(),
                i <= n,
                r@.len() == i,
                forall|j: int| 0 <= j < i ==> same_rpip_cmd(#[trigger] r@[j], self.rpip_commands@[j]),
            decreases n - i,
        {
            r.push(self.rpip_commands[i].duplicate());
            i = i + 1;
        }
        r
    }

    /// A copy of the layout commands, in order.
    pub fn get_bgl_cmds(&self) -> (r: Vec<BindGroupLayoutCommand>)
        ensures
            r@.len() == self.bgl_seq().len(),
            forall|i: int| 0 <= i < r@.len() ==> same_bgl_cmd(#[trigger] r@[i], self.bgl_seq()[i]),
    {
        let mut r: Vec<BindGroupLayoutCommand> = Vec::new();
        let n = self.bgl_commands.len();
        let mut i: usize = 0;
        while i < n
            invariant
                n == self.bgl_commands@.len(),
                i <= n,
                r@.len() == i,
                forall|j: int| 0 <= j < i ==> same_bgl_cmd(#[trigger] r@[j], self.bgl_commands@[j]),
            decreases n - i,
        {
            r.push(self.bgl_commands[i].duplicate());
            i = i + 1;
        }
        r
    }
}

} // verus!
