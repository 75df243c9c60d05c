//! Which passes a frame of the renderer encodes, in which order, and which of the two
//! shading targets it writes.
use vstd::prelude::*;

verus! {

/// One step of a rendered frame.
#[derive(Debug, Clone, Copy, PartialEq, Eq, Structural)]
pub enum RenderStep {
    UpdateGpuResources,
    RtGbuffer,
    BuildFrustum,
    LtcCull,
    LtcLighting,
    ClearLighting,
    MirrorReflection,
    ClearReflection,
    Shade,
    Taa,
    Blit,
    Bloom,
    DebugLines,
    Gizmo,
    ColorCorrection,
    EndFrame,
}

/// The render settings that decide which passes run.
#[derive(Debug, Clone, Copy)]
pub struct RenderToggles {
    pub enable_lighting: bool,
    pub enable_reflections: bool,
    pub enable_taa: bool,
    pub enable_bloom: bool,
    pub enable_debug_lines: bool,
    /// A transform gizmo was drawn this frame.
    pub draw_gizmo: bool,
}

/// The steps of one frame and the two shading targets it uses.
#[derive(Debug, Clone)]
pub struct FramePlan {
    pub steps: Vec<RenderStep>,
    /// The shading target written this frame.
    pub shading_slot: usize,
    /// The shading target written last frame, read as history.
    pub prev_shading_slot: usize,
}

/// The shading target frame `frame_idx` writes.
pub open spec fn shading_slot(frame_idx: u32) -> int {
    (frame_idx % 2) as int
}

/// The shading target frame `frame_idx` reads as last frame's.
pub open spec fn prev_shading_slot(frame_idx: u32) -> int {
    (frame_idx + 1) % 2
}

/// A frame reads as history the target the frame before it wrote, and never writes the target
/// it reads.
pub proof fn lemma_shading_history_alternates(frame_idx: u32)
    requires
        frame_idx < u32::MAX,
    ensures
        prev_shading_slot((frame_idx + 1) as u32) == shading_slot(frame_idx),
        shading_slot((frame_idx + 1) as u32) == prev_shading_slot(frame_idx),
        shading_slot(frame_idx) != prev_shading_slot(frame_idx),
{
}

/// `s` followed by `step` when `cond` holds.
pub open spec fn push_if(s: Seq<RenderStep>, cond: bool, step: RenderStep) -> Seq<RenderStep> {
    if cond { s.push(step) } else { s }
}

/// The steps of a frame under `t`: the fixed passes, lighting or its clear, reflections or
/// their clear, shading, the optional passes, and the closing ones.
pub open spec fn spec_frame_steps(t: RenderToggles) -> Seq<RenderStep> {
    let s = seq![
        RenderStep::UpdateGpuResources,
        RenderStep::RtGbuffer,
        RenderStep::BuildFrustum,
        RenderStep::LtcCull,
    ];
    let s = s.push(if t.enable_lighting { RenderStep::LtcLighting } else { RenderStep::ClearLighting });
    let s = s.push(
        if t.enable_reflections { RenderStep::MirrorReflection } else { RenderStep::ClearReflection },
    );
    let s = s.push(RenderStep::Shade);
    let s = push_if(s, t.enable_taa, RenderStep::Taa);
    let s = s.push(RenderStep::Blit);
    let s = push_if(s, t.enable_bloom, RenderStep::Bloom);
    let s = push_if(s, t.enable_debug_lines, RenderStep::DebugLines);
    let s = push_if(s, t.draw_gizmo, RenderStep::Gizmo);
    s.push(RenderStep::ColorCorrection).push(RenderStep::EndFrame)
}

/// Where a step stands in a frame: a frame runs its steps in this order.
pub open spec fn step_rank(step: RenderStep) -> int {
    match step {
        RenderStep::UpdateGpuResources => 0,
        RenderStep::RtGbuffer => 1,
        RenderStep::BuildFrustum => 2,
        RenderStep::LtcCull => 3,
        RenderStep::LtcLighting => 4,
        RenderStep::ClearLighting => 5,
        RenderStep::MirrorReflection => 6,
        RenderStep::ClearReflection => 7,
        RenderStep::Shade => 8,
        RenderStep::Taa => 9,
        RenderStep::Blit => 10,
        RenderStep::Bloom => 11,
        RenderStep::DebugLines => 12,
        RenderStep::Gizmo => 13,
        RenderStep::ColorCorrection => 14,
        RenderStep::EndFrame => 15,
    }
}

/// Whether a frame under `t` runs `step`: each optional pass runs exactly when its own toggle
/// is set, lighting and reflections are cleared when theirs is not, and every other step runs
/// always.
pub open spec fn step_runs(t: RenderToggles, step: RenderStep) -> bool {
    match step {
        RenderStep::LtcLighting => t.enable_lighting,
        RenderStep::ClearLighting => !t.enable_lighting,
        RenderStep::MirrorReflection => t.enable_reflections,
        RenderStep::ClearReflection => !t.enable_reflections,
        RenderStep::Taa => t.enable_taa,
        RenderStep::Bloom => t.enable_bloom,
        RenderStep::DebugLines => t.enable_debug_lines,
        RenderStep::Gizmo => t.draw_gizmo,
        _ => true,
    }
}

/// The steps of `s` are in step order, each at most once.
pub open spec fn in_step_order(s: Seq<RenderStep>) -> bool {
    forall|i: int, j: int| 0 <= i < j < s.len() ==> step_rank(#[trigger] s[i]) < step_rank(#[trigger] s[j])
}

/// Appending a step ranked after every step of `s` keeps the order.
proof fn lemma_push_in_order(s: Seq<RenderStep>, step: RenderStep)
    requires
        in_step_order(s),
        forall|i: int| 0 <= i < s.len() ==> step_rank(#[trigger] s[i]) < step_rank(step),
    ensures
        in_step_order(s.push(step)),
        forall|i: int| 0 <= i < s.push(step).len() ==> step_rank(#[trigger] s.push(step)[i]) <= step_rank(step),
{
}

/// `s.push(step)` holds `x` exactly when `s` does or `x` is `step`.
proof fn lemma_push_contains(s: Seq<RenderStep>, step: RenderStep, x: RenderStep)
    ensures
        s.push(step).contains(x) <==> s.contains(x) || x == step,
{
    if s.push(step).contains(x) {
        let k = choose|k: int| 0 <= k < s.push(step).len() && s.push(step)[k] == x;
        if k < s.len() {
            assert(s[k] == x);
        }
    }
    if x == step {
        assert(s.push(step)[s.len() as int] == x);
    } else if s.contains(x) {
        let k = choose|k: int| 0 <= k < s.len() && s[k] == x;
        assert(s.push(step)[k] == x);
    }
}

/// `push_if(s, cond, step)` holds `x` exactly when `s` does or `cond` holds and `x` is `step`.
proof fn lemma_push_if_contains(s: Seq<RenderStep>, cond: bool, step: RenderStep, x: RenderStep)
    ensures
        push_if(s, cond, step).contains(x) <==> s.contains(x) || (cond && x == step),
{
    if cond {
        lemma_push_contains(s, step, x);
    }
}

/// A frame runs each step exactly when its toggles ask for it: each optional pass (lighting,
/// reflections, anti-aliasing, bloom, debug lines, gizmo) exactly when its own toggle says so,
/// whatever the others say, and every other step always.
pub proof fn lemma_frame_runs_what_toggles_ask(t: RenderToggles, x: RenderStep)
    ensures
        spec_frame_steps(t).contains(x) <==> step_runs(t, x),
{
    let s0 = seq![
        RenderStep::UpdateGpuResources,
        RenderStep::RtGbuffer,
        RenderStep::BuildFrustum,
        RenderStep::LtcCull,
    ];
    assert(s0.contains(x) <==> (x == RenderStep::UpdateGpuResources || x == RenderStep::RtGbuffer
        || x == RenderStep::BuildFrustum || x == RenderStep::LtcCull)) by {
        if x == RenderStep::UpdateGpuResources {
            assert(s0[0] == x);
        } else if x == RenderStep::RtGbuffer {
            assert(s0[1] == x);
        } else if x == RenderStep::BuildFrustum {
            assert(s0[2] == x);
        } else if x == RenderStep::LtcCull {
            assert(s0[3] == x);
        }
    }
    let light = if t.enable_lighting { RenderStep::LtcLighting } else { RenderStep::ClearLighting };
    let s1 = s0.push(light);
    lemma_push_contains(s0, light, x);
    let refl = if t.enable_reflections { RenderStep::MirrorReflection } else { RenderStep::ClearReflection };
    let s2 = s1.push(refl);
    lemma_push_contains(s1, refl, x);
    let s3 = s2.push(RenderStep::Shade);
    lemma_push_contains(s2, RenderStep::Shade, x);
    let s4 = push_if(s3, t.enable_taa, RenderStep::Taa);
    lemma_push_if_contains(s3, t.enable_taa, RenderStep::Taa, x);
    let s5 = s4.push(RenderStep::Blit);
    lemma_push_contains(s4, RenderStep::Blit, x);
    let s6 = push_if(s5, t.enable_bloom, RenderStep::Bloom);
    lemma_push_if_contains(s5, t.enable_bloom, RenderStep::Bloom, x);
    let s7 = push_if(s6, t.enable_debug_lines, RenderStep::DebugLines);
    lemma_push_if_contains(s6, t.enable_debug_lines, RenderStep::DebugLines, x);
    let s8 = push_if(s7, t.draw_gizmo, RenderStep::Gizmo);
    lemma_push_if_contains(s7, t.draw_gizmo, RenderStep::Gizmo, x);
    let s9 = s8.push(RenderStep::ColorCorrection);
    lemma_push_contains(s8, RenderStep::ColorCorrection, x);
    lemma_push_contains(s9, RenderStep::EndFrame, x);
    assert(s9.push(RenderStep::EndFrame) == spec_frame_steps(t));
}

/// A frame runs its steps in step order, each at most once.
pub proof fn lemma_frame_steps_in_order(t: RenderToggles)
    ensures
        in_step_order(spec_frame_steps(t)),
{
    let s0 = seq![
        RenderStep::UpdateGpuResources,
        RenderStep::RtGbuffer,
        RenderStep::BuildFrustum,
        RenderStep::LtcCull,
    ];
    assert(in_step_order(s0));
    let light = if t.enable_lighting { RenderStep::LtcLighting } else { RenderStep::ClearLighting };
    lemma_push_in_order(s0, light);
    let s1 = s0.push(light);
    let refl = if t.enable_reflections { RenderStep::MirrorReflection } else { RenderStep::ClearReflection };
    lemma_push_in_order(s1, refl);
    let s2 = s1.push(refl);
    lemma_push_in_order(s2, RenderStep::Shade);
    let s3 = s2.push(RenderStep::Shade);
    if t.enable_taa {
        lemma_push_in_order(s3, RenderStep::Taa);
    }
    let s4 = push_if(s3, t.enable_taa, RenderStep::Taa);
    lemma_push_in_order(s4, RenderStep::Blit);
    let s5 = s4.push(RenderStep::Blit);
    if t.enable_bloom {
        lemma_push_in_order(s5, RenderStep::Bloom);
    }
    let s6 = push_if(s5, t.enable_bloom, RenderStep::Bloom);
    if t.enable_debug_lines {
        lemma_push_in_order(s6, RenderStep::DebugLines);
    }
    let s7 = push_if(s6, t.enable_debug_lines, RenderStep::DebugLines);
    if t.draw_gizmo {
        lemma_push_in_order(s7, RenderStep::Gizmo);
    }
    let s8 = push_if(s7, t.draw_gizmo, RenderStep::Gizmo);
    lemma_push_in_order(s8, RenderStep::ColorCorrection);
    let s9 = s8.push(RenderStep::ColorCorrection);
    lemma_push_in_order(s9, RenderStep::EndFrame);
    assert(s9.push(RenderStep::EndFrame) == spec_frame_steps(t));
}

fn push_step_if(steps: &mut Vec<RenderStep>, cond: bool, step: RenderStep)
    ensures
        final(steps)@ == push_if(old(steps)@, cond, step),
{
    if cond {
        steps.push(step);
    }
}

/// Plans frame `frame_idx`: the steps `spec_frame_steps` lists, writing shading target
/// `frame_idx % 2` and reading the other one as last frame's.
pub fn plan_frame(toggles: &RenderToggles, frame_idx: u32) -> (r: FramePlan)
    ensures
        r.steps@ == spec_frame_steps(*toggles),
        forall|x: RenderStep| #[trigger] r.steps@.contains(x) <==> step_runs(*toggles, x),
        in_step_order(r.steps@),
        r.shading_slot == shading_slot(frame_idx),
        r.prev_shading_slot == prev_shading_slot(frame_idx),
{
    let mut steps: Vec<RenderStep> = Vec::new();
    steps.push(RenderStep::UpdateGpuResources);
    steps.push(RenderStep::RtGbuffer);
    steps.push(RenderStep::BuildFrustum);
    steps.push(RenderStep::LtcCull);
    if toggles.enable_lighting {
        steps.push(RenderStep::LtcLighting);
    } else {
        steps.push(RenderStep::ClearLighting);
    }
    if toggles.enable_reflections {
        steps.push(RenderStep::MirrorReflection);
    } else {
        steps.push(RenderStep::ClearReflection);
    }
    steps.push(RenderStep::Shade);
    push_step_if(&mut steps, toggles.enable_taa, RenderStep::Taa);
    steps.push(RenderStep::Blit);
    push_step_if(&mut steps, toggles.enable_bloom, RenderStep::Bloom);
    push_step_if(&mut steps, toggles.enable_debug_lines, RenderStep::DebugLines);
    push_step_if(&mut steps, toggles.draw_gizmo, RenderStep::Gizmo);
    steps.push(RenderStep::ColorCorrection);
    steps.push(RenderStep::EndFrame);
    proof {
        assert(steps@ =~= spec_frame_steps(*toggles));
        assert forall|x: RenderStep| #[trigger] steps@.contains(x) <==> step_runs(*toggles, x) by {
            lemma_frame_runs_what_toggles_ask(*toggles, x);
        }
        lemma_frame_steps_in_order(*toggles);
    }
    let shading_slot = (frame_idx % 2) as usize;
    let prev_shading_slot = ((frame_idx as u64 + 1) % 2) as usize;
    FramePlan { steps, shading_slot, prev_shading_slot }
}

} // verus!

verus! {

/// The renderer's frame counter: which frame it renders next.
pub struct Renderer {
    frame_idx: u32,
}

impl Renderer {
    /// The number of the frame the renderer renders next.
    pub closed spec fn spec_frame_idx(&self) -> u32 {
        self.frame_idx
    }

    /// A renderer about to render its first frame.
    pub fn new() -> (r: Self)
        ensures
            r.spec_frame_idx() == 0,
    {
        Renderer { frame_idx: 0 }
    }

    /// The number of the frame the renderer renders next.
    pub fn frame_idx(&self) -> (r: u32)
        ensures
            r == self.spec_frame_idx(),
    {
        self.frame_idx
    }

    /// Renders one frame: plans it under `toggles` with the current frame number, then counts
    /// the frame.
    pub fn render(&mut self, toggles: &RenderToggles) -> (plan: FramePlan)
        ensures
            plan.steps@ == spec_frame_steps(*toggles),
            forall|x: RenderStep| #[trigger] plan.steps@.contains(x) <==> step_runs(*toggles, x),
            in_step_order(plan.steps@),
            plan.shading_slot == shading_slot(old(self).spec_frame_idx()),
            plan.prev_shading_slot == prev_shading_slot(old(self).spec_frame_idx()),
            final(self).spec_frame_idx() == old(self).spec_frame_idx().wrapping_add(1),
    {
        let plan = plan_frame(toggles, self.frame_idx);
        self.frame_idx = self.frame_idx.wrapping_add(1);
        plan
    }
}

/// Two frames rendered one after the other: the second writes the shading target the first
/// read as history, and reads as history the one the first wrote.
pub proof fn lemma_consecutive_renders_alternate(
    r0: Renderer,
    p1: FramePlan,
    r1: Renderer,
    p2: FramePlan,
)
    requires
        r0.spec_frame_idx() < u32::MAX,
        p1.shading_slot == shading_slot(r0.spec_frame_idx()),
        p1.prev_shading_slot == prev_shading_slot(r0.spec_frame_idx()),
        r1.spec_frame_idx() == r0.spec_frame_idx().wrapping_add(1),
        p2.shading_slot == shading_slot(r1.spec_frame_idx()),
        p2.prev_shading_slot == prev_shading_slot(r1.spec_frame_idx()),
    ensures
        p2.prev_shading_slot == p1.shading_slot,
        p2.shading_slot == p1.prev_shading_slot,
        p1.shading_slot != p1.prev_shading_slot,
{
    assert(r0.spec_frame_idx().wrapping_add(1) == r0.spec_frame_idx() + 1);
    lemma_shading_history_alternates(r0.spec_frame_idx());
}

} // verus!
