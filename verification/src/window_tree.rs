//! The window tree: rectangular regions with drawable contents, optional
//! borders, normalized parent-relative geometry, ordered children, and an
//! optional per-node (updater, rate) pair. Each frame runs depth first: every
//! due node's updater first (so a node's update happens before its own draw
//! and before its children's draws), then drawing, parents before children in
//! stored order — the painter's algorithm, later paint over earlier.

use vstd::prelude::*;
use crate::geometry::{PixelRect, Vec2f, UNIT, resolve_child_rect};
use crate::state_cell::DynamicOptional;
use crate::texture::{
    Color, DrawCommand, TextureBackend, TextureCreationInfo, TextureHandle, TexturePool,
    command_dest, entry_wf, lemma_texture_plan_dests_contained, texture_drawable,
    texture_draw_plan,
};
use crate::update_rate::{is_due, FrameCounter, UpdateRate};
use crate::errors::{RenderError, TextureCreationError};

verus! {

/// What a window shows: a solid color, or a pool resource.
#[derive(Copy, Clone, PartialEq, Eq, Structural, Debug)]
pub enum WindowContents {
    Color(Color),
    Texture(TextureHandle),
}

/// What a node's updater asked the engine to do with the node's contents.
pub enum UpdateDecision {
    /// Leave the contents as they are.
    Keep,
    /// Rebuild the node's texture contents from `desired`; if that fails, try
    /// `fallback` before giving the frame up.
    SetTexture { desired: TextureCreationInfo, fallback: Option<TextureCreationInfo> },
}

/// A per-node updater, invoked on the node's own schedule with mutable access
/// to the node's own state cell, read access to the node's contents and the
/// shared state, and the node's resolved pixel rectangle. Implemented by the
/// application; a failure aborts the whole frame.
pub trait WindowUpdater: Sized {
    type NodeState;

    type Shared;

    fn update(
        &mut self,
        contents: &WindowContents,
        state: &mut DynamicOptional<Self::NodeState>,
        shared: &DynamicOptional<Self::Shared>,
        area_drawn_to_screen: PixelRect,
    ) -> Result<UpdateDecision, String>;
}

/// A node's (updater, rate) pair.
pub struct UpdaterEntry<U> {
    pub updater: U,
    pub rate: UpdateRate,
}

/// A rectangular region in the tree.
pub struct Window<U: WindowUpdater> {
    updater: Option<UpdaterEntry<U>>,
    state: DynamicOptional<U::NodeState>,
    contents: WindowContents,
    maybe_border_color: Option<Color>,
    top_left: Vec2f,
    size: Vec2f,
    children: Option<Vec<Window<U>>>,
}

impl<U: WindowUpdater> Window<U> {
    pub closed spec fn spec_contents(self) -> WindowContents {
        self.contents
    }

    pub closed spec fn spec_border_color(self) -> Option<Color> {
        self.maybe_border_color
    }

    pub closed spec fn spec_top_left(self) -> Vec2f {
        self.top_left
    }

    pub closed spec fn spec_size(self) -> Vec2f {
        self.size
    }

    pub closed spec fn spec_children(self) -> Seq<Window<U>> {
        match self.children {
            None => Seq::empty(),
            Some(children) => children@,
        }
    }

    pub closed spec fn spec_updater_rate(self) -> Option<UpdateRate> {
        match self.updater {
            None => None,
            Some(entry) => Some(entry.rate),
        }
    }

    pub closed spec fn spec_state(self) -> DynamicOptional<U::NodeState> {
        self.state
    }

    /// Every node's geometry is normalized and stays inside its parent.
    pub open spec fn geometry_valid(self) -> bool
        decreases self,
    {
        &&& self.spec_top_left().valid()
        &&& self.spec_size().valid()
        &&& self.spec_top_left().spec_x() + self.spec_size().spec_x() <= UNIT
        &&& self.spec_top_left().spec_y() + self.spec_size().spec_y() <= UNIT
        &&& forall|i: int|
            0 <= i < self.spec_children().len() ==> (#[trigger] self.spec_children()[i]).geometry_valid()
    }

    /// Every texture handle in the tree resolves within a pool of `pool_len`
    /// resources; handles stay valid as the pool only grows.
    pub open spec fn handles_valid(self, pool_len: int) -> bool
        decreases self,
    {
        &&& match self.spec_contents() {
            WindowContents::Texture(handle) => handle.spec_index() < pool_len,
            WindowContents::Color(_) => true,
        }
        &&& match self.spec_updater_rate() {
            Some(rate) => rate.wf(),
            None => true,
        }
        &&& forall|i: int|
            0 <= i < self.spec_children().len() ==> (#[trigger] self.spec_children()[i]).handles_valid(
                pool_len,
            )
    }

    pub fn contents(&self) -> (r: &WindowContents)
        ensures
            *r == self.spec_contents(),
    {
        &self.contents
    }

    pub fn state(&self) -> (r: &DynamicOptional<U::NodeState>)
        ensures
            *r == self.spec_state(),
    {
        &self.state
    }

    /// Everything drawing reads agrees between two trees: geometry, border,
    /// contents and structure, recursively. (State cells and updater values
    /// may differ.)
    pub open spec fn same_drawn(self, other: Window<U>) -> bool
        decreases self,
    {
        &&& other.spec_top_left() == self.spec_top_left()
        &&& other.spec_size() == self.spec_size()
        &&& other.spec_border_color() == self.spec_border_color()
        &&& other.spec_contents() == self.spec_contents()
        &&& other.spec_children().len() == self.spec_children().len()
        &&& forall|i: int|
            0 <= i < self.spec_children().len() ==> (#[trigger] self.spec_children()[i]).same_drawn(
                other.spec_children()[i],
            )
    }

    pub proof fn lemma_same_drawn_reflexive(self)
        ensures
            self.same_drawn(self),
        decreases self,
    {
        assert forall|i: int| 0 <= i < self.spec_children().len() implies (
        #[trigger] self.spec_children()[i]).same_drawn(self.spec_children()[i]) by {
            self.spec_children()[i].lemma_same_drawn_reflexive();
        }
    }

    /// LAW: drawing reads nothing else: two trees that agree on everything
    /// drawing reads produce the same plan, and can be drawn equally.
    pub proof fn lemma_same_drawn_same_plan(
        self,
        other: Window<U>,
        pool: TexturePool,
        parent_rect: PixelRect,
        now_millis: u64,
    )
        requires
            self.same_drawn(other),
        ensures
            self.tree_draw_plan(pool, parent_rect, now_millis) == other.tree_draw_plan(
                pool,
                parent_rect,
                now_millis,
            ),
            self.tree_drawable(pool, parent_rect, now_millis) == other.tree_drawable(
                pool,
                parent_rect,
                now_millis,
            ),
        decreases self, self.spec_children().len() + 1,
    {
        let rect = crate::geometry::spec_resolved_rect(
            parent_rect,
            self.spec_top_left(),
            self.spec_size(),
        );
        self.lemma_same_drawn_same_children_plans(
            other,
            pool,
            rect,
            now_millis,
            self.spec_children().len() as int,
        );
    }

    proof fn lemma_same_drawn_same_children_plans(
        self,
        other: Window<U>,
        pool: TexturePool,
        rect: PixelRect,
        now_millis: u64,
        n: int,
    )
        requires
            self.same_drawn(other),
            n <= self.spec_children().len(),
        ensures
            self.children_draw_plans(pool, rect, now_millis, n) == other.children_draw_plans(
                pool,
                rect,
                now_millis,
                n,
            ),
            self.children_drawable(pool, rect, now_millis, n) == other.children_drawable(
                pool,
                rect,
                now_millis,
                n,
            ),
        decreases self, n,
    {
        if 0 < n <= self.spec_children().len() {
            self.lemma_same_drawn_same_children_plans(other, pool, rect, now_millis, n - 1);
            self.spec_children()[n - 1].lemma_same_drawn_same_plan(
                other.spec_children()[n - 1],
                pool,
                rect,
                now_millis,
            );
        }
    }

    /// No node of this subtree carries an updater.
    pub open spec fn has_no_updaters(self) -> bool
        decreases self,
    {
        &&& self.spec_updater_rate() is None
        &&& forall|i: int|
            0 <= i < self.spec_children().len() ==> (#[trigger] self.spec_children()[i]).has_no_updaters()
    }

    /// No updater anywhere in this subtree is due at the given frame: the
    /// update pass has nothing to do.
    pub open spec fn no_updater_due(self, frame_counter: FrameCounter) -> bool
        decreases self,
    {
        &&& match self.spec_updater_rate() {
            Some(rate) => !is_due(rate, frame_counter.spec_index()),
            None => true,
        }
        &&& forall|i: int|
            0 <= i < self.spec_children().len() ==> (#[trigger] self.spec_children()[i]).no_updater_due(
                frame_counter,
            )
    }

    /// A tree without updaters has none due at any frame.
    pub proof fn lemma_no_updaters_never_due(self, frame_counter: FrameCounter)
        requires
            self.has_no_updaters(),
        ensures
            self.no_updater_due(frame_counter),
        decreases self,
    {
        assert forall|i: int| 0 <= i < self.spec_children().len() implies (
        #[trigger] self.spec_children()[i]).no_updater_due(frame_counter) by {
            self.spec_children()[i].lemma_no_updaters_never_due(frame_counter);
        }
    }

    /// Build a node once; it is then mutated in place each frame by its own
    /// updater and by rendering, and torn down only at process exit.
    pub fn new(
        updater: Option<UpdaterEntry<U>>,
        state: DynamicOptional<U::NodeState>,
        contents: WindowContents,
        maybe_border_color: Option<Color>,
        top_left: Vec2f,
        size: Vec2f,
        children: Option<Vec<Window<U>>>,
    ) -> (w: Self)
        requires
            top_left.valid(),
            size.valid(),
            top_left.spec_x() + size.spec_x() <= UNIT,
            top_left.spec_y() + size.spec_y() <= UNIT,
        ensures
            w.spec_contents() == contents,
            w.spec_border_color() == maybe_border_color,
            w.spec_top_left() == top_left,
            w.spec_size() == size,
            w.spec_children() == (match children {
                None => Seq::<Window<U>>::empty(),
                Some(c) => c@,
            }),
            w.spec_updater_rate() == (match updater {
                None => None::<UpdateRate>,
                Some(e) => Some(e.rate),
            }),
            w.spec_state() == state,
    {
        Self { updater, state, contents, maybe_border_color, top_left, size, children }
    }
}

/// The rectangle a node's contents are drawn into: the full resolved
/// rectangle without a border; with one, inset by one pixel on every side
/// (where the rectangle is big enough), so the border stays visible around
/// the interior.
pub open spec fn spec_interior(rect: PixelRect, has_border: bool) -> PixelRect {
    if has_border && rect.w >= 2 && rect.h >= 2 {
        PixelRect {
            x: (rect.x + 1) as u32,
            y: (rect.y + 1) as u32,
            w: (rect.w - 2) as u32,
            h: (rect.h - 2) as u32,
        }
    } else {
        rect
    }
}

pub fn interior_rect(rect: PixelRect, has_border: bool) -> (r: PixelRect)
    requires
        rect.valid(),
    ensures
        r == spec_interior(rect, has_border),
        r.valid(),
{
    if has_border && rect.w >= 2 && rect.h >= 2 {
        PixelRect { x: rect.x + 1, y: rect.y + 1, w: rect.w - 2, h: rect.h - 2 }
    } else {
        rect
    }
}

impl<U: WindowUpdater> Window<U> {
    /// The commands that draw this node alone into its resolved rectangle:
    /// the border first (a fill of the whole rectangle, if any), then the
    /// contents over the interior.
    pub open spec fn node_draw_plan(
        self,
        pool: TexturePool,
        rect: PixelRect,
        now_millis: u64,
    ) -> Seq<DrawCommand> {
        let border: Seq<DrawCommand> = match self.spec_border_color() {
            Some(color) => seq![DrawCommand::FillRect { color, rect }],
            None => Seq::empty(),
        };
        let interior = spec_interior(rect, self.spec_border_color() is Some);
        let contents: Seq<DrawCommand> = match self.spec_contents() {
            WindowContents::Color(color) => seq![
                DrawCommand::FillRect { color, rect: interior },
            ],
            WindowContents::Texture(handle) => texture_draw_plan(
                pool.entries()[handle.spec_index() as int],
                handle,
                interior,
                now_millis,
            ),
        };
        border + contents
    }

    /// This node's own contents can be drawn into its resolved rectangle.
    pub open spec fn node_drawable(self, pool: TexturePool, rect: PixelRect, now_millis: u64)
        -> bool {
        match self.spec_contents() {
            WindowContents::Color(_) => true,
            WindowContents::Texture(handle) => texture_drawable(
                pool.entries()[handle.spec_index() as int],
                spec_interior(rect, self.spec_border_color() is Some),
            ),
        }
    }

    /// The commands that draw the whole subtree rooted here, depth first,
    /// parents before children, children in stored order: the painter's
    /// algorithm.
    pub open spec fn tree_draw_plan(
        self,
        pool: TexturePool,
        parent_rect: PixelRect,
        now_millis: u64,
    ) -> Seq<DrawCommand>
        decreases self, self.spec_children().len() + 1,
    {
        let rect = crate::geometry::spec_resolved_rect(
            parent_rect,
            self.spec_top_left(),
            self.spec_size(),
        );
        self.node_draw_plan(pool, rect, now_millis) + self.children_draw_plans(
            pool,
            rect,
            now_millis,
            self.spec_children().len() as int,
        )
    }

    /// The concatenated plans of the first `n` children, each resolved
    /// against this node's own resolved rectangle.
    pub open spec fn children_draw_plans(
        self,
        pool: TexturePool,
        rect: PixelRect,
        now_millis: u64,
        n: int,
    ) -> Seq<DrawCommand>
        decreases self, n,
    {
        if n <= 0 || n > self.spec_children().len() {
            Seq::empty()
        } else {
            self.children_draw_plans(pool, rect, now_millis, n - 1) + self.spec_children()[n
                - 1].tree_draw_plan(pool, rect, now_millis)
        }
    }

    /// Every node of the subtree can be drawn.
    pub open spec fn tree_drawable(
        self,
        pool: TexturePool,
        parent_rect: PixelRect,
        now_millis: u64,
    ) -> bool
        decreases self, self.spec_children().len() + 1,
    {
        let rect = crate::geometry::spec_resolved_rect(
            parent_rect,
            self.spec_top_left(),
            self.spec_size(),
        );
        self.node_drawable(pool, rect, now_millis) && self.children_drawable(
            pool,
            rect,
            now_millis,
            self.spec_children().len() as int,
        )
    }

    pub open spec fn children_drawable(
        self,
        pool: TexturePool,
        rect: PixelRect,
        now_millis: u64,
        n: int,
    ) -> bool
        decreases self, n,
    {
        if n <= 0 || n > self.spec_children().len() {
            true
        } else {
            self.children_drawable(pool, rect, now_millis, n - 1) && self.spec_children()[n
                - 1].tree_drawable(pool, rect, now_millis)
        }
    }

    /// When the first `n` children are all drawable, so is each of them.
    proof fn lemma_children_drawable_prefix(
        self,
        pool: TexturePool,
        rect: PixelRect,
        now_millis: u64,
        n: int,
        k: int,
    )
        requires
            0 <= k < n <= self.spec_children().len(),
            self.children_drawable(pool, rect, now_millis, n),
        ensures
            self.spec_children()[k].tree_drawable(pool, rect, now_millis),
        decreases n,
    {
        if k < n - 1 {
            self.lemma_children_drawable_prefix(pool, rect, now_millis, n - 1, k);
        }
    }

    /// Draw the subtree rooted here into the parent's resolved rectangle,
    /// appending the commands in paint order. The first node that cannot be
    /// drawn aborts the whole frame; the host discards the partial commands.
    pub fn draw_into(
        &self,
        pool: &TexturePool,
        parent_rect: PixelRect,
        now_millis: u64,
        commands: &mut Vec<DrawCommand>,
    ) -> (r: Result<(), RenderError>)
        requires
            pool.wf(),
            parent_rect.valid(),
            self.geometry_valid(),
            self.handles_valid(pool.entries().len() as int),
        ensures
            r is Ok <==> self.tree_drawable(*pool, parent_rect, now_millis),
            r is Ok ==> final(commands)@ == old(commands)@ + self.tree_draw_plan(
                *pool,
                parent_rect,
                now_millis,
            ),
        decreases *self,
    {
        let rect = resolve_child_rect(&parent_rect, &self.top_left, &self.size);
        let has_border = match &self.maybe_border_color {
            Some(color) => {
                commands.push(DrawCommand::FillRect { color: *color, rect });
                true
            },
            None => false,
        };
        let interior = interior_rect(rect, has_border);
        match &self.contents {
            WindowContents::Color(color) => {
                commands.push(DrawCommand::FillRect { color: *color, rect: interior });
            },
            WindowContents::Texture(handle) => {
                match pool.draw_texture_to_canvas(handle, interior, now_millis, commands) {
                    Ok(()) => {},
                    Err(e) => {
                        return Err(e);
                    },
                }
            },
        }
        proof {
            assert(commands@ =~= old(commands)@ + self.node_draw_plan(*pool, rect, now_millis));
        }
        match &self.children {
            None => {},
            Some(children) => {
                let ghost plan_base = old(commands)@ + self.node_draw_plan(*pool, rect, now_millis);
                let mut i: usize = 0;
                while i < children.len()
                    invariant
                        pool.wf(),
                        rect.valid(),
                        rect == crate::geometry::spec_resolved_rect(
                            parent_rect,
                            self.spec_top_left(),
                            self.spec_size(),
                        ),
                        children@ == self.spec_children(),
                        i <= children.len(),
                        forall|j: int|
                            0 <= j < children@.len() ==> (#[trigger] children@[j]).geometry_valid()
                                && children@[j].handles_valid(pool.entries().len() as int),
                        self.children_drawable(*pool, rect, now_millis, i as int),
                        commands@ == plan_base + self.children_draw_plans(
                            *pool,
                            rect,
                            now_millis,
                            i as int,
                        ),
                    decreases children.len() - i,
                {
                    match children[i].draw_into(pool, rect, now_millis, commands) {
                        Ok(()) => {},
                        Err(e) => {
                            proof {
                                if self.tree_drawable(*pool, parent_rect, now_millis) {

                                    self.lemma_children_drawable_prefix(
                                        *pool,
                                        rect,
                                        now_millis,
                                        self.spec_children().len() as int,
                                        i as int,
                                    );
                                }
                            }
                            return Err(e);
                        },
                    }
                    i = i + 1;
                    proof {
                        assert(commands@ =~= plan_base + self.children_draw_plans(
                            *pool,
                            rect,
                            now_millis,
                            i as int,
                        ));
                    }
                }
            },
        }
        proof {
            assert(commands@ =~= old(commands)@ + self.tree_draw_plan(
                *pool,
                parent_rect,
                now_millis,
            ));
        }
        Ok(())
    }
}

impl<U: WindowUpdater> Window<U> {
    /// The frame protocol may change a node's contents and state, never its
    /// geometry, border, schedule or structure.
    pub open spec fn same_shape(self, other: Window<U>) -> bool
        decreases self,
    {
        &&& other.spec_top_left() == self.spec_top_left()
        &&& other.spec_size() == self.spec_size()
        &&& other.spec_border_color() == self.spec_border_color()
        &&& other.spec_updater_rate() == self.spec_updater_rate()
        &&& other.spec_children().len() == self.spec_children().len()
        &&& forall|i: int|
            0 <= i < self.spec_children().len() ==> (#[trigger] self.spec_children()[i]).same_shape(
                other.spec_children()[i],
            )
    }

    pub proof fn lemma_same_shape_reflexive(self)
        ensures
            self.same_shape(self),
        decreases self,
    {
        assert forall|i: int| 0 <= i < self.spec_children().len() implies (
        #[trigger] self.spec_children()[i]).same_shape(self.spec_children()[i]) by {
            self.spec_children()[i].lemma_same_shape_reflexive();
        }
    }

    /// Handles stay valid as the pool grows.
    pub proof fn lemma_handles_valid_monotonic(self, shorter: int, longer: int)
        requires
            self.handles_valid(shorter),
            shorter <= longer,
        ensures
            self.handles_valid(longer),
        decreases self,
    {
        assert forall|i: int| 0 <= i < self.spec_children().len() implies (
        #[trigger] self.spec_children()[i]).handles_valid(longer) by {
            self.spec_children()[i].lemma_handles_valid_monotonic(shorter, longer);
        }
    }
}

/// Rebuild a node's texture contents per an updater's decision, exactly as a
/// node keeps its contents current: rebuild the existing resource in place
/// when the node already shows one, otherwise create a new resource and adopt
/// its handle; when the desired description fails, try the fallback before
/// giving the frame up.
pub fn update_texture_contents<B: TextureBackend>(
    contents: &mut WindowContents,
    pool: &mut TexturePool,
    backend: &mut B,
    desired: TextureCreationInfo,
    fallback: Option<TextureCreationInfo>,
) -> (r: Result<(), RenderError>)
    requires
        old(pool).wf(),
        (*old(contents)) matches WindowContents::Texture(h) ==> h.spec_index() < old(pool).entries().len(),
    ensures
        final(pool).wf(),
        final(pool).spec_max_texture_size() == old(pool).spec_max_texture_size(),
        old(pool).entries().len() <= final(pool).entries().len(),
        (*final(contents)) matches WindowContents::Texture(h) ==> h.spec_index() < final(pool).entries().len(),
        r is Err ==> *final(contents) == *old(contents),
        r matches Err(e) ==> e is ContentsCreationFailed,
        !desired.wf() && fallback is None ==> r == Err::<(), _>(
            RenderError::ContentsCreationFailed(TextureCreationError::DegenerateScrollPeriod),
        ),
        !desired.wf() && (fallback matches Some(fb) && !fb.wf()) ==> r == Err::<(), _>(
            RenderError::ContentsCreationFailed(TextureCreationError::DegenerateScrollPeriod),
        ),
        r == Err::<(), _>(
            RenderError::ContentsCreationFailed(TextureCreationError::DegenerateScrollPeriod),
        ) ==> ((!desired.wf() && fallback is None) || (fallback matches Some(fb) && !fb.wf())),
        (*old(contents)) is Texture ==> (match r {
            Err(RenderError::ContentsCreationFailed(e)) => !(e is PoolFull),
            _ => true,
        }),
        r is Ok ==> ((*final(contents)) matches WindowContents::Texture(h) && {
            let entry = final(pool).entries()[h.spec_index() as int];
            let max_texture_w = old(pool).spec_max_texture_size().w;
            ||| crate::texture::entry_matches(entry, desired, max_texture_w)
            ||| (fallback matches Some(fb) && crate::texture::entry_matches(
                entry,
                fb,
                max_texture_w,
            ))
        }),
{
    match contents {
        WindowContents::Texture(handle) => {
            let h = *handle;
            let first: Result<(), TextureCreationError> = if desired.check_wf() {
                pool.remake_texture(backend, &desired, &h)
            } else {
                Err(TextureCreationError::DegenerateScrollPeriod)
            };
            match first {
                Ok(()) => Ok(()),
                Err(first_error) => match fallback {
                    Some(fb) => {
                        let second: Result<(), TextureCreationError> = if fb.check_wf() {
                            pool.remake_texture(backend, &fb, &h)
                        } else {
                            Err(TextureCreationError::DegenerateScrollPeriod)
                        };
                        match second {
                            Ok(()) => Ok(()),
                            Err(second_error) => Err(
                                RenderError::ContentsCreationFailed(second_error),
                            ),
                        }
                    },
                    None => Err(RenderError::ContentsCreationFailed(first_error)),
                },
            }
        },
        WindowContents::Color(_) => {
            let first: Result<TextureHandle, TextureCreationError> = if desired.check_wf() {
                pool.make_texture(backend, &desired)
            } else {
                Err(TextureCreationError::DegenerateScrollPeriod)
            };
            match first {
                Ok(handle) => {
                    *contents = WindowContents::Texture(handle);
                    Ok(())
                },
                Err(first_error) => match fallback {
                    Some(fb) => {
                        let second: Result<TextureHandle, TextureCreationError> =
                            if fb.check_wf() {
                            pool.make_texture(backend, &fb)
                        } else {
                            Err(TextureCreationError::DegenerateScrollPeriod)
                        };
                        match second {
                            Ok(handle) => {
                                *contents = WindowContents::Texture(handle);
                                Ok(())
                            },
                            Err(second_error) => Err(
                                RenderError::ContentsCreationFailed(second_error),
                            ),
                        }
                    },
                    None => Err(RenderError::ContentsCreationFailed(first_error)),
                },
            }
        },
    }
}

impl<U: WindowUpdater> Window<U> {
    /// The frame's update pass: depth first, run every due node's updater
    /// with the node's resolved rectangle and apply its decision, so that a
    /// node's update happens before its own draw and before its children's
    /// draws. The first failure aborts the frame; the tree's shape and
    /// well-formedness survive either way, so the host may retry.
    pub fn update_tree<B: TextureBackend>(
        &mut self,
        pool: &mut TexturePool,
        backend: &mut B,
        shared: &DynamicOptional<U::Shared>,
        frame_counter: FrameCounter,
        parent_rect: PixelRect,
    ) -> (r: Result<(), RenderError>)
        requires
            old(self).geometry_valid(),
            old(self).handles_valid(old(pool).entries().len() as int),
            old(pool).wf(),
            parent_rect.valid(),
        ensures
            final(pool).wf(),
            final(pool).spec_max_texture_size() == old(pool).spec_max_texture_size(),
            old(pool).entries().len() <= final(pool).entries().len(),
            final(self).geometry_valid(),
            final(self).handles_valid(final(pool).entries().len() as int),
            old(self).same_shape(*final(self)),
            old(self).no_updater_due(frame_counter) ==> r is Ok && old(self).same_drawn(
                *final(self),
            ) && *final(pool) == *old(pool),
        decreases *old(self),
    {
        let rect = resolve_child_rect(&parent_rect, &self.top_left, &self.size);
        let mut decision: UpdateDecision = UpdateDecision::Keep;
        match &mut self.updater {
            None => {},
            Some(entry) => {
                if entry.rate.is_time_to_update(frame_counter) {
                    match entry.updater.update(&self.contents, &mut self.state, shared, rect) {
                        Ok(d) => {
                            decision = d;
                        },
                        Err(reason) => {
                            proof {
                                old(self).lemma_same_shape_reflexive();
                            }
                            return Err(RenderError::UpdaterFailed(reason));
                        },
                    }
                }
            },
        }
        match decision {
            UpdateDecision::Keep => {},
            UpdateDecision::SetTexture { desired, fallback } => {
                match update_texture_contents(&mut self.contents, pool, backend, desired, fallback)
                    {
                    Ok(()) => {},
                    Err(e) => {
                        proof {
                            old(self).lemma_same_shape_reflexive();
                            assert forall|i: int|
                                0 <= i < self.spec_children().len() implies (
                            #[trigger] self.spec_children()[i]).handles_valid(
                                pool.entries().len() as int,
                            ) by {
                                self.spec_children()[i].lemma_handles_valid_monotonic(
                                    old(pool).entries().len() as int,
                                    pool.entries().len() as int,
                                );
                            }
                        }
                        return Err(e);
                    },
                }
            },
        }
        proof {
            assert forall|i: int|
                0 <= i < self.spec_children().len() implies (
            #[trigger] self.spec_children()[i]).handles_valid(pool.entries().len() as int) by {
                self.spec_children()[i].lemma_handles_valid_monotonic(
                    old(pool).entries().len() as int,
                    pool.entries().len() as int,
                );
            }
        }
        let mut taken: Option<Vec<Window<U>>> = None;
        core::mem::swap(&mut self.children, &mut taken);
        match taken {
            None => {},
            Some(mut children_vec) => {
                let ghost original_children = children_vec@;
                proof {
                    assert(original_children == old(self).spec_children());
                    assert forall|j: int|
                        0 <= j < children_vec@.len() implies (
                    #[trigger] children_vec@[j]).geometry_valid() && children_vec@[j].handles_valid(
                        pool.entries().len() as int,
                    ) && old(self).spec_children()[j].same_shape(children_vec@[j]) && children_vec@[
                        j
                    ].same_drawn(children_vec@[j]) by {
                        children_vec@[j].lemma_handles_valid_monotonic(
                            old(pool).entries().len() as int,
                            pool.entries().len() as int,
                        );
                        children_vec@[j].lemma_same_shape_reflexive();
                        children_vec@[j].lemma_same_drawn_reflexive();
                    }
                }
                let ghost pool_len_at_children = pool.entries().len() as int;
                let mut failure: Option<RenderError> = None;
                let mut ok: bool = true;
                let mut i: usize = 0;
                #[verifier::loop_isolation(false)]
                while ok && i < children_vec.len()
                    invariant
                        pool.wf(),
                        pool.spec_max_texture_size() == old(pool).spec_max_texture_size(),
                        old(pool).entries().len() <= pool.entries().len(),
                        pool_len_at_children <= pool.entries().len(),
                        i <= children_vec.len(),
                        children_vec@.len() == original_children.len(),
                        ok <==> failure is None,
                        ok ==> forall|j: int|
                            i <= j < children_vec@.len() ==> children_vec@[j]
                                == original_children[j],
                        forall|j: int|
                            0 <= j < children_vec@.len() ==> (
                            #[trigger] children_vec@[j]).geometry_valid()
                                && children_vec@[j].handles_valid(pool.entries().len() as int)
                                && original_children[j].same_shape(children_vec@[j]),
                        old(self).no_updater_due(frame_counter) ==> ok && *pool == *old(pool)
                            && forall|j: int|
                            0 <= j < children_vec@.len() ==> (
                            #[trigger] original_children[j]).same_drawn(children_vec@[j]),
                    decreases children_vec.len() - i + (if ok { 1int } else { 0int }),
                {
                    let ghost pool_len_before = pool.entries().len() as int;
                    let mut child = children_vec.remove(i);
                    let res = child.update_tree(pool, backend, shared, frame_counter, rect);
                    children_vec.insert(i, child);
                    proof {
                        assert forall|j: int|
                            0 <= j < children_vec@.len() implies (
                        #[trigger] children_vec@[j]).geometry_valid()
                            && children_vec@[j].handles_valid(pool.entries().len() as int)
                            && original_children[j].same_shape(children_vec@[j]) by {
                            if j != i {
                                children_vec@[j].lemma_handles_valid_monotonic(
                                    pool_len_before,
                                    pool.entries().len() as int,
                                );
                            }
                        }
                        if old(self).no_updater_due(frame_counter) {
                            assert forall|j: int|
                                0 <= j < children_vec@.len() implies (
                            #[trigger] original_children[j]).same_drawn(children_vec@[j]) by {
                                if j != i {
                                    original_children[j].lemma_same_drawn_reflexive();
                                }
                            }
                        }
                    }
                    match res {
                        Ok(()) => {
                            i = i + 1;
                        },
                        Err(e) => {
                            failure = Some(e);
                            ok = false;
                        },
                    }
                }
                self.children = Some(children_vec);
                match failure {
                    None => {},
                    Some(e) => {
                        return Err(e);
                    },
                }
            },
        }
        proof {
            assert forall|j: int|
                0 <= j < self.spec_children().len() implies (
            #[trigger] old(self).spec_children()[j]).same_shape(self.spec_children()[j]) by {
                if self.spec_children()[j] == old(self).spec_children()[j] {
                    old(self).spec_children()[j].lemma_same_shape_reflexive();
                }
            }
            if old(self).no_updater_due(frame_counter) {
                assert forall|j: int|
                    0 <= j < self.spec_children().len() implies (
                #[trigger] old(self).spec_children()[j]).same_drawn(self.spec_children()[j]) by {
                    if self.spec_children()[j] == old(self).spec_children()[j] {
                        old(self).spec_children()[j].lemma_same_drawn_reflexive();
                    }
                }
            }
        }
        Ok(())
    }
}

/// One frame: the update pass over the whole tree, then the draw pass, so
/// every due updater runs before its own node's draw and before its
/// children's draws; the commands come out in paint order for the host to
/// execute. Either pass's first failure aborts the frame.
pub fn render<U: WindowUpdater, B: TextureBackend>(
    window: &mut Window<U>,
    pool: &mut TexturePool,
    backend: &mut B,
    shared: &DynamicOptional<U::Shared>,
    frame_counter: FrameCounter,
    output_rect: PixelRect,
    now_millis: u64,
    commands: &mut Vec<DrawCommand>,
) -> (r: Result<(), RenderError>)
    requires
        old(window).geometry_valid(),
        old(window).handles_valid(old(pool).entries().len() as int),
        old(pool).wf(),
        output_rect.valid(),
    ensures
        final(pool).wf(),
        final(pool).spec_max_texture_size() == old(pool).spec_max_texture_size(),
        old(pool).entries().len() <= final(pool).entries().len(),
        final(window).geometry_valid(),
        final(window).handles_valid(final(pool).entries().len() as int),
        old(window).same_shape(*final(window)),
        r is Ok ==> final(window).tree_drawable(*final(pool), output_rect, now_millis),
        r is Ok ==> final(commands)@ == old(commands)@ + final(window).tree_draw_plan(
            *final(pool),
            output_rect,
            now_millis,
        ),
        old(window).no_updater_due(frame_counter) ==> *final(pool) == *old(pool) && old(
            window,
        ).same_drawn(*final(window)) && (r is Ok <==> old(window).tree_drawable(
            *old(pool),
            output_rect,
            now_millis,
        )) && (r is Ok ==> final(commands)@ == old(commands)@ + old(window).tree_draw_plan(
            *old(pool),
            output_rect,
            now_millis,
        )),
{
    match window.update_tree(pool, backend, shared, frame_counter, output_rect) {
        Ok(()) => {},
        Err(e) => {
            return Err(e);
        },
    }
    let result = window.draw_into(pool, output_rect, now_millis, commands);
    proof {
        if old(window).no_updater_due(frame_counter) {
            old(window).lemma_same_drawn_same_plan(*window, *pool, output_rect, now_millis);
        }
    }
    result
}

/// Advance the frame counter by one, at the end of each render iteration.
pub fn advance(frame_counter: &mut FrameCounter)
    ensures
        final(frame_counter).spec_index() == (old(frame_counter).spec_index() + 1) % 0x10000,
{
    frame_counter.tick()
}

impl<U: WindowUpdater> Window<U> {
    /// LAW: nothing is drawn outside its window. Every command of a drawable
    /// subtree's plan lands inside the parent rectangle the subtree was
    /// resolved against — the global consequence of per-node [0, 1] geometry.
    pub proof fn lemma_plan_stays_inside(
        self,
        pool: TexturePool,
        parent_rect: PixelRect,
        now_millis: u64,
    )
        requires
            pool.wf(),
            parent_rect.valid(),
            self.geometry_valid(),
            self.handles_valid(pool.entries().len() as int),
            self.tree_drawable(pool, parent_rect, now_millis),
        ensures
            forall|k: int|
                0 <= k < self.tree_draw_plan(pool, parent_rect, now_millis).len()
                    ==> crate::geometry::rect_contains(
                    parent_rect,
                    command_dest(
                        #[trigger] self.tree_draw_plan(pool, parent_rect, now_millis)[k],
                    ),
                ),
        decreases self, self.spec_children().len() + 1,
    {
        crate::geometry::lemma_resolved_child_rect_contained(
            parent_rect,
            self.spec_top_left(),
            self.spec_size(),
        );
        let rect = crate::geometry::spec_resolved_rect(
            parent_rect,
            self.spec_top_left(),
            self.spec_size(),
        );
        let interior = spec_interior(rect, self.spec_border_color() is Some);
        match self.spec_contents() {
            WindowContents::Color(_) => {},
            WindowContents::Texture(handle) => {
                assert(entry_wf(pool.entries()[handle.spec_index() as int]));
                lemma_texture_plan_dests_contained(
                    pool.entries()[handle.spec_index() as int],
                    handle,
                    interior,
                    now_millis,
                );
            },
        }
        self.lemma_children_plans_stay_inside(
            pool,
            rect,
            now_millis,
            self.spec_children().len() as int,
        );
        let node_plan = self.node_draw_plan(pool, rect, now_millis);
        let child_plans = self.children_draw_plans(
            pool,
            rect,
            now_millis,
            self.spec_children().len() as int,
        );
        assert forall|k: int|
            0 <= k < self.tree_draw_plan(pool, parent_rect, now_millis).len()
                implies crate::geometry::rect_contains(
            parent_rect,
            command_dest(#[trigger] self.tree_draw_plan(pool, parent_rect, now_millis)[k]),
        ) by {
            if k < node_plan.len() {
                assert(self.tree_draw_plan(pool, parent_rect, now_millis)[k] == node_plan[k]);
            } else {
                assert(self.tree_draw_plan(pool, parent_rect, now_millis)[k] == child_plans[k
                    - node_plan.len()]);
            }
        }
    }

    /// The first `n` children's plans all land inside this node's resolved
    /// rectangle.
    proof fn lemma_children_plans_stay_inside(
        self,
        pool: TexturePool,
        rect: PixelRect,
        now_millis: u64,
        n: int,
    )
        requires
            pool.wf(),
            rect.valid(),
            self.geometry_valid(),
            self.handles_valid(pool.entries().len() as int),
            self.children_drawable(pool, rect, now_millis, n),
            n <= self.spec_children().len(),
        ensures
            forall|k: int|
                0 <= k < self.children_draw_plans(pool, rect, now_millis, n).len()
                    ==> crate::geometry::rect_contains(
                    rect,
                    command_dest(
                        #[trigger] self.children_draw_plans(pool, rect, now_millis, n)[k],
                    ),
                ),
        decreases self, n,
    {
        if 0 < n <= self.spec_children().len() {
            self.lemma_children_plans_stay_inside(pool, rect, now_millis, n - 1);
            self.spec_children()[n - 1].lemma_plan_stays_inside(pool, rect, now_millis);
            let prefix = self.children_draw_plans(pool, rect, now_millis, n - 1);
            let last = self.spec_children()[n - 1].tree_draw_plan(pool, rect, now_millis);
            assert forall|k: int|
                0 <= k < self.children_draw_plans(pool, rect, now_millis, n).len()
                    implies crate::geometry::rect_contains(
                rect,
                command_dest(#[trigger] self.children_draw_plans(pool, rect, now_millis, n)[k]),
            ) by {
                if k < prefix.len() {
                    assert(self.children_draw_plans(pool, rect, now_millis, n)[k] == prefix[k]);
                } else {
                    assert(self.children_draw_plans(pool, rect, now_millis, n)[k] == last[k
                        - prefix.len()]);
                }
            }
        }
    }
}

} // verus!
