use vstd::prelude::*;
use crate::buffer::{spec_paint, Buffer};
use crate::color::{PixelType, Rgb};
use crate::glyph::{GlyphSample, Orientation};

verus! {

/// An axis-aligned region handed down the gadget tree during layout.
#[derive(Debug, Clone, Copy, PartialEq, Eq, Structural)]
pub struct RenderRect {
    pub x: u32,
    pub y: u32,
    pub width: u32,
    pub height: u32,
}

impl RenderRect {
    /// Whether the point `(x, y)` lies inside the region.
    pub open spec fn spec_contains(self, x: int, y: int) -> bool {
        self.x <= x < self.x + self.width && self.y <= y < self.y + self.height
    }

    pub fn contains(&self, x: i64, y: i64) -> (inside: bool)
        ensures
            inside == self.spec_contains(x as int, y as int),
    {
        self.x as i64 <= x && x < self.x as i64 + self.width as i64 && self.y as i64 <= y && y
            < self.y as i64 + self.height as i64
    }
}

/// The direction in which a container lays out its children.
#[derive(Debug, Clone, Copy, PartialEq, Eq, Structural)]
pub enum Axis {
    Horizontal,
    Vertical,
}

/// A text leaf as a mathematical value.
pub struct TextView {
    pub text: Seq<char>,
    pub size: u32,
    pub color: Rgb,
    pub dirty: bool,
    pub width: u32,
    pub height: u32,
}

/// A request to draw one text leaf, as a mathematical value.
pub struct RunView {
    pub rect: RenderRect,
    pub text: Seq<char>,
    pub size: u32,
    pub color: Rgb,
}

/// A gadget tree as a mathematical value. A horizontal container is a
/// container along the horizontal axis that never scrolls.
pub enum Tree {
    Text(TextView),
    Container { axis: Axis, width: u32, height: u32, dirty: bool, scroll: nat, children: Seq<Tree> },
}

/// `v` held to the range of a coordinate.
pub open spec fn spec_saturate(v: int) -> u32 {
    if v > u32::MAX {
        u32::MAX
    } else if v < 0 {
        0
    } else {
        v as u32
    }
}

impl Tree {
    pub open spec fn spec_width(self) -> u32 {
        match self {
            Tree::Text(t) => t.width,
            Tree::Container { width, .. } => width,
        }
    }

    pub open spec fn spec_height(self) -> u32 {
        match self {
            Tree::Text(t) => t.height,
            Tree::Container { height, .. } => height,
        }
    }

    /// The number of children; a leaf has none.
    pub open spec fn spec_len(self) -> int {
        match self {
            Tree::Text(_) => 0,
            Tree::Container { children, .. } => children.len() as int,
        }
    }

    /// The declared size along `axis`.
    pub open spec fn spec_extent(self, axis: Axis) -> u32 {
        match axis {
            Axis::Horizontal => self.spec_width(),
            Axis::Vertical => self.spec_height(),
        }
    }

    /// A leaf is dirty when its flag is set; a container when its own flag
    /// is set or one of its visible children is dirty.
    pub open spec fn spec_dirty(self) -> bool
        decreases self,
    {
        match self {
            Tree::Text(t) => t.dirty,
            Tree::Container { dirty, scroll, children, .. } => dirty || exists|i: int|
                scroll <= i < children.len() && (#[trigger] children[i]).spec_dirty(),
        }
    }

    /// How far along the axis child `n` of a container lies from the
    /// container's origin: the declared sizes of the visible children
    /// before it, added up and held to the range of a coordinate.
    pub open spec fn spec_offset(self, n: int) -> u32
        decreases n,
    {
        match self {
            Tree::Text(_) => 0,
            Tree::Container { axis, scroll, children, .. } => if n <= scroll || n > children.len() {
                0
            } else {
                spec_saturate(self.spec_offset(n - 1) + children[n - 1].spec_extent(axis))
            },
        }
    }

    /// The region that child `n` of a container is given inside `rect`.
    pub open spec fn spec_child_rect(self, rect: RenderRect, n: int) -> RenderRect {
        match self {
            Tree::Text(_) => rect,
            Tree::Container { axis, children, .. } => match axis {
                Axis::Horizontal => RenderRect {
                    x: spec_saturate(rect.x + self.spec_offset(n)),
                    y: rect.y,
                    width: children[n].spec_width(),
                    height: rect.height,
                },
                Axis::Vertical => RenderRect {
                    x: rect.x,
                    y: spec_saturate(rect.y + self.spec_offset(n)),
                    width: rect.width,
                    height: children[n].spec_height(),
                },
            },
        }
    }

    /// Whether rendering a container visits its child `i`: the child is
    /// visible, and the container or the child is dirty.
    pub open spec fn spec_visits(self, i: int) -> bool {
        match self {
            Tree::Text(_) => false,
            Tree::Container { scroll, children, .. } => scroll <= i < children.len() && (
            self.spec_dirty() || children[i].spec_dirty()),
        }
    }

    /// The text runs that rendering into `rect` yields from the first `n`
    /// children, in display order. A leaf always yields its one run.
    pub open spec fn spec_runs_upto(self, rect: RenderRect, n: int) -> Seq<RunView>
        decreases self, n,
    {
        match self {
            Tree::Text(t) => seq![RunView { rect, text: t.text, size: t.size, color: t.color }],
            Tree::Container { scroll, children, .. } => if n <= scroll || n > children.len() {
                Seq::empty()
            } else if self.spec_visits(n - 1) {
                self.spec_runs_upto(rect, n - 1) + children[n - 1].spec_runs_upto(
                    self.spec_child_rect(rect, n - 1),
                    children[n - 1].spec_len(),
                )
            } else {
                self.spec_runs_upto(rect, n - 1)
            },
        }
    }

    /// The text runs that rendering into `rect` yields.
    pub open spec fn spec_runs(self, rect: RenderRect) -> Seq<RunView> {
        self.spec_runs_upto(rect, self.spec_len())
    }

    /// The tree after rendering. Every visited child is rendered in turn,
    /// the others stay as they are, and the node's own flag is cleared.
    pub open spec fn spec_rendered(self) -> Tree
        decreases self,
    {
        match self {
            Tree::Text(t) => Tree::Text(TextView { dirty: false, ..t }),
            Tree::Container { axis, width, height, dirty, scroll, children } => Tree::Container {
                axis,
                width,
                height,
                dirty: false,
                scroll,
                children: Seq::new(
                    children.len(),
                    |i: int|
                        if 0 <= i < children.len() && self.spec_visits(i) {
                            children[i].spec_rendered()
                        } else {
                            children[i]
                        },
                ),
            },
        }
    }
}

/// A rendered tree reports clean.
pub proof fn lemma_rendered_is_clean(t: Tree)
    ensures
        !t.spec_rendered().spec_dirty(),
    decreases t,
{
    match t {
        Tree::Text(_) => {},
        Tree::Container { scroll, children, .. } => {
            let after = t.spec_rendered();
            assert forall|i: int| scroll <= i < children.len() implies !(
            #[trigger] after->children[i]).spec_dirty() by {
                if t.spec_visits(i) {
                    lemma_rendered_is_clean(children[i]);
                }
            }
        },
    }
}

/// A dirty visible child makes its container dirty.
pub proof fn lemma_dirty_child_dirties_parent(t: Tree, i: int)
    requires
        t is Container,
        t->scroll <= i < t->children.len(),
        t->children[i].spec_dirty(),
    ensures
        t.spec_dirty(),
{
    match t {
        Tree::Text(_) => {},
        Tree::Container { dirty, scroll, children, .. } => {
            assert(scroll <= i < children.len() && children[i].spec_dirty());
        },
    }
}

/// The node that `path` leads to from `t`, one child index a step, as long
/// as every step goes to a visible child.
pub open spec fn spec_descend(t: Tree, path: Seq<int>) -> Option<Tree>
    decreases path.len(),
{
    if path.len() == 0 {
        Some(t)
    } else {
        match t {
            Tree::Text(_) => None,
            Tree::Container { scroll, children, .. } => if scroll <= path[0] < children.len() {
                spec_descend(children[path[0]], path.subrange(1, path.len() as int))
            } else {
                None
            },
        }
    }
}

/// A dirty node makes every ancestor dirty from which it is visible, up to
/// the root.
pub proof fn lemma_dirty_reaches_root(t: Tree, path: Seq<int>)
    requires
        spec_descend(t, path) is Some,
        spec_descend(t, path)->Some_0.spec_dirty(),
    ensures
        t.spec_dirty(),
    decreases path.len(),
{
    if path.len() > 0 {
        lemma_dirty_reaches_root(t->children[path[0]], path.subrange(1, path.len() as int));
        lemma_dirty_child_dirties_parent(t, path[0]);
    }
}

/// Rendering a clean container yields no text run and changes nothing.
pub proof fn lemma_clean_renders_nothing(t: Tree, rect: RenderRect)
    requires
        t is Container,
        !t.spec_dirty(),
    ensures
        t.spec_runs(rect) == Seq::<RunView>::empty(),
        t.spec_rendered() == t,
{
    lemma_unvisited_run_nothing(t, rect, t.spec_len());
    assert(t.spec_rendered()->children =~= t->children);
}

/// Rendering a container a second time, with no mutation in between,
/// yields no text run and changes nothing.
pub proof fn lemma_second_render_is_idle(t: Tree, first: RenderRect, second: RenderRect)
    requires
        t is Container,
    ensures
        !t.spec_rendered().spec_dirty(),
        t.spec_rendered().spec_runs(second) == Seq::<RunView>::empty(),
        t.spec_rendered().spec_rendered() == t.spec_rendered(),
{
    lemma_rendered_is_clean(t);
    lemma_clean_renders_nothing(t.spec_rendered(), second);
}

/// A container that visits none of its first `n` children yields no text
/// run from them.
pub proof fn lemma_unvisited_run_nothing(t: Tree, rect: RenderRect, n: int)
    requires
        t is Container,
        forall|i: int| 0 <= i < n ==> !t.spec_visits(i),
    ensures
        t.spec_runs_upto(rect, n) == Seq::<RunView>::empty(),
    decreases n,
{
    if n > t->scroll && n <= t->children.len() {
        lemma_unvisited_run_nothing(t, rect, n - 1);
    }
}

/// Rendering a scrolled container skips every child before the scroll
/// index: none of them is rendered, and none contributes a text run.
pub proof fn lemma_scroll_skips(t: Tree, rect: RenderRect, i: int)
    requires
        t is Container,
        0 <= i < t->scroll,
        i < t->children.len(),
    ensures
        t.spec_rendered()->children[i] == t->children[i],
        t.spec_runs_upto(rect, i + 1) == Seq::<RunView>::empty(),
        t.spec_offset(i + 1) == 0,
{
}

/// A request to draw one text leaf into a region: what the tree hands to
/// the rasteriser.
#[derive(Debug)]
pub struct TextRun {
    pub rect: RenderRect,
    pub text: String,
    pub size: u32,
    pub color: Rgb,
}

/// The requests of `runs` as mathematical values.
pub open spec fn spec_run_views(runs: Seq<TextRun>) -> Seq<RunView> {
    Seq::new(runs.len(), |i: int| runs[i]@)
}

impl TextRun {
    pub open spec fn view(&self) -> RunView {
        RunView { rect: self.rect, text: self.text@, size: self.size, color: self.color }
    }

    /// Draws the run from its rasterised samples: clears the run's region,
    /// then composites each sample over what the buffer holds, dropping
    /// those that land outside the region.
    pub fn paint<P: PixelType>(
        &self,
        buffer: &mut Buffer<P>,
        samples: &Vec<GlyphSample>,
        orientation: Orientation,
    )
        requires
            old(buffer).wf(),
        ensures
            final(buffer).wf(),
            final(buffer).spec_width() == old(buffer).spec_width(),
            final(buffer).spec_height() == old(buffer).spec_height(),
            final(buffer)@ == spec_paint(
                old(buffer)@,
                old(buffer).spec_width(),
                old(buffer).spec_height(),
                self.rect,
                samples@,
                self.color,
                orientation,
            ),
    {
        buffer.clear_rect(self.rect, orientation);
        buffer.draw_samples(samples, self.color, self.rect, orientation);
    }
}

/// The samples of each run as mathematical values.
pub open spec fn spec_glyph_views(glyphs: Seq<Vec<GlyphSample>>) -> Seq<Seq<GlyphSample>> {
    Seq::new(glyphs.len(), |i: int| glyphs[i]@)
}

/// The grid after the first `n` runs are painted in order, run `i` from
/// the samples `glyphs[i]`.
pub open spec fn spec_paint_all<P: PixelType>(
    pixels: Seq<P>,
    width: u32,
    height: u32,
    runs: Seq<RunView>,
    glyphs: Seq<Seq<GlyphSample>>,
    n: int,
    orientation: Orientation,
) -> Seq<P>
    decreases n,
{
    if n <= 0 {
        pixels
    } else {
        spec_paint(
            spec_paint_all(pixels, width, height, runs, glyphs, n - 1, orientation),
            width,
            height,
            runs[n - 1].rect,
            glyphs[n - 1],
            runs[n - 1].color,
            orientation,
        )
    }
}

/// Paints the runs of one frame in display order, run `i` from the
/// samples `glyphs[i]`. A run that has no samples to go with it is left
/// out, and so is everything after it.
pub fn paint_all<P: PixelType>(
    buffer: &mut Buffer<P>,
    runs: &Vec<TextRun>,
    glyphs: &Vec<Vec<GlyphSample>>,
    orientation: Orientation,
)
    requires
        old(buffer).wf(),
    ensures
        final(buffer).wf(),
        final(buffer).spec_width() == old(buffer).spec_width(),
        final(buffer).spec_height() == old(buffer).spec_height(),
        final(buffer)@ == spec_paint_all(
            old(buffer)@,
            old(buffer).spec_width(),
            old(buffer).spec_height(),
            spec_run_views(runs@),
            spec_glyph_views(glyphs@),
            if runs@.len() <= glyphs@.len() {
                runs@.len() as int
            } else {
                glyphs@.len() as int
            },
            orientation,
        ),
{
    let n: usize = if runs.len() <= glyphs.len() {
        runs.len()
    } else {
        glyphs.len()
    };
    let mut k: usize = 0;
    while k < n
        invariant
            k <= n,
            n <= runs@.len(),
            n <= glyphs@.len(),
            buffer.wf(),
            buffer.spec_width() == old(buffer).spec_width(),
            buffer.spec_height() == old(buffer).spec_height(),
            buffer@ == spec_paint_all(
                old(buffer)@,
                old(buffer).spec_width(),
                old(buffer).spec_height(),
                spec_run_views(runs@),
                spec_glyph_views(glyphs@),
                k as int,
                orientation,
            ),
        decreases n - k,
    {
        runs[k].paint(buffer, &glyphs[k], orientation);
        k += 1;
    }
}

/// A leaf that shows one line of text.
pub struct TextGadget {
    text: String,
    size: u32,
    color: Rgb,
    dirty: bool,
    width: u32,
    height: u32,
}

/// A container that lays its children out side by side.
pub struct HorizontalGadget {
    pub width: u32,
    pub height: u32,
    pub dirty: bool,
    pub children: Vec<Gadget>,
}

/// A container that stacks its children and shows them from a scroll index on.
pub struct ScrollGadget {
    pub width: u32,
    pub height: u32,
    pub scroll: usize,
    pub dirty: bool,
    pub children: Vec<Gadget>,
}

/// A node of the gadget tree.
pub enum Gadget {
    Text(TextGadget),
    Horizontal(HorizontalGadget),
    Scroll(ScrollGadget),
}

impl TextGadget {
    pub closed spec fn view(&self) -> TextView {
        TextView {
            text: self.text@,
            size: self.size,
            color: self.color,
            dirty: self.dirty,
            width: self.width,
            height: self.height,
        }
    }

    /// A leaf with the given text; it starts dirty.
    pub fn new(text: String, width: u32, height: u32, color: Rgb, size: u32) -> (leaf: TextGadget)
        ensures
            leaf@ == (TextView { text: text@, size, color, dirty: true, width, height }),
    {
        TextGadget { text, size, color, dirty: true, width, height }
    }

    /// Replaces the text. The leaf turns dirty when the text differs from
    /// the one it held.
    pub fn text(&mut self, text: String)
        ensures
            final(self)@ == (TextView {
                text: text@,
                dirty: old(self)@.dirty || text@ != old(self)@.text,
                ..old(self)@
            }),
    {
        let same: bool = text == self.text;
        self.text = text;
        if !same {
            self.dirty = true;
        }
    }

    pub fn width(&self) -> (w: u32)
        ensures
            w == self@.width,
    {
        self.width
    }

    pub fn height(&self) -> (h: u32)
        ensures
            h == self@.height,
    {
        self.height
    }

    pub fn dirty(&self) -> (d: bool)
        ensures
            d == self@.dirty,
    {
        self.dirty
    }

    /// Asks for the leaf to be drawn into `rect` and marks it clean.
    pub fn render(&mut self, rect: RenderRect, runs: &mut Vec<TextRun>)
        ensures
            Tree::Text(final(self)@) == Tree::Text(old(self)@).spec_rendered(),
            spec_run_views(final(runs)@) == spec_run_views(old(runs)@) + Tree::Text(
                old(self)@,
            ).spec_runs(rect),
            final(runs)@.len() == old(runs)@.len() + 1,
            forall|i: int| 0 <= i < old(runs)@.len() ==> final(runs)@[i] == old(runs)@[i],
            final(runs)@.last()@ == (RunView {
                rect,
                text: old(self)@.text,
                size: old(self)@.size,
                color: old(self)@.color,
            }),
    {
        let run = TextRun { rect, text: self.text.clone(), size: self.size, color: self.color };
        runs.push(run);
        self.dirty = false;
        assert(spec_run_views(runs@) =~= spec_run_views(old(runs)@) + Tree::Text(
            old(self)@,
        ).spec_runs(rect));
    }
}

/// Whether a child from index `from` on is dirty.
fn any_dirty(children: &Vec<Gadget>, from: usize) -> (d: bool)
    ensures
        d == exists|i: int| from <= i < children@.len() && (#[trigger] children@[i])@.spec_dirty(),
    decreases children, 0nat,
{
    let n: usize = children.len();
    let mut i: usize = from;
    while i < n
        invariant
            from <= i,
            n == children@.len(),
            forall|j: int| from <= j < i && j < n ==> !(#[trigger] children@[j])@.spec_dirty(),
        decreases n - i,
    {
        if children[i].dirty() {
            return true;
        }
        i += 1;
    }
    false
}

/// Renders the children of a container whose tree is `tree`: each visited
/// child in display order, into the region that the layout gives it.
fn render_children(
    children: &mut Vec<Gadget>,
    tree: Ghost<Tree>,
    axis: Axis,
    scroll: usize,
    dirty: bool,
    rect: RenderRect,
    runs: &mut Vec<TextRun>,
)
    requires
        tree@ is Container,
        tree@->axis == axis,
        tree@->scroll == scroll,
        tree@->children.len() == old(children)@.len(),
        forall|i: int| 0 <= i < old(children)@.len() ==> tree@->children[i] == old(children)@[i]@,
        dirty == tree@.spec_dirty(),
    ensures
        final(children)@.len() == old(children)@.len(),
        forall|i: int|
            0 <= i < final(children)@.len() ==> (#[trigger] final(children)@[i])@
                == tree@.spec_rendered()->children[i],
        forall|i: int|
            0 <= i < final(children)@.len() && !tree@.spec_visits(i) ==> #[trigger] final(children)@[i] == old(children)@[i],
        spec_run_views(final(runs)@) == spec_run_views(old(runs)@) + tree@.spec_runs(rect),
    decreases *old(children), 0nat,
{
    let n: usize = children.len();
    let mut i: usize = if scroll < n {
        scroll
    } else {
        n
    };
    let mut offset: u32 = 0;
    assert(spec_run_views(runs@) =~= spec_run_views(old(runs)@) + tree@.spec_runs_upto(
        rect,
        i as int,
    ));
    while i < n
        invariant
            i <= n,
            scroll <= i || i == n,
            n == children@.len(),
            n == old(children)@.len(),
            tree@ is Container,
            tree@->axis == axis,
            tree@->scroll == scroll,
            tree@->children.len() == n,
            dirty == tree@.spec_dirty(),
            offset == tree@.spec_offset(i as int),
            forall|j: int| 0 <= j < n ==> tree@->children[j] == (#[trigger] old(children)@[j])@,
            forall|j: int|
                0 <= j < n ==> (#[trigger] children@[j])@ == if j < i && tree@.spec_visits(j) {
                    tree@->children[j].spec_rendered()
                } else {
                    tree@->children[j]
                },
            forall|j: int|
                0 <= j < n && (i <= j || !tree@.spec_visits(j)) ==> #[trigger] children@[j] == old(children)@[j],
            spec_run_views(runs@) == spec_run_views(old(runs)@) + tree@.spec_runs_upto(
                rect,
                i as int,
            ),
        decreases n - i,
    {
        let extent: u32 = match axis {
            Axis::Horizontal => children[i].width(),
            Axis::Vertical => children[i].height(),
        };
        let child_dirty: bool = children[i].dirty();
        if dirty || child_dirty {
            let child_rect = match axis {
                Axis::Horizontal => RenderRect {
                    x: rect.x.saturating_add(offset),
                    y: rect.y,
                    width: children[i].width(),
                    height: rect.height,
                },
                Axis::Vertical => RenderRect {
                    x: rect.x,
                    y: rect.y.saturating_add(offset),
                    width: rect.width,
                    height: children[i].height(),
                },
            };
            children[i].render(child_rect, runs);
            assert(spec_run_views(runs@) =~= spec_run_views(old(runs)@) + tree@.spec_runs_upto(
                rect,
                i + 1,
            ));
        }
        offset = offset.saturating_add(extent);
        i += 1;
    }
}

impl HorizontalGadget {
    pub open spec fn view(&self) -> Tree
        decreases self,
    {
        Tree::Container {
            axis: Axis::Horizontal,
            width: self.width,
            height: self.height,
            dirty: self.dirty,
            scroll: 0,
            children: Seq::new(
                self.children@.len(),
                |i: int|
                    if 0 <= i < self.children@.len() {
                        self.children@[i].view()
                    } else {
                        arbitrary()
                    },
            ),
        }
    }

    /// An empty container; it starts dirty.
    pub fn new(width: u32, height: u32) -> (container: HorizontalGadget)
        ensures
            container.width == width,
            container.height == height,
            container.dirty,
            container.children@.len() == 0,
            container@.spec_dirty(),
    {
        HorizontalGadget { width, height, dirty: true, children: Vec::new() }
    }

    pub fn width(&self) -> (w: u32)
        ensures
            w == self@.spec_width(),
    {
        self.width
    }

    pub fn height(&self) -> (h: u32)
        ensures
            h == self@.spec_height(),
    {
        self.height
    }

    /// Whether the container or one of its children needs to be redrawn.
    pub fn dirty(&self) -> (d: bool)
        ensures
            d == self@.spec_dirty(),
        decreases self, 1nat,
    {
        let any: bool = any_dirty(&self.children, 0);
        proof {
            let tree = self@;
            if any {
                let i = choose|i: int|
                    0 <= i < self.children@.len() && (#[trigger] self.children@[i])@.spec_dirty();
                assert(tree->children[i] == self.children@[i]@);
            } else {
                assert forall|i: int| tree->scroll <= i < tree->children.len() implies !(
                #[trigger] tree->children[i]).spec_dirty() by {
                    assert(tree->children[i] == self.children@[i]@);
                }
            }
        }
        any || self.dirty
    }

    /// Renders the children that need it, side by side from the left edge
    /// of `rect`, and marks the container clean.
    pub fn render(&mut self, rect: RenderRect, runs: &mut Vec<TextRun>)
        ensures
            final(self)@ == old(self)@.spec_rendered(),
            spec_run_views(final(runs)@) == spec_run_views(old(runs)@) + old(self)@.spec_runs(rect),
            forall|i: int|
                0 <= i < old(self).children@.len() && !old(self)@.spec_visits(i) ==> #[trigger] final(self).children@[i] == old(self).children@[i],
        decreases *old(self), 1nat,
    {
        let dirty: bool = self.dirty();
        let tree = Ghost(self@);
        render_children(
            &mut self.children,
            tree,
            Axis::Horizontal,
            0,
            dirty,
            rect,
            runs,
        );
        self.dirty = false;
        assert(self@->children =~= old(self)@.spec_rendered()->children);
    }
}

impl ScrollGadget {
    pub open spec fn view(&self) -> Tree
        decreases self,
    {
        Tree::Container {
            axis: Axis::Vertical,
            width: self.width,
            height: self.height,
            dirty: self.dirty,
            scroll: self.scroll as nat,
            children: Seq::new(
                self.children@.len(),
                |i: int|
                    if 0 <= i < self.children@.len() {
                        self.children@[i].view()
                    } else {
                        arbitrary()
                    },
            ),
        }
    }

    /// An empty container scrolled to the top; it starts dirty.
    pub fn new(width: u32, height: u32) -> (container: ScrollGadget)
        ensures
            container.width == width,
            container.height == height,
            container.scroll == 0,
            container.dirty,
            container.children@.len() == 0,
            container@.spec_dirty(),
    {
        ScrollGadget { width, height, scroll: 0, dirty: true, children: Vec::new() }
    }

    /// Makes child `scroll` the first visible one and marks the container
    /// dirty.
    pub fn scroll(&mut self, scroll: usize)
        ensures
            final(self).scroll == scroll,
            final(self).dirty,
            final(self).width == old(self).width,
            final(self).height == old(self).height,
            final(self).children == old(self).children,
            final(self)@.spec_dirty(),
    {
        self.scroll = scroll;
        self.dirty = true;
    }

    pub fn width(&self) -> (w: u32)
        ensures
            w == self@.spec_width(),
    {
        self.width
    }

    pub fn height(&self) -> (h: u32)
        ensures
            h == self@.spec_height(),
    {
        self.height
    }

    /// Whether the container or one of its visible children needs to be
    /// redrawn.
    pub fn dirty(&self) -> (d: bool)
        ensures
            d == self@.spec_dirty(),
        decreases self, 1nat,
    {
        let any: bool = any_dirty(&self.children, self.scroll);
        proof {
            let tree = self@;
            if any {
                let i = choose|i: int|
                    self.scroll <= i < self.children@.len() && (#[trigger] self.children@[i])@.spec_dirty();
                assert(tree->children[i] == self.children@[i]@);
            } else {
                assert forall|i: int| tree->scroll <= i < tree->children.len() implies !(
                #[trigger] tree->children[i]).spec_dirty() by {
                    assert(tree->children[i] == self.children@[i]@);
                }
            }
        }
        any || self.dirty
    }

    /// Renders the visible children that need it, stacked from the top
    /// edge of `rect`, and marks the container clean. The children before
    /// the scroll index are neither measured nor rendered.
    pub fn render(&mut self, rect: RenderRect, runs: &mut Vec<TextRun>)
        ensures
            final(self)@ == old(self)@.spec_rendered(),
            spec_run_views(final(runs)@) == spec_run_views(old(runs)@) + old(self)@.spec_runs(rect),
            forall|i: int|
                0 <= i < old(self).children@.len() && !old(self)@.spec_visits(i) ==> #[trigger] final(self).children@[i] == old(self).children@[i],
        decreases *old(self), 1nat,
    {
        let dirty: bool = self.dirty();
        let scroll: usize = self.scroll;
        let tree = Ghost(self@);
        render_children(
            &mut self.children,
            tree,
            Axis::Vertical,
            scroll,
            dirty,
            rect,
            runs,
        );
        self.dirty = false;
        assert(self@->children =~= old(self)@.spec_rendered()->children);
    }
}

impl Gadget {
    pub open spec fn view(&self) -> Tree
        decreases self,
    {
        match self {
            Gadget::Text(t) => Tree::Text(t@),
            Gadget::Horizontal(h) => h.view(),
            Gadget::Scroll(s) => s.view(),
        }
    }

    pub fn width(&self) -> (w: u32)
        ensures
            w == self@.spec_width(),
    {
        match self {
            Gadget::Text(t) => t.width(),
            Gadget::Horizontal(h) => h.width(),
            Gadget::Scroll(s) => s.width(),
        }
    }

    pub fn height(&self) -> (h: u32)
        ensures
            h == self@.spec_height(),
    {
        match self {
            Gadget::Text(t) => t.height(),
            Gadget::Horizontal(h) => h.height(),
            Gadget::Scroll(s) => s.height(),
        }
    }

    /// Whether the node needs to be redrawn.
    pub fn dirty(&self) -> (d: bool)
        ensures
            d == self@.spec_dirty(),
        decreases self, 2nat,
    {
        match self {
            Gadget::Text(t) => t.dirty(),
            Gadget::Horizontal(h) => h.dirty(),
            Gadget::Scroll(s) => s.dirty(),
        }
    }

    /// Renders the node into `rect`: appends to `runs` the text runs to be
    /// drawn, in display order, and marks everything rendered clean.
    pub fn render(&mut self, rect: RenderRect, runs: &mut Vec<TextRun>)
        ensures
            final(self)@ == old(self)@.spec_rendered(),
            spec_run_views(final(runs)@) == spec_run_views(old(runs)@) + old(self)@.spec_runs(rect),
        decreases *old(self), 2nat,
    {
        match self {
            Gadget::Text(t) => t.render(rect, runs),
            Gadget::Horizontal(h) => h.render(rect, runs),
            Gadget::Scroll(s) => s.render(rect, runs),
        }
    }
}

} // verus!
