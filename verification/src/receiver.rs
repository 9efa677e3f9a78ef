//! The image being edited: layers of frames, the frame and layer shown, and
//! how the view is zoomed and placed.
use vstd::prelude::*;
use crate::tool::Point2;

verus! {

/// A layer of the image: its frames (one page each), name, and whether it is
/// shown and locked.
pub struct Layer<F> {
    pub frames: Vec<F>,
    pub name: String,
    pub visible: bool,
    pub lock: bool,
}

impl<F> Layer<F> {
    /// An empty, visible, unlocked layer named `name`.
    pub fn new(name: &str) -> (l: Self)
        ensures
            l.frames@.len() == 0,
            l.name@ == name@,
            l.visible,
            !l.lock,
    {
        Layer { frames: Vec::new(), name: name.to_owned(), visible: true, lock: false }
    }

    pub fn get(&self, idx: usize) -> (f: &F)
        requires
            idx < self.frames@.len(),
        ensures
            *f == self.frames@[idx as int],
    {
        &self.frames[idx]
    }

    pub fn get_mut(&mut self, idx: usize) -> (f: &mut F)
        requires
            idx < old(self).frames@.len(),
        ensures
            *f == old(self).frames@[idx as int],
            final(self).frames@ == old(self).frames@.update(idx as int, *final(f)),
            final(self).name == old(self).name,
            final(self).visible == old(self).visible,
            final(self).lock == old(self).lock,
    {
        &mut self.frames[idx]
    }

    pub fn push(&mut self, page: F)
        ensures
            final(self).frames@ == old(self).frames@.push(page),
            final(self).name == old(self).name,
            final(self).visible == old(self).visible,
            final(self).lock == old(self).lock,
    {
        self.frames.push(page);
    }

    pub fn insert(&mut self, pos: usize, page: F)
        requires
            pos <= old(self).frames@.len(),
        ensures
            final(self).frames@ == old(self).frames@.insert(pos as int, page),
            final(self).name == old(self).name,
            final(self).visible == old(self).visible,
            final(self).lock == old(self).lock,
    {
        self.frames.insert(pos, page);
    }

    pub fn remove(&mut self, pos: usize) -> (page: F)
        requires
            pos < old(self).frames@.len(),
        ensures
            page == old(self).frames@[pos as int],
            final(self).frames@ == old(self).frames@.remove(pos as int),
            final(self).name == old(self).name,
            final(self).visible == old(self).visible,
            final(self).lock == old(self).lock,
    {
        self.frames.remove(pos)
    }
}

/// The image: its layers, name, palette and size, the frame and layer
/// shown, the zoom factor, where the view is, and whether it was just
/// created.
pub struct Receiver<F, P> {
    pub data: Vec<Layer<F>>,
    pub name: String,
    pub palette: P,
    pub width: usize,
    pub height: usize,
    pub frame: usize,
    pub layer: usize,
    pub zoom: i32,
    pub pos: Point2<i32>,
    pub created: bool,
}

/// A rectangle of the canvas given by its corner with the smallest
/// coordinates and its extent.
#[derive(Clone, Copy, Debug, PartialEq, Eq, Structural)]
pub struct Placement {
    pub min: Point2<i32>,
    pub dim: Point2<i32>,
}

/// The zoom factor after changing `zoom` by `y`, kept within 1 to 16.
pub open spec fn zoomed(zoom: int, y: int) -> int {
    let z = zoom + y;
    if z < 1 { 1 } else if z > 16 { 16 } else { z }
}

impl<F, P> Receiver<F, P> {
    /// An image named `name` of `width` by `height` with no layers yet,
    /// showing frame 0 of layer 0 at zoom 1 with the view at the origin.
    pub fn new(name: &str, width: usize, height: usize, palette: P) -> (r: Self)
        ensures
            r.name@ == name@,
            r.data@.len() == 0,
            r.palette == palette,
            r.width == width,
            r.height == height,
            r.frame == 0,
            r.layer == 0,
            r.zoom == 1,
            r.pos == (Point2 { x: 0i32, y: 0i32 }),
            !r.created,
    {
        Receiver {
            name: name.to_owned(),
            data: Vec::new(),
            palette,
            width,
            height,
            frame: 0,
            layer: 0,
            zoom: 1,
            pos: Point2 { x: 0, y: 0 },
            created: false,
        }
    }

    /// Changes the zoom factor by `y`, kept within 1 to 16, and moves the
    /// view by what `f` gives for the change (old zoom minus new).
    pub fn zoom<Z: FnOnce(i32) -> Point2<i32>>(&mut self, y: i32, f: Z)
        requires
            i32::MIN <= old(self).zoom + y <= i32::MAX,
            i32::MIN <= old(self).zoom - zoomed(old(self).zoom as int, y as int),
            f.requires(((old(self).zoom - zoomed(old(self).zoom as int, y as int)) as i32,)),
            forall|p: Point2<i32>|
                #[trigger] f.ensures(((old(self).zoom - zoomed(old(self).zoom as int, y as int)) as i32,), p) ==> (i32::MIN
                    <= old(self).pos.x + p.x <= i32::MAX && i32::MIN <= old(self).pos.y + p.y <= i32::MAX),
        ensures
            final(self).zoom == zoomed(old(self).zoom as int, y as int),
            exists|p: Point2<i32>|
                #[trigger] f.ensures(((old(self).zoom - zoomed(old(self).zoom as int, y as int)) as i32,), p) && final(self).pos == (
                Point2 { x: (old(self).pos.x + p.x) as i32, y: (old(self).pos.y + p.y) as i32 }),
            final(self).layer == old(self).layer,
            final(self).frame == old(self).frame,
            final(self).data@ == old(self).data@,
            final(self).width == old(self).width,
            final(self).height == old(self).height,
            final(self).created == old(self).created,
    {
        let last = self.zoom;
        self.zoom = self.zoom + y;
        if self.zoom < 1 {
            self.zoom = 1;
        }
        if self.zoom > 16 {
            self.zoom = 16;
        }
        let diff = last - self.zoom;
        let p = f(diff);
        self.pos.x = self.pos.x + p.x;
        self.pos.y = self.pos.y + p.y;
    }

    /// Whether the layer shown is locked.
    pub fn is_lock(&self) -> (b: bool)
        requires
            self.layer < self.data@.len(),
        ensures
            b == self.data@[self.layer as int].lock,
    {
        self.data[self.layer].lock
    }

    /// The frame shown.
    pub fn current(&self) -> (f: &F)
        requires
            self.layer < self.data@.len(),
            self.frame < self.data@[self.layer as int].frames@.len(),
        ensures
            *f == self.data@[self.layer as int].frames@[self.frame as int],
    {
        self.data[self.layer].get(self.frame)
    }

    /// The frame shown, to change.
    pub fn current_mut(&mut self) -> (f: &mut F)
        requires
            old(self).layer < old(self).data@.len(),
            old(self).frame < old(self).data@[old(self).layer as int].frames@.len(),
        ensures
            *f == old(self).data@[old(self).layer as int].frames@[old(self).frame as int],
            final(self).data@.len() == old(self).data@.len(),
            forall|i: int|
                0 <= i < old(self).data@.len() && i != old(self).layer ==> #[trigger] final(self).data@[i]
                    == old(self).data@[i],
            final(self).data@[old(self).layer as int].frames@ == old(self).data@[old(
                self,
            ).layer as int].frames@.update(old(self).frame as int, *final(f)),
            final(self).data@[old(self).layer as int].name == old(self).data@[old(self).layer as int].name,
            final(self).data@[old(self).layer as int].visible == old(self).data@[old(self).layer as int].visible,
            final(self).data@[old(self).layer as int].lock == old(self).data@[old(self).layer as int].lock,
            final(self).layer == old(self).layer,
            final(self).frame == old(self).frame,
            final(self).zoom == old(self).zoom,
            final(self).pos == old(self).pos,
            final(self).width == old(self).width,
            final(self).height == old(self).height,
            final(self).created == old(self).created,
    {
        let layer = self.layer;
        let frame = self.frame;
        self.page_mut(layer, frame)
    }

    /// Where the image lies on the canvas: from its position, as wide and as
    /// high as the image (each size as the `i32` that a cast gives).
    pub fn rect(&self) -> (r: Placement)
        ensures
            r.min == self.pos,
            r.dim.x == self.width as i32,
            r.dim.y == self.height as i32,
    {
        Placement { min: self.pos, dim: Point2 { x: self.width as i32, y: self.height as i32 } }
    }

    /// The image's own bounds: from the origin, as wide and as high as the
    /// image (each size as the `i32` that a cast gives).
    pub fn bounds(&self) -> (r: Placement)
        ensures
            r.min == (Point2::<i32> { x: 0, y: 0 }),
            r.dim.x == self.width as i32,
            r.dim.y == self.height as i32,
    {
        Placement { min: Point2 { x: 0, y: 0 }, dim: Point2 { x: self.width as i32, y: self.height as i32 } }
    }

    /// Frame `frame` of layer `layer`.
    pub fn page(&self, layer: usize, frame: usize) -> (f: &F)
        requires
            layer < self.data@.len(),
            frame < self.data@[layer as int].frames@.len(),
        ensures
            *f == self.data@[layer as int].frames@[frame as int],
    {
        self.data[layer].get(frame)
    }

    /// Frame `frame` of layer `layer`, to change.
    pub fn page_mut(&mut self, layer: usize, frame: usize) -> (f: &mut F)
        requires
            layer < old(self).data@.len(),
            frame < old(self).data@[layer as int].frames@.len(),
        ensures
            *f == old(self).data@[layer as int].frames@[frame as int],
            final(self).data@.len() == old(self).data@.len(),
            forall|i: int|
                0 <= i < old(self).data@.len() && i != layer ==> #[trigger] final(self).data@[i] == old(self).data@[i],
            final(self).data@[layer as int].frames@ == old(self).data@[layer as int].frames@.update(
                frame as int,
                *final(f),
            ),
            final(self).data@[layer as int].name == old(self).data@[layer as int].name,
            final(self).data@[layer as int].visible == old(self).data@[layer as int].visible,
            final(self).data@[layer as int].lock == old(self).data@[layer as int].lock,
            final(self).layer == old(self).layer,
            final(self).frame == old(self).frame,
            final(self).zoom == old(self).zoom,
            final(self).pos == old(self).pos,
            final(self).width == old(self).width,
            final(self).height == old(self).height,
            final(self).created == old(self).created,
    {
        self.data[layer].get_mut(frame)
    }

    /// Adds a layer named `name` whose one page is `page`.
    pub fn add_layer_page(&mut self, name: &str, page: F)
        ensures
            final(self).data@.len() == old(self).data@.len() + 1,
            forall|i: int| 0 <= i < old(self).data@.len() ==> #[trigger] final(self).data@[i] == old(self).data@[i],
            final(self).data@.last().name@ == name@,
            final(self).data@.last().frames@ == seq![page],
            final(self).data@.last().visible,
            !final(self).data@.last().lock,
            final(self).width == old(self).width,
            final(self).height == old(self).height,
            final(self).layer == old(self).layer,
            final(self).frame == old(self).frame,
            final(self).zoom == old(self).zoom,
            final(self).pos == old(self).pos,
            final(self).name@ == old(self).name@,
    {
        let mut layer = Layer::new(name);
        layer.push(page);
        self.data.push(layer);
    }

    /// Adds a layer named `name` whose one page is `blank`, a new page the
    /// size of the image.
    pub fn add_layer(&mut self, name: &str, blank: F)
        ensures
            final(self).data@.len() == old(self).data@.len() + 1,
            forall|i: int| 0 <= i < old(self).data@.len() ==> #[trigger] final(self).data@[i] == old(self).data@[i],
            final(self).data@.last().name@ == name@,
            final(self).data@.last().frames@ == seq![blank],
            final(self).data@.last().visible,
            !final(self).data@.last().lock,
            final(self).width == old(self).width,
            final(self).height == old(self).height,
            final(self).layer == old(self).layer,
            final(self).frame == old(self).frame,
            final(self).zoom == old(self).zoom,
            final(self).pos == old(self).pos,
            final(self).name@ == old(self).name@,
    {
        self.add_layer_page(name, blank);
    }
}

/// Zooming keeps the factor within 1 to 16, and zooming by nothing from a
/// factor in that range changes nothing.
pub proof fn lemma_zoom_bounded(zoom: int, y: int)
    ensures
        1 <= zoomed(zoom, y) <= 16,
        (1 <= zoom <= 16 && y == 0) ==> zoomed(zoom, y) == zoom,
{
}

/// The pages of an image, layer by layer.
pub open spec fn pages<F, P>(r: Receiver<F, P>) -> Seq<Seq<F>> {
    r.data@.map_values(|l: Layer<F>| l.frames@)
}

/// Exchanging `page` with page `f` of layer `l` of `pages`: the new pages,
/// and the page taken out.
pub open spec fn swap_page<F>(pages: Seq<Seq<F>>, l: int, f: int, page: F) -> (Seq<Seq<F>>, F) {
    (pages.update(l, pages[l].update(f, page)), pages[l][f])
}

/// An edit that can be applied to an image and taken back: the page it puts
/// in place of page `layer` of layer `frame` (or the page it took out).
pub struct DrawCommand<F> {
    pub page: F,
    pub frame: usize,
    pub layer: usize,
}

impl<F> DrawCommand<F> {
    pub fn new(frame: usize, layer: usize, page: F) -> (c: Self)
        ensures
            c.frame == frame,
            c.layer == layer,
            c.page == page,
    {
        DrawCommand { frame, layer, page }
    }

    /// Exchanges the command's page with the image's page `layer` of layer
    /// `frame`. Applying and undoing an edit are both this exchange.
    pub fn run<P>(&mut self, image: &mut Receiver<F, P>) -> (r: Result<(), ()>)
        requires
            old(self).frame < old(image).data@.len(),
            old(self).layer < old(image).data@[old(self).frame as int].frames@.len(),
        ensures
            r is Ok,
            (pages(*final(image)), final(self).page) == swap_page(
                pages(*old(image)),
                old(self).frame as int,
                old(self).layer as int,
                old(self).page,
            ),
            final(self).frame == old(self).frame,
            final(self).layer == old(self).layer,
            final(image).data@.len() == old(image).data@.len(),
            final(image).layer == old(image).layer,
            final(image).frame == old(image).frame,
            final(image).zoom == old(image).zoom,
            final(image).pos == old(image).pos,
            final(image).width == old(image).width,
            final(image).height == old(image).height,
    {
        let ghost before = pages(*image);
        let target = image.page_mut(self.frame, self.layer);
        std::mem::swap(&mut self.page, target);
        assert(pages(*image) =~= before.update(
            self.frame as int,
            before[self.frame as int].update(self.layer as int, old(self).page),
        ));
        Ok(())
    }
}

/// Undoing an edit takes it back: exchanging the same page twice leaves the
/// image's pages and the command's page as they were.
pub proof fn lemma_swap_twice<F>(pages0: Seq<Seq<F>>, l: int, f: int, page0: F)
    requires
        0 <= l < pages0.len(),
        0 <= f < pages0[l].len(),
    ensures
        ({
            let (pages1, page1) = swap_page(pages0, l, f, page0);
            let (pages2, page2) = swap_page(pages1, l, f, page1);
            pages2 == pages0 && page2 == page0
        }),
{
    let (pages1, page1) = swap_page(pages0, l, f, page0);
    let (pages2, page2) = swap_page(pages1, l, f, page1);
    assert(pages2[l] =~= pages0[l]);
    assert(pages2 =~= pages0);
}

impl<F, P> Receiver<F, P> {
    /// The `created` flag as it was; afterwards the flag is set.
    pub fn take_created(&mut self) -> (c: bool)
        ensures
            c == old(self).created,
            final(self).created,
            final(self).data@ == old(self).data@,
            final(self).layer == old(self).layer,
            final(self).frame == old(self).frame,
            final(self).zoom == old(self).zoom,
            final(self).pos == old(self).pos,
    {
        let c = self.created;
        self.created = true;
        c
    }

    /// The pages to draw, in order: every frame of every visible layer, each
    /// as its layer, its frame, and whether it is the page being edited (the
    /// current frame of the current layer), which is drawn from the canvas.
    pub fn draw_pages(&self) -> (r: Vec<(usize, usize, bool)>)
        ensures
            r@ == page_list(self.data@, self.layer as int, self.frame as int, self.data@.len() as int),
    {
        let mut out: Vec<(usize, usize, bool)> = Vec::new();
        let mut l: usize = 0;
        while l < self.data.len()
            invariant
                0 <= l <= self.data@.len(),
                out@ == page_list(self.data@, self.layer as int, self.frame as int, l as int),
            decreases self.data.len() - l,
        {
            let ghost before = out@;
            if self.data[l].visible {
                let n = self.data[l].frames.len();
                let mut f: usize = 0;
                while f < n
                    invariant
                        0 <= l < self.data@.len(),
                        n == self.data@[l as int].frames@.len(),
                        0 <= f <= n,
                        out@ == before + layer_pages(l as int, self.layer as int, self.frame as int, f as int),
                    decreases n - f,
                {
                    out.push((l, f, l == self.layer && f == self.frame));
                    f += 1;
                    assert(out@ =~= before + layer_pages(l as int, self.layer as int, self.frame as int, f as int));
                }
            } else {
                assert(out@ =~= before + Seq::empty());
            }
            l += 1;
        }
        out
    }
}

/// The first `n` pages of layer `l`, each marked as the edited one or not.
pub open spec fn layer_pages(l: int, layer: int, frame: int, n: int) -> Seq<(usize, usize, bool)>
    decreases n,
{
    if n <= 0 {
        Seq::empty()
    } else {
        layer_pages(l, layer, frame, n - 1).push((l as usize, (n - 1) as usize, l == layer && n - 1 == frame))
    }
}

/// The pages to draw of the first `n` layers.
pub open spec fn page_list<F>(data: Seq<Layer<F>>, layer: int, frame: int, n: int) -> Seq<(usize, usize, bool)>
    decreases n,
{
    if n <= 0 {
        Seq::empty()
    } else {
        page_list(data, layer, frame, n - 1) + if data[n - 1].visible {
            layer_pages(n - 1, layer, frame, data[n - 1].frames@.len() as int)
        } else {
            Seq::empty()
        }
    }
}

} // verus!
