//! The page model: a document of pages, pages of layers, and drawable areas.
//!
//! A [`Renderer`] holds one or more pages with different sizes.  A [`Page`]
//! holds one or more layers, all of the page's size.  A [`Layer`] gives access
//! to its [`Area`], which can be shrunk, split and drawn on.
//!
//! Layers of a page are numbered from zero in the order in which they were
//! added; a PDF backend creates them in the same order under the names that
//! the page records.

use vstd::prelude::*;

use crate::decimal::{decimal, decimal_string};
use crate::geometry::{fits, in_range, Margins, Mm, Position, Size};
use crate::split::{
    boundary, lemma_boundary_bounds, lemma_boundary_ends, lemma_share_bounds,
    lemma_total_weight_prefix, lemma_total_weight_step, part_width, share, total_weight,
};
use crate::style::{Color, LineStyle};

verus! {

/// The name of the `n`-th layer that a page creates by itself (counted from one).
pub open spec fn auto_layer_name(n: nat) -> Seq<char> {
    "Layer "@ + decimal(n)
}

fn make_layer_name(n: u128) -> (s: String)
    ensures
        s@ == auto_layer_name(n as nat),
{
    let s = String::from_str("Layer ");
    let d = decimal_string(n);
    s.concat(d.as_str())
}

/// The layers of a page, in the order in which they were added.
struct Layers(Vec<String>);

impl Layers {
    /// The names of the layers.
    pub closed spec fn names(&self) -> Seq<Seq<char>> {
        self.0@.map_values(|s: String| s@)
    }

    /// A list of layers is never empty.
    pub open spec fn wf(&self) -> bool {
        self.names().len() >= 1
    }

    /// Creates a list that holds one layer of the given name.
    pub fn new(name: String) -> (l: Layers)
        ensures
            l.wf(),
            l.names() == seq![name@],
    {
        let mut v: Vec<String> = Vec::new();
        v.push(name);
        let l = Layers(v);
        assert(l.names() =~= seq![name@]);
        l
    }

    /// The number of layers.
    pub fn len(&self) -> (n: usize)
        requires
            self.wf(),
        ensures
            n == self.names().len(),
            n >= 1,
    {
        self.0.len()
    }

    /// The first layer.
    pub fn first(&self) -> (i: usize)
        requires
            self.wf(),
        ensures
            i == 0,
            i < self.names().len(),
    {
        0
    }

    /// The last layer.
    pub fn last(&self) -> (i: usize)
        requires
            self.wf(),
        ensures
            i == self.names().len() - 1,
    {
        self.0.len() - 1
    }

    /// The layer with the given number, if there is one.
    pub fn get(&self, idx: usize) -> (r: Option<usize>)
        ensures
            r == (if idx < self.names().len() { Some(idx) } else { None::<usize> }),
    {
        if idx < self.0.len() {
            Some(idx)
        } else {
            None
        }
    }

    /// Adds a layer of the given name after the others.
    pub fn push(&mut self, name: String)
        ensures
            final(self).names() == old(self).names().push(name@),
    {
        self.0.push(name);
        assert(self.names() =~= old(self).names().push(name@));
    }

    /// The layer that follows the given one, if there is one.
    pub fn next(&self, layer: usize) -> (r: Option<usize>)
        ensures
            match r {
                Some(i) => i == layer + 1 && i < self.names().len(),
                None => layer + 1 >= self.names().len(),
            },
    {
        // The layers are numbered by their places: the given layer stands at
        // place `layer`, and the one after it at the next place.
        let n = self.0.len();
        if layer < n && n - layer > 1 {
            Some(layer + 1)
        } else {
            None
        }
    }

    /// The name of the layer with the given number, if there is one.
    pub fn name(&self, idx: usize) -> (r: Option<&str>)
        ensures
            match r {
                Some(s) => idx < self.names().len() && s@ == self.names()[idx as int],
                None => idx >= self.names().len(),
            },
    {
        if idx < self.0.len() {
            Some(self.0[idx].as_str())
        } else {
            None
        }
    }
}

/// A page of a document: its size and its layers.
pub struct Page {
    number: usize,
    size: Size,
    layers: Layers,
}

impl Page {
    /// The number of the page in its document, counted from zero.
    pub closed spec fn page_number(&self) -> usize {
        self.number
    }

    /// The size of the page.
    pub closed spec fn page_size(&self) -> Size {
        self.size
    }

    /// The names of the page's layers, in order.
    pub closed spec fn layer_names(&self) -> Seq<Seq<char>> {
        self.layers.names()
    }

    /// The number of layers of the page.
    pub open spec fn num_layers(&self) -> nat {
        self.layer_names().len()
    }

    /// A page has at least one layer.
    pub open spec fn wf(&self) -> bool {
        self.num_layers() >= 1
    }

    /// Whether `layer` is a layer of this page.
    pub open spec fn holds(&self, layer: Layer) -> bool {
        &&& layer.page == self.page_number()
        &&& layer.index < self.num_layers()
        &&& layer.page_size == self.page_size()
    }

    /// The page of the given number and size with one layer of the given name.
    pub(crate) fn new(number: usize, size: Size, layer_name: String) -> (p: Page)
        ensures
            p.wf(),
            p.page_number() == number,
            p.page_size() == size,
            p.layer_names() == seq![layer_name@],
    {
        Page { number, size, layers: Layers::new(layer_name) }
    }

    /// Adds a new layer with the given name to the page.
    pub fn add_layer(&mut self, name: String)
        ensures
            final(self).page_number() == old(self).page_number(),
            final(self).page_size() == old(self).page_size(),
            final(self).layer_names() == old(self).layer_names().push(name@),
    {
        self.layers.push(name);
    }

    /// Returns the number of layers on this page.
    pub fn layer_count(&self) -> (n: usize)
        requires
            self.wf(),
        ensures
            n == self.num_layers(),
    {
        self.layers.len()
    }

    /// Returns a layer of this page.
    pub fn get_layer(&self, idx: usize) -> (r: Option<Layer>)
        ensures
            r == (if idx < self.num_layers() {
                Some(Layer { page: self.page_number(), index: idx, page_size: self.page_size() })
            } else {
                None::<Layer>
            }),
    {
        match self.layers.get(idx) {
            Some(i) => Some(Layer::new(self.number, i, self.size)),
            None => None,
        }
    }

    /// Returns the first layer of this page.
    pub fn first_layer(&self) -> (l: Layer)
        requires
            self.wf(),
        ensures
            l == (Layer { page: self.page_number(), index: 0, page_size: self.page_size() }),
            self.holds(l),
    {
        Layer::new(self.number, self.layers.first(), self.size)
    }

    /// Returns the last layer of this page.
    pub fn last_layer(&self) -> (l: Layer)
        requires
            self.wf(),
        ensures
            l == (Layer {
                page: self.page_number(),
                index: (self.num_layers() - 1) as usize,
                page_size: self.page_size(),
            }),
            self.holds(l),
    {
        Layer::new(self.number, self.layers.last(), self.size)
    }

    /// The name of the layer with the given number, if there is one.
    pub fn layer_name(&self, idx: usize) -> (r: Option<&str>)
        ensures
            match r {
                Some(s) => idx < self.num_layers() && s@ == self.layer_names()[idx as int],
                None => idx >= self.num_layers(),
            },
    {
        self.layers.name(idx)
    }

    /// The layer after `layer`; where `layer` is the last one, or no layer of
    /// this page, a new layer named after the new number of layers is added
    /// and returned.
    pub fn next_layer(&mut self, layer: &Layer) -> (l: Layer)
        requires
            old(self).wf(),
            layer.page == old(self).page_number(),
        ensures
            final(self).wf(),
            final(self).page_number() == old(self).page_number(),
            final(self).page_size() == old(self).page_size(),
            final(self).holds(l),
            layer.index + 1 < old(self).num_layers() ==> final(self).layer_names() == old(self).layer_names(),
            layer.index + 1 < old(self).num_layers() ==> l.index == layer.index + 1,
            layer.index + 1 >= old(self).num_layers() ==> final(self).layer_names() == old(self).layer_names().push(
                    auto_layer_name(old(self).num_layers() + 1)),
            layer.index + 1 >= old(self).num_layers() ==> l.index == old(self).num_layers(),
    {
        match self.layers.next(layer.index) {
            Some(i) => Layer::new(self.number, i, self.size),
            None => {
                let n = self.layers.len();
                let name = make_layer_name(n as u128 + 1);
                self.layers.push(name);
                Layer::new(self.number, n, self.size)
            },
        }
    }
}

/// A document of one or more pages.
pub struct Renderer {
    pages: Vec<Page>,
}

impl Renderer {
    /// The pages of the document, in order.
    pub closed spec fn pages(&self) -> Seq<Page> {
        self.pages@
    }

    /// A document has at least one page, every page has a layer, and every
    /// page knows its place in the document.
    pub open spec fn wf(&self) -> bool {
        &&& self.pages().len() >= 1
        &&& forall|i: int|
            0 <= i < self.pages().len() ==> #[trigger] self.pages()[i].wf() && self.pages()[i].page_number() == i
    }

    /// Whether `page` is a fresh page of the given size: one layer, named "Layer 1".
    pub open spec fn is_fresh_page(page: Page, size: Size) -> bool {
        page.page_size() == size && page.layer_names() == seq![auto_layer_name(1)] && page.wf()
    }

    /// Creates a new document with one page of the given size.
    pub fn new(size: Size) -> (r: Renderer)
        ensures
            r.wf(),
            r.pages().len() == 1,
            Self::is_fresh_page(r.pages()[0], size),
    {
        let page = Page::new(0, size, make_layer_name(1));
        let mut pages: Vec<Page> = Vec::new();
        pages.push(page);
        Renderer { pages }
    }

    /// Adds a new page with the given size to the document.
    pub fn add_page(&mut self, size: Size)
        requires
            old(self).wf(),
        ensures
            final(self).wf(),
            final(self).pages().len() == old(self).pages().len() + 1,
            forall|i: int|
                0 <= i < old(self).pages().len() ==> final(self).pages()[i] == old(self).pages()[i],
            Self::is_fresh_page(final(self).pages().last(), size),
    {
        let page = Page::new(self.pages.len(), size, make_layer_name(1));
        self.pages.push(page);
    }

    /// Returns the number of pages in this document.
    pub fn page_count(&self) -> (n: usize)
        ensures
            n == self.pages().len(),
    {
        self.pages.len()
    }

    /// Returns a page of this document.
    pub fn get_page(&self, idx: usize) -> (r: Option<&Page>)
        ensures
            match r {
                Some(p) => idx < self.pages().len() && *p == self.pages()[idx as int],
                None => idx >= self.pages().len(),
            },
    {
        if idx < self.pages.len() {
            Some(&self.pages[idx])
        } else {
            None
        }
    }

    /// Returns a mutable reference to a page of this document.
    pub fn get_page_mut(&mut self, idx: usize) -> (r: Option<&mut Page>)
        ensures
            match r {
                Some(p) => {
                    &&& idx < old(self).pages().len()
                    &&& *p == old(self).pages()[idx as int]
                    &&& final(self).pages() == old(self).pages().update(idx as int, *final(p))
                },
                None => {
                    &&& idx >= old(self).pages().len()
                    &&& final(self).pages() == old(self).pages()
                },
            },
    {
        if idx < self.pages.len() {
            Some(&mut self.pages[idx])
        } else {
            None
        }
    }

    /// Returns the first page of this document.
    pub fn first_page(&self) -> (p: &Page)
        requires
            self.wf(),
        ensures
            *p == self.pages()[0],
    {
        &self.pages[0]
    }

    /// Returns a mutable reference to the first page of this document.
    pub fn first_page_mut(&mut self) -> (p: &mut Page)
        requires
            old(self).wf(),
        ensures
            *p == old(self).pages()[0],
            final(self).pages() == old(self).pages().update(0, *final(p)),
    {
        &mut self.pages[0]
    }

    /// Returns the last page of this document.
    pub fn last_page(&self) -> (p: &Page)
        requires
            self.wf(),
        ensures
            *p == self.pages().last(),
    {
        &self.pages[self.pages.len() - 1]
    }

    /// Returns a mutable reference to the last page of this document.
    pub fn last_page_mut(&mut self) -> (p: &mut Page)
        requires
            old(self).wf(),
        ensures
            *p == old(self).pages().last(),
            final(self).pages() == old(self).pages().update(
                old(self).pages().len() - 1,
                *final(p),
            ),
    {
        let idx = self.pages.len() - 1;
        &mut self.pages[idx]
    }
}

/// `width * weight / total`, rounded toward zero.
fn share_of(width: i64, weight: usize, total: usize) -> (p: i64)
    requires
        total > 0,
        weight <= total,
    ensures
        p == share(width as int, weight as int, total as int),
        width >= 0 ==> 0 <= p <= width,
        width < 0 ==> width <= p <= 0,
{
    proof {
        lemma_share_bounds(width as int, weight as int, total as int);
        let q = share(width as int, weight as int, total as int);
        if width >= 0 {
            assert(q <= width) by (nonlinear_arith)
                requires
                    q * total <= width * weight,
                    weight <= total,
                    width >= 0,
                    total > 0,
            ;
        } else {
            assert(width <= q) by (nonlinear_arith)
                requires
                    width * weight <= q * total,
                    weight <= total,
                    width < 0,
                    total > 0,
            ;
        }
    }
    if width >= 0 {
        let a: u128 = width as u128;
        assert(a * (weight as u128) < 0x8000_0000_0000_0000_0000_0000_0000_0000) by (nonlinear_arith)
            requires
                a < 0x8000_0000_0000_0000,
                weight < 0x1_0000_0000_0000_0000,
        ;
        let prod: u128 = a * (weight as u128);
        assert(prod == width * weight) by (nonlinear_arith)
            requires
                prod == a * weight,
                a == width,
        ;
        let q: u128 = prod / (total as u128);
        q as i64
    } else {
        let a: u128 = (-(width as i128)) as u128;
        assert(a * (weight as u128) < 0x8000_0000_0000_0000_0000_0000_0000_0000) by (nonlinear_arith)
            requires
                a <= 0x8000_0000_0000_0000,
                weight < 0x1_0000_0000_0000_0000,
        ;
        let prod: u128 = a * (weight as u128);
        assert(prod == -(width * weight)) by (nonlinear_arith)
            requires
                prod == a * weight,
                a == -width,
        ;
        let q: u128 = prod / (total as u128);
        assert(q == -share(width as int, weight as int, total as int));
        (-(q as i128)) as i64
    }
}

/// A layer of a page: the page's number, its number on the page, and the page's size.
#[derive(Clone, Copy, Debug, PartialEq, Eq, Structural)]
pub struct Layer {
    /// The number of the layer's page in its document, counted from zero.
    pub page: usize,
    /// The number of the layer on its page, counted from zero.
    pub index: usize,
    /// The size of the layer's page.
    pub page_size: Size,
}

/// `position`, relative to the upper left corner of a page of the given size,
/// taken relative to the page's lower left corner.
pub open spec fn flip(page_size: Size, position: Position) -> Position {
    Position { x: position.x, y: Mm((page_size.height.0 - position.y.0) as i64) }
}

impl Layer {
    fn new(page: usize, index: usize, page_size: Size) -> (l: Layer)
        ensures
            l == (Layer { page, index, page_size }),
    {
        Layer { page, index, page_size }
    }

    /// Returns the next layer of this page.
    ///
    /// If this layer is not the last layer, the existing next layer is used.  If it is the last
    /// layer, a new layer is created and added to the page.
    pub fn next(&self, page: &mut Page) -> (l: Layer)
        requires
            old(page).wf(),
            self.page == old(page).page_number(),
        ensures
            final(page).wf(),
            final(page).page_number() == old(page).page_number(),
            final(page).page_size() == old(page).page_size(),
            final(page).holds(l),
            self.index + 1 < old(page).num_layers() ==> final(page).layer_names() == old(page).layer_names(),
            self.index + 1 < old(page).num_layers() ==> l.index == self.index + 1,
            self.index + 1 >= old(page).num_layers() ==> final(page).layer_names() == old(page).layer_names().push(
                    auto_layer_name(old(page).num_layers() + 1)),
            self.index + 1 >= old(page).num_layers() ==> l.index == old(page).num_layers(),
    {
        page.next_layer(self)
    }

    /// Returns a drawable area for this layer: the whole page.
    pub fn area(&self) -> (a: Area)
        ensures
            a.area_layer() == *self,
            a.origin() == (Position { x: Mm(0), y: Mm(0) }),
            a.area_size() == self.page_size,
    {
        Area::new(*self, Position { x: Mm(0), y: Mm(0) }, self.page_size)
    }

    /// Transforms the given position that is relative to the upper left corner of the layer to a
    /// position that is relative to the lower left corner of the layer.
    pub fn transform_position(&self, position: Position) -> (p: Position)
        requires
            fits(self.page_size.height.0 - position.y.0),
        ensures
            p == flip(self.page_size, position),
    {
        Position { x: position.x, y: Mm(self.page_size.height.0 - position.y.0) }
    }
}

/// The line that an area draws: the layer it goes on, its points, relative
/// to the lower left corner of the page, and its style.
#[derive(Clone, Debug)]
pub struct Line {
    pub layer: Layer,
    pub points: Vec<Position>,
    pub thickness: Mm,
    pub color: Color,
}

/// A view on an area of a layer that can be drawn on: the layer, and the
/// origin and size of the area on it.
#[derive(Clone, Copy, Debug, PartialEq, Eq, Structural)]
pub struct Area {
    layer: Layer,
    origin: Position,
    size: Size,
}

/// `position`, relative to the upper left corner of the area, taken relative
/// to the lower left corner of the area's page.
pub open spec fn to_page(area: Area, position: Position) -> Position {
    flip(
        area.area_layer().page_size,
        Position {
            x: Mm((position.x.0 + area.origin().x.0) as i64),
            y: Mm((position.y.0 + area.origin().y.0) as i64),
        },
    )
}

/// Whether `position`, relative to the area, can be taken relative to the page
/// without leaving the range of lengths.
pub open spec fn to_page_fits(area: Area, position: Position) -> bool {
    &&& fits(position.x.0 + area.origin().x.0)
    &&& fits(position.y.0 + area.origin().y.0)
    &&& fits(area.area_layer().page_size.height.0 - (position.y.0 + area.origin().y.0))
}

/// `areas` split `area` horizontally by `weights`: one area per weight, each
/// on the same layer, as high as `area` and level with it; the `i`-th spans
/// from boundary `i` to boundary `i + 1` of the split of the area's width.
pub open spec fn is_horizontal_split(area: Area, weights: Seq<usize>, areas: Seq<Area>) -> bool {
    let w = area.area_size().width.0 as int;
    let t = total_weight(weights) as int;
    &&& areas.len() == weights.len()
    &&& forall|i: int|
        0 <= i < weights.len() ==> {
            &&& (#[trigger] areas[i]).area_layer() == area.area_layer()
            &&& areas[i].origin().y == area.origin().y
            &&& areas[i].area_size().height == area.area_size().height
            &&& areas[i].origin().x.0 == area.origin().x.0 + boundary(w, weights, t, i)
            &&& areas[i].area_size().width.0 == part_width(w, weights, t, i)
        }
}

/// The parts of a split lie side by side: each one begins where the one
/// before it ends.
pub proof fn lemma_split_adjacent(area: Area, weights: Seq<usize>, areas: Seq<Area>, i: int)
    requires
        is_horizontal_split(area, weights, areas),
        0 <= i < weights.len() - 1,
    ensures
        areas[i + 1].origin().x.0 == areas[i].origin().x.0 + areas[i].area_size().width.0,
{
    assert(areas[i].origin().x.0 == area.origin().x.0 + boundary(
        area.area_size().width.0 as int,
        weights,
        total_weight(weights) as int,
        i,
    ));
    assert(areas[i + 1].origin().x.0 == area.origin().x.0 + boundary(
        area.area_size().width.0 as int,
        weights,
        total_weight(weights) as int,
        i + 1,
    ));
}

/// The parts of a split cover the split area: the first begins where the
/// area begins and, where the weights are not all zero, the last ends where
/// the area ends.
pub proof fn lemma_split_covers(area: Area, weights: Seq<usize>, areas: Seq<Area>)
    requires
        is_horizontal_split(area, weights, areas),
        weights.len() > 0,
    ensures
        areas[0].origin().x == area.origin().x,
        total_weight(weights) > 0 ==> {
            let n = weights.len() as int;
            areas[n - 1].origin().x.0 + areas[n - 1].area_size().width.0
                == area.origin().x.0 + area.area_size().width.0
        },
{
    let n = weights.len() as int;
    let w = area.area_size().width.0 as int;
    let t = total_weight(weights) as int;
    lemma_boundary_ends(w, weights, t);
    assert(areas[0].origin().x.0 == area.origin().x.0 + boundary(w, weights, t, 0));
    assert(areas[n - 1].origin().x.0 == area.origin().x.0 + boundary(w, weights, t, n - 1));
}

/// Each part of a split is its exact share of the width, `width * weight /
/// total`, to within one unit.
pub proof fn lemma_split_shares(area: Area, weights: Seq<usize>, areas: Seq<Area>, i: int)
    requires
        is_horizontal_split(area, weights, areas),
        total_weight(weights) > 0,
        0 <= i < weights.len(),
    ensures
        ({
            let w = area.area_size().width.0 as int;
            let t = total_weight(weights) as int;
            let part = areas[i].area_size().width.0 as int;
            w * weights[i] - t < part * t < w * weights[i] + t
        }),
{
    let w = area.area_size().width.0 as int;
    let t = total_weight(weights) as int;
    assert(areas[i].area_size().width.0 == part_width(w, weights, t, i));
    crate::split::lemma_part_width_bounds(w, weights, t, i);
}

/// Split by weights that are all zero, an area gives empty parts at its
/// left edge.
pub proof fn lemma_split_zero_weights(area: Area, weights: Seq<usize>, areas: Seq<Area>, i: int)
    requires
        is_horizontal_split(area, weights, areas),
        total_weight(weights) == 0,
        0 <= i < weights.len(),
    ensures
        areas[i].origin() == area.origin(),
        areas[i].area_size().width.0 == 0,
{
    let w = area.area_size().width.0 as int;
    assert(areas[i].origin().x.0 == area.origin().x.0 + boundary(w, weights, 0, i));
}

/// Split by a single weight, an area gives back itself.
pub proof fn lemma_split_single(area: Area, weight: usize, areas: Seq<Area>)
    requires
        weight > 0,
        is_horizontal_split(area, seq![weight], areas),
    ensures
        areas.len() == 1,
        areas[0] == area,
{
    let w = area.area_size().width.0 as int;
    let weights = seq![weight];
    assert(weights.drop_last() =~= Seq::<usize>::empty());
    assert(total_weight(Seq::<usize>::empty()) == 0);
    assert(total_weight(weights) == weight);
    lemma_boundary_ends(w, weights, weight as int);
    assert(areas[0].origin().x.0 == area.origin().x.0 + boundary(w, weights, weight as int, 0));
    assert(areas[0].area_size().width.0 == part_width(w, weights, weight as int, 0));
    assert(areas[0].area_size() == area.area_size());
    assert(areas[0].origin() == area.origin());
}

/// Whether the margins can be added to the area without leaving the range of lengths.
pub open spec fn margins_fit(area: Area, margins: Margins) -> bool {
    &&& fits(area.origin().x.0 + margins.left.0)
    &&& fits(area.origin().y.0 + margins.top.0)
    &&& fits(margins.left.0 + margins.right.0)
    &&& fits(margins.top.0 + margins.bottom.0)
    &&& fits(area.area_size().width.0 - (margins.left.0 + margins.right.0))
    &&& fits(area.area_size().height.0 - (margins.top.0 + margins.bottom.0))
}

/// `after` is `before` with the margins added: on the same layer, its origin
/// moved right by the left margin and down by the top margin, and its size
/// reduced by both margins of each direction.
pub open spec fn margins_added(before: Area, margins: Margins, after: Area) -> bool {
    &&& after.area_layer() == before.area_layer()
    &&& after.origin().x.0 == before.origin().x.0 + margins.left.0
    &&& after.origin().y.0 == before.origin().y.0 + margins.top.0
    &&& after.area_size().width.0 == before.area_size().width.0 - (margins.left.0 + margins.right.0)
    &&& after.area_size().height.0 == before.area_size().height.0 - (margins.top.0 + margins.bottom.0)
}

/// Whether the offset can be added to the area without leaving the range of lengths.
pub open spec fn offset_fits(area: Area, offset: Position) -> bool {
    &&& fits(area.origin().x.0 + offset.x.0)
    &&& fits(area.origin().y.0 + offset.y.0)
    &&& fits(area.area_size().width.0 - offset.x.0)
    &&& fits(area.area_size().height.0 - offset.y.0)
}

/// `after` is `before` with the offset added: on the same layer, its origin
/// moved by the offset and its size reduced by it.
pub open spec fn offset_added(before: Area, offset: Position, after: Area) -> bool {
    &&& after.area_layer() == before.area_layer()
    &&& after.origin().x.0 == before.origin().x.0 + offset.x.0
    &&& after.origin().y.0 == before.origin().y.0 + offset.y.0
    &&& after.area_size().width.0 == before.area_size().width.0 - offset.x.0
    &&& after.area_size().height.0 == before.area_size().height.0 - offset.y.0
}

/// Adding an offset to an area is adding a left margin of its `x` and a top
/// margin of its `y`, with no right and bottom margins.
pub proof fn lemma_offset_is_top_left_margin(before: Area, offset: Position, after: Area)
    ensures
        offset_fits(before, offset) == margins_fit(before, top_left_margins(offset)),
        offset_added(before, offset, after) == margins_added(before, top_left_margins(offset), after),
{
}

/// Offsets add up: adding `a` and then `b` to an area gives the area that
/// adding `a + b` at once gives.
pub proof fn lemma_offsets_compose(x: Area, a: Position, y: Area, b: Position, z: Area)
    requires
        offset_added(x, a, y),
        offset_added(y, b, z),
        fits(a.x.0 + b.x.0),
        fits(a.y.0 + b.y.0),
    ensures
        offset_added(x, Position { x: Mm((a.x.0 + b.x.0) as i64), y: Mm((a.y.0 + b.y.0) as i64) }, z),
        z.area_layer() == x.area_layer(),
        z.origin().x.0 == x.origin().x.0 + a.x.0 + b.x.0,
        z.origin().y.0 == x.origin().y.0 + a.y.0 + b.y.0,
        z.area_size().width.0 == x.area_size().width.0 - a.x.0 - b.x.0,
        z.area_size().height.0 == x.area_size().height.0 - a.y.0 - b.y.0,
{
}

/// Margins add up: adding margins `m` and then `n` to an area moves its
/// corner by both top and left margins and shrinks it by all four of each.
pub proof fn lemma_margins_compose(x: Area, m: Margins, y: Area, n: Margins, z: Area)
    requires
        margins_added(x, m, y),
        margins_added(y, n, z),
    ensures
        z.area_layer() == x.area_layer(),
        z.origin().x.0 == x.origin().x.0 + m.left.0 + n.left.0,
        z.origin().y.0 == x.origin().y.0 + m.top.0 + n.top.0,
        z.area_size().width.0 == x.area_size().width.0 - m.left.0 - m.right.0 - n.left.0 - n.right.0,
        z.area_size().height.0 == x.area_size().height.0 - m.top.0 - m.bottom.0 - n.top.0 - n.bottom.0,
{
}

/// After adding an offset, a point of the area is the point of the old area
/// moved by the offset: on the page, `q` of the new area is `q + offset` of
/// the old one.
pub proof fn lemma_offset_moves_points(before: Area, offset: Position, after: Area, q: Position)
    requires
        offset_added(before, offset, after),
        fits(q.x.0 + offset.x.0),
        fits(q.y.0 + offset.y.0),
        to_page_fits(after, q),
    ensures
        to_page(after, q) == to_page(
            before,
            Position { x: Mm((q.x.0 + offset.x.0) as i64), y: Mm((q.y.0 + offset.y.0) as i64) },
        ),
        to_page(after, q).x.0 == before.origin().x.0 + offset.x.0 + q.x.0,
        to_page(after, q).y.0 == before.area_layer().page_size.height.0
            - (before.origin().y.0 + offset.y.0 + q.y.0),
{
}

/// After adding margins, a point of the area is the point of the old area
/// moved right by the left margin and down by the top margin.
pub proof fn lemma_margins_move_points(before: Area, margins: Margins, after: Area, q: Position)
    requires
        margins_added(before, margins, after),
        to_page_fits(after, q),
    ensures
        to_page(after, q).x.0 == before.origin().x.0 + margins.left.0 + q.x.0,
        to_page(after, q).y.0 == before.area_layer().page_size.height.0
            - (before.origin().y.0 + margins.top.0 + q.y.0),
{
}

/// The margins `offset.y` at the top, `offset.x` at the left, and none elsewhere.
pub open spec fn top_left_margins(offset: Position) -> Margins {
    Margins { top: offset.y, right: Mm(0), bottom: Mm(0), left: offset.x }
}

/// Taking a position relative to the lower left corner of a page undoes
/// itself: a position taken there and back is the position.
pub proof fn lemma_flip_twice(page_size: Size, position: Position)
    requires
        fits(page_size.height.0 - position.y.0),
    ensures
        flip(page_size, flip(page_size, position)) == position,
{
}

impl Area {
    /// The layer of the area.
    pub closed spec fn area_layer(&self) -> Layer {
        self.layer
    }

    /// The upper left corner of the area, relative to the upper left corner of the page.
    pub closed spec fn origin(&self) -> Position {
        self.origin
    }

    /// The size of the area.
    pub closed spec fn area_size(&self) -> Size {
        self.size
    }

    fn new(layer: Layer, origin: Position, size: Size) -> (a: Area)
        ensures
            a.area_layer() == layer,
            a.origin() == origin,
            a.area_size() == size,
    {
        Area { layer, origin, size }
    }

    /// Returns a copy of this area on the next layer of the page.
    ///
    /// If this area is not on the last layer, the existing next layer is used.  If it is on the
    /// last layer, a new layer is created and added to the page.
    pub fn next_layer(&self, page: &mut Page) -> (a: Area)
        requires
            old(page).wf(),
            self.area_layer().page == old(page).page_number(),
        ensures
            final(page).wf(),
            final(page).page_number() == old(page).page_number(),
            final(page).page_size() == old(page).page_size(),
            final(page).holds(a.area_layer()),
            a.origin() == self.origin(),
            a.area_size() == self.area_size(),
            self.area_layer().index + 1 < old(page).num_layers() ==> final(page).layer_names() == old(page).layer_names(),
            self.area_layer().index + 1 < old(page).num_layers() ==> a.area_layer().index == self.area_layer().index + 1,
            self.area_layer().index + 1 >= old(page).num_layers() ==> final(page).layer_names() == old(page).layer_names().push(
                    auto_layer_name(old(page).num_layers() + 1)),
            self.area_layer().index + 1 >= old(page).num_layers() ==> a.area_layer().index == old(page).num_layers(),
    {
        let layer = self.layer.next(page);
        Area { layer, origin: self.origin, size: self.size }
    }

    /// Reduces the size of the drawable area by the given margins.
    pub fn add_margins(&mut self, margins: Margins)
        requires
            margins_fit(*old(self), margins),
        ensures
            margins_added(*old(self), margins, *final(self)),
    {
        self.origin.x = Mm(self.origin.x.0 + margins.left.0);
        self.origin.y = Mm(self.origin.y.0 + margins.top.0);
        self.size.width = Mm(self.size.width.0 - (margins.left.0 + margins.right.0));
        self.size.height = Mm(self.size.height.0 - (margins.top.0 + margins.bottom.0));
    }

    /// Returns the size of this area.
    pub fn size(&self) -> (s: Size)
        ensures
            s == self.area_size(),
    {
        self.size
    }

    /// Returns the upper left corner of this area, relative to the upper left corner of the page.
    pub fn upper_left(&self) -> (p: Position)
        ensures
            p == self.origin(),
    {
        self.origin
    }

    /// Tells whether the margins can be added to this area without leaving the
    /// range of lengths.
    pub fn margins_in_range(&self, margins: Margins) -> (b: bool)
        ensures
            b == margins_fit(*self, margins),
    {
        let horizontal = margins.left.0 as i128 + margins.right.0 as i128;
        let vertical = margins.top.0 as i128 + margins.bottom.0 as i128;
        in_range(self.origin.x.0 as i128 + margins.left.0 as i128)
            && in_range(self.origin.y.0 as i128 + margins.top.0 as i128)
            && in_range(horizontal)
            && in_range(vertical)
            && in_range(self.size.width.0 as i128 - horizontal)
            && in_range(self.size.height.0 as i128 - vertical)
    }

    /// Tells whether the offset can be added to this area without leaving the
    /// range of lengths.
    pub fn offset_in_range(&self, offset: Position) -> (b: bool)
        ensures
            b == offset_fits(*self, offset),
    {
        in_range(self.origin.x.0 as i128 + offset.x.0 as i128)
            && in_range(self.origin.y.0 as i128 + offset.y.0 as i128)
            && in_range(self.size.width.0 as i128 - offset.x.0 as i128)
            && in_range(self.size.height.0 as i128 - offset.y.0 as i128)
    }

    /// Tells whether `position`, relative to this area, can be taken relative
    /// to the page without leaving the range of lengths.
    pub fn position_in_range(&self, position: Position) -> (b: bool)
        ensures
            b == to_page_fits(*self, position),
    {
        let y = position.y.0 as i128 + self.origin.y.0 as i128;
        in_range(position.x.0 as i128 + self.origin.x.0 as i128)
            && in_range(y)
            && in_range(self.layer.page_size.height.0 as i128 - y)
    }

    /// Returns the layer of this area.
    pub fn layer(&self) -> (l: Layer)
        ensures
            l == self.area_layer(),
    {
        self.layer
    }

    /// Adds the given offset to the area, reducing the drawable area.
    pub fn add_offset(&mut self, offset: Position)
        requires
            offset_fits(*old(self), offset),
        ensures
            offset_added(*old(self), offset, *final(self)),
    {
        self.origin.x = Mm(self.origin.x.0 + offset.x.0);
        self.origin.y = Mm(self.origin.y.0 + offset.y.0);
        self.size.width = Mm(self.size.width.0 - offset.x.0);
        self.size.height = Mm(self.size.height.0 - offset.y.0);
    }

    /// Sets the size of this area.
    pub fn set_size(&mut self, size: Size)
        ensures
            final(self).area_layer() == old(self).area_layer(),
            final(self).origin() == old(self).origin(),
            final(self).area_size() == size,
    {
        self.size = size;
    }

    /// Sets the width of this area.
    pub fn set_width(&mut self, width: Mm)
        ensures
            final(self).area_layer() == old(self).area_layer(),
            final(self).origin() == old(self).origin(),
            final(self).area_size() == (Size { width, height: old(self).area_size().height }),
    {
        self.size.width = width;
    }

    /// Sets the height of this area.
    pub fn set_height(&mut self, height: Mm)
        ensures
            final(self).area_layer() == old(self).area_layer(),
            final(self).origin() == old(self).origin(),
            final(self).area_size() == (Size { width: old(self).area_size().width, height }),
    {
        self.size.height = height;
    }

    /// Returns the line through the given points, which are relative to the
    /// upper left corner of the area, drawn in the given style: its points
    /// taken relative to the lower left corner of the page.
    pub fn draw_line(&self, points: Vec<Position>, line_style: LineStyle) -> (line: Line)
        requires
            forall|i: int| 0 <= i < points@.len() ==> to_page_fits(*self, #[trigger] points@[i]),
        ensures
            line.layer == self.area_layer(),
            line.points@.len() == points@.len(),
            forall|i: int| 0 <= i < points@.len() ==> #[trigger] line.points@[i] == to_page(*self, points@[i]),
            line.thickness == line_style.thickness,
            line.color == line_style.color,
    {
        let mut line_points: Vec<Position> = Vec::new();
        let mut i: usize = 0;
        while i < points.len()
            invariant
                i <= points@.len(),
                line_points@.len() == i,
                forall|j: int| 0 <= j < points@.len() ==> to_page_fits(*self, #[trigger] points@[j]),
                forall|j: int| 0 <= j < i ==> #[trigger] line_points@[j] == to_page(*self, points@[j]),
            decreases points@.len() - i,
        {
            let p = self.transform_position(points[i]);
            line_points.push(p);
            i = i + 1;
        }
        Line {
            layer: self.layer,
            points: line_points,
            thickness: line_style.thickness,
            color: line_style.color,
        }
    }

    /// Splits this area horizontally using the given weights.
    ///
    /// The returned vector has the same number of elements as the provided slice.  The *i*-th
    /// area spans from *width \* (weights[0] + ... + weights[i-1]) / total_weight* to *width \*
    /// (weights[0] + ... + weights[i]) / total_weight*, each rounded toward zero, where *width* is
    /// the width of this area, and *total_weight* is the sum of all given weights.  So the width
    /// of the *i*-th area is *width \* weights[i] / total_weight* to within one micrometre, and the
    /// areas cover this area side by side.  Where all weights are zero, all areas are empty.
    pub fn split_horizontally(&self, weights: &[usize]) -> (areas: Vec<Area>)
        requires
            total_weight(weights@) <= usize::MAX,
            fits(self.origin().x.0 + self.area_size().width.0),
        ensures
            is_horizontal_split(*self, weights@, areas@),
    {
        let n = weights.len();
        let mut total: usize = 0;
        let mut i: usize = 0;
        while i < n
            invariant
                n == weights@.len(),
                i <= n,
                total == total_weight(weights@.take(i as int)),
                total_weight(weights@) <= usize::MAX,
            decreases n - i,
        {
            proof {
                lemma_total_weight_step(weights@, i as int);
                lemma_total_weight_prefix(weights@, i + 1);
            }
            total = total + weights[i];
            i = i + 1;
        }
        assert(weights@.take(n as int) =~= weights@);
        let w = self.size.width.0;
        let ghost t = total as int;
        proof {
            lemma_boundary_ends(w as int, weights@, t);
        }
        let mut prefix: usize = 0;
        let mut start: i64 = 0;
        let mut areas: Vec<Area> = Vec::new();
        let mut i: usize = 0;
        while i < n
            invariant
                n == weights@.len(),
                i <= n,
                t == total,
                t == total_weight(weights@),
                w == self.size.width.0,
                fits(self.origin.x.0 + w),
                prefix == total_weight(weights@.take(i as int)),
                start == boundary(w as int, weights@, t, i as int),
                areas@.len() == i,
                forall|j: int|
                    0 <= j < i ==> {
                        &&& (#[trigger] areas@[j]).area_layer() == self.area_layer()
                        &&& areas@[j].origin().y == self.origin().y
                        &&& areas@[j].area_size().height == self.area_size().height
                        &&& areas@[j].origin().x.0 == self.origin().x.0 + boundary(w as int, weights@, t, j)
                        &&& areas@[j].area_size().width.0 == part_width(w as int, weights@, t, j)
                    },
            decreases n - i,
        {
            proof {
                lemma_total_weight_step(weights@, i as int);
                lemma_total_weight_prefix(weights@, i + 1);
                if t > 0 {
                    lemma_boundary_bounds(w as int, weights@, t, i as int);
                    lemma_boundary_bounds(w as int, weights@, t, i + 1);
                }
            }
            prefix = prefix + weights[i];
            let end: i64 = if total == 0 {
                0
            } else {
                share_of(w, prefix, total)
            };
            proof {
                if t > 0 {
                    crate::split::lemma_part_width_bounds(w as int, weights@, t, i as int);
                }
            }
            let mut area = *self;
            area.origin.x = Mm(self.origin.x.0 + start);
            area.size.width = Mm(end - start);
            areas.push(area);
            start = end;
            i = i + 1;
        }
        areas
    }

    /// Transforms the given position that is relative to the upper left corner of the area to a
    /// position that is relative to the lower left corner of its page.
    pub fn transform_position(&self, position: Position) -> (p: Position)
        requires
            to_page_fits(*self, position),
        ensures
            p == to_page(*self, position),
    {
        let moved = Position {
            x: Mm(position.x.0 + self.origin.x.0),
            y: Mm(position.y.0 + self.origin.y.0),
        };
        self.layer.transform_position(moved)
    }
}

} // verus!
