//! Shapes built in code: what a view declares for its containers, and the
//! property writes that make each shape.

use vstd::prelude::*;

use crate::keyed::KeyedMap;
use crate::scalar::{zero32, Float32, Vec4};

verus! {

/// Which shape, and its geometry.
#[derive(Clone, Copy, PartialEq, Eq, Debug, Structural)]
pub enum ShapeKind {
    /// A rectangle with corner radii.
    Rectangle { width: Float32, height: Float32, radius_x: Float32, radius_y: Float32 },
    /// An ellipse that fills a box.
    Ellipse { width: Float32, height: Float32 },
    /// A line between two points.
    Line { x1: Float32, y1: Float32, x2: Float32, y2: Float32 },
}

/// A shape with its paint. What is `None` is left as the engine has it.
#[derive(Clone, Copy, PartialEq, Eq, Debug)]
pub struct ShapeSpec {
    pub kind: ShapeKind,
    /// Colour of the interior.
    pub fill: Option<Vec4>,
    /// Colour of the outline.
    pub stroke: Option<Vec4>,
    /// Width of the outline.
    pub stroke_thickness: Option<Float32>,
}

/// A shape without paint.
pub open spec fn bare(kind: ShapeKind) -> ShapeSpec {
    ShapeSpec { kind, fill: None, stroke: None, stroke_thickness: None }
}

impl ShapeSpec {
    /// A shape without paint.
    pub fn new(kind: ShapeKind) -> (s: ShapeSpec)
        ensures
            s == bare(kind),
    {
        ShapeSpec { kind, fill: None, stroke: None, stroke_thickness: None }
    }

    /// Paints the interior.
    pub fn with_fill(self, rgba: Vec4) -> (s: ShapeSpec)
        ensures
            s == (ShapeSpec { fill: Some(rgba), ..self }),
    {
        ShapeSpec { fill: Some(rgba), ..self }
    }

    /// Paints the outline.
    pub fn with_stroke(self, rgba: Vec4) -> (s: ShapeSpec)
        ensures
            s == (ShapeSpec { stroke: Some(rgba), ..self }),
    {
        ShapeSpec { stroke: Some(rgba), ..self }
    }

    /// Sets the width of the outline.
    pub fn with_stroke_thickness(self, thickness: Float32) -> (s: ShapeSpec)
        ensures
            s == (ShapeSpec { stroke_thickness: Some(thickness), ..self }),
    {
        ShapeSpec { stroke_thickness: Some(thickness), ..self }
    }
}

/// A write to a shape that is being built.
#[derive(Clone, Copy, PartialEq, Eq, Debug, Structural)]
pub enum ShapeWrite {
    Width(Float32),
    Height(Float32),
    RadiusX(Float32),
    RadiusY(Float32),
    Points(Vec4),
    Fill(Vec4),
    Stroke(Vec4),
    StrokeThickness(Float32),
}

/// The writes that set the geometry.
pub open spec fn geometry_writes(kind: ShapeKind) -> Seq<ShapeWrite> {
    match kind {
        ShapeKind::Rectangle { width, height, radius_x, radius_y } => seq![
            ShapeWrite::Width(width),
            ShapeWrite::Height(height),
            ShapeWrite::RadiusX(radius_x),
            ShapeWrite::RadiusY(radius_y),
        ],
        ShapeKind::Ellipse { width, height } => seq![
            ShapeWrite::Width(width),
            ShapeWrite::Height(height),
        ],
        ShapeKind::Line { x1, y1, x2, y2 } => seq![
            ShapeWrite::Points(Vec4 { x: x1, y: y1, z: x2, w: y2 }),
        ],
    }
}

/// A write, if there is one.
pub open spec fn maybe(w: Option<ShapeWrite>) -> Seq<ShapeWrite> {
    match w {
        Some(w) => seq![w],
        None => Seq::empty(),
    }
}

/// All writes of a shape: geometry, then fill, stroke and thickness as far as
/// they are given.
pub open spec fn shape_writes(spec: ShapeSpec) -> Seq<ShapeWrite> {
    geometry_writes(spec.kind) + maybe(
        match spec.fill {
            Some(c) => Some(ShapeWrite::Fill(c)),
            None => None,
        },
    ) + maybe(
        match spec.stroke {
            Some(c) => Some(ShapeWrite::Stroke(c)),
            None => None,
        },
    ) + maybe(
        match spec.stroke_thickness {
            Some(t) => Some(ShapeWrite::StrokeThickness(t)),
            None => None,
        },
    )
}

/// The writes that make a shape, in order.
pub fn plan_shape(spec: &ShapeSpec) -> (w: Vec<ShapeWrite>)
    ensures
        w@ == shape_writes(*spec),
{
    let mut w: Vec<ShapeWrite> = Vec::new();
    match spec.kind {
        ShapeKind::Rectangle { width, height, radius_x, radius_y } => {
            w.push(ShapeWrite::Width(width));
            w.push(ShapeWrite::Height(height));
            w.push(ShapeWrite::RadiusX(radius_x));
            w.push(ShapeWrite::RadiusY(radius_y));
        },
        ShapeKind::Ellipse { width, height } => {
            w.push(ShapeWrite::Width(width));
            w.push(ShapeWrite::Height(height));
        },
        ShapeKind::Line { x1, y1, x2, y2 } => {
            w.push(ShapeWrite::Points(Vec4 { x: x1, y: y1, z: x2, w: y2 }));
        },
    }
    assert(w@ =~= geometry_writes(spec.kind));
    if let Some(c) = spec.fill {
        w.push(ShapeWrite::Fill(c));
    }
    if let Some(c) = spec.stroke {
        w.push(ShapeWrite::Stroke(c));
    }
    if let Some(t) = spec.stroke_thickness {
        w.push(ShapeWrite::StrokeThickness(t));
    }
    assert(w@ =~= shape_writes(*spec));
    w
}

/// Where a container takes a shape.
#[derive(Clone, Copy, PartialEq, Eq, Debug, Structural)]
pub enum ContainerSlot {
    /// As the content of a content control.
    Content,
    /// As the child of a decorator.
    Child,
}

/// Where a container takes a shape, if anywhere: content is tried first.
pub fn container_slot(takes_content: bool, takes_child: bool) -> (r: Option<ContainerSlot>)
    ensures
        r == if takes_content {
            Some(ContainerSlot::Content)
        } else if takes_child {
            Some(ContainerSlot::Child)
        } else {
            None
        },
{
    if takes_content {
        Some(ContainerSlot::Content)
    } else if takes_child {
        Some(ContainerSlot::Child)
    } else {
        None
    }
}

/// The shapes that a view declares.
pub struct NoesisShapes {
    /// Shapes by container name.
    pub shapes: KeyedMap<String, ShapeSpec>,
}

impl Default for NoesisShapes {
    fn default() -> (s: NoesisShapes)
        ensures
            s.shapes@ == Map::<Seq<char>, ShapeSpec>::empty(),
    {
        NoesisShapes { shapes: KeyedMap::new() }
    }
}

/// A rectangle with square corners.
pub open spec fn plain_rectangle(width: Float32, height: Float32) -> ShapeSpec {
    bare(ShapeKind::Rectangle { width, height, radius_x: zero32(), radius_y: zero32() })
}

impl NoesisShapes {
    /// No shapes.
    pub fn new() -> (s: NoesisShapes)
        ensures
            s.shapes@ == Map::<Seq<char>, ShapeSpec>::empty(),
    {
        NoesisShapes::default()
    }

    /// Gives the container `name` a shape; an earlier one is replaced.
    pub fn insert(self, name: &str, spec: ShapeSpec) -> (s: NoesisShapes)
        ensures
            s.shapes@ == self.shapes@.insert(name@, spec),
    {
        let mut s = self;
        s.set(name, spec);
        s
    }

    /// Gives the container `name` a rectangle with square corners.
    pub fn rectangle(self, name: &str, width: Float32, height: Float32) -> (s: NoesisShapes)
        ensures
            s.shapes@ == self.shapes@.insert(name@, plain_rectangle(width, height)),
    {
        let mut s = self;
        s.set_rectangle(name, width, height);
        s
    }

    /// Gives the container `name` a rectangle with rounded corners.
    pub fn rounded_rectangle(
        self,
        name: &str,
        width: Float32,
        height: Float32,
        radius_x: Float32,
        radius_y: Float32,
    ) -> (s: NoesisShapes)
        ensures
            s.shapes@ == self.shapes@.insert(
                name@,
                bare(ShapeKind::Rectangle { width, height, radius_x, radius_y }),
            ),
    {
        let mut s = self;
        s.set_rounded_rectangle(name, width, height, radius_x, radius_y);
        s
    }

    /// Gives the container `name` an ellipse.
    pub fn ellipse(self, name: &str, width: Float32, height: Float32) -> (s: NoesisShapes)
        ensures
            s.shapes@ == self.shapes@.insert(name@, bare(ShapeKind::Ellipse { width, height })),
    {
        let mut s = self;
        s.set_ellipse(name, width, height);
        s
    }

    /// Gives the container `name` a line.
    pub fn line(self, name: &str, x1: Float32, y1: Float32, x2: Float32, y2: Float32) -> (s:
        NoesisShapes)
        ensures
            s.shapes@ == self.shapes@.insert(name@, bare(ShapeKind::Line { x1, y1, x2, y2 })),
    {
        let mut s = self;
        s.set_line(name, x1, y1, x2, y2);
        s
    }

    /// Gives the container `name` a shape.
    pub fn set(&mut self, name: &str, spec: ShapeSpec)
        ensures
            final(self).shapes@ == old(self).shapes@.insert(name@, spec),
    {
        self.shapes.insert(name.to_owned(), spec);
    }

    /// Gives the container `name` a rectangle with square corners.
    pub fn set_rectangle(&mut self, name: &str, width: Float32, height: Float32)
        ensures
            final(self).shapes@ == old(self).shapes@.insert(name@, plain_rectangle(width, height)),
    {
        self.set(
            name,
            ShapeSpec::new(
                ShapeKind::Rectangle {
                    width,
                    height,
                    radius_x: Float32::zero(),
                    radius_y: Float32::zero(),
                },
            ),
        );
    }

    /// Gives the container `name` a rectangle with rounded corners.
    pub fn set_rounded_rectangle(
        &mut self,
        name: &str,
        width: Float32,
        height: Float32,
        radius_x: Float32,
        radius_y: Float32,
    )
        ensures
            final(self).shapes@ == old(self).shapes@.insert(
                name@,
                bare(ShapeKind::Rectangle { width, height, radius_x, radius_y }),
            ),
    {
        self.set(name, ShapeSpec::new(ShapeKind::Rectangle { width, height, radius_x, radius_y }));
    }

    /// Gives the container `name` an ellipse.
    pub fn set_ellipse(&mut self, name: &str, width: Float32, height: Float32)
        ensures
            final(self).shapes@ == old(self).shapes@.insert(
                name@,
                bare(ShapeKind::Ellipse { width, height }),
            ),
    {
        self.set(name, ShapeSpec::new(ShapeKind::Ellipse { width, height }));
    }

    /// Gives the container `name` a line.
    pub fn set_line(&mut self, name: &str, x1: Float32, y1: Float32, x2: Float32, y2: Float32)
        ensures
            final(self).shapes@ == old(self).shapes@.insert(
                name@,
                bare(ShapeKind::Line { x1, y1, x2, y2 }),
            ),
    {
        self.set(name, ShapeSpec::new(ShapeKind::Line { x1, y1, x2, y2 }));
    }
}

/// A shape is written in full and with nothing else: its geometry first, each
/// measure once and in its own property, then fill, stroke and thickness exactly
/// where they are given.
pub proof fn law_shapes_are_written_in_full(spec: ShapeSpec)
    ensures
        ({
            let w = shape_writes(spec);
            let paints: int = (if spec.fill is Some {
                1int
            } else {
                0
            }) + (if spec.stroke is Some {
                1int
            } else {
                0
            }) + (if spec.stroke_thickness is Some {
                1int
            } else {
                0
            });
            &&& spec.kind matches ShapeKind::Rectangle { width, height, radius_x, radius_y } ==> {
                &&& w.len() == 4 + paints
                &&& w[0] == ShapeWrite::Width(width)
                &&& w[1] == ShapeWrite::Height(height)
                &&& w[2] == ShapeWrite::RadiusX(radius_x)
                &&& w[3] == ShapeWrite::RadiusY(radius_y)
            }
            &&& spec.kind matches ShapeKind::Ellipse { width, height } ==> {
                &&& w.len() == 2 + paints
                &&& w[0] == ShapeWrite::Width(width)
                &&& w[1] == ShapeWrite::Height(height)
            }
            &&& spec.kind matches ShapeKind::Line { x1, y1, x2, y2 } ==> {
                &&& w.len() == 1 + paints
                &&& w[0] is Points
                &&& w[0]->Points_0.x == x1 && w[0]->Points_0.y == y1
                &&& w[0]->Points_0.z == x2 && w[0]->Points_0.w == y2
            }
            &&& spec.fill matches Some(c) ==> w[w.len() - paints] == ShapeWrite::Fill(c)
            &&& spec.stroke matches Some(c) ==> w[w.len() - paints + (if spec.fill is Some {
                1int
            } else {
                0
            })] == ShapeWrite::Stroke(c)
            &&& spec.stroke_thickness matches Some(t) ==> w.last() == ShapeWrite::StrokeThickness(t)
        }),
{
}

/// A shape without paint has its geometry and no more; a plain rectangle has
/// the width and height asked for and square corners.
pub proof fn law_plain_shapes(kind: ShapeKind, width: Float32, height: Float32)
    ensures
        bare(kind).kind == kind,
        bare(kind).fill is None && bare(kind).stroke is None && bare(kind).stroke_thickness is None,
        plain_rectangle(width, height).kind matches ShapeKind::Rectangle {
            width: w,
            height: h,
            radius_x,
            radius_y,
        } && w == width && h == height && radius_x.bits == 0 && radius_y.bits == 0,
        plain_rectangle(width, height).fill is None,
{
}

} // verus!
