//! Core drawing on windows: clears, fills, outlines and lines drawn into a
//! window's CPU buffer, answered with what presentation needs to show them.
use vstd::prelude::*;

use crate::gc::{XGraphicsContextValues, spec_default_gc_values};
use crate::geometry::{Rect, Region, Size};
use crate::ids::{NamespaceId, TransactionId, XResourceId};
use crate::resources::XAuthorityRuntimeError;
use crate::runtime::XAuthorityRuntime;
use crate::software::XPoint;
use crate::software::store::{
    XAuthorityCpuDrawResult, XCpuBufferView, lemma_drew_result, spec_clear_drawing, spec_draw_result, spec_drew,
    spec_line_width, spec_outline_drawing, spec_paint_drawing, spec_polyline_drawing, spec_union_rects,
};
use crate::software::{spec_outline_bounds, spec_point_bounds};
use crate::window::XWindowRecord;

verus! {

/// What a core drawing on a window hands on to presentation: the request,
/// the window and the generation it had, the handle its pixels now stand
/// under, and the damage.
#[derive(Clone, Debug)]
pub struct XCoreDrawUpdate {
    pub transaction: TransactionId,
    pub namespace: NamespaceId,
    pub window: XResourceId,
    pub handle: u64,
    pub damage: Vec<Rect>,
    pub window_generation: u64,
}

/// The size of a window's buffer: its geometry's extent.
pub open spec fn spec_window_size(record: XWindowRecord) -> Size {
    Size { width: record.geometry.width, height: record.geometry.height }
}

/// The runtime after drawing `draw` into `window`'s buffer: the store did
/// exactly that, and nothing else changed.
pub open spec fn spec_window_drawn(
    old: XAuthorityRuntime,
    new: XAuthorityRuntime,
    window: XResourceId,
    draw: spec_fn(XCpuBufferView) -> Seq<u8>,
    painted: Option<Rect>,
) -> bool {
    let size = spec_window_size(old.windows.view()[window]);
    &&& spec_drew(
        old.software_buffers,
        new.software_buffers,
        window,
        size,
        draw,
        painted,
        spec_draw_result(old.software_buffers, window, size, draw, painted),
    )
    &&& new == (XAuthorityRuntime { software_buffers: new.software_buffers, ..old })
}

/// The answer to a drawing the store answered with `drawn`: the update
/// under the new handle when pixels changed; otherwise nothing to present
/// (`quiet`) or a refusal of the request.
pub open spec fn spec_core_draw_answer(
    r: Result<Option<XCoreDrawUpdate>, XAuthorityRuntimeError>,
    drawn: Option<XAuthorityCpuDrawResult>,
    quiet: bool,
    transaction: TransactionId,
    namespace: NamespaceId,
    window: XResourceId,
    damage: Seq<Rect>,
    generation: u64,
) -> bool {
    match drawn {
        None => if quiet {
            r == Ok::<Option<XCoreDrawUpdate>, XAuthorityRuntimeError>(None)
        } else {
            r == Err::<Option<XCoreDrawUpdate>, XAuthorityRuntimeError>(XAuthorityRuntimeError::InvalidResource)
        },
        Some(u) => match r {
            Ok(Some(up)) => {
                &&& up.transaction == transaction
                &&& up.namespace == namespace
                &&& up.window == window
                &&& up.handle == u.handle
                &&& up.damage@ == damage
                &&& up.window_generation == generation
            },
            _ => false,
        },
    }
}

/// A point's coordinate along one axis.
pub open spec fn spec_coord(p: XPoint, horizontal: bool) -> int {
    if horizontal {
        p.x as int
    } else {
        p.y as int
    }
}

/// The least coordinate among the first `n` points.
pub open spec fn spec_coord_min(points: Seq<XPoint>, horizontal: bool, n: int) -> int
    decreases n,
{
    if n <= 1 {
        spec_coord(points[0], horizontal)
    } else {
        let m = spec_coord_min(points, horizontal, n - 1);
        let c = spec_coord(points[n - 1], horizontal);
        if c < m {
            c
        } else {
            m
        }
    }
}

/// The greatest coordinate among the first `n` points.
pub open spec fn spec_coord_max(points: Seq<XPoint>, horizontal: bool, n: int) -> int
    decreases n,
{
    if n <= 1 {
        spec_coord(points[0], horizontal)
    } else {
        let m = spec_coord_max(points, horizontal, n - 1);
        let c = spec_coord(points[n - 1], horizontal);
        if c > m {
            c
        } else {
            m
        }
    }
}

/// The damage a polyline reports: from its least corner, the span of its
/// points widened by the line width (at least one pixel).
pub open spec fn spec_line_damage(points: Seq<XPoint>, line_width: u16) -> Rect {
    let n = points.len() as int;
    let w = spec_line_width(line_width) as int;
    let x0 = spec_coord_min(points, true, n);
    let y0 = spec_coord_min(points, false, n);
    Rect {
        x: x0 as i32,
        y: y0 as i32,
        width: (spec_coord_max(points, true, n) - x0 + w) as i32,
        height: (spec_coord_max(points, false, n) - y0 + w) as i32,
    }
}

/// Computes `spec_line_damage`.
pub fn line_damage(points: &[XPoint], line_width: u16) -> (r: Rect)
    requires
        points@.len() >= 1,
    ensures
        r == spec_line_damage(points@, line_width),
{
    let mut min_x: i16 = points[0].x;
    let mut min_y: i16 = points[0].y;
    let mut max_x: i16 = points[0].x;
    let mut max_y: i16 = points[0].y;
    let mut i: usize = 1;
    while i < points.len()
        invariant
            1 <= i <= points@.len(),
            min_x == spec_coord_min(points@, true, i as int),
            min_y == spec_coord_min(points@, false, i as int),
            max_x == spec_coord_max(points@, true, i as int),
            max_y == spec_coord_max(points@, false, i as int),
        decreases points@.len() - i,
    {
        let p = points[i];
        if p.x < min_x {
            min_x = p.x;
        }
        if p.y < min_y {
            min_y = p.y;
        }
        if p.x > max_x {
            max_x = p.x;
        }
        if p.y > max_y {
            max_y = p.y;
        }
        i = i + 1;
    }
    let w: i32 = if line_width >= 1 {
        line_width as i32
    } else {
        1
    };
    Rect {
        x: min_x as i32,
        y: min_y as i32,
        width: max_x as i32 - min_x as i32 + w,
        height: max_y as i32 - min_y as i32 + w,
    }
}

impl XAuthorityRuntime {
    /// The size and generation of a window's record, or `UnknownResource`.
    fn drawing_target(&self, window: XResourceId) -> (r: Result<(Size, u64), XAuthorityRuntimeError>)
        requires
            self.wf(),
        ensures
            match r {
                Ok((size, generation)) => {
                    &&& self.windows.view().contains_key(window)
                    &&& size == spec_window_size(self.windows.view()[window])
                    &&& generation == self.windows.view()[window].generation
                },
                Err(e) => !self.windows.view().contains_key(window) && e == XAuthorityRuntimeError::UnknownResource,
            },
    {
        match self.windows.get(window) {
            None => Err(XAuthorityRuntimeError::UnknownResource),
            Some(rec) => Ok((Size { width: rec.geometry.width, height: rec.geometry.height }, rec.generation)),
        }
    }

    /// Fills the damage with the default context's foreground.
    pub fn apply_core_draw(&mut self, transaction: TransactionId, namespace: NamespaceId, window: XResourceId, damage: Region) -> (r:
        Result<Option<XCoreDrawUpdate>, XAuthorityRuntimeError>)
        requires
            old(self).wf(),
        ensures
            final(self).wf(),
            !old(self).windows.view().contains_key(window) ==> r == Err::<Option<XCoreDrawUpdate>, XAuthorityRuntimeError>(
                XAuthorityRuntimeError::UnknownResource,
            ) && *final(self) == *old(self),
            old(self).windows.view().contains_key(window) ==> {
                let draw = spec_paint_drawing(damage.rects@, spec_default_gc_values());
                let painted = spec_union_rects(damage.rects@);
                let size = spec_window_size(old(self).windows.view()[window]);
                &&& spec_window_drawn(*old(self), *final(self), window, draw, painted)
                &&& spec_core_draw_answer(
                    r,
                    spec_draw_result(old(self).software_buffers, window, size, draw, painted),
                    false,
                    transaction,
                    namespace,
                    window,
                    damage.rects@,
                    old(self).windows.view()[window].generation,
                )
            },
    {
        let gc = XGraphicsContextValues::default();
        self.apply_core_draw_with_gc(transaction, namespace, window, damage, &gc)
    }

    /// Fills each damage rectangle with the context's foreground; refuses
    /// the request when the buffer cannot be had or nothing changed.
    pub fn apply_core_draw_with_gc(
        &mut self,
        transaction: TransactionId,
        namespace: NamespaceId,
        window: XResourceId,
        damage: Region,
        gc: &XGraphicsContextValues,
    ) -> (r: Result<Option<XCoreDrawUpdate>, XAuthorityRuntimeError>)
        requires
            old(self).wf(),
        ensures
            final(self).wf(),
            !old(self).windows.view().contains_key(window) ==> r == Err::<Option<XCoreDrawUpdate>, XAuthorityRuntimeError>(
                XAuthorityRuntimeError::UnknownResource,
            ) && *final(self) == *old(self),
            old(self).windows.view().contains_key(window) ==> {
                let draw = spec_paint_drawing(damage.rects@, gc@);
                let painted = spec_union_rects(damage.rects@);
                let size = spec_window_size(old(self).windows.view()[window]);
                &&& spec_window_drawn(*old(self), *final(self), window, draw, painted)
                &&& spec_core_draw_answer(
                    r,
                    spec_draw_result(old(self).software_buffers, window, size, draw, painted),
                    false,
                    transaction,
                    namespace,
                    window,
                    damage.rects@,
                    old(self).windows.view()[window].generation,
                )
            },
    {
        let (size, generation) = match self.drawing_target(window) {
            Err(e) => {
                return Err(e);
            },
            Ok(t) => t,
        };
        let ghost pre = *self;
        let drawn = self.software_buffers.paint_damage(window, size, damage.rects.as_slice(), gc);
        proof {
            lemma_drew_result(
                pre.software_buffers,
                self.software_buffers,
                window,
                size,
                spec_paint_drawing(damage.rects@, gc@),
                spec_union_rects(damage.rects@),
                drawn,
            );
        }
        match drawn {
            None => Err(XAuthorityRuntimeError::InvalidResource),
            Some(u) => Ok(
                Some(
                    XCoreDrawUpdate {
                        transaction,
                        namespace,
                        window,
                        handle: u.handle,
                        damage: damage.rects,
                        window_generation: generation,
                    },
                ),
            ),
        }
    }

    /// Draws a line through each consecutive pair of points; answers the
    /// span of the points as damage, and nothing to present when no pixel
    /// changed.
    pub fn apply_line_draw(
        &mut self,
        transaction: TransactionId,
        namespace: NamespaceId,
        window: XResourceId,
        points: &[XPoint],
        gc: &XGraphicsContextValues,
    ) -> (r: Result<Option<XCoreDrawUpdate>, XAuthorityRuntimeError>)
        requires
            old(self).wf(),
        ensures
            final(self).wf(),
            !old(self).windows.view().contains_key(window) ==> r == Err::<Option<XCoreDrawUpdate>, XAuthorityRuntimeError>(
                XAuthorityRuntimeError::UnknownResource,
            ) && *final(self) == *old(self),
            old(self).windows.view().contains_key(window) && points@.len() == 0 ==> r == Ok::<
                Option<XCoreDrawUpdate>,
                XAuthorityRuntimeError,
            >(None) && *final(self) == *old(self),
            old(self).windows.view().contains_key(window) && points@.len() > 0 ==> {
                let draw = spec_polyline_drawing(points@, gc@);
                let painted = spec_point_bounds(points@, gc.line_width);
                let size = spec_window_size(old(self).windows.view()[window]);
                &&& spec_window_drawn(*old(self), *final(self), window, draw, painted)
                &&& spec_core_draw_answer(
                    r,
                    spec_draw_result(old(self).software_buffers, window, size, draw, painted),
                    true,
                    transaction,
                    namespace,
                    window,
                    seq![spec_line_damage(points@, gc.line_width)],
                    old(self).windows.view()[window].generation,
                )
            },
    {
        let (size, generation) = match self.drawing_target(window) {
            Err(e) => {
                return Err(e);
            },
            Ok(t) => t,
        };
        if points.len() == 0 {
            return Ok(None);
        }
        let ghost pre = *self;
        let drawn = self.software_buffers.draw_lines(window, size, points, gc);
        proof {
            assert(spec_point_bounds(points@, gc.line_width) is Some) by {
                assert(spec_outline_bounds(
                    Seq::new(points@.len(), |i: int| Rect { x: points@[i].x as i32, y: points@[i].y as i32, width: 0, height: 0 }),
                    gc.line_width,
                ) is Some);
            }
            lemma_drew_result(
                pre.software_buffers,
                self.software_buffers,
                window,
                size,
                spec_polyline_drawing(points@, gc@),
                spec_point_bounds(points@, gc.line_width),
                drawn,
            );
        }
        match drawn {
            None => Ok(None),
            Some(u) => {
                let rect = line_damage(points, gc.line_width);
                let damage = vec![rect];
                proof {
                    assert(damage@ =~= seq![spec_line_damage(points@, gc.line_width)]);
                }
                Ok(
                    Some(
                        XCoreDrawUpdate {
                            transaction,
                            namespace,
                            window,
                            handle: u.handle,
                            damage,
                            window_generation: generation,
                        },
                    ),
                )
            },
        }
    }

    /// Outlines each rectangle; answers the box the outlines cover as
    /// damage, and nothing to present when no pixel changed.
    pub fn apply_rectangle_draw(
        &mut self,
        transaction: TransactionId,
        namespace: NamespaceId,
        window: XResourceId,
        rectangles: &[Rect],
        gc: &XGraphicsContextValues,
    ) -> (r: Result<Option<XCoreDrawUpdate>, XAuthorityRuntimeError>)
        requires
            old(self).wf(),
        ensures
            final(self).wf(),
            !old(self).windows.view().contains_key(window) ==> r == Err::<Option<XCoreDrawUpdate>, XAuthorityRuntimeError>(
                XAuthorityRuntimeError::UnknownResource,
            ) && *final(self) == *old(self),
            old(self).windows.view().contains_key(window) && spec_outline_bounds(rectangles@, gc.line_width) is None
                ==> r == Ok::<Option<XCoreDrawUpdate>, XAuthorityRuntimeError>(None) && *final(self) == *old(self),
            old(self).windows.view().contains_key(window) && spec_outline_bounds(rectangles@, gc.line_width) is Some
                ==> {
                let bounds = spec_outline_bounds(rectangles@, gc.line_width)->Some_0;
                let draw = spec_outline_drawing(rectangles@, gc@);
                let size = spec_window_size(old(self).windows.view()[window]);
                &&& spec_window_drawn(*old(self), *final(self), window, draw, Some(bounds))
                &&& spec_core_draw_answer(
                    r,
                    spec_draw_result(old(self).software_buffers, window, size, draw, Some(bounds)),
                    true,
                    transaction,
                    namespace,
                    window,
                    seq![bounds],
                    old(self).windows.view()[window].generation,
                )
            },
    {
        let (size, generation) = match self.drawing_target(window) {
            Err(e) => {
                return Err(e);
            },
            Ok(t) => t,
        };
        let ghost pre = *self;
        let drawn = self.software_buffers.draw_rectangles(window, size, rectangles, gc);
        proof {
            if spec_outline_bounds(rectangles@, gc.line_width) is Some {
                lemma_drew_result(
                    pre.software_buffers,
                    self.software_buffers,
                    window,
                    size,
                    spec_outline_drawing(rectangles@, gc@),
                    spec_outline_bounds(rectangles@, gc.line_width),
                    match drawn {
                        Some(p) => Some(p.0),
                        None => None,
                    },
                );
            }
        }
        match drawn {
            None => Ok(None),
            Some((u, bounds)) => {
                let damage = vec![bounds];
                proof {
                    assert(damage@ =~= seq![bounds]);
                }
                Ok(
                    Some(
                        XCoreDrawUpdate {
                            transaction,
                            namespace,
                            window,
                            handle: u.handle,
                            damage,
                            window_generation: generation,
                        },
                    ),
                )
            },
        }
    }

    /// Clears the first damage rectangle to black.
    pub fn apply_clear(&mut self, transaction: TransactionId, namespace: NamespaceId, window: XResourceId, damage: Region) -> (r:
        Result<Option<XCoreDrawUpdate>, XAuthorityRuntimeError>)
        requires
            old(self).wf(),
        ensures
            final(self).wf(),
            !old(self).windows.view().contains_key(window) ==> r == Err::<Option<XCoreDrawUpdate>, XAuthorityRuntimeError>(
                XAuthorityRuntimeError::UnknownResource,
            ) && *final(self) == *old(self),
            old(self).windows.view().contains_key(window) && damage.rects@.len() == 0 ==> r == Ok::<
                Option<XCoreDrawUpdate>,
                XAuthorityRuntimeError,
            >(None) && *final(self) == *old(self),
            old(self).windows.view().contains_key(window) && damage.rects@.len() > 0 ==> {
                let rect = damage.rects@[0];
                let draw = spec_clear_drawing(rect, 0);
                let size = spec_window_size(old(self).windows.view()[window]);
                &&& spec_window_drawn(*old(self), *final(self), window, draw, Some(rect))
                &&& spec_core_draw_answer(
                    r,
                    spec_draw_result(old(self).software_buffers, window, size, draw, Some(rect)),
                    false,
                    transaction,
                    namespace,
                    window,
                    damage.rects@,
                    old(self).windows.view()[window].generation,
                )
            },
    {
        self.apply_clear_with_pixel(transaction, namespace, window, damage, 0)
    }

    /// Clears the first damage rectangle to `pixel`; answers the whole
    /// damage, nothing for no damage, and a refusal when the buffer cannot
    /// be had or nothing changed.
    pub fn apply_clear_with_pixel(
        &mut self,
        transaction: TransactionId,
        namespace: NamespaceId,
        window: XResourceId,
        damage: Region,
        pixel: u32,
    ) -> (r: Result<Option<XCoreDrawUpdate>, XAuthorityRuntimeError>)
        requires
            old(self).wf(),
        ensures
            final(self).wf(),
            !old(self).windows.view().contains_key(window) ==> r == Err::<Option<XCoreDrawUpdate>, XAuthorityRuntimeError>(
                XAuthorityRuntimeError::UnknownResource,
            ) && *final(self) == *old(self),
            old(self).windows.view().contains_key(window) && damage.rects@.len() == 0 ==> r == Ok::<
                Option<XCoreDrawUpdate>,
                XAuthorityRuntimeError,
            >(None) && *final(self) == *old(self),
            old(self).windows.view().contains_key(window) && damage.rects@.len() > 0 ==> {
                let rect = damage.rects@[0];
                let draw = spec_clear_drawing(rect, pixel);
                let size = spec_window_size(old(self).windows.view()[window]);
                &&& spec_window_drawn(*old(self), *final(self), window, draw, Some(rect))
                &&& spec_core_draw_answer(
                    r,
                    spec_draw_result(old(self).software_buffers, window, size, draw, Some(rect)),
                    false,
                    transaction,
                    namespace,
                    window,
                    damage.rects@,
                    old(self).windows.view()[window].generation,
                )
            },
    {
        let (size, generation) = match self.drawing_target(window) {
            Err(e) => {
                return Err(e);
            },
            Ok(t) => t,
        };
        if damage.rects.len() == 0 {
            return Ok(None);
        }
        let rect = damage.rects[0];
        let ghost pre = *self;
        let drawn = self.software_buffers.clear(window, size, rect, pixel);
        proof {
            lemma_drew_result(
                pre.software_buffers,
                self.software_buffers,
                window,
                size,
                spec_clear_drawing(rect, pixel),
                Some(rect),
                drawn,
            );
        }
        match drawn {
            None => Err(XAuthorityRuntimeError::InvalidResource),
            Some(u) => Ok(
                Some(
                    XCoreDrawUpdate {
                        transaction,
                        namespace,
                        window,
                        handle: u.handle,
                        damage: damage.rects,
                        window_generation: generation,
                    },
                ),
            ),
        }
    }
}

} // verus!
