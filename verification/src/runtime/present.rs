//! The decisions of a standard (non-flip) Present of a pixmap to a window:
//! which requests are refused, what damage the source names, where it lands
//! in the window that presents it, and which path the pixels take there.
//! Reading a SHM segment and compositing into the CPU buffer follow the
//! plan.
use vstd::prelude::*;

use crate::geometry::{Rect, Region, Size, sat_add_i32, saturating_add_i32};
use crate::ids::{NamespaceId, XResourceId};
use crate::resources::{XAuthorityRuntimeError, XResourceKind, spec_lookup};
use crate::runtime::XAuthorityRuntime;
use crate::runtime::core_draw::spec_window_size;
use crate::runtime::resources::{
    X_AUTHORITY_PRESENT_REGION_MAX_RECTS, present_source_damage, spec_present_source_damage, spec_translated,
    translated_present_damage,
};
use crate::window::spec_presentation_walk;

verus! {

/// The path a presented pixmap's pixels take.
#[derive(Clone, Copy, Debug, PartialEq, Eq, Structural)]
pub enum XPresentSource {
    /// The pixmap is a DRI3 buffer, shown under its DMA-BUF handle.
    DmaBuf { handle: u64 },
    /// The pixmap's pixels sit in a SHM segment, rows `stride` bytes apart,
    /// to be copied into its CPU backing before compositing.
    Shm { stride: usize },
    /// The pixmap's pixels are in its CPU backing already.
    Cpu,
}

/// What a standard Present does, decided before any pixel moves.
#[derive(Clone, Debug)]
pub struct XPresentPlan {
    /// The root child that presents the window.
    pub target_window: XResourceId,
    pub target_generation: u64,
    pub target_size: Size,
    /// The extent of the window the present was asked to fill.
    pub drawing_extent: Size,
    pub pixmap_size: Size,
    /// The damage in the pixmap's coordinates.
    pub source_damage: Vec<Rect>,
    /// The damage in the presenting window's coordinates.
    pub damage: Vec<Rect>,
    /// Where the pixmap's origin lands in the presenting window.
    pub destination_x: i32,
    pub destination_y: i32,
    pub source: XPresentSource,
}

/// A plan with its rectangle lists read as sequences.
pub struct XPresentPlanView {
    pub target_window: XResourceId,
    pub target_generation: u64,
    pub target_size: Size,
    pub drawing_extent: Size,
    pub pixmap_size: Size,
    pub source_damage: Seq<Rect>,
    pub damage: Seq<Rect>,
    pub destination_x: i32,
    pub destination_y: i32,
    pub source: XPresentSource,
}

impl View for XPresentPlan {
    type V = XPresentPlanView;

    open spec fn view(&self) -> XPresentPlanView {
        XPresentPlanView {
            target_window: self.target_window,
            target_generation: self.target_generation,
            target_size: self.target_size,
            drawing_extent: self.drawing_extent,
            pixmap_size: self.pixmap_size,
            source_damage: self.source_damage@,
            damage: self.damage@,
            destination_x: self.destination_x,
            destination_y: self.destination_y,
            source: self.source,
        }
    }
}

/// A region's rectangles, when there is a region.
pub open spec fn spec_region_rects(region: Option<Region>) -> Option<Seq<Rect>> {
    match region {
        Some(g) => Some(g.rects@),
        None => None,
    }
}

impl XAuthorityRuntime {
    /// The path the pixmap's pixels take: its DRI3 buffer when it has one,
    /// else its SHM binding (refused when a row's byte count does not fit),
    /// else its CPU backing.
    pub open spec fn spec_present_source(&self, pixmap: XResourceId, dri3_handle: Option<u64>) -> Result<
        XPresentSource,
        XAuthorityRuntimeError,
    > {
        match dri3_handle {
            Some(handle) => Ok(XPresentSource::DmaBuf { handle }),
            None => if self.shm_pixmaps.view().contains_key(pixmap) {
                let width = self.shm_pixmaps.view()[pixmap].size.width;
                if width < 0 || 4 * width > usize::MAX {
                    Err(XAuthorityRuntimeError::InvalidResource)
                } else {
                    Ok(XPresentSource::Shm { stride: (4 * width) as usize })
                }
            } else {
                Ok(XPresentSource::Cpu)
            },
        }
    }

    /// The plan of a standard Present, or the error it is refused with, in
    /// the order the checks run: the window of `namespace`, access to the
    /// pixmap, the valid region's bound, the pixmap's record, the update
    /// region, the window's presenting root child, the pixel path.
    pub open spec fn spec_present_plan(
        &self,
        namespace: NamespaceId,
        window: XResourceId,
        pixmap: XResourceId,
        x_offset: i16,
        y_offset: i16,
        valid: Option<Seq<Rect>>,
        update: Option<Seq<Rect>>,
        dri3_handle: Option<u64>,
    ) -> Result<XPresentPlanView, XAuthorityRuntimeError> {
        let wins = self.windows.view();
        if !(wins.contains_key(window) && wins[window].namespace == namespace) {
            Err(XAuthorityRuntimeError::UnknownResource)
        } else if self.spec_access(namespace, pixmap, XResourceKind::Pixmap) is Some {
            Err(self.spec_access(namespace, pixmap, XResourceKind::Pixmap)->Some_0)
        } else if valid is Some && valid->Some_0.len() > X_AUTHORITY_PRESENT_REGION_MAX_RECTS {
            Err(XAuthorityRuntimeError::InvalidResource)
        } else if !self.pixmaps.view().contains_key(pixmap) {
            Err(XAuthorityRuntimeError::UnknownResource)
        } else {
            let pixmap_size = self.pixmaps.view()[pixmap].size;
            match spec_present_source_damage(pixmap_size, update) {
                None => Err(XAuthorityRuntimeError::InvalidResource),
                Some(source_damage) => match spec_lookup(self.resources.view(), namespace, window, XResourceKind::Window) {
                    Err(e) => Err(e),
                    Ok(_) => match spec_presentation_walk(wins, window, 0, 0, wins.len()) {
                        Err(e) => Err(e),
                        Ok((root, child_x, child_y)) => match self.spec_present_source(pixmap, dri3_handle) {
                            Err(e) => Err(e),
                            Ok(source) => Ok(
                                XPresentPlanView {
                                    target_window: root,
                                    target_generation: wins[root].generation,
                                    target_size: spec_window_size(wins[root]),
                                    drawing_extent: spec_window_size(wins[window]),
                                    pixmap_size,
                                    source_damage,
                                    damage: spec_translated(
                                        spec_translated(source_damage, x_offset as int, y_offset as int),
                                        child_x,
                                        child_y,
                                    ),
                                    destination_x: sat_add_i32(child_x, x_offset as int) as i32,
                                    destination_y: sat_add_i32(child_y, y_offset as int) as i32,
                                    source,
                                },
                            ),
                        },
                    },
                },
            }
        }
    }

    fn present_source(&self, pixmap: XResourceId, dri3_handle: Option<u64>) -> (r: Result<
        XPresentSource,
        XAuthorityRuntimeError,
    >)
        requires
            self.wf(),
        ensures
            r == self.spec_present_source(pixmap, dri3_handle),
    {
        match dri3_handle {
            Some(handle) => Ok(XPresentSource::DmaBuf { handle }),
            None => match self.shm_pixmaps.get(&pixmap) {
                Some(binding) => {
                    if binding.size.width < 0 {
                        return Err(XAuthorityRuntimeError::InvalidResource);
                    }
                    match (binding.size.width as usize).checked_mul(4) {
                        Some(stride) => Ok(XPresentSource::Shm { stride }),
                        None => Err(XAuthorityRuntimeError::InvalidResource),
                    }
                },
                None => Ok(XPresentSource::Cpu),
            },
        }
    }

    /// Decides a standard Present of `pixmap` to `window` at the offsets:
    /// exactly `spec_present_plan`. `dri3_handle` is the DMA-BUF handle of
    /// the pixmap's DRI3 buffer, when it is one.
    pub fn plan_standard_present(
        &self,
        namespace: NamespaceId,
        window: XResourceId,
        pixmap: XResourceId,
        x_offset: i16,
        y_offset: i16,
        valid_region: Option<Region>,
        update_region: Option<Region>,
        dri3_handle: Option<u64>,
    ) -> (r: Result<XPresentPlan, XAuthorityRuntimeError>)
        requires
            self.wf(),
        ensures
            match r {
                Ok(p) => self.spec_present_plan(
                    namespace,
                    window,
                    pixmap,
                    x_offset,
                    y_offset,
                    spec_region_rects(valid_region),
                    spec_region_rects(update_region),
                    dri3_handle,
                ) == Ok::<XPresentPlanView, XAuthorityRuntimeError>(p@),
                Err(e) => self.spec_present_plan(
                    namespace,
                    window,
                    pixmap,
                    x_offset,
                    y_offset,
                    spec_region_rects(valid_region),
                    spec_region_rects(update_region),
                    dri3_handle,
                ) == Err::<XPresentPlanView, XAuthorityRuntimeError>(e),
            },
    {
        let drawing_extent = match self.windows.get(window) {
            Some(rec) => {
                if rec.namespace != namespace {
                    return Err(XAuthorityRuntimeError::UnknownResource);
                }
                Size { width: rec.geometry.width, height: rec.geometry.height }
            },
            None => {
                return Err(XAuthorityRuntimeError::UnknownResource);
            },
        };
        match self.access(namespace, pixmap, XResourceKind::Pixmap) {
            Err(e) => {
                return Err(e);
            },
            Ok(()) => {},
        }
        match &valid_region {
            Some(g) => {
                if g.rects.len() > X_AUTHORITY_PRESENT_REGION_MAX_RECTS {
                    return Err(XAuthorityRuntimeError::InvalidResource);
                }
            },
            None => {},
        }
        let pixmap_size = match self.pixmaps.get(&pixmap) {
            Some(p) => p.size,
            None => {
                return Err(XAuthorityRuntimeError::UnknownResource);
            },
        };
        let source = match &update_region {
            Some(g) => present_source_damage(pixmap_size, Some(g)),
            None => present_source_damage(pixmap_size, None),
        };
        let source_damage = match source {
            Some(s) => s,
            None => {
                return Err(XAuthorityRuntimeError::InvalidResource);
            },
        };
        let translated = translated_present_damage(source_damage.as_slice(), x_offset, y_offset);
        match self.resources.lookup(namespace, window, XResourceKind::Window) {
            Err(e) => {
                return Err(e);
            },
            Ok(_) => {},
        }
        let (root, child_x, child_y) = match self.windows.presentation_root_and_offset(window) {
            Err(e) => {
                return Err(e);
            },
            Ok(t) => t,
        };
        let (target_generation, target_size) = match self.windows.get(root) {
            Some(rec) => (rec.generation, Size { width: rec.geometry.width, height: rec.geometry.height }),
            None => {
                proof {
                    lemma_walk_ends_at_a_window(self.windows.view(), window, 0, 0, self.windows.view().len());
                }
                return Err(XAuthorityRuntimeError::UnknownResource);
            },
        };
        let source = match self.present_source(pixmap, dri3_handle) {
            Err(e) => {
                return Err(e);
            },
            Ok(s) => s,
        };
        let mut damage: Vec<Rect> = Vec::new();
        let mut k: usize = 0;
        while k < translated.rects.len()
            invariant
                k <= translated.rects@.len(),
                damage@ == spec_translated(translated.rects@, child_x as int, child_y as int).subrange(0, k as int),
            decreases translated.rects@.len() - k,
        {
            let t = translated.rects[k];
            damage.push(
                Rect {
                    x: saturating_add_i32(t.x, child_x),
                    y: saturating_add_i32(t.y, child_y),
                    width: t.width,
                    height: t.height,
                },
            );
            k = k + 1;
            proof {
                assert(damage@ =~= spec_translated(translated.rects@, child_x as int, child_y as int).subrange(
                    0,
                    k as int,
                ));
            }
        }
        proof {
            assert(damage@ =~= spec_translated(translated.rects@, child_x as int, child_y as int));
            lemma_walk_ends_at_a_window(self.windows.view(), window, 0, 0, self.windows.view().len());
        }
        let plan = XPresentPlan {
            target_window: root,
            target_generation,
            target_size,
            drawing_extent,
            pixmap_size,
            source_damage,
            damage,
            destination_x: saturating_add_i32(child_x, x_offset as i32),
            destination_y: saturating_add_i32(child_y, y_offset as i32),
            source,
        };
        Ok(plan)
    }
}

/// A presentation walk that ends ends at a window of the map.
proof fn lemma_walk_ends_at_a_window(m: crate::window::WindowMap, cur: XResourceId, x: int, y: int, fuel: nat)
    ensures
        spec_presentation_walk(m, cur, x, y, fuel) matches Ok((root, _, _)) ==> m.contains_key(root),
    decreases fuel,
{
    if m.contains_key(cur) && !m[cur].parent.spec_is_root() && fuel > 0 {
        lemma_walk_ends_at_a_window(
            m,
            m[cur].parent,
            sat_add_i32(x, m[cur].geometry.x as int),
            sat_add_i32(y, m[cur].geometry.y as int),
            (fuel - 1) as nat,
        );
    }
}

} // verus!
