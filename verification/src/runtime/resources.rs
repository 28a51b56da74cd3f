use vstd::prelude::*;

use crate::gc::{XFontFace, copy_rects};
use crate::geometry::{Rect, Region, Size, sat_add_i32, saturating_add_i32};
use crate::runtime::devices::DRM_FORMAT_ARGB8888;
use crate::software::spec_clamp;
use crate::ids::{NamespaceId, XResourceId};
use crate::resources::{XAuthorityRuntimeError, XResourceKind, XResourceRecord, spec_insert_error};
use crate::runtime::{XAuthorityRuntime, XPixmapRecord, XRegionRecord, XShmPixmapBinding};
use crate::runtime::windows::spec_shm_lookup;
use crate::runtime::retained::{spec_backing_id, spec_glx_bound_count, spec_rewired};
use crate::runtime::XRetainedPixmapBacking;
use crate::software::store::XCpuBufferView;

verus! {

/// The most bytes one CPU-backed drawable may hold.
pub const X_AUTHORITY_SOFTWARE_BUFFER_MAX_BYTES: usize = 0x400_0000;

/// The depths the connection setup lists pixmap formats for.
pub open spec fn spec_pixmap_depth_supported(depth: u8) -> bool {
    depth == 1 || depth == 4 || depth == 8 || depth == 15 || depth == 16 || depth == 24 || depth
        == 32
}

pub fn pixmap_depth_supported(depth: u8) -> (r: bool)
    ensures
        r == spec_pixmap_depth_supported(depth),
{
    depth == 1 || depth == 4 || depth == 8 || depth == 15 || depth == 16 || depth == 24 || depth
        == 32
}

/// The bytes a CPU pixmap of `size` takes at four bytes a pixel, when it
/// has area and fits the bound.
pub open spec fn spec_software_pixmap_byte_len(size: Size) -> Option<usize> {
    if size.width <= 0 || size.height <= 0 {
        None
    } else if size.width * size.height * 4 > X_AUTHORITY_SOFTWARE_BUFFER_MAX_BYTES {
        None
    } else {
        Some((size.width * size.height * 4) as usize)
    }
}

pub fn software_pixmap_byte_len(size: Size) -> (r: Option<usize>)
    ensures
        r == spec_software_pixmap_byte_len(size),
{
    if size.width <= 0 || size.height <= 0 {
        return None;
    }
    let w: u64 = size.width as u64;
    let h: u64 = size.height as u64;
    proof {
        assert(w * h <= 0x7fff_ffff * 0x7fff_ffff) by (nonlinear_arith)
            requires
                w <= 0x7fff_ffff,
                h <= 0x7fff_ffff,
        ;
    }
    let area = w * h;
    if area > (X_AUTHORITY_SOFTWARE_BUFFER_MAX_BYTES / 4) as u64 {
        return None;
    }
    Some((area * 4) as usize)
}

/// The most rectangles a present request's update region may carry.
pub const X_AUTHORITY_PRESENT_REGION_MAX_RECTS: usize = 2048;

/// The X depth a DRI3-imported format reports back: 32 for ARGB8888, 24
/// for anything else, the inverse of the depth and bits-per-pixel to
/// format mapping an import applies.
pub fn dri3_depth_of(format: u32) -> (r: u8)
    ensures
        r == if format == DRM_FORMAT_ARGB8888 {
            32u8
        } else {
            24u8
        },
{
    if format == DRM_FORMAT_ARGB8888 {
        32
    } else {
        24
    }
}

/// The part of `rect` inside a drawable of `size`, when it has area.
pub open spec fn spec_clipped_present_rect(size: Size, rect: Rect) -> Option<Rect> {
    let left = spec_clamp(rect.x as int, 0, size.width as int);
    let top = spec_clamp(rect.y as int, 0, size.height as int);
    let right = spec_clamp(sat_add_i32(rect.x as int, rect.width as int), 0, size.width as int);
    let bottom = spec_clamp(sat_add_i32(rect.y as int, rect.height as int), 0, size.height as int);
    if right > left && bottom > top {
        Some(Rect { x: left as i32, y: top as i32, width: (right - left) as i32, height: (bottom - top) as i32 })
    } else {
        None
    }
}

fn clamp_i32(v: i32, lo: i32, hi: i32) -> (r: i32)
    ensures
        r == spec_clamp(v as int, lo as int, hi as int),
{
    let a = if v < lo {
        lo
    } else {
        v
    };
    if a > hi {
        hi
    } else {
        a
    }
}

pub fn clipped_present_rect(size: Size, rect: Rect) -> (r: Option<Rect>)
    ensures
        r == spec_clipped_present_rect(size, rect),
{
    let left = clamp_i32(rect.x, 0, size.width);
    let top = clamp_i32(rect.y, 0, size.height);
    let right = clamp_i32(saturating_add_i32(rect.x, rect.width), 0, size.width);
    let bottom = clamp_i32(saturating_add_i32(rect.y, rect.height), 0, size.height);
    if right > left && bottom > top {
        proof {
            assert(0 <= left && 0 <= top);
        }
        Some(Rect { x: left, y: top, width: right - left, height: bottom - top })
    } else {
        None
    }
}

/// The clipped parts with area of the first `n` rectangles, in order.
pub open spec fn spec_clipped_present_rects(size: Size, rects: Seq<Rect>, n: int) -> Seq<Rect>
    decreases n,
{
    if n <= 0 {
        Seq::empty()
    } else {
        let before = spec_clipped_present_rects(size, rects, n - 1);
        match spec_clipped_present_rect(size, rects[n - 1]) {
            Some(r) => before.push(r),
            None => before,
        }
    }
}

/// The damage a present request names in its source: nothing when the
/// update region carries more rectangles than the bound; the clipped parts
/// with area of its rectangles when it has one; the whole source when not.
pub open spec fn spec_present_source_damage(size: Size, update: Option<Seq<Rect>>) -> Option<Seq<Rect>> {
    match update {
        Some(rects) => if rects.len() > X_AUTHORITY_PRESENT_REGION_MAX_RECTS {
            None
        } else {
            Some(spec_clipped_present_rects(size, rects, rects.len() as int))
        },
        None => Some(seq![Rect { x: 0, y: 0, width: size.width, height: size.height }]),
    }
}

pub fn present_source_damage(size: Size, update: Option<&Region>) -> (r: Option<Vec<Rect>>)
    ensures
        match r {
            Some(v) => spec_present_source_damage(
                size,
                match update {
                    Some(g) => Some(g.rects@),
                    None => None,
                },
            ) == Some(v@),
            None => spec_present_source_damage(
                size,
                match update {
                    Some(g) => Some(g.rects@),
                    None => None,
                },
            ) is None,
        },
{
    match update {
        Some(region) => {
            if region.rects.len() > X_AUTHORITY_PRESENT_REGION_MAX_RECTS {
                return None;
            }
            let mut out: Vec<Rect> = Vec::new();
            let mut k: usize = 0;
            while k < region.rects.len()
                invariant
                    k <= region.rects@.len(),
                    out@ == spec_clipped_present_rects(size, region.rects@, k as int),
                decreases region.rects@.len() - k,
            {
                match clipped_present_rect(size, region.rects[k]) {
                    Some(r) => out.push(r),
                    None => {},
                }
                k = k + 1;
            }
            Some(out)
        },
        None => {
            let mut out: Vec<Rect> = Vec::new();
            out.push(Rect { x: 0, y: 0, width: size.width, height: size.height });
            proof {
                assert(out@ =~= seq![Rect { x: 0, y: 0, width: size.width, height: size.height }]);
            }
            Some(out)
        },
    }
}

/// Each rectangle moved by the offsets, saturating, its extent kept.
pub open spec fn spec_translated(rects: Seq<Rect>, dx: int, dy: int) -> Seq<Rect> {
    Seq::new(
        rects.len(),
        |k: int|
            Rect {
                x: sat_add_i32(rects[k].x as int, dx) as i32,
                y: sat_add_i32(rects[k].y as int, dy) as i32,
                width: rects[k].width,
                height: rects[k].height,
            },
    )
}

pub fn translated_present_damage(source: &[Rect], x_offset: i16, y_offset: i16) -> (r: Region)
    ensures
        r.rects@ == spec_translated(source@, x_offset as int, y_offset as int),
{
    let mut rects: Vec<Rect> = Vec::new();
    let mut k: usize = 0;
    while k < source.len()
        invariant
            k <= source@.len(),
            rects@ == spec_translated(source@, x_offset as int, y_offset as int).subrange(0, k as int),
        decreases source@.len() - k,
    {
        let r = source[k];
        rects.push(
            Rect {
                x: saturating_add_i32(r.x, x_offset as i32),
                y: saturating_add_i32(r.y, y_offset as i32),
                width: r.width,
                height: r.height,
            },
        );
        k = k + 1;
        proof {
            assert(rects@ =~= spec_translated(source@, x_offset as int, y_offset as int).subrange(0, k as int));
        }
    }
    proof {
        assert(rects@ =~= spec_translated(source@, x_offset as int, y_offset as int));
    }
    Region { rects }
}

impl XAuthorityRuntime {
    /// Registers a resource and runs `then` only when it registered.
    pub open spec fn spec_registered(
        &self,
        next: &XAuthorityRuntime,
        id: XResourceId,
        kind: XResourceKind,
        namespace: NamespaceId,
        generation: u64,
    ) -> bool {
        next.resources.view() == self.resources.view().insert(
            id,
            XResourceRecord { id, kind, owner_namespace: namespace, generation },
        )
    }

    pub fn create_pixmap(
        &mut self,
        namespace: NamespaceId,
        pixmap: XResourceId,
        size: Size,
        depth: u8,
        generation: u64,
    ) -> (r: Result<(), XAuthorityRuntimeError>)
        requires
            old(self).wf(),
        ensures
            final(self).wf(),
            size.width <= 0 || size.height <= 0 || !spec_pixmap_depth_supported(depth) ==> r == Err::<
                (),
                XAuthorityRuntimeError,
            >(XAuthorityRuntimeError::InvalidResource) && *final(self) == *old(self),
            !(size.width <= 0 || size.height <= 0 || !spec_pixmap_depth_supported(depth)) ==> match spec_insert_error(
                old(self).resources.view(),
                pixmap,
                namespace,
            ) {
                Some(e) => r == Err::<(), XAuthorityRuntimeError>(e) && *final(self) == *old(self),
                None => {
                    &&& r is Ok
                    &&& old(self).spec_registered(
                        final(self),
                        pixmap,
                        XResourceKind::Pixmap,
                        namespace,
                        generation,
                    )
                    &&& final(self).pixmaps.view() == old(self).pixmaps.view().insert(
                        pixmap,
                        XPixmapRecord { size, depth },
                    )
                    &&& *final(self) == (XAuthorityRuntime {
                        resources: final(self).resources,
                        pixmaps: final(self).pixmaps,
                        ..*old(self)
                    })
                },
            },
    {
        if size.width <= 0 || size.height <= 0 || !pixmap_depth_supported(depth) {
            return Err(XAuthorityRuntimeError::InvalidResource);
        }
        match self.resources.check_insert(pixmap, namespace) {
            Some(e) => {
                return Err(e);
            },
            None => {},
        }
        let _ = self.resources.insert(pixmap, XResourceKind::Pixmap, namespace, generation);
        self.pixmaps.insert(pixmap, XPixmapRecord { size, depth });
        Ok(())
    }

    /// Frees a pixmap of this namespace with its MIT-SHM binding and its
    /// CPU pixels. While GLX pixmaps still bind it, its backing is kept
    /// under a private key first (see `retain_freed_pixmap`), and a failure
    /// to keep it refuses the free.
    pub fn free_pixmap(&mut self, namespace: NamespaceId, pixmap: XResourceId) -> (r: Result<
        (),
        XAuthorityRuntimeError,
    >)
        requires
            old(self).wf(),
        ensures
            final(self).wf(),
            match old(self).spec_access(namespace, pixmap, XResourceKind::Pixmap) {
                Some(e) => r == Err::<(), XAuthorityRuntimeError>(e) && *final(self) == *old(self),
                None => {
                    let n = spec_glx_bound_count(
                        old(self).glx_drawables.entries@,
                        pixmap,
                        old(self).glx_drawables.entries@.len() as int,
                    );
                    if n > 0 && !old(self).pixmaps.view().contains_key(pixmap) {
                        r == Err::<(), XAuthorityRuntimeError>(XAuthorityRuntimeError::UnknownResource)
                            && *final(self) == *old(self)
                    } else if n > 0 && old(self).spec_backing_key(old(self).next_render_backing) is None {
                        r == Err::<(), XAuthorityRuntimeError>(XAuthorityRuntimeError::InvalidResource)
                            && *final(self) == (XAuthorityRuntime { next_render_backing: u64::MAX, ..*old(self) })
                    } else {
                        &&& r is Ok
                        &&& final(self).resources.view() == old(self).resources.view().remove(pixmap)
                        &&& final(self).pixmaps.view() == old(self).pixmaps.view().remove(pixmap)
                        &&& final(self).shm_pixmaps.view() == old(self).shm_pixmaps.view().remove(pixmap)
                        &&& final(self).software_buffers.presentations.view() == old(self).software_buffers.presentations.view().remove(pixmap)
                        &&& final(self).software_buffers.next_handle == old(self).software_buffers.next_handle
                        &&& final(self).software_buffers.export_damage == old(self).software_buffers.export_damage
                        &&& n == 0 ==> {
                            &&& final(self).software_buffers.buffers.view() == old(self).software_buffers.buffers.view().remove(pixmap)
                            &&& final(self).retained_pixmap_backings == old(self).retained_pixmap_backings
                            &&& final(self).glx_drawables == old(self).glx_drawables
                            &&& final(self).next_render_backing == old(self).next_render_backing
                        }
                        &&& n > 0 ==> {
                            let k = old(self).spec_backing_key(old(self).next_render_backing)->Some_0;
                            let key = spec_backing_id(k);
                            &&& final(self).next_render_backing == k + 1
                            &&& final(self).retained_pixmap_backings.view() == old(self).retained_pixmap_backings.view().insert(
                                key,
                                XRetainedPixmapBacking {
                                    namespace,
                                    pixmap: old(self).pixmaps.view()[pixmap],
                                    glx_pixmaps: n as u64,
                                },
                            )
                            &&& final(self).glx_drawables.view() == spec_rewired(
                                old(self).glx_drawables.view(),
                                pixmap,
                                key,
                            )
                            &&& old(self).software_buffers.buffers.view().contains_key(pixmap) ==> {
                                &&& final(self).software_buffers.buffers.view() == old(self).software_buffers.buffers.view().remove(pixmap).insert(
                                    key,
                                    final(self).software_buffers.buffers.view()[key],
                                )
                                &&& final(self).software_buffers.buffers.view()[key]@ == (XCpuBufferView {
                                    drawable: key,
                                    ..old(self).software_buffers.buffers.view()[pixmap]@
                                })
                            }
                            &&& !old(self).software_buffers.buffers.view().contains_key(pixmap) ==> final(self).software_buffers.buffers.view() == old(self).software_buffers.buffers.view()
                        }
                        &&& *final(self) == (XAuthorityRuntime {
                            resources: final(self).resources,
                            pixmaps: final(self).pixmaps,
                            shm_pixmaps: final(self).shm_pixmaps,
                            software_buffers: final(self).software_buffers,
                            retained_pixmap_backings: final(self).retained_pixmap_backings,
                            glx_drawables: final(self).glx_drawables,
                            next_render_backing: final(self).next_render_backing,
                            ..*old(self)
                        })
                    }
                },
            },
    {
        match self.access(namespace, pixmap, XResourceKind::Pixmap) {
            Err(e) => {
                return Err(e);
            },
            Ok(()) => {},
        }
        let ghost s0 = self.software_buffers;
        match self.retain_freed_pixmap(namespace, pixmap) {
            Err(e) => {
                return Err(e);
            },
            Ok(_) => {},
        }
        let ghost s1 = self.software_buffers;
        self.resources.remove(pixmap);
        self.pixmaps.remove(&pixmap);
        self.shm_pixmaps.remove(&pixmap);
        let _ = self.software_buffers.remove(pixmap);
        proof {
            old(self).lemma_backing_key_below_last(old(self).next_render_backing);
            if s0.buffers.view().contains_key(pixmap) && s1 != s0 {
                let k = old(self).spec_backing_key(old(self).next_render_backing)->Some_0;
                assert(spec_backing_id(k) != pixmap);
                assert(self.software_buffers.buffers.view() =~= s0.buffers.view().remove(pixmap).insert(
                    spec_backing_id(k),
                    self.software_buffers.buffers.view()[spec_backing_id(k)],
                ));
            }
        }
        Ok(())
    }

    /// Creates a pixmap bound to a MIT-SHM segment's memory at `offset`;
    /// `segment_len` is the length the segment is mapped with.
    pub fn create_shm_pixmap(
        &mut self,
        namespace: NamespaceId,
        pixmap: XResourceId,
        size: Size,
        depth: u8,
        generation: u64,
        segment: XResourceId,
        offset: u32,
        segment_len: usize,
    ) -> (r: Result<(), XAuthorityRuntimeError>)
        requires
            old(self).wf(),
        ensures
            final(self).wf(),
            r is Err ==> *final(self) == *old(self),
            spec_software_pixmap_byte_len(size) is None || offset + spec_software_pixmap_byte_len(
                size,
            ).unwrap() > X_AUTHORITY_SOFTWARE_BUFFER_MAX_BYTES ==> r == Err::<
                (),
                XAuthorityRuntimeError,
            >(XAuthorityRuntimeError::InvalidResource),
            spec_software_pixmap_byte_len(size) is Some && offset + spec_software_pixmap_byte_len(
                size,
            ).unwrap() <= X_AUTHORITY_SOFTWARE_BUFFER_MAX_BYTES ==> match spec_shm_lookup(
                old(self).shm_segments.view(),
                namespace,
                segment,
            ) {
                Err(e) => r == Err::<(), XAuthorityRuntimeError>(e),
                Ok(_) => if offset + spec_software_pixmap_byte_len(size).unwrap() > segment_len {
                    r == Err::<(), XAuthorityRuntimeError>(XAuthorityRuntimeError::InvalidResource)
                } else if !spec_pixmap_depth_supported(depth) {
                    r == Err::<(), XAuthorityRuntimeError>(XAuthorityRuntimeError::InvalidResource)
                } else {
                    match spec_insert_error(old(self).resources.view(), pixmap, namespace) {
                        Some(e) => r == Err::<(), XAuthorityRuntimeError>(e),
                        None => {
                            &&& r is Ok
                            &&& old(self).spec_registered(
                                final(self),
                                pixmap,
                                XResourceKind::Pixmap,
                                namespace,
                                generation,
                            )
                            &&& final(self).pixmaps.view() == old(self).pixmaps.view().insert(
                                pixmap,
                                XPixmapRecord { size, depth },
                            )
                            &&& final(self).shm_pixmaps.view() == old(self).shm_pixmaps.view().insert(
                                pixmap,
                                XShmPixmapBinding { segment, offset, size },
                            )
                            &&& *final(self) == (XAuthorityRuntime {
                                resources: final(self).resources,
                                pixmaps: final(self).pixmaps,
                                shm_pixmaps: final(self).shm_pixmaps,
                                ..*old(self)
                            })
                        },
                    }
                },
            },
    {
        let byte_len = match software_pixmap_byte_len(size) {
            None => {
                return Err(XAuthorityRuntimeError::InvalidResource);
            },
            Some(n) => n,
        };
        if offset as usize > X_AUTHORITY_SOFTWARE_BUFFER_MAX_BYTES - byte_len {
            return Err(XAuthorityRuntimeError::InvalidResource);
        }
        let end = offset as usize + byte_len;
        match self.validate_shm_segment_access(namespace, segment) {
            Err(e) => {
                return Err(e);
            },
            Ok(()) => {},
        }
        if end > segment_len {
            return Err(XAuthorityRuntimeError::InvalidResource);
        }
        match self.create_pixmap(namespace, pixmap, size, depth, generation) {
            Err(e) => {
                return Err(e);
            },
            Ok(()) => {},
        }
        self.shm_pixmaps.insert(pixmap, XShmPixmapBinding { segment, offset, size });
        Ok(())
    }

    pub fn validate_pixmap_access(&self, namespace: NamespaceId, pixmap: XResourceId) -> (r: Result<
        (),
        XAuthorityRuntimeError,
    >)
        requires
            self.wf(),
        ensures
            match self.spec_access(namespace, pixmap, XResourceKind::Pixmap) {
                Some(e) => r == Err::<(), XAuthorityRuntimeError>(e),
                None => r is Ok,
            },
    {
        self.access(namespace, pixmap, XResourceKind::Pixmap)
    }

    /// A pixmap of this namespace, by its record.
    pub open spec fn spec_pixmap(&self, namespace: NamespaceId, pixmap: XResourceId) -> Result<
        XPixmapRecord,
        XAuthorityRuntimeError,
    > {
        match self.spec_access(namespace, pixmap, XResourceKind::Pixmap) {
            Some(e) => Err(e),
            None => if self.pixmaps.view().contains_key(pixmap) {
                Ok(self.pixmaps.view()[pixmap])
            } else {
                Err(XAuthorityRuntimeError::UnknownResource)
            },
        }
    }

    pub fn pixmap_geometry(&self, namespace: NamespaceId, pixmap: XResourceId) -> (r: Result<
        (Size, u8),
        XAuthorityRuntimeError,
    >)
        requires
            self.wf(),
        ensures
            r == match self.spec_pixmap(namespace, pixmap) {
                Ok(p) => Ok::<(Size, u8), XAuthorityRuntimeError>((p.size, p.depth)),
                Err(e) => Err(e),
            },
    {
        match self.access(namespace, pixmap, XResourceKind::Pixmap) {
            Err(e) => {
                return Err(e);
            },
            Ok(()) => {},
        }
        match self.pixmaps.get(&pixmap) {
            Some(p) => Ok((p.size, p.depth)),
            None => Err(XAuthorityRuntimeError::UnknownResource),
        }
    }

    pub fn pixmap_size(&self, namespace: NamespaceId, pixmap: XResourceId) -> (r: Result<
        Size,
        XAuthorityRuntimeError,
    >)
        requires
            self.wf(),
        ensures
            r == match self.spec_pixmap(namespace, pixmap) {
                Ok(p) => Ok::<Size, XAuthorityRuntimeError>(p.size),
                Err(e) => Err(e),
            },
    {
        match self.pixmap_geometry(namespace, pixmap) {
            Ok((size, _)) => Ok(size),
            Err(e) => Err(e),
        }
    }

    pub fn pixmap_depth(&self, namespace: NamespaceId, pixmap: XResourceId) -> (r: Result<
        u8,
        XAuthorityRuntimeError,
    >)
        requires
            self.wf(),
        ensures
            r == match self.spec_pixmap(namespace, pixmap) {
                Ok(p) => Ok::<u8, XAuthorityRuntimeError>(p.depth),
                Err(e) => Err(e),
            },
    {
        match self.pixmap_geometry(namespace, pixmap) {
            Ok((_, depth)) => Ok(depth),
            Err(e) => Err(e),
        }
    }

    /// The next buffer handle the authority may originate; never zero.
    pub fn next_dma_buf_handle(&self) -> (r: u64)
        ensures
            r == if self.next_dma_buf_handle == 0 {
                1
            } else {
                self.next_dma_buf_handle
            },
    {
        if self.next_dma_buf_handle == 0 {
            1
        } else {
            self.next_dma_buf_handle
        }
    }

    pub fn create_xfixes_region(
        &mut self,
        namespace: NamespaceId,
        region: XResourceId,
        rectangles: Vec<Rect>,
        generation: u64,
    ) -> (r: Result<(), XAuthorityRuntimeError>)
        requires
            old(self).wf(),
        ensures
            final(self).wf(),
            match spec_insert_error(old(self).resources.view(), region, namespace) {
                Some(e) => r == Err::<(), XAuthorityRuntimeError>(e) && *final(self) == *old(self),
                None => {
                    &&& r is Ok
                    &&& old(self).spec_registered(
                        final(self),
                        region,
                        XResourceKind::Region,
                        namespace,
                        generation,
                    )
                    &&& final(self).xfixes_regions.view().dom() == old(self).xfixes_regions.view().dom().insert(region)
                    &&& final(self).xfixes_regions.view().remove(region) == old(self).xfixes_regions.view().remove(region)
                    &&& final(self).xfixes_regions.view()[region].rects@ == rectangles@
                    &&& *final(self) == (XAuthorityRuntime {
                        resources: final(self).resources,
                        xfixes_regions: final(self).xfixes_regions,
                        ..*old(self)
                    })
                },
            },
    {
        match self.resources.check_insert(region, namespace) {
            Some(e) => {
                return Err(e);
            },
            None => {},
        }
        let _ = self.resources.insert(region, XResourceKind::Region, namespace, generation);
        let ghost pre = self.xfixes_regions.view();
        self.xfixes_regions.insert(region, XRegionRecord { rects: rectangles });
        proof {
            assert(self.xfixes_regions.view().dom() =~= pre.dom().insert(region));
            assert(self.xfixes_regions.view().remove(region) =~= pre.remove(region));
        }
        Ok(())
    }

    pub fn validate_xfixes_region_access(&self, namespace: NamespaceId, region: XResourceId) -> (r:
        Result<(), XAuthorityRuntimeError>)
        requires
            self.wf(),
        ensures
            match self.spec_access(namespace, region, XResourceKind::Region) {
                Some(e) => r == Err::<(), XAuthorityRuntimeError>(e),
                None => r is Ok,
            },
    {
        self.access(namespace, region, XResourceKind::Region)
    }

    /// Replaces a region's rectangles.
    pub fn set_xfixes_region(
        &mut self,
        namespace: NamespaceId,
        region: XResourceId,
        rectangles: Vec<Rect>,
    ) -> (r: Result<(), XAuthorityRuntimeError>)
        requires
            old(self).wf(),
        ensures
            final(self).wf(),
            match old(self).spec_access(namespace, region, XResourceKind::Region) {
                Some(e) => r == Err::<(), XAuthorityRuntimeError>(e) && *final(self) == *old(self),
                None => {
                    &&& r is Ok
                    &&& final(self).xfixes_regions.view().dom() == old(self).xfixes_regions.view().dom().insert(region)
                    &&& final(self).xfixes_regions.view().remove(region) == old(self).xfixes_regions.view().remove(region)
                    &&& final(self).xfixes_regions.view()[region].rects@ == rectangles@
                    &&& *final(self) == (XAuthorityRuntime {
                        xfixes_regions: final(self).xfixes_regions,
                        ..*old(self)
                    })
                },
            },
    {
        match self.access(namespace, region, XResourceKind::Region) {
            Err(e) => {
                return Err(e);
            },
            Ok(()) => {},
        }
        let ghost pre = self.xfixes_regions.view();
        self.xfixes_regions.insert(region, XRegionRecord { rects: rectangles });
        proof {
            assert(self.xfixes_regions.view().dom() =~= pre.dom().insert(region));
            assert(self.xfixes_regions.view().remove(region) =~= pre.remove(region));
        }
        Ok(())
    }

    pub fn destroy_xfixes_region(&mut self, namespace: NamespaceId, region: XResourceId) -> (r:
        Result<(), XAuthorityRuntimeError>)
        requires
            old(self).wf(),
        ensures
            final(self).wf(),
            match old(self).spec_access(namespace, region, XResourceKind::Region) {
                Some(e) => r == Err::<(), XAuthorityRuntimeError>(e) && *final(self) == *old(self),
                None => {
                    &&& r is Ok
                    &&& final(self).resources.view() == old(self).resources.view().remove(region)
                    &&& final(self).xfixes_regions.view() == old(self).xfixes_regions.view().remove(
                        region,
                    )
                    &&& *final(self) == (XAuthorityRuntime {
                        resources: final(self).resources,
                        xfixes_regions: final(self).xfixes_regions,
                        ..*old(self)
                    })
                },
            },
    {
        match self.access(namespace, region, XResourceKind::Region) {
            Err(e) => {
                return Err(e);
            },
            Ok(()) => {},
        }
        self.resources.remove(region);
        self.xfixes_regions.remove(&region);
        Ok(())
    }

    /// A copy of a region's rectangles.
    pub fn xfixes_region_snapshot(&self, namespace: NamespaceId, region: XResourceId) -> (r: Result<
        Region,
        XAuthorityRuntimeError,
    >)
        requires
            self.wf(),
        ensures
            match self.spec_access(namespace, region, XResourceKind::Region) {
                Some(e) => r == Err::<Region, XAuthorityRuntimeError>(e),
                None => if self.xfixes_regions.view().contains_key(region) {
                    r is Ok && r->Ok_0.rects@ == self.xfixes_regions.view()[region].rects@
                } else {
                    r == Err::<Region, XAuthorityRuntimeError>(XAuthorityRuntimeError::UnknownResource)
                },
            },
    {
        match self.access(namespace, region, XResourceKind::Region) {
            Err(e) => {
                return Err(e);
            },
            Ok(()) => {},
        }
        match self.xfixes_regions.get(&region) {
            Some(rec) => Ok(Region { rects: copy_rects(&rec.rects) }),
            None => Err(XAuthorityRuntimeError::UnknownResource),
        }
    }

    /// Replaces `destination` with two regions combined. The operands are
    /// read before anything is written, so the destination may name either.
    pub fn combine_xfixes_regions<F: Fn(&[Rect], &[Rect]) -> Vec<Rect>>(
        &mut self,
        namespace: NamespaceId,
        source: XResourceId,
        other: XResourceId,
        destination: XResourceId,
        combine: F,
    ) -> (r: Result<(), XAuthorityRuntimeError>)
        requires
            old(self).wf(),
            forall|a: &[Rect], b: &[Rect]| #[trigger] combine.requires((a, b)),
        ensures
            final(self).wf(),
            r is Err ==> *final(self) == *old(self),
            old(self).spec_access(namespace, source, XResourceKind::Region) is Some ==> r == Err::<
                (),
                XAuthorityRuntimeError,
            >(old(self).spec_access(namespace, source, XResourceKind::Region).unwrap()),
            old(self).spec_access(namespace, source, XResourceKind::Region) is None && old(self).spec_access(namespace, other, XResourceKind::Region) is Some ==> r == Err::<
                (),
                XAuthorityRuntimeError,
            >(old(self).spec_access(namespace, other, XResourceKind::Region).unwrap()),
            old(self).spec_access(namespace, source, XResourceKind::Region) is None && old(self).spec_access(namespace, other, XResourceKind::Region) is None && old(self).spec_access(
                namespace,
                destination,
                XResourceKind::Region,
            ) is Some ==> r == Err::<(), XAuthorityRuntimeError>(
                old(self).spec_access(namespace, destination, XResourceKind::Region).unwrap(),
            ),
            r is Ok ==> {
                &&& old(self).xfixes_regions.view().contains_key(source)
                &&& old(self).xfixes_regions.view().contains_key(other)
                &&& exists|a: &[Rect], b: &[Rect], out: Vec<Rect>|
                    a@ == old(self).xfixes_regions.view()[source].rects@ && b@ == old(self).xfixes_regions.view()[other].rects@ && #[trigger] combine.ensures((a, b), out)
                        && final(self).xfixes_regions.view()[destination].rects@ == out@
                &&& final(self).xfixes_regions.view().dom() == old(self).xfixes_regions.view().dom().insert(destination)
                &&& final(self).xfixes_regions.view().remove(destination) == old(self).xfixes_regions.view().remove(destination)
                &&& *final(self) == (XAuthorityRuntime {
                    xfixes_regions: final(self).xfixes_regions,
                    ..*old(self)
                })
            },
            old(self).spec_access(namespace, source, XResourceKind::Region) is None && old(self).spec_access(namespace, other, XResourceKind::Region) is None && old(self).spec_access(
                namespace,
                destination,
                XResourceKind::Region,
            ) is None && old(self).xfixes_regions.view().contains_key(source) && old(self).xfixes_regions.view().contains_key(other) ==> r is Ok,
    {
        match self.access(namespace, source, XResourceKind::Region) {
            Err(e) => {
                return Err(e);
            },
            Ok(()) => {},
        }
        match self.access(namespace, other, XResourceKind::Region) {
            Err(e) => {
                return Err(e);
            },
            Ok(()) => {},
        }
        match self.access(namespace, destination, XResourceKind::Region) {
            Err(e) => {
                return Err(e);
            },
            Ok(()) => {},
        }
        let left = match self.xfixes_region_snapshot(namespace, source) {
            Err(e) => {
                return Err(e);
            },
            Ok(region) => region.rects,
        };
        let right = match self.xfixes_region_snapshot(namespace, other) {
            Err(e) => {
                return Err(e);
            },
            Ok(region) => region.rects,
        };
        let rects = combine(left.as_slice(), right.as_slice());
        let ghost pre = self.xfixes_regions.view();
        self.xfixes_regions.insert(destination, XRegionRecord { rects });
        proof {
            assert(self.xfixes_regions.view().dom() =~= pre.dom().insert(destination));
            assert(self.xfixes_regions.view().remove(destination) =~= pre.remove(destination));
        }
        Ok(())
    }

    pub fn create_dri3_fence(&mut self, namespace: NamespaceId, fence: XResourceId, generation: u64) -> (r:
        Result<u64, XAuthorityRuntimeError>)
        requires
            old(self).wf(),
        ensures
            final(self).wf(),
            match spec_insert_error(old(self).resources.view(), fence, namespace) {
                Some(e) => r == Err::<u64, XAuthorityRuntimeError>(e) && *final(self) == *old(self),
                None => {
                    let handle: u64 = if old(self).next_fence_handle == 0 {
                        1
                    } else {
                        old(self).next_fence_handle
                    };
                    &&& r == Ok::<u64, XAuthorityRuntimeError>(handle)
                    &&& old(self).spec_registered(
                        final(self),
                        fence,
                        XResourceKind::Fence,
                        namespace,
                        generation,
                    )
                    &&& final(self).dri3_fences.view() == old(self).dri3_fences.view().insert(
                        fence,
                        handle,
                    )
                    &&& final(self).next_fence_handle == if handle == u64::MAX {
                        u64::MAX
                    } else {
                        (handle + 1) as u64
                    }
                    &&& *final(self) == (XAuthorityRuntime {
                        resources: final(self).resources,
                        dri3_fences: final(self).dri3_fences,
                        next_fence_handle: final(self).next_fence_handle,
                        ..*old(self)
                    })
                },
            },
    {
        match self.resources.check_insert(fence, namespace) {
            Some(e) => {
                return Err(e);
            },
            None => {},
        }
        let _ = self.resources.insert(fence, XResourceKind::Fence, namespace, generation);
        let handle: u64 = if self.next_fence_handle == 0 {
            1
        } else {
            self.next_fence_handle
        };
        self.next_fence_handle = if handle == u64::MAX {
            u64::MAX
        } else {
            handle + 1
        };
        self.dri3_fences.insert(fence, handle);
        Ok(handle)
    }

    pub fn validate_dri3_fence_access(&self, namespace: NamespaceId, fence: XResourceId) -> (r:
        Result<(), XAuthorityRuntimeError>)
        requires
            self.wf(),
        ensures
            match self.spec_access(namespace, fence, XResourceKind::Fence) {
                Some(e) => r == Err::<(), XAuthorityRuntimeError>(e),
                None => r is Ok,
            },
    {
        self.access(namespace, fence, XResourceKind::Fence)
    }

    pub fn dri3_fence_handle(&self, namespace: NamespaceId, fence: XResourceId) -> (r: Result<
        u64,
        XAuthorityRuntimeError,
    >)
        requires
            self.wf(),
        ensures
            r == match self.spec_access(namespace, fence, XResourceKind::Fence) {
                Some(e) => Err(e),
                None => if self.dri3_fences.view().contains_key(fence) {
                    Ok::<u64, XAuthorityRuntimeError>(self.dri3_fences.view()[fence])
                } else {
                    Err(XAuthorityRuntimeError::UnknownResource)
                },
            },
    {
        match self.access(namespace, fence, XResourceKind::Fence) {
            Err(e) => {
                return Err(e);
            },
            Ok(()) => {},
        }
        match self.dri3_fences.get(&fence) {
            Some(h) => Ok(*h),
            None => Err(XAuthorityRuntimeError::UnknownResource),
        }
    }

    pub fn destroy_dri3_fence(&mut self, namespace: NamespaceId, fence: XResourceId) -> (r: Result<
        u64,
        XAuthorityRuntimeError,
    >)
        requires
            old(self).wf(),
        ensures
            final(self).wf(),
            match old(self).spec_access(namespace, fence, XResourceKind::Fence) {
                Some(e) => r == Err::<u64, XAuthorityRuntimeError>(e) && *final(self) == *old(self),
                None => {
                    &&& r == if old(self).dri3_fences.view().contains_key(fence) {
                        Ok::<u64, XAuthorityRuntimeError>(old(self).dri3_fences.view()[fence])
                    } else {
                        Err(XAuthorityRuntimeError::UnknownResource)
                    }
                    &&& final(self).resources.view() == old(self).resources.view().remove(fence)
                    &&& final(self).dri3_fences.view() == old(self).dri3_fences.view().remove(fence)
                    &&& *final(self) == (XAuthorityRuntime {
                        resources: final(self).resources,
                        dri3_fences: final(self).dri3_fences,
                        ..*old(self)
                    })
                },
            },
    {
        match self.access(namespace, fence, XResourceKind::Fence) {
            Err(e) => {
                return Err(e);
            },
            Ok(()) => {},
        }
        self.resources.remove(fence);
        match self.dri3_fences.remove(&fence) {
            Some(h) => Ok(h),
            None => Err(XAuthorityRuntimeError::UnknownResource),
        }
    }

    /// Opens a font with the built-in fixed face.
    pub fn open_font(&mut self, namespace: NamespaceId, font: XResourceId, generation: u64) -> (r:
        Result<(), XAuthorityRuntimeError>)
        requires
            old(self).wf(),
        ensures
            final(self).wf(),
            match spec_insert_error(old(self).resources.view(), font, namespace) {
                Some(e) => r == Err::<(), XAuthorityRuntimeError>(e) && *final(self) == *old(self),
                None => {
                    &&& r is Ok
                    &&& old(self).spec_registered(
                        final(self),
                        font,
                        XResourceKind::Font,
                        namespace,
                        generation,
                    )
                    &&& final(self).fonts.view() == old(self).fonts.view().insert(
                        font,
                        XFontFace { ascent: 11, descent: 2, advance: 6 },
                    )
                    &&& *final(self) == (XAuthorityRuntime {
                        resources: final(self).resources,
                        fonts: final(self).fonts,
                        ..*old(self)
                    })
                },
            },
    {
        self.open_font_face(namespace, font, XFontFace::default(), generation)
    }

    /// Opens a font with a given face.
    pub fn open_font_face(
        &mut self,
        namespace: NamespaceId,
        font: XResourceId,
        face: XFontFace,
        generation: u64,
    ) -> (r: Result<(), XAuthorityRuntimeError>)
        requires
            old(self).wf(),
        ensures
            final(self).wf(),
            match spec_insert_error(old(self).resources.view(), font, namespace) {
                Some(e) => r == Err::<(), XAuthorityRuntimeError>(e) && *final(self) == *old(self),
                None => {
                    &&& r is Ok
                    &&& old(self).spec_registered(
                        final(self),
                        font,
                        XResourceKind::Font,
                        namespace,
                        generation,
                    )
                    &&& final(self).fonts.view() == old(self).fonts.view().insert(font, face)
                    &&& *final(self) == (XAuthorityRuntime {
                        resources: final(self).resources,
                        fonts: final(self).fonts,
                        ..*old(self)
                    })
                },
            },
    {
        match self.resources.check_insert(font, namespace) {
            Some(e) => {
                return Err(e);
            },
            None => {},
        }
        let _ = self.resources.insert(font, XResourceKind::Font, namespace, generation);
        self.fonts.insert(font, face);
        Ok(())
    }

    pub fn close_font(&mut self, namespace: NamespaceId, font: XResourceId) -> (r: Result<
        (),
        XAuthorityRuntimeError,
    >)
        requires
            old(self).wf(),
        ensures
            final(self).wf(),
            match old(self).spec_access(namespace, font, XResourceKind::Font) {
                Some(e) => r == Err::<(), XAuthorityRuntimeError>(e) && *final(self) == *old(self),
                None => {
                    &&& r is Ok
                    &&& final(self).resources.view() == old(self).resources.view().remove(font)
                    &&& final(self).fonts.view() == old(self).fonts.view().remove(font)
                    &&& *final(self) == (XAuthorityRuntime {
                        resources: final(self).resources,
                        fonts: final(self).fonts,
                        ..*old(self)
                    })
                },
            },
    {
        match self.access(namespace, font, XResourceKind::Font) {
            Err(e) => {
                return Err(e);
            },
            Ok(()) => {},
        }
        self.resources.remove(font);
        self.fonts.remove(&font);
        Ok(())
    }

    pub fn validate_font_access(&self, namespace: NamespaceId, font: XResourceId) -> (r: Result<
        (),
        XAuthorityRuntimeError,
    >)
        requires
            self.wf(),
        ensures
            match self.spec_access(namespace, font, XResourceKind::Font) {
                Some(e) => r == Err::<(), XAuthorityRuntimeError>(e),
                None => r is Ok,
            },
    {
        self.access(namespace, font, XResourceKind::Font)
    }

    /// The face of a font of this namespace.
    pub open spec fn spec_font_face(&self, namespace: NamespaceId, font: XResourceId) -> Result<
        XFontFace,
        XAuthorityRuntimeError,
    > {
        match self.spec_access(namespace, font, XResourceKind::Font) {
            Some(e) => Err(e),
            None => if self.fonts.view().contains_key(font) {
                Ok(self.fonts.view()[font])
            } else {
                Err(XAuthorityRuntimeError::UnknownResource)
            },
        }
    }

    pub fn font_face(&self, namespace: NamespaceId, font: XResourceId) -> (r: Result<
        XFontFace,
        XAuthorityRuntimeError,
    >)
        requires
            self.wf(),
        ensures
            r == self.spec_font_face(namespace, font),
    {
        match self.access(namespace, font, XResourceKind::Font) {
            Err(e) => {
                return Err(e);
            },
            Ok(()) => {},
        }
        match self.fonts.get(&font) {
            Some(f) => Ok(*f),
            None => Err(XAuthorityRuntimeError::UnknownResource),
        }
    }

    pub fn create_cursor(&mut self, namespace: NamespaceId, cursor: XResourceId, generation: u64) -> (r:
        Result<(), XAuthorityRuntimeError>)
        requires
            old(self).wf(),
        ensures
            final(self).wf(),
            match spec_insert_error(old(self).resources.view(), cursor, namespace) {
                Some(e) => r == Err::<(), XAuthorityRuntimeError>(e) && *final(self) == *old(self),
                None => {
                    &&& r is Ok
                    &&& old(self).spec_registered(
                        final(self),
                        cursor,
                        XResourceKind::Cursor,
                        namespace,
                        generation,
                    )
                    &&& *final(self) == (XAuthorityRuntime {
                        resources: final(self).resources,
                        ..*old(self)
                    })
                },
            },
    {
        match self.resources.check_insert(cursor, namespace) {
            Some(e) => Err(e),
            None => self.resources.insert(cursor, XResourceKind::Cursor, namespace, generation),
        }
    }

    /// Frees a cursor and the RENDER image it carried, if any.
    pub fn free_cursor(&mut self, namespace: NamespaceId, cursor: XResourceId) -> (r: Result<
        (),
        XAuthorityRuntimeError,
    >)
        requires
            old(self).wf(),
        ensures
            final(self).wf(),
            match old(self).spec_access(namespace, cursor, XResourceKind::Cursor) {
                Some(e) => r == Err::<(), XAuthorityRuntimeError>(e) && *final(self) == *old(self),
                None => {
                    &&& r is Ok
                    &&& final(self).resources.view() == old(self).resources.view().remove(cursor)
                    &&& final(self).render_cursor_images.view() == old(self).render_cursor_images.view().remove(cursor)
                    &&& *final(self) == (XAuthorityRuntime {
                        resources: final(self).resources,
                        render_cursor_images: final(self).render_cursor_images,
                        ..*old(self)
                    })
                },
            },
    {
        match self.access(namespace, cursor, XResourceKind::Cursor) {
            Err(e) => {
                return Err(e);
            },
            Ok(()) => {},
        }
        self.resources.remove(cursor);
        self.render_cursor_images.remove(&cursor);
        Ok(())
    }

    pub fn validate_cursor_access(&self, namespace: NamespaceId, cursor: XResourceId) -> (r: Result<
        (),
        XAuthorityRuntimeError,
    >)
        requires
            self.wf(),
        ensures
            match self.spec_access(namespace, cursor, XResourceKind::Cursor) {
                Some(e) => r == Err::<(), XAuthorityRuntimeError>(e),
                None => r is Ok,
            },
    {
        self.access(namespace, cursor, XResourceKind::Cursor)
    }
}

} // verus!
