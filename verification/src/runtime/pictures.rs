use vstd::prelude::*;

use crate::gc::copy_rects;
use crate::geometry::{Rect, Size, sat_add_i32, saturating_add_i32};
use crate::ids::{NamespaceId, XResourceId};
use crate::render::{
    XRenderCursorImage, XRenderPictFormatKind, XRenderPictureFilter, XRenderPictureRecord,
    XRenderPictureValueSet, spec_format_depth, spec_format_of,
};
use crate::resources::{XResourceKind, XResourceRecord, spec_insert_error};
use crate::runtime::XAuthorityRuntime;

verus! {

/// Why a RENDER picture request was refused; RENDER has an error code for
/// each, and clients fall back by which one they get.
#[derive(Clone, Copy, Debug, PartialEq, Eq, Structural)]
pub enum XRenderPictureError {
    /// The drawable does not exist or belongs to another namespace.
    Drawable,
    /// The chosen picture id is already taken.
    IdInUse,
    /// The format id names no format this server offers.
    UnknownFormat,
    /// The format's depth is not the drawable's.
    DepthMismatch,
    /// A value outside what the protocol defines for its attribute.
    InvalidValue,
    /// An attribute this server declines by name (alpha maps, clip masks).
    RefusedAttribute,
    /// The picture does not exist or belongs to another namespace.
    UnknownPicture,
    /// A filter that takes no parameters, sent with some.
    ParameterMismatch,
}

/// The 16.16 identity matrix.
pub open spec fn spec_identity_transform() -> Seq<i32> {
    seq![65536i32, 0i32, 0i32, 0i32, 65536i32, 0i32, 0i32, 0i32, 65536i32]
}

/// The error a value set gives, if any.
pub open spec fn spec_picture_values_error(values: XRenderPictureValueSet) -> Option<XRenderPictureError> {
    if values.invalid_mask {
        Some(XRenderPictureError::InvalidValue)
    } else if values.refused_attribute {
        Some(XRenderPictureError::RefusedAttribute)
    } else if values.repeat is Some && values.repeat.unwrap() > 1 {
        Some(XRenderPictureError::InvalidValue)
    } else if values.component_alpha is Some && values.component_alpha.unwrap() > 1 {
        Some(XRenderPictureError::InvalidValue)
    } else {
        None
    }
}

/// What a picture record holds, lists read as sequences.
pub struct XRenderPictureView {
    pub drawable: XResourceId,
    pub drawable_is_window: bool,
    pub format: XRenderPictFormatKind,
    pub repeat: bool,
    pub clip_rects: Seq<Rect>,
    pub clip_x_origin: i16,
    pub clip_y_origin: i16,
    pub component_alpha: bool,
    pub transform: Option<Seq<i32>>,
    pub filter: XRenderPictureFilter,
}

impl View for XRenderPictureRecord {
    type V = XRenderPictureView;

    open spec fn view(&self) -> XRenderPictureView {
        XRenderPictureView {
            drawable: self.drawable,
            drawable_is_window: self.drawable_is_window,
            format: self.format,
            repeat: self.repeat,
            clip_rects: self.clip_rects@,
            clip_x_origin: self.clip_x_origin,
            clip_y_origin: self.clip_y_origin,
            component_alpha: self.component_alpha,
            transform: match self.transform {
                Some(m) => Some(m@),
                None => None,
            },
            filter: self.filter,
        }
    }
}

/// A record after a value set with no error: each attribute present takes
/// its value.
pub open spec fn spec_with_values(r: XRenderPictureView, values: XRenderPictureValueSet) -> XRenderPictureView {
    XRenderPictureView {
        repeat: match values.repeat {
            Some(v) => v == 1,
            None => r.repeat,
        },
        clip_x_origin: match values.clip_x_origin {
            Some(v) => v,
            None => r.clip_x_origin,
        },
        clip_y_origin: match values.clip_y_origin {
            Some(v) => v,
            None => r.clip_y_origin,
        },
        component_alpha: match values.component_alpha {
            Some(v) => v == 1,
            None => r.component_alpha,
        },
        ..r
    }
}

/// Applies a value set to a record, shared by create and change.
pub fn render_apply_picture_values(record: XRenderPictureRecord, values: &XRenderPictureValueSet) -> (r:
    Result<XRenderPictureRecord, XRenderPictureError>)
    ensures
        match spec_picture_values_error(*values) {
            Some(e) => r is Err && r->Err_0 == e,
            None => r is Ok && r->Ok_0@ == spec_with_values(record@, *values),
        },
{
    if values.invalid_mask {
        return Err(XRenderPictureError::InvalidValue);
    }
    if values.refused_attribute {
        return Err(XRenderPictureError::RefusedAttribute);
    }
    let mut record = record;
    match values.repeat {
        Some(v) => {
            if v > 1 {
                return Err(XRenderPictureError::InvalidValue);
            }
            record.repeat = v == 1;
        },
        None => {},
    }
    match values.clip_x_origin {
        Some(v) => {
            record.clip_x_origin = v;
        },
        None => {},
    }
    match values.clip_y_origin {
        Some(v) => {
            record.clip_y_origin = v;
        },
        None => {},
    }
    match values.component_alpha {
        Some(v) => {
            if v > 1 {
                return Err(XRenderPictureError::InvalidValue);
            }
            record.component_alpha = v == 1;
        },
        None => {},
    }
    Ok(record)
}

/// A picture's clip list moved to destination coordinates.
pub fn render_translated_clip(record: &XRenderPictureRecord) -> (r: Vec<Rect>)
    ensures
        r@.len() == record.clip_rects@.len(),
        forall|i: int|
            0 <= i < r@.len() ==> #[trigger] r@[i] == (Rect {
                x: sat_add_i32(record.clip_rects@[i].x as int, record.clip_x_origin as int) as i32,
                y: sat_add_i32(record.clip_rects@[i].y as int, record.clip_y_origin as int) as i32,
                width: record.clip_rects@[i].width,
                height: record.clip_rects@[i].height,
            }),
{
    let mut out: Vec<Rect> = Vec::new();
    let mut i: usize = 0;
    while i < record.clip_rects.len()
        invariant
            i <= record.clip_rects@.len(),
            out@.len() == i,
            forall|j: int|
                0 <= j < i ==> #[trigger] out@[j] == (Rect {
                    x: sat_add_i32(record.clip_rects@[j].x as int, record.clip_x_origin as int) as i32,
                    y: sat_add_i32(record.clip_rects@[j].y as int, record.clip_y_origin as int) as i32,
                    width: record.clip_rects@[j].width,
                    height: record.clip_rects@[j].height,
                }),
        decreases record.clip_rects@.len() - i,
    {
        let rect = record.clip_rects[i];
        out.push(
            Rect {
                x: saturating_add_i32(rect.x, record.clip_x_origin as i32),
                y: saturating_add_i32(rect.y, record.clip_y_origin as i32),
                width: rect.width,
                height: rect.height,
            },
        );
        i = i + 1;
    }
    out
}

/// A copy of a picture record.
pub fn copy_picture_record(record: &XRenderPictureRecord) -> (r: XRenderPictureRecord)
    ensures
        r@ == record@,
{
    XRenderPictureRecord {
        drawable: record.drawable,
        drawable_is_window: record.drawable_is_window,
        format: record.format,
        repeat: record.repeat,
        clip_rects: copy_rects(&record.clip_rects),
        clip_x_origin: record.clip_x_origin,
        clip_y_origin: record.clip_y_origin,
        component_alpha: record.component_alpha,
        transform: record.transform,
        filter: record.filter,
    }
}

impl XAuthorityRuntime {
    /// A picture of this namespace.
    pub open spec fn spec_picture(&self, namespace: NamespaceId, picture: XResourceId) -> Option<
        XRenderPictureRecord,
    > {
        if self.spec_access(namespace, picture, XResourceKind::Picture) is None
            && self.render_pictures.view().contains_key(picture) {
            Some(self.render_pictures.view()[picture])
        } else {
            None
        }
    }

    /// A copy of a picture of this namespace.
    pub fn render_picture_record(&self, namespace: NamespaceId, picture: XResourceId) -> (r: Result<
        XRenderPictureRecord,
        XRenderPictureError,
    >)
        requires
            self.wf(),
        ensures
            match self.spec_picture(namespace, picture) {
                None => r is Err && r->Err_0 == XRenderPictureError::UnknownPicture,
                Some(rec) => r is Ok && r->Ok_0@ == rec@,
            },
    {
        if self.access(namespace, picture, XResourceKind::Picture).is_err() {
            return Err(XRenderPictureError::UnknownPicture);
        }
        match self.render_pictures.get(&picture) {
            Some(rec) => Ok(copy_picture_record(rec)),
            None => Err(XRenderPictureError::UnknownPicture),
        }
    }

    /// The depth a picture over a drawable binds at, and whether the
    /// drawable is a window: a pixmap's own depth, else a window visual's.
    pub open spec fn spec_picture_target(&self, namespace: NamespaceId, drawable: XResourceId) -> (u8, bool) {
        match self.spec_pixmap(namespace, drawable) {
            Ok(p) => (p.depth, false),
            Err(_) => (self.spec_window_visual(drawable).0, true),
        }
    }

    /// Creates a picture over a drawable this namespace may draw into, in a
    /// format of the drawable's depth.
    pub fn render_create_picture(
        &mut self,
        namespace: NamespaceId,
        picture: XResourceId,
        drawable: XResourceId,
        format_id: u32,
        values: &XRenderPictureValueSet,
        generation: u64,
    ) -> (r: Result<(), XRenderPictureError>)
        requires
            old(self).wf(),
        ensures
            final(self).wf(),
            r is Err ==> *final(self) == *old(self),
            old(self).spec_drawable_access(namespace, drawable) is Some ==> r == Err::<
                (),
                XRenderPictureError,
            >(XRenderPictureError::Drawable),
            old(self).spec_drawable_access(namespace, drawable) is None && old(self).spec_id_in_use(picture)
                ==> r == Err::<(), XRenderPictureError>(XRenderPictureError::IdInUse),
            old(self).spec_drawable_access(namespace, drawable) is None && !old(self).spec_id_in_use(picture)
                ==> match spec_format_of(format_id) {
                None => r == Err::<(), XRenderPictureError>(XRenderPictureError::UnknownFormat),
                Some(format) => {
                    let (depth, is_window) = old(self).spec_picture_target(namespace, drawable);
                    if spec_format_depth(format) != depth {
                        r == Err::<(), XRenderPictureError>(XRenderPictureError::DepthMismatch)
                    } else {
                        match spec_picture_values_error(*values) {
                            Some(e) => r == Err::<(), XRenderPictureError>(e),
                            None => if spec_insert_error(old(self).resources.view(), picture, namespace) is Some {
                                r == Err::<(), XRenderPictureError>(XRenderPictureError::IdInUse)
                            } else {
                                &&& r is Ok
                                &&& final(self).resources.view() == old(self).resources.view().insert(
                                    picture,
                                    XResourceRecord {
                                        id: picture,
                                        kind: XResourceKind::Picture,
                                        owner_namespace: namespace,
                                        generation,
                                    },
                                )
                                &&& final(self).render_pictures.view().dom() == old(self).render_pictures.view().dom().insert(picture)
                                &&& final(self).render_pictures.view().remove(picture) == old(self).render_pictures.view().remove(picture)
                                &&& final(self).render_pictures.view()[picture]@ == spec_with_values(
                                    XRenderPictureView {
                                        drawable,
                                        drawable_is_window: is_window,
                                        format,
                                        repeat: false,
                                        clip_rects: Seq::empty(),
                                        clip_x_origin: 0,
                                        clip_y_origin: 0,
                                        component_alpha: false,
                                        transform: None,
                                        filter: XRenderPictureFilter::Nearest,
                                    },
                                    *values,
                                )
                                &&& *final(self) == (XAuthorityRuntime {
                                    resources: final(self).resources,
                                    render_pictures: final(self).render_pictures,
                                    ..*old(self)
                                })
                            },
                        }
                    }
                },
            },
    {
        if self.validate_drawable_access(namespace, drawable).is_err() {
            return Err(XRenderPictureError::Drawable);
        }
        if self.resource_id_in_use(picture) {
            return Err(XRenderPictureError::IdInUse);
        }
        let format = match XRenderPictFormatKind::from_format_id(format_id) {
            None => {
                return Err(XRenderPictureError::UnknownFormat);
            },
            Some(f) => f,
        };
        let (depth, drawable_is_window) = match self.pixmap_depth(namespace, drawable) {
            Ok(d) => (d, false),
            Err(_) => (self.window_visual(drawable).0, true),
        };
        if format.depth() != depth {
            return Err(XRenderPictureError::DepthMismatch);
        }
        let record = XRenderPictureRecord {
            drawable,
            drawable_is_window,
            format,
            repeat: false,
            clip_rects: Vec::new(),
            clip_x_origin: 0,
            clip_y_origin: 0,
            component_alpha: false,
            transform: None,
            filter: XRenderPictureFilter::Nearest,
        };
        let record = match render_apply_picture_values(record, values) {
            Err(e) => {
                return Err(e);
            },
            Ok(r) => r,
        };
        if self.resources.check_insert(picture, namespace).is_some() {
            return Err(XRenderPictureError::IdInUse);
        }
        let ghost pre = self.render_pictures.view();
        let _ = self.resources.insert(picture, XResourceKind::Picture, namespace, generation);
        self.render_pictures.insert(picture, record);
        proof {
            assert(self.render_pictures.view().dom() =~= pre.dom().insert(picture));
            assert(self.render_pictures.view().remove(picture) =~= pre.remove(picture));
        }
        Ok(())
    }

    /// Replaces a picture of this namespace with a record derived from it.
    fn replace_picture(&mut self, picture: XResourceId, record: XRenderPictureRecord)
        requires
            old(self).wf(),
            old(self).render_pictures.view().contains_key(picture),
        ensures
            final(self).wf(),
            final(self).render_pictures.view().dom() == old(self).render_pictures.view().dom(),
            final(self).render_pictures.view().remove(picture) == old(self).render_pictures.view().remove(picture),
            final(self).render_pictures.view()[picture] == record,
            *final(self) == (XAuthorityRuntime {
                render_pictures: final(self).render_pictures,
                ..*old(self)
            }),
    {
        let ghost pre = self.render_pictures.view();
        self.render_pictures.insert(picture, record);
        proof {
            assert(self.render_pictures.view().dom() =~= pre.dom());
            assert(self.render_pictures.view().remove(picture) =~= pre.remove(picture));
        }
    }

    /// `ChangePicture`: applies a value set to a picture of this namespace.
    pub fn render_change_picture(
        &mut self,
        namespace: NamespaceId,
        picture: XResourceId,
        values: &XRenderPictureValueSet,
    ) -> (r: Result<(), XRenderPictureError>)
        requires
            old(self).wf(),
        ensures
            final(self).wf(),
            r is Err ==> *final(self) == *old(self),
            match old(self).spec_picture(namespace, picture) {
                None => r == Err::<(), XRenderPictureError>(XRenderPictureError::UnknownPicture),
                Some(rec) => match spec_picture_values_error(*values) {
                    Some(e) => r == Err::<(), XRenderPictureError>(e),
                    None => {
                        &&& r is Ok
                        &&& final(self).render_pictures.view().dom() == old(self).render_pictures.view().dom()
                        &&& final(self).render_pictures.view().remove(picture) == old(self).render_pictures.view().remove(picture)
                        &&& final(self).render_pictures.view()[picture]@ == spec_with_values(
                            rec@,
                            *values,
                        )
                        &&& *final(self) == (XAuthorityRuntime {
                            render_pictures: final(self).render_pictures,
                            ..*old(self)
                        })
                    },
                },
            },
    {
        let record = match self.render_picture_record(namespace, picture) {
            Err(e) => {
                return Err(e);
            },
            Ok(r) => r,
        };
        let record = match render_apply_picture_values(record, values) {
            Err(e) => {
                return Err(e);
            },
            Ok(r) => r,
        };
        self.replace_picture(picture, record);
        Ok(())
    }

    pub fn render_set_picture_clip_rectangles(
        &mut self,
        namespace: NamespaceId,
        picture: XResourceId,
        clip_x_origin: i16,
        clip_y_origin: i16,
        rectangles: Vec<Rect>,
    ) -> (r: Result<(), XRenderPictureError>)
        requires
            old(self).wf(),
        ensures
            final(self).wf(),
            match old(self).spec_picture(namespace, picture) {
                None => r == Err::<(), XRenderPictureError>(XRenderPictureError::UnknownPicture)
                    && *final(self) == *old(self),
                Some(rec) => {
                    &&& r is Ok
                    &&& final(self).render_pictures.view().dom() == old(self).render_pictures.view().dom()
                    &&& final(self).render_pictures.view().remove(picture) == old(self).render_pictures.view().remove(picture)
                    &&& final(self).render_pictures.view()[picture]@ == (XRenderPictureView {
                        clip_x_origin,
                        clip_y_origin,
                        clip_rects: rectangles@,
                        ..rec@
                    })
                    &&& *final(self) == (XAuthorityRuntime {
                        render_pictures: final(self).render_pictures,
                        ..*old(self)
                    })
                },
            },
    {
        let mut record = match self.render_picture_record(namespace, picture) {
            Err(e) => {
                return Err(e);
            },
            Ok(r) => r,
        };
        record.clip_x_origin = clip_x_origin;
        record.clip_y_origin = clip_y_origin;
        record.clip_rects = rectangles;
        self.replace_picture(picture, record);
        Ok(())
    }

    /// Sets a picture's transform; the identity is stored as none, which
    /// keeps the integer sampling path.
    pub fn render_set_picture_transform(
        &mut self,
        namespace: NamespaceId,
        picture: XResourceId,
        matrix: [i32; 9],
    ) -> (r: Result<(), XRenderPictureError>)
        requires
            old(self).wf(),
        ensures
            final(self).wf(),
            match old(self).spec_picture(namespace, picture) {
                None => r == Err::<(), XRenderPictureError>(XRenderPictureError::UnknownPicture)
                    && *final(self) == *old(self),
                Some(rec) => {
                    &&& r is Ok
                    &&& final(self).render_pictures.view().dom() == old(self).render_pictures.view().dom()
                    &&& final(self).render_pictures.view().remove(picture) == old(self).render_pictures.view().remove(picture)
                    &&& final(self).render_pictures.view()[picture]@ == (XRenderPictureView {
                        transform: if matrix@ == spec_identity_transform() {
                            None
                        } else {
                            Some(matrix@)
                        },
                        ..rec@
                    })
                    &&& *final(self) == (XAuthorityRuntime {
                        render_pictures: final(self).render_pictures,
                        ..*old(self)
                    })
                },
            },
    {
        let mut record = match self.render_picture_record(namespace, picture) {
            Err(e) => {
                return Err(e);
            },
            Ok(r) => r,
        };
        let identity = matrix[0] == 65536 && matrix[1] == 0 && matrix[2] == 0 && matrix[3] == 0
            && matrix[4] == 65536 && matrix[5] == 0 && matrix[6] == 0 && matrix[7] == 0 && matrix[8]
            == 65536;
        proof {
            if identity {
                assert(matrix@ =~= spec_identity_transform());
            } else {
                assert(matrix@ != spec_identity_transform()) by {
                    if matrix@ == spec_identity_transform() {
                        assert(matrix@[0] == 65536 && matrix@[1] == 0 && matrix@[2] == 0);
                        assert(matrix@[3] == 0 && matrix@[4] == 65536 && matrix@[5] == 0);
                        assert(matrix@[6] == 0 && matrix@[7] == 0 && matrix@[8] == 65536);
                    }
                }
            }
        }
        record.transform = if identity {
            None
        } else {
            Some(matrix)
        };
        self.replace_picture(picture, record);
        Ok(())
    }

    pub fn render_set_picture_filter(
        &mut self,
        namespace: NamespaceId,
        picture: XResourceId,
        filter: XRenderPictureFilter,
    ) -> (r: Result<(), XRenderPictureError>)
        requires
            old(self).wf(),
        ensures
            final(self).wf(),
            match old(self).spec_picture(namespace, picture) {
                None => r == Err::<(), XRenderPictureError>(XRenderPictureError::UnknownPicture)
                    && *final(self) == *old(self),
                Some(rec) => {
                    &&& r is Ok
                    &&& final(self).render_pictures.view().dom() == old(self).render_pictures.view().dom()
                    &&& final(self).render_pictures.view().remove(picture) == old(self).render_pictures.view().remove(picture)
                    &&& final(self).render_pictures.view()[picture]@ == (XRenderPictureView {
                        filter,
                        ..rec@
                    })
                    &&& *final(self) == (XAuthorityRuntime {
                        render_pictures: final(self).render_pictures,
                        ..*old(self)
                    })
                },
            },
    {
        let mut record = match self.render_picture_record(namespace, picture) {
            Err(e) => {
                return Err(e);
            },
            Ok(r) => r,
        };
        record.filter = filter;
        self.replace_picture(picture, record);
        Ok(())
    }

    /// Frees a picture of this namespace.
    pub fn render_free_picture(&mut self, namespace: NamespaceId, picture: XResourceId) -> (r: Result<
        (),
        XRenderPictureError,
    >)
        requires
            old(self).wf(),
        ensures
            final(self).wf(),
            old(self).spec_access(namespace, picture, XResourceKind::Picture) is Some ==> r == Err::<
                (),
                XRenderPictureError,
            >(XRenderPictureError::UnknownPicture) && *final(self) == *old(self),
            old(self).spec_access(namespace, picture, XResourceKind::Picture) is None ==> {
                &&& r is Ok
                &&& final(self).resources.view() == old(self).resources.view().remove(picture)
                &&& final(self).render_pictures.view() == old(self).render_pictures.view().remove(
                    picture,
                )
                &&& *final(self) == (XAuthorityRuntime {
                    resources: final(self).resources,
                    render_pictures: final(self).render_pictures,
                    ..*old(self)
                })
            },
    {
        if self.access(namespace, picture, XResourceKind::Picture).is_err() {
            return Err(XRenderPictureError::UnknownPicture);
        }
        self.resources.remove(picture);
        self.render_pictures.remove(&picture);
        Ok(())
    }

    /// The size a picture draws into and, for a window, its content
    /// generation; `None` when the drawable is gone.
    pub fn render_target_geometry(&self, namespace: NamespaceId, record: &XRenderPictureRecord) -> (r:
        Option<(Size, Option<u64>)>)
        requires
            self.wf(),
        ensures
            record.drawable_is_window ==> r == if self.windows.view().contains_key(record.drawable) {
                let w = self.windows.view()[record.drawable];
                Some((Size { width: w.geometry.width, height: w.geometry.height }, Some(w.generation)))
            } else {
                None
            },
            !record.drawable_is_window ==> r == match self.spec_pixmap(namespace, record.drawable) {
                Ok(p) => Some((p.size, None::<u64>)),
                Err(_) => None,
            },
    {
        if record.drawable_is_window {
            match self.windows.get(record.drawable) {
                Some(w) => Some(
                    (Size { width: w.geometry.width, height: w.geometry.height }, Some(w.generation)),
                ),
                None => None,
            }
        } else {
            match self.pixmap_size(namespace, record.drawable) {
                Ok(size) => Some((size, None)),
                Err(_) => None,
            }
        }
    }

    /// The stored image for a cursor, if a client supplied one.
    pub fn render_cursor_image(&self, cursor: XResourceId) -> (r: Option<&XRenderCursorImage>)
        requires
            self.wf(),
        ensures
            match r {
                Some(i) => self.render_cursor_images.view().contains_key(cursor) && *i
                    == self.render_cursor_images.view()[cursor],
                None => !self.render_cursor_images.view().contains_key(cursor),
            },
    {
        self.render_cursor_images.get(&cursor)
    }
}

} // verus!
