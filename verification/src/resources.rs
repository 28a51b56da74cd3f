use vstd::prelude::*;

use crate::ids::{NamespaceId, XResourceId};
use crate::gc::XOwned;
use crate::table::XTable;

verus! {

/// Why a request against the authority's state was refused.
#[derive(Clone, Copy, Debug, PartialEq, Eq, Structural)]
pub enum XAuthorityRuntimeError {
    /// The namespace names no client.
    InvalidNamespace,
    /// The id or a value in the request is unusable.
    InvalidResource,
    /// No live resource has the id.
    UnknownResource,
    /// The id names a resource of another kind.
    WrongResourceKind,
    /// The resource belongs to another namespace.
    CrossNamespaceDenied,
    /// The id is already a live resource.
    DuplicateResource,
    /// The caller named a generation the record has moved past.
    StaleGeneration,
}

/// What a client-visible id names.
#[derive(Clone, Copy, Debug, PartialEq, Eq, Structural)]
pub enum XResourceKind {
    Window,
    Pixmap,
    Font,
    Cursor,
    Colormap,
    Atom,
    Property,
    GraphicsContext,
    Fence,
    Region,
    Picture,
    GlyphSet,
    SyncCounter,
}

/// One live resource and who created it.
#[derive(Clone, Copy, Debug, PartialEq, Eq, Structural)]
pub struct XResourceRecord {
    pub id: XResourceId,
    pub kind: XResourceKind,
    pub owner_namespace: NamespaceId,
    pub generation: u64,
}

/// Every client-created resource, by id.
pub struct XResourceTable {
    pub records: XTable<XResourceId, XResourceRecord>,
}

/// What `lookup` answers for a namespace, an id and an expected kind.
pub open spec fn spec_lookup(
    records: Map<XResourceId, XResourceRecord>,
    namespace: NamespaceId,
    id: XResourceId,
    kind: XResourceKind,
) -> Result<XResourceRecord, XAuthorityRuntimeError> {
    if !namespace.spec_is_valid() {
        Err(XAuthorityRuntimeError::InvalidNamespace)
    } else if !records.contains_key(id) {
        Err(XAuthorityRuntimeError::UnknownResource)
    } else if records[id].kind != kind {
        Err(XAuthorityRuntimeError::WrongResourceKind)
    } else if records[id].owner_namespace != namespace {
        Err(XAuthorityRuntimeError::CrossNamespaceDenied)
    } else {
        Ok(records[id])
    }
}

/// What `insert` decides for a new record.
pub open spec fn spec_insert_error(
    records: Map<XResourceId, XResourceRecord>,
    id: XResourceId,
    namespace: NamespaceId,
) -> Option<XAuthorityRuntimeError> {
    if !namespace.spec_is_valid() {
        Some(XAuthorityRuntimeError::InvalidNamespace)
    } else if !id.spec_is_valid() {
        Some(XAuthorityRuntimeError::InvalidResource)
    } else if records.contains_key(id) {
        Some(XAuthorityRuntimeError::DuplicateResource)
    } else {
        None
    }
}

impl XOwned for XResourceRecord {
    open spec fn owner_of(&self) -> NamespaceId {
        self.owner_namespace
    }

    fn owner(&self) -> (r: NamespaceId) {
        self.owner_namespace
    }
}

impl XResourceTable {
    pub open spec fn wf(&self) -> bool {
        &&& self.records.wf()
        &&& forall|id: XResourceId| #[trigger]
            self.records.view().contains_key(id) ==> self.records.view()[id].id == id
    }

    pub open spec fn view(&self) -> Map<XResourceId, XResourceRecord> {
        self.records.view()
    }

    pub fn new() -> (r: Self)
        ensures
            r.wf(),
            r.view() == Map::<XResourceId, XResourceRecord>::empty(),
    {
        XResourceTable { records: XTable::new() }
    }

    pub fn len(&self) -> (r: usize)
        requires
            self.wf(),
        ensures
            r == self.view().len(),
    {
        self.records.len()
    }

    pub fn get(&self, id: XResourceId) -> (r: Option<&XResourceRecord>)
        requires
            self.wf(),
        ensures
            match r {
                Some(rec) => self.view().contains_key(id) && *rec == self.view()[id],
                None => !self.view().contains_key(id),
            },
    {
        self.records.get(&id)
    }

    /// The error registering `id` for `namespace` would give, if any.
    pub fn check_insert(&self, id: XResourceId, namespace: NamespaceId) -> (r: Option<
        XAuthorityRuntimeError,
    >)
        requires
            self.wf(),
        ensures
            r == spec_insert_error(self.view(), id, namespace),
    {
        if !namespace.is_valid() {
            Some(XAuthorityRuntimeError::InvalidNamespace)
        } else if !id.is_valid() {
            Some(XAuthorityRuntimeError::InvalidResource)
        } else if self.records.contains_key(&id) {
            Some(XAuthorityRuntimeError::DuplicateResource)
        } else {
            None
        }
    }

    /// Registers a resource a client created.
    pub fn insert(
        &mut self,
        id: XResourceId,
        kind: XResourceKind,
        namespace: NamespaceId,
        generation: u64,
    ) -> (r: Result<(), XAuthorityRuntimeError>)
        requires
            old(self).wf(),
        ensures
            final(self).wf(),
            match spec_insert_error(old(self).view(), id, namespace) {
                Some(e) => r == Err::<(), XAuthorityRuntimeError>(e) && final(self).view() == old(
                    self,
                ).view(),
                None => r is Ok && final(self).view() == old(self).view().insert(
                    id,
                    XResourceRecord { id, kind, owner_namespace: namespace, generation },
                ),
            },
    {
        if !namespace.is_valid() {
            return Err(XAuthorityRuntimeError::InvalidNamespace);
        }
        if !id.is_valid() {
            return Err(XAuthorityRuntimeError::InvalidResource);
        }
        if self.records.contains_key(&id) {
            return Err(XAuthorityRuntimeError::DuplicateResource);
        }
        self.records.insert(id, XResourceRecord { id, kind, owner_namespace: namespace, generation });
        Ok(())
    }

    /// The record under `id` when it is a `kind` owned by `namespace`.
    pub fn lookup(&self, namespace: NamespaceId, id: XResourceId, kind: XResourceKind) -> (r:
        Result<XResourceRecord, XAuthorityRuntimeError>)
        requires
            self.wf(),
        ensures
            r == spec_lookup(self.view(), namespace, id, kind),
    {
        if !namespace.is_valid() {
            return Err(XAuthorityRuntimeError::InvalidNamespace);
        }
        match self.records.get(&id) {
            None => Err(XAuthorityRuntimeError::UnknownResource),
            Some(record) => {
                if record.kind != kind {
                    Err(XAuthorityRuntimeError::WrongResourceKind)
                } else if record.owner_namespace != namespace {
                    Err(XAuthorityRuntimeError::CrossNamespaceDenied)
                } else {
                    Ok(*record)
                }
            },
        }
    }

    /// Removes every id a list names.
    pub fn remove_keys(&mut self, keys: &Vec<XResourceId>)
        requires
            old(self).wf(),
        ensures
            final(self).wf(),
            forall|k: XResourceId| #[trigger]
                final(self).view().contains_key(k) <==> (old(self).view().contains_key(k)
                    && !keys@.contains(k)),
            forall|k: XResourceId| #[trigger]
                final(self).view().contains_key(k) ==> final(self).view()[k] == old(self).view()[k],
    {
        self.records.remove_keys(keys);
    }

    pub fn remove(&mut self, id: XResourceId) -> (r: Option<XResourceRecord>)
        requires
            old(self).wf(),
        ensures
            final(self).wf(),
            final(self).view() == old(self).view().remove(id),
            match r {
                Some(rec) => old(self).view().contains_key(id) && rec == old(self).view()[id],
                None => !old(self).view().contains_key(id),
            },
    {
        self.records.remove(&id)
    }
}

} // verus!
