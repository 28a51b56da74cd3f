use vstd::prelude::*;

verus! {

/// The window the connection setup names as the screen root.
pub const X_SETUP_DEFAULT_ROOT: u32 = 0x0000_0100;
/// The colormap the connection setup names as the screen default.
pub const X_SETUP_DEFAULT_COLORMAP: u32 = 0x0000_0101;
/// The visual the connection setup names as the screen default.
pub const X_SETUP_DEFAULT_VISUAL: u32 = 0x0000_0021;
/// The window `_NET_SUPPORTING_WM_CHECK` names; owned by the authority itself.
pub const X_SETUP_WM_CHECK_WINDOW: u32 = 0x0000_0102;

/// A client namespace: the isolation domain resources are owned by.
#[derive(Clone, Copy, Debug, PartialEq, Eq, Structural, Hash, PartialOrd, Ord)]
pub struct NamespaceId {
    pub raw: u64,
}

impl NamespaceId {
    pub open spec fn spec_is_valid(self) -> bool {
        self.raw != 0
    }

    /// The zero namespace names no client.
    pub fn is_valid(&self) -> (r: bool)
        ensures
            r == self.spec_is_valid(),
    {
        self.raw != 0
    }
}

/// An X resource identifier: the 32-bit id a client chose, widened, and the
/// incarnation it was named under.
#[derive(Clone, Copy, Debug, PartialEq, Eq, Structural, Hash, PartialOrd, Ord)]
pub struct XResourceId {
    pub local: u64,
    pub generation: u64,
}

impl XResourceId {
    pub fn new(local: u64, generation: u64) -> (r: Self)
        ensures
            r.local == local,
            r.generation == generation,
    {
        XResourceId { local, generation }
    }

    pub open spec fn spec_none() -> Self {
        XResourceId { local: 0, generation: 0 }
    }

    /// The id that names no resource.
    pub fn none() -> (r: Self)
        ensures
            r == Self::spec_none(),
    {
        XResourceId { local: 0, generation: 0 }
    }

    pub open spec fn spec_is_valid(self) -> bool {
        self.local != 0
    }

    pub fn is_valid(&self) -> (r: bool)
        ensures
            r == self.spec_is_valid(),
    {
        self.local != 0
    }

    /// Whether this is the screen root the setup announced.
    pub open spec fn spec_is_root(self) -> bool {
        self.local == X_SETUP_DEFAULT_ROOT as u64
    }

    pub fn is_root(&self) -> (r: bool)
        ensures
            r == self.spec_is_root(),
    {
        self.local == X_SETUP_DEFAULT_ROOT as u64
    }

    pub open spec fn spec_root() -> Self {
        XResourceId { local: X_SETUP_DEFAULT_ROOT as u64, generation: 1 }
    }

    /// The screen root, as every table names it.
    pub fn root() -> (r: Self)
        ensures
            r == Self::spec_root(),
    {
        XResourceId { local: X_SETUP_DEFAULT_ROOT as u64, generation: 1 }
    }
}

/// A compositor surface identity.
#[derive(Clone, Copy, Debug, PartialEq, Eq, Structural, Hash, PartialOrd, Ord)]
pub struct SurfaceId {
    pub raw: u64,
}

impl SurfaceId {
    pub open spec fn spec_is_valid(self) -> bool {
        self.raw != 0
    }

    pub fn is_valid(&self) -> (r: bool)
        ensures
            r == self.spec_is_valid(),
    {
        self.raw != 0
    }
}

/// A compositor transaction identity.
#[derive(Clone, Copy, Debug, PartialEq, Eq, Structural, Hash, PartialOrd, Ord)]
pub struct TransactionId {
    pub raw: u64,
}

} // verus!
