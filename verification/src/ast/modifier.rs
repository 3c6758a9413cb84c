use vstd::prelude::*;

verus! {

/// The modifiers written before a declaration; `None` where none was written.
#[derive(Debug, Clone, Copy, PartialEq, Eq, Hash, Structural)]
pub struct Modifier {
    pub public: Option<bool>,
    pub is_static: Option<bool>,
}

impl Modifier {
    pub fn new() -> (m: Modifier)
        ensures
            m.public is None,
            m.is_static is None,
    {
        Modifier { public: None, is_static: None }
    }

    /// This modifier, marked public.
    pub fn with_public(&self) -> (m: Modifier)
        ensures
            m.public == Some(true),
            m.is_static == self.is_static,
    {
        let mut new = *self;
        new.public = Some(true);
        new
    }

    /// This modifier, marked static.
    pub fn with_static(&self) -> (m: Modifier)
        ensures
            m.public == self.public,
            m.is_static == Some(true),
    {
        let mut new = *self;
        new.is_static = Some(true);
        new
    }

    /// Public only when marked so.
    pub fn is_public(&self) -> (b: bool)
        ensures
            b == (self.public == Some(true)),
    {
        if let Some(p) = self.public {
            return p;
        }
        false
    }

    /// The written visibility flag; `true` when none was written.
    pub fn is_private(&self) -> (b: bool)
        ensures
            b == match self.public {
                Some(p) => p,
                None => true,
            },
    {
        if let Some(p) = self.public {
            return p;
        }
        true
    }

    /// Static only when marked so.
    pub fn is_static(&self) -> (b: bool)
        ensures
            b == (self.is_static == Some(true)),
    {
        if let Some(s) = self.is_static {
            return s;
        }
        false
    }

    /// Whether a visibility was written.
    pub fn has_visibility(&self) -> (b: bool)
        ensures
            b == self.public is Some,
    {
        self.public.is_some()
    }
}

} // verus!
