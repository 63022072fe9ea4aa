use vstd::prelude::*;

verus! {

/// The two editing modes of the editor.
#[derive(Debug, Clone, Copy, PartialEq, Eq, Structural)]
pub enum ModalType {
    Normal,
    Insert,
}

/// The current editing mode.
#[derive(Debug, Clone, Copy)]
pub struct Modal {
    kind: ModalType,
}

impl View for Modal {
    type V = ModalType;

    closed spec fn view(&self) -> ModalType {
        self.kind
    }
}

impl Modal {
    /// A fresh editor starts in normal mode.
    pub fn new() -> (r: Modal)
        ensures
            r@ == ModalType::Normal,
    {
        Modal { kind: ModalType::Normal }
    }

    pub fn modal(&self) -> (r: ModalType)
        ensures
            r == self@,
    {
        self.kind
    }

    pub fn switch_normal(&mut self)
        ensures
            final(self)@ == ModalType::Normal,
    {
        self.kind = ModalType::Normal;
    }

    pub fn switch_insert(&mut self)
        ensures
            final(self)@ == ModalType::Insert,
    {
        self.kind = ModalType::Insert;
    }
}

} // verus!
