use vstd::prelude::*;

verus! {

/// The class of one sample: the byte that the label file holds for it.
#[derive(Clone, Copy, Debug, PartialEq, Eq)]
pub struct Label {
    class: u8,
}

impl View for Label {
    type V = u8;

    closed spec fn view(&self) -> u8 {
        self.class
    }
}

impl Label {
    /// The label that one raw byte stands for.
    pub fn new(byte: &u8) -> (label: Self)
        ensures
            label@ == *byte,
    {
        Self { class: *byte }
    }

    /// The class identifier.
    pub fn value(&self) -> (class: u8)
        ensures
            class == self@,
    {
        self.class
    }
}

} // verus!
