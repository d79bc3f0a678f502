//! Text tracks, which are listed and not played.

use vstd::prelude::*;

verus! {

/// A group of text representations.
#[derive(Debug)]
pub struct TextAdaptation {
    pub representations: Vec<TextRepresenation>,
}

impl Clone for TextAdaptation {
    fn clone(&self) -> (copy: Self)
        ensures
            copy.representations@.len() == self.representations@.len(),
    {
        let mut representations: Vec<TextRepresenation> = Vec::new();
        let mut i: usize = 0;
        while i < self.representations.len()
            invariant
                i <= self.representations.len(),
                representations@.len() == i,
            decreases self.representations.len() - i,
        {
            representations.push(TextRepresenation {  });
            i = i + 1;
        }
        TextAdaptation { representations }
    }
}

/// One text representation; nothing of it is kept.
#[derive(Clone, Copy, Debug, PartialEq, Eq, Structural)]
pub struct TextRepresenation {}

} // verus!
