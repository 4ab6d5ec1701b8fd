//! What may be handed in for a crop: how many images, of what sizes, and
//! how long a custom name.

use vstd::prelude::*;

verus! {

/// The most images that one batch may hold.
pub const MAX_IMAGES: usize = 10000;

/// The most characters that a custom name may have.
pub const MAX_NAME_LENGTH: usize = 26;

/// What to make of a number of images picked for a batch.
#[derive(Clone, Copy, Debug, PartialEq, Eq, Structural)]
pub enum Selection {
    /// Nothing was picked: there is nothing to do and nothing to say.
    Nothing,
    /// A single image was picked: a batch needs a background and at least
    /// one image to compare with it.
    TooFew,
    /// The batch can be loaded.
    Accepted,
    /// More images were picked than one batch may hold.
    TooMany,
}

impl Selection {
    /// The verdict on a batch of `count` images.
    pub open spec fn of(count: nat) -> Selection {
        if count == 0 {
            Selection::Nothing
        } else if count == 1 {
            Selection::TooFew
        } else if count <= MAX_IMAGES {
            Selection::Accepted
        } else {
            Selection::TooMany
        }
    }

    /// What to tell the user about the verdict; empty where there is
    /// nothing to tell.
    pub fn message(&self) -> (r: &str)
        ensures
            r@ == match *self {
                Selection::Nothing => ""@,
                Selection::TooFew => "At minimum two images must be selected."@,
                Selection::Accepted => ""@,
                Selection::TooMany => "You cannot select more than 10000 images."@,
            },
    {
        match self {
            Selection::Nothing => "",
            Selection::TooFew => "At minimum two images must be selected.",
            Selection::Accepted => "",
            Selection::TooMany => "You cannot select more than 10000 images.",
        }
    }
}

/// The verdict on a batch of `count` images: nothing to do for none, too
/// few for one, too many for more than `MAX_IMAGES`, accepted otherwise.
pub fn check_selection(count: usize) -> (r: Selection)
    ensures
        r == Selection::of(count as nat),
{
    if count == 0 {
        Selection::Nothing
    } else if count == 1 {
        Selection::TooFew
    } else if count <= MAX_IMAGES {
        Selection::Accepted
    } else {
        Selection::TooMany
    }
}

/// Whether all the sizes, each a width and a height, are the same. They are
/// where there is none.
pub fn same_resolution(sizes: &Vec<(u32, u32)>) -> (same: bool)
    ensures
        same == (forall|i: int| 0 <= i < sizes@.len() ==> #[trigger] sizes@[i] == sizes@[0]),
{
    let mut i: usize = 0;
    while i < sizes.len()
        invariant
            i <= sizes@.len(),
            forall|k: int| 0 <= k < i ==> #[trigger] sizes@[k] == sizes@[0],
        decreases sizes@.len() - i,
    {
        if sizes[i].0 != sizes[0].0 || sizes[i].1 != sizes[0].1 {
            return false;
        }
        i = i + 1;
    }
    true
}

/// Whether a crop can be started: there must be images to crop and a place
/// to put the output.
pub fn crop_enabled(images: usize, has_output_path: bool) -> (r: bool)
    ensures
        r == (images != 0 && has_output_path),
{
    images != 0 && has_output_path
}

/// Cuts a custom name down to its first `MAX_NAME_LENGTH` characters; a
/// name that is not longer stays as it is.
pub fn limit_name(name: &mut String)
    ensures
        final(name)@ == if old(name)@.len() > MAX_NAME_LENGTH {
            old(name)@.subrange(0, MAX_NAME_LENGTH as int)
        } else {
            old(name)@
        },
{
    if name.as_str().unicode_len() > MAX_NAME_LENGTH {
        let kept = String::from_str(name.as_str().substring_char(0, MAX_NAME_LENGTH));
        *name = kept;
    }
}

} // verus!
