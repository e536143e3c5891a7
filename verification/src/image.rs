//! The wallpaper candidate record handed between the scanner, the
//! applicator and the presentation layer.

use vstd::prelude::*;

verus! {

/// Mathematical value of an [`Image`]: each field as a character sequence.
pub ghost struct ImageView {
    pub name: Seq<char>,
    pub img_path: Seq<char>,
    pub thumbnail_path: Seq<char>,
}

/// A wallpaper candidate discovered by a scan.
///
/// `name` is the display label (the file's basename), `img_path` the
/// absolute path to the bitmap. `thumbnail_path` is an optional preview
/// path; the scanner leaves it empty, since it generates no thumbnails.
#[derive(Clone, Debug)]
pub struct Image {
    pub name: String,
    pub img_path: String,
    pub thumbnail_path: String,
}

impl View for Image {
    type V = ImageView;

    open spec fn view(&self) -> ImageView {
        ImageView {
            name: self.name@,
            img_path: self.img_path@,
            thumbnail_path: self.thumbnail_path@,
        }
    }
}

} // verus!
