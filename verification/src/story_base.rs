//! What a page of a story is made of, and the settings that every dialogue box reads.

use crate::text_print::{clone_runs, runs, TextPrint, TextPrintView};
use vstd::prelude::*;

verus! {

/// The reader's settings, shared by every dialogue box and read afresh at each tick.
#[derive(Debug, Clone, Copy, PartialEq, Eq, Structural)]
pub struct TextConfig {
    /// Whether sound effects are audible, that is, their volume is above zero.
    pub sound_on: bool,
    /// Milliseconds that a fully revealed message stays before auto-advance moves on.
    pub auto_speed: u32,
    /// Auto-advance is on.
    pub is_auto: bool,
    /// Skipping is asked for.
    pub is_skip: bool,
    /// The dialogue box is hidden.
    pub is_close: bool,
    /// The settings screen is open.
    pub is_setting: bool,
    /// The message log is open.
    pub is_log: bool,
}

impl TextConfig {
    /// The settings at the start: sound audible, five seconds before auto-advance, every
    /// flag off.
    pub open spec fn initial() -> TextConfig {
        TextConfig {
            sound_on: true,
            auto_speed: 5000,
            is_auto: false,
            is_skip: false,
            is_close: false,
            is_setting: false,
            is_log: false,
        }
    }

    /// The auto-advance delay as whole seconds and tenths of a second, as the settings
    /// screen shows it.
    pub fn auto_seconds(&self) -> (r: (u32, u32))
        ensures
            r.0 == self.auto_speed / 1000,
            r.1 == (self.auto_speed % 1000) / 100,
            r.1 < 10,
    {
        (self.auto_speed / 1000, self.auto_speed % 1000 / 100)
    }
}

impl Default for TextConfig {
    fn default() -> (r: Self)
        ensures
            r == TextConfig::initial(),
    {
        TextConfig {
            sound_on: true,
            auto_speed: 5000,
            is_auto: false,
            is_skip: false,
            is_close: false,
            is_setting: false,
            is_log: false,
        }
    }
}


/// One picture of a page: the file it comes from, its style text and its class name.
#[derive(Debug, PartialEq, Eq)]
pub struct ImagePrint {
    pub style: String,
    pub name: String,
    pub class: String,
}

/// What a picture holds.
pub struct ImagePrintView {
    pub style: Seq<char>,
    pub name: Seq<char>,
    pub class: Seq<char>,
}

impl View for ImagePrint {
    type V = ImagePrintView;

    open spec fn view(&self) -> ImagePrintView {
        ImagePrintView { style: self.style@, name: self.name@, class: self.class@ }
    }
}

impl Clone for ImagePrint {
    fn clone(&self) -> (r: Self)
        ensures
            r@ == self@,
    {
        ImagePrint { style: self.style.clone(), name: self.name.clone(), class: self.class.clone() }
    }
}

impl ImagePrint {
    /// The picture `name` with the style text `style` and the class name `class`.
    pub fn new(name: &str, style: &str, class: &str) -> (r: Self)
        ensures
            r@ == (ImagePrintView { style: style@, name: name@, class: class@ }),
    {
        ImagePrint { name: name.to_owned(), style: style.to_owned(), class: class.to_owned() }
    }

    /// The picture with the file `name`.
    pub fn name(self, name: &str) -> (r: Self)
        ensures
            r@ == (ImagePrintView { name: name@, ..self@ }),
    {
        let mut r = self;
        r.name = name.to_owned();
        r
    }

    /// The picture with the style text `style`.
    pub fn style(self, style: &str) -> (r: Self)
        ensures
            r@ == (ImagePrintView { style: style@, ..self@ }),
    {
        let mut r = self;
        r.style = style.to_owned();
        r
    }

    /// The picture with the class name `class`.
    pub fn class(self, class: &str) -> (r: Self)
        ensures
            r@ == (ImagePrintView { class: class@, ..self@ }),
    {
        let mut r = self;
        r.class = class.to_owned();
        r
    }
}

/// What the pictures of `v` hold, in order.
pub open spec fn images(v: Seq<ImagePrint>) -> Seq<ImagePrintView> {
    Seq::new(v.len(), |i: int| v[i]@)
}

/// What an optional picture holds.
pub open spec fn image_view(o: Option<ImagePrint>) -> Option<ImagePrintView> {
    match o {
        Some(img) => Some(img@),
        None => None,
    }
}

/// A copy of `v` that holds the same pictures.
pub fn clone_images(v: &Vec<ImagePrint>) -> (r: Vec<ImagePrint>)
    ensures
        images(r@) == images(v@),
{
    let mut r: Vec<ImagePrint> = Vec::new();
    let mut i: usize = 0;
    while i < v.len()
        invariant
            i <= v.len(),
            r@.len() == i,
            forall|j: int| 0 <= j < i ==> r@[j]@ == v@[j]@,
        decreases v.len() - i,
    {
        r.push(v[i].clone());
        i += 1;
    }
    assert(images(r@) =~= images(v@));
    r
}

/// One step of a story: who speaks, what is said, the pictures to the left, in the
/// middle and to the right, and style text and class name of the background.
#[derive(Debug, PartialEq)]
pub struct Story {
    pub title: Vec<TextPrint>,
    pub msg: Vec<TextPrint>,
    pub center_img: Option<ImagePrint>,
    pub left_img: Vec<ImagePrint>,
    pub right_img: Vec<ImagePrint>,
    pub background: String,
    pub class: String,
}

/// What a step of a story holds.
pub struct StoryView {
    pub title: Seq<TextPrintView>,
    pub msg: Seq<TextPrintView>,
    pub center_img: Option<ImagePrintView>,
    pub left_img: Seq<ImagePrintView>,
    pub right_img: Seq<ImagePrintView>,
    pub background: Seq<char>,
    pub class: Seq<char>,
}

impl View for Story {
    type V = StoryView;

    open spec fn view(&self) -> StoryView {
        StoryView {
            title: runs(self.title@),
            msg: runs(self.msg@),
            center_img: image_view(self.center_img),
            left_img: images(self.left_img@),
            right_img: images(self.right_img@),
            background: self.background@,
            class: self.class@,
        }
    }
}

impl StoryView {
    /// The step without speaker, text or pictures.
    pub open spec fn empty() -> StoryView {
        StoryView {
            title: Seq::empty(),
            msg: Seq::empty(),
            center_img: None,
            left_img: Seq::empty(),
            right_img: Seq::empty(),
            background: Seq::empty(),
            class: Seq::empty(),
        }
    }
}

/// The pictures `imgs` without the one at place `index`; all of them where there is
/// no such place.
pub open spec fn without(imgs: Seq<ImagePrintView>, index: nat) -> Seq<ImagePrintView> {
    if index < imgs.len() {
        imgs.remove(index as int)
    } else {
        imgs
    }
}

/// The pictures `imgs` without the last one.
pub open spec fn without_last(imgs: Seq<ImagePrintView>) -> Seq<ImagePrintView> {
    if imgs.len() > 0 {
        imgs.drop_last()
    } else {
        imgs
    }
}

/// The pictures `imgs` with `img` in place of the one at place `index`; unchanged where
/// there is no such place.
pub open spec fn replaced(imgs: Seq<ImagePrintView>, index: nat, img: ImagePrintView) -> Seq<
    ImagePrintView,
> {
    if index < imgs.len() {
        imgs.update(index as int, img)
    } else {
        imgs
    }
}

fn remove_image(imgs: &mut Vec<ImagePrint>, index: usize)
    ensures
        images(final(imgs)@) == without(images(old(imgs)@), index as nat),
{
    if index < imgs.len() {
        imgs.remove(index);
        assert(images(imgs@) =~= images(old(imgs)@).remove(index as int));
    }
}

fn pop_image(imgs: &mut Vec<ImagePrint>)
    ensures
        images(final(imgs)@) == without_last(images(old(imgs)@)),
{
    imgs.pop();
    proof {
        if old(imgs)@.len() > 0 {
            assert(images(imgs@) =~= images(old(imgs)@).drop_last());
        }
    }
}

fn change_image(imgs: &mut Vec<ImagePrint>, img: ImagePrint, index: usize)
    ensures
        images(final(imgs)@) == replaced(images(old(imgs)@), index as nat, img@),
{
    if index < imgs.len() {
        imgs.push(img);
        imgs.swap_remove(index);
        assert(images(imgs@) =~= images(old(imgs)@).update(index as int, img@));
    }
}

impl Clone for Story {
    fn clone(&self) -> (r: Self)
        ensures
            r@ == self@,
    {
        let center_img = match &self.center_img {
            Some(img) => Some(img.clone()),
            None => None,
        };
        Story {
            title: clone_runs(&self.title),
            msg: clone_runs(&self.msg),
            center_img,
            left_img: clone_images(&self.left_img),
            right_img: clone_images(&self.right_img),
            background: self.background.clone(),
            class: self.class.clone(),
        }
    }
}

impl Default for Story {
    fn default() -> (r: Self)
        ensures
            r@ == StoryView::empty(),
    {
        let r = Story {
            title: Vec::new(),
            msg: Vec::new(),
            center_img: None,
            left_img: Vec::new(),
            right_img: Vec::new(),
            background: String::new(),
            class: String::new(),
        };
        assert(r@.title =~= Seq::empty());
        assert(r@.msg =~= Seq::empty());
        assert(r@.left_img =~= Seq::empty());
        assert(r@.right_img =~= Seq::empty());
        r
    }
}

impl Story {
    /// The step with the given speaker, text, pictures and background.
    pub fn new(
        title: Vec<TextPrint>,
        msg: Vec<TextPrint>,
        left_img: Vec<ImagePrint>,
        center_img: Option<ImagePrint>,
        right_img: Vec<ImagePrint>,
        background: &str,
        class: &str,
    ) -> (r: Self)
        ensures
            r@ == (StoryView {
                title: runs(title@),
                msg: runs(msg@),
                center_img: image_view(center_img),
                left_img: images(left_img@),
                right_img: images(right_img@),
                background: background@,
                class: class@,
            }),
    {
        Story {
            title,
            msg,
            center_img,
            left_img,
            right_img,
            background: background.to_owned(),
            class: class.to_owned(),
        }
    }

    /// The step with the speaker `title`.
    pub fn title(self, title: Vec<TextPrint>) -> (r: Self)
        ensures
            r@ == (StoryView { title: runs(title@), ..self@ }),
    {
        let mut r = self;
        r.title = title;
        r
    }

    /// The step with the text `msg`.
    pub fn msg(self, msg: Vec<TextPrint>) -> (r: Self)
        ensures
            r@ == (StoryView { msg: runs(msg@), ..self@ }),
    {
        let mut r = self;
        r.msg = msg;
        r
    }

    /// The step with `img` after its pictures to the left.
    pub fn add_left_img(self, img: ImagePrint) -> (r: Self)
        ensures
            r@ == (StoryView { left_img: self@.left_img.push(img@), ..self@ }),
    {
        let mut r = self;
        r.left_img.push(img);
        assert(r@.left_img =~= self@.left_img.push(img@));
        r
    }

    /// The step without the picture at place `index` to the left; unchanged where there
    /// is no such picture.
    pub fn remove_left_img(self, index: usize) -> (r: Self)
        ensures
            r@ == (StoryView { left_img: without(self@.left_img, index as nat), ..self@ }),
    {
        let mut r = self;
        remove_image(&mut r.left_img, index);
        r
    }

    /// The step without the last picture to the left.
    pub fn pop_left_img(self) -> (r: Self)
        ensures
            r@ == (StoryView { left_img: without_last(self@.left_img), ..self@ }),
    {
        let mut r = self;
        pop_image(&mut r.left_img);
        r
    }

    /// The step with `img` in place of the picture at place `remove_index` to the left;
    /// unchanged where there is no such picture.
    pub fn change_left_img(self, img: ImagePrint, remove_index: usize) -> (r: Self)
        ensures
            r@ == (StoryView {
                left_img: replaced(self@.left_img, remove_index as nat, img@),
                ..self@
            }),
    {
        let mut r = self;
        change_image(&mut r.left_img, img, remove_index);
        r
    }

    /// The step with `img` after its pictures to the right.
    pub fn add_right_img(self, img: ImagePrint) -> (r: Self)
        ensures
            r@ == (StoryView { right_img: self@.right_img.push(img@), ..self@ }),
    {
        let mut r = self;
        r.right_img.push(img);
        assert(r@.right_img =~= self@.right_img.push(img@));
        r
    }

    /// The step without the picture at place `index` to the right; unchanged where
    /// there is no such picture.
    pub fn remove_right_img(self, index: usize) -> (r: Self)
        ensures
            r@ == (StoryView { right_img: without(self@.right_img, index as nat), ..self@ }),
    {
        let mut r = self;
        remove_image(&mut r.right_img, index);
        r
    }

    /// The step without the last picture to the right.
    pub fn pop_right_img(self) -> (r: Self)
        ensures
            r@ == (StoryView { right_img: without_last(self@.right_img), ..self@ }),
    {
        let mut r = self;
        pop_image(&mut r.right_img);
        r
    }

    /// The step with `img` in place of the picture at place `remove_index` to the right;
    /// unchanged where there is no such picture.
    pub fn change_right_img(self, img: ImagePrint, remove_index: usize) -> (r: Self)
        ensures
            r@ == (StoryView {
                right_img: replaced(self@.right_img, remove_index as nat, img@),
                ..self@
            }),
    {
        let mut r = self;
        change_image(&mut r.right_img, img, remove_index);
        r
    }

    /// The step with the background style text `background`.
    pub fn background(self, background: &str) -> (r: Self)
        ensures
            r@ == (StoryView { background: background@, ..self@ }),
    {
        let mut r = self;
        r.background = background.to_owned();
        r
    }

    /// The step with the background class name `class`.
    pub fn class(self, class: &str) -> (r: Self)
        ensures
            r@ == (StoryView { class: class@, ..self@ }),
    {
        let mut r = self;
        r.class = class.to_owned();
        r
    }

    /// The step with `img` in the middle.
    pub fn change_center_img(self, img: ImagePrint) -> (r: Self)
        ensures
            r@ == (StoryView { center_img: Some(img@), ..self@ }),
    {
        let mut r = self;
        r.center_img = Some(img);
        r
    }

    /// The step without a picture in the middle.
    pub fn remove_center_img(self) -> (r: Self)
        ensures
            r@ == (StoryView { center_img: None, ..self@ }),
    {
        let mut r = self;
        r.center_img = None;
        r
    }
}

} // verus!
