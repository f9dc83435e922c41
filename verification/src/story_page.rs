//! A page: the steps of a story in order, and the place of the one that shows.

use crate::story_base::{Story, StoryView};
use crate::story_box::{Progress, StoryBox};
use crate::text_print::{clone_runs, runs, TextPrintView};
use vstd::prelude::*;

verus! {

/// The steps of a story and the place of the one that shows. Once every step was shown
/// the page is finished, and the game moves on to what follows it.
#[derive(Debug)]
pub struct StoryPage {
    pub storys: Vec<Story>,
    /// The number of steps, counted from the first, that the reader may skip.
    pub skip_len: usize,
    /// The place of the step that shows; the number of steps or more once the page is
    /// finished.
    pub story_index: usize,
}

impl StoryPage {
    /// Whether no step is left to show.
    pub open spec fn finished(&self) -> bool {
        self.story_index >= self.storys@.len()
    }

    /// What the step that shows holds: the empty step once the page is finished.
    pub open spec fn current(&self) -> StoryView {
        if self.finished() {
            StoryView::empty()
        } else {
            self.storys@[self.story_index as int]@
        }
    }

    /// A page of `storys` that starts at the step at place `skip`.
    pub fn new(storys: Vec<Story>, skip_len: usize, skip: usize) -> (r: Self)
        ensures
            r.storys == storys,
            r.skip_len == skip_len,
            r.story_index == skip,
    {
        StoryPage { storys, skip_len, story_index: skip }
    }

    /// Whether no step is left to show.
    pub fn is_finished(&self) -> (r: bool)
        ensures
            r == self.finished(),
    {
        self.story_index >= self.storys.len()
    }

    /// The step that shows.
    pub fn story(&self) -> (r: Option<&Story>)
        ensures
            match r {
                Some(s) => !self.finished() && *s == self.storys@[self.story_index as int],
                None => self.finished(),
            },
    {
        if self.story_index < self.storys.len() {
            Some(&self.storys[self.story_index])
        } else {
            None
        }
    }

    /// The style text of the background: that of the step that shows, empty once the
    /// page is finished.
    pub fn background(&self) -> (r: String)
        ensures
            r@ == self.current().background,
    {
        match self.story() {
            Some(s) => s.background.clone(),
            None => String::new(),
        }
    }

    /// The class name of the background: that of the step that shows, empty once the
    /// page is finished.
    pub fn class(&self) -> (r: String)
        ensures
            r@ == self.current().class,
    {
        match self.story() {
            Some(s) => s.class.clone(),
            None => String::new(),
        }
    }

    /// The dialogue box of the step that shows, about to reveal its text; a box without
    /// runs once the page is finished. `can_skip` says whether the box lets the reader
    /// skip.
    pub fn story_box(&self, can_skip: bool) -> (r: StoryBox)
        ensures
            runs(r.title@) == self.current().title,
            runs(r.story@) == self.current().msg,
            r.can_skip == can_skip,
            r.skip_len == self.skip_len,
            r.story_index == self.story_index,
            r.state@ == Progress::start(),
    {
        match self.story() {
            Some(s) => StoryBox::new(
                clone_runs(&s.title),
                clone_runs(&s.msg),
                can_skip,
                self.skip_len,
                self.story_index,
            ),
            None => {
                let r = StoryBox::new(
                    Vec::new(),
                    Vec::new(),
                    can_skip,
                    self.skip_len,
                    self.story_index,
                );
                assert(runs(r.title@) =~= Seq::<TextPrintView>::empty());
                assert(runs(r.story@) =~= Seq::<TextPrintView>::empty());
                r
            },
        }
    }

    /// Moves on to the next step. A finished page stays as it is.
    pub fn on_next(&mut self)
        ensures
            final(self).storys == old(self).storys,
            final(self).skip_len == old(self).skip_len,
            final(self).story_index == if old(self).finished() {
                old(self).story_index as int
            } else {
                old(self).story_index + 1
            },
    {
        if self.story_index < self.storys.len() {
            self.story_index = self.story_index + 1;
        }
    }
}

} // verus!
