//! The engine of a dialogue box: where its reveal stands, and the transitions. The box
//! shows a sequence of runs one character at a time; a scheduler calls `tick`, carries
//! out the effects that the tick returns, and waits as long as it asks. Clicks and keys
//! come in between. The engine waits for nothing and plays nothing itself, and it reads
//! the settings afresh at each call.

use crate::story_base::TextConfig;
use crate::text_print::{
    clone_runs, clone_sound, runs, sound_view, SoundTrigger, SoundTriggerView, TextPrint,
    TextPrintView,
};
use vstd::prelude::*;

verus! {

/// Milliseconds that a tick takes while the settings screen is open.
pub const SETTINGS_WAIT: u32 = 5;

/// Milliseconds between two characters while skipping.
pub const SKIP_WAIT: u32 = 5;

/// Milliseconds that a tick takes once the whole sequence is revealed.
pub const END_WAIT: u32 = 10;

/// Milliseconds between two looks at the settings while auto-advance waits.
pub const POLL_WAIT: u32 = 5;

/// How long the scheduler pauses for a tick.
#[derive(Debug, Clone, Copy, PartialEq, Eq, Structural)]
pub enum Wait {
    /// This many milliseconds.
    Millis(u32),
    /// The delay of the current run, in milliseconds, which the scheduler divides by
    /// the reader's speed setting.
    Scaled(u32),
}

/// What the caller carries out after a transition.
#[derive(Debug)]
pub struct Effects {
    /// The sound to play for the character that has just appeared.
    pub sound: Option<SoundTrigger>,
    /// The sequence was committed to the log: move on to the next one.
    pub advance: bool,
}

/// Where the reveal stands.
#[derive(Debug, Clone, Copy, PartialEq, Eq, Structural)]
pub struct RevealState {
    /// The run that is being revealed; the length of the sequence once all of it is.
    pub run_index: usize,
    /// How many code points of that run show.
    pub revealed_chars: usize,
    /// Milliseconds that auto-advance has waited at the end of the sequence.
    pub idle: u32,
}

/// A reveal state as plain numbers.
pub struct Progress {
    pub run: nat,
    pub chars: nat,
    pub idle: nat,
}

impl View for RevealState {
    type V = Progress;

    open spec fn view(&self) -> Progress {
        Progress { run: self.run_index as nat, chars: self.revealed_chars as nat, idle: self.idle as nat }
    }
}

impl Progress {
    /// The state in which nothing is revealed yet.
    pub open spec fn start() -> Progress {
        Progress { run: 0, chars: 0, idle: 0 }
    }

    /// The whole of `runs` is revealed.
    pub open spec fn at_end(self, runs: Seq<TextPrintView>) -> bool {
        self.run >= runs.len()
    }

    /// The state points into `runs`: at one of its runs, with no more characters shown
    /// than the run has, or at the end.
    pub open spec fn wf(self, runs: Seq<TextPrintView>) -> bool {
        &&& self.run <= runs.len()
        &&& self.run < runs.len() ==> self.chars <= runs[self.run as int].msg.len()
    }
}

/// What one transition does: the next state, the settings as it leaves them, the pause,
/// the sound to play, and whether the sequence was committed.
pub struct Outcome {
    pub state: Progress,
    pub config: TextConfig,
    pub wait: Wait,
    pub sound: Option<SoundTriggerView>,
    pub advance: bool,
}

/// The waiting time of auto-advance after one more poll.
pub open spec fn polled(idle: nat) -> nat {
    if idle + POLL_WAIT > u32::MAX {
        u32::MAX as nat
    } else {
        idle + POLL_WAIT as nat
    }
}

/// One tick on the sequence `runs`, where `permitted` says whether this sequence may be
/// skipped.
///
/// - While the settings screen is open nothing changes.
/// - While a run is left: the pause is the run's delay, or the short one while
///   skipping. A skip that is asked for but not permitted is withdrawn. Unless the log is
///   open, one more character of the run appears, or, where all of them show, the next
///   run takes over. A character that appears sounds the run's trigger, if sound is on
///   and nothing is skipped.
/// - At the end: skipping commits the sequence at once; a skip that is not permitted is
///   withdrawn; auto-advance waits, poll by poll, until the delay is over and then
///   commits; otherwise the box idles. A commit starts the reveal afresh.
pub open spec fn step(
    runs: Seq<TextPrintView>,
    permitted: bool,
    s: Progress,
    c: TextConfig,
) -> Outcome {
    let skipping = c.is_skip && permitted;
    let kept = TextConfig { is_skip: skipping, ..c };
    if c.is_setting {
        Outcome { state: s, config: c, wait: Wait::Millis(SETTINGS_WAIT), sound: None, advance: false }
    } else if s.run < runs.len() {
        let run = runs[s.run as int];
        let wait = if skipping {
            Wait::Millis(SKIP_WAIT)
        } else {
            Wait::Scaled(run.speed)
        };
        if c.is_log {
            Outcome { state: s, config: kept, wait, sound: None, advance: false }
        } else if s.chars < run.msg.len() {
            Outcome {
                state: Progress { chars: s.chars + 1, ..s },
                config: kept,
                wait,
                sound: if c.sound_on && !skipping {
                    run.sound
                } else {
                    None
                },
                advance: false,
            }
        } else {
            Outcome {
                state: Progress { run: s.run + 1, chars: 0, ..s },
                config: kept,
                wait,
                sound: None,
                advance: false,
            }
        }
    } else if skipping {
        Outcome {
            state: Progress::start(),
            config: c,
            wait: Wait::Millis(END_WAIT),
            sound: None,
            advance: true,
        }
    } else if c.is_skip {
        Outcome {
            state: Progress { idle: 0, ..s },
            config: kept,
            wait: Wait::Millis(END_WAIT),
            sound: None,
            advance: false,
        }
    } else if c.is_auto {
        if s.idle < c.auto_speed {
            Outcome {
                state: Progress { idle: polled(s.idle), ..s },
                config: c,
                wait: Wait::Millis(POLL_WAIT),
                sound: None,
                advance: false,
            }
        } else {
            Outcome {
                state: Progress::start(),
                config: c,
                wait: Wait::Millis(END_WAIT),
                sound: None,
                advance: true,
            }
        }
    } else {
        Outcome {
            state: Progress { idle: 0, ..s },
            config: c,
            wait: Wait::Millis(END_WAIT),
            sound: None,
            advance: false,
        }
    }
}

/// A click on the box that shows `runs`, where `can_skip` says whether the box lets the
/// reader skip: at the end it commits the sequence and starts afresh; before the end it
/// reveals everything at once, if the box lets it. The second part of the result says
/// whether the sequence was committed. A box without runs ignores the click.
pub open spec fn click_step(runs: Seq<TextPrintView>, can_skip: bool, s: Progress) -> (Progress, bool) {
    if runs.len() == 0 {
        (s, false)
    } else if s.at_end(runs) {
        (Progress::start(), true)
    } else if can_skip {
        (Progress { run: runs.len(), ..s }, false)
    } else {
        (s, false)
    }
}

/// The history of the sequences that were committed, oldest first.
#[derive(Debug)]
pub struct MessageLog {
    pub entries: Vec<Vec<TextPrint>>,
}

impl View for MessageLog {
    type V = Seq<Seq<TextPrintView>>;

    open spec fn view(&self) -> Seq<Seq<TextPrintView>> {
        Seq::new(self.entries@.len(), |i: int| runs(self.entries@[i]@))
    }
}

impl MessageLog {
    /// An empty log.
    pub fn new() -> (r: Self)
        ensures
            r@ == Seq::<Seq<TextPrintView>>::empty(),
    {
        let r = MessageLog { entries: Vec::new() };
        assert(r@ =~= Seq::<Seq<TextPrintView>>::empty());
        r
    }

    /// The number of sequences in the log.
    pub fn len(&self) -> (n: usize)
        ensures
            n == self@.len(),
    {
        self.entries.len()
    }

    /// Appends `sequence` to the log.
    pub fn push(&mut self, sequence: Vec<TextPrint>)
        ensures
            final(self)@ == old(self)@.push(runs(sequence@)),
    {
        self.entries.push(sequence);
        assert(self@ =~= old(self)@.push(runs(sequence@)));
    }
}

/// One dialogue box: the sequence that it shows, what it lets the reader skip, and where
/// its reveal stands.
#[derive(Debug)]
pub struct StoryBox {
    /// The runs of the speaker's name, which show in full from the start.
    pub title: Vec<TextPrint>,
    /// The sequence of runs that the box reveals.
    pub story: Vec<TextPrint>,
    /// Whether the box lets the reader skip at all.
    pub can_skip: bool,
    /// The number of sequences of the page, counted from its first, that may be skipped.
    pub skip_len: usize,
    /// The place of this sequence in its page.
    pub story_index: usize,
    /// Where the reveal stands.
    pub state: RevealState,
}

impl StoryBox {
    /// Whether holding the skip key skips this sequence: the box lets the reader skip and
    /// the sequence is one of the first `skip_len` of its page.
    pub open spec fn permitted(&self) -> bool {
        self.can_skip && self.skip_len > self.story_index
    }

    /// The box shows the same sequence under the same rules as `other`; only the reveal
    /// may stand elsewhere.
    pub open spec fn same_box(&self, other: &StoryBox) -> bool {
        &&& self.title == other.title
        &&& self.story == other.story
        &&& self.can_skip == other.can_skip
        &&& self.skip_len == other.skip_len
        &&& self.story_index == other.story_index
    }

    /// A box that is about to reveal `story` under the name `title`.
    pub fn new(
        title: Vec<TextPrint>,
        story: Vec<TextPrint>,
        can_skip: bool,
        skip_len: usize,
        story_index: usize,
    ) -> (r: Self)
        ensures
            r.title == title,
            r.story == story,
            r.can_skip == can_skip,
            r.skip_len == skip_len,
            r.story_index == story_index,
            r.state@ == Progress::start(),
            r.state@.wf(runs(story@)),
    {
        StoryBox {
            title,
            story,
            can_skip,
            skip_len,
            story_index,
            state: RevealState { run_index: 0, revealed_chars: 0, idle: 0 },
        }
    }

    /// Whether holding the skip key skips this sequence.
    pub fn skip_permitted(&self) -> (r: bool)
        ensures
            r == self.permitted(),
    {
        self.can_skip && self.skip_len > self.story_index
    }

    /// Whether the whole sequence is revealed.
    pub fn is_at_end(&self) -> (r: bool)
        ensures
            r == self.state@.at_end(runs(self.story@)),
    {
        self.state.run_index >= self.story.len()
    }

    /// One tick of the scheduler. The result is the pause that belongs to the tick and
    /// what the caller carries out; a commit appends the sequence to `log`.
    pub fn tick(&mut self, config: &mut TextConfig, log: &mut MessageLog) -> (r: (Wait, Effects))
        ensures
            ({
                let out = step(
                    runs(old(self).story@),
                    old(self).permitted(),
                    old(self).state@,
                    *old(config),
                );
                &&& final(self).state@ == out.state
                &&& *final(config) == out.config
                &&& r.0 == out.wait
                &&& sound_view(r.1.sound) == out.sound
                &&& r.1.advance == out.advance
                &&& final(log)@ == if out.advance {
                    old(log)@.push(runs(old(self).story@))
                } else {
                    old(log)@
                }
            }),
            final(log)@.len() == old(log)@.len() + if r.1.advance {
                1int
            } else {
                0int
            },
            final(self).same_box(old(self)),
            old(self).state@.wf(runs(old(self).story@)) ==> final(self).state@.wf(
                runs(old(self).story@),
            ),
    {
        if config.is_setting {
            return (Wait::Millis(SETTINGS_WAIT), Effects { sound: None, advance: false });
        }
        let permitted = self.skip_permitted();
        let skipping = config.is_skip && permitted;
        if self.state.run_index < self.story.len() {
            let run = &self.story[self.state.run_index];
            let wait = if skipping {
                Wait::Millis(SKIP_WAIT)
            } else {
                Wait::Scaled(run.speed)
            };
            config.is_skip = skipping;
            if config.is_log {
                return (wait, Effects { sound: None, advance: false });
            }
            if self.state.revealed_chars < run.len() {
                let sound = if config.sound_on && !skipping {
                    clone_sound(&run.sound)
                } else {
                    None
                };
                self.state.revealed_chars = self.state.revealed_chars + 1;
                (wait, Effects { sound, advance: false })
            } else {
                self.state.revealed_chars = 0;
                self.state.run_index = self.state.run_index + 1;
                (wait, Effects { sound: None, advance: false })
            }
        } else if skipping {
            log.push(clone_runs(&self.story));
            self.state = RevealState { run_index: 0, revealed_chars: 0, idle: 0 };
            (Wait::Millis(END_WAIT), Effects { sound: None, advance: true })
        } else if config.is_skip {
            config.is_skip = false;
            self.state.idle = 0;
            (Wait::Millis(END_WAIT), Effects { sound: None, advance: false })
        } else if config.is_auto {
            if self.state.idle < config.auto_speed {
                self.state.idle = self.state.idle.saturating_add(POLL_WAIT);
                (Wait::Millis(POLL_WAIT), Effects { sound: None, advance: false })
            } else {
                log.push(clone_runs(&self.story));
                self.state = RevealState { run_index: 0, revealed_chars: 0, idle: 0 };
                (Wait::Millis(END_WAIT), Effects { sound: None, advance: true })
            }
        } else {
            self.state.idle = 0;
            (Wait::Millis(END_WAIT), Effects { sound: None, advance: false })
        }
    }

    /// A click on the box. It plays no sound; a commit appends the sequence to `log`.
    pub fn click(&mut self, log: &mut MessageLog) -> (r: Effects)
        ensures
            ({
                let out = click_step(runs(old(self).story@), old(self).can_skip, old(self).state@);
                &&& final(self).state@ == out.0
                &&& r.advance == out.1
                &&& final(log)@ == if out.1 {
                    old(log)@.push(runs(old(self).story@))
                } else {
                    old(log)@
                }
            }),
            r.sound is None,
            !old(self).state@.at_end(runs(old(self).story@)) && old(self).can_skip
                ==> final(self).state.run_index == old(self).story@.len() && !r.advance,
            final(log)@.len() == old(log)@.len() + if r.advance {
                1int
            } else {
                0int
            },
            final(self).same_box(old(self)),
            old(self).state@.wf(runs(old(self).story@)) ==> final(self).state@.wf(
                runs(old(self).story@),
            ),
    {
        if self.story.len() == 0 {
            Effects { sound: None, advance: false }
        } else if self.state.run_index >= self.story.len() {
            log.push(clone_runs(&self.story));
            self.state = RevealState { run_index: 0, revealed_chars: 0, idle: 0 };
            Effects { sound: None, advance: true }
        } else if self.can_skip {
            self.state.run_index = self.story.len();
            Effects { sound: None, advance: false }
        } else {
            Effects { sound: None, advance: false }
        }
    }
}


/// The settings after a key went down over a box, where `permitted` says whether the
/// sequence may be skipped and `control` whether the key is a control key: skipping is
/// asked for exactly while a control key is held over a sequence that may be skipped.
pub open spec fn key_down_step(permitted: bool, control: bool, c: TextConfig) -> TextConfig {
    TextConfig { is_skip: control && permitted, ..c }
}

/// The settings after a key was let go, where `control` says whether the key is a control
/// key: letting go of a control key withdraws the skip.
pub open spec fn key_up_step(control: bool, c: TextConfig) -> TextConfig {
    if control {
        TextConfig { is_skip: false, ..c }
    } else {
        c
    }
}

impl StoryBox {
    /// A key went down over the box; `control` says whether it is a control key.
    pub fn key_down(&self, control: bool, config: &mut TextConfig)
        ensures
            *final(config) == key_down_step(self.permitted(), control, *old(config)),
    {
        config.is_skip = control && self.skip_permitted();
    }

    /// A key was let go over the box; `control` says whether it is a control key.
    pub fn key_up(&self, control: bool, config: &mut TextConfig)
        ensures
            *final(config) == key_up_step(control, *old(config)),
    {
        if control {
            config.is_skip = false;
        }
    }

    /// The runs that are fully revealed: those before the current one, in order.
    pub fn before_message(&self) -> (r: Vec<TextPrint>)
        ensures
            runs(r@) == if self.state@.at_end(runs(self.story@)) {
                runs(self.story@)
            } else {
                runs(self.story@).take(self.state@.run as int)
            },
    {
        let n = if self.state.run_index < self.story.len() {
            self.state.run_index
        } else {
            self.story.len()
        };
        let mut r: Vec<TextPrint> = Vec::new();
        let mut i: usize = 0;
        while i < n
            invariant
                n <= self.story@.len(),
                i <= n,
                r@.len() == i,
                forall|j: int| 0 <= j < i ==> r@[j]@ == self.story@[j]@,
            decreases n - i,
        {
            r.push(self.story[i].clone());
            i += 1;
        }
        assert(runs(r@) =~= runs(self.story@).take(n as int));
        assert(runs(self.story@).take(self.story@.len() as int) =~= runs(self.story@));
        r
    }

    /// The current run, cut to the characters that show; `None` at the end.
    pub fn message(&self) -> (r: Option<TextPrint>)
        ensures
            match r {
                Some(run) => !self.state@.at_end(runs(self.story@)) && run@ == runs(
                    self.story@,
                )[self.state@.run as int].part(self.state@.chars),
                None => self.state@.at_end(runs(self.story@)),
            },
    {
        if self.state.run_index < self.story.len() {
            Some(self.story[self.state.run_index].part_print(self.state.revealed_chars))
        } else {
            None
        }
    }

    /// Binds the box to `story` under the name `title`, the sequence at place
    /// `story_index` of the page, and starts its reveal afresh.
    pub fn bind(&mut self, title: Vec<TextPrint>, story: Vec<TextPrint>, story_index: usize)
        ensures
            final(self).title == title,
            final(self).story == story,
            final(self).story_index == story_index,
            final(self).can_skip == old(self).can_skip,
            final(self).skip_len == old(self).skip_len,
            final(self).state@ == Progress::start(),
    {
        self.title = title;
        self.story = story;
        self.story_index = story_index;
        self.state = RevealState { run_index: 0, revealed_chars: 0, idle: 0 };
    }
}

/// The state after one tick for each of `configs`, the settings as the ticks find them,
/// in order.
pub open spec fn after_ticks(
    runs: Seq<TextPrintView>,
    permitted: bool,
    s: Progress,
    configs: Seq<TextConfig>,
) -> Progress
    decreases configs.len(),
{
    if configs.len() == 0 {
        s
    } else {
        step(runs, permitted, after_ticks(runs, permitted, s, configs.drop_last()), configs.last()).state
    }
}

/// How many of those ticks commit the sequence.
pub open spec fn commits(
    runs: Seq<TextPrintView>,
    permitted: bool,
    s: Progress,
    configs: Seq<TextConfig>,
) -> nat
    decreases configs.len(),
{
    if configs.len() == 0 {
        0
    } else {
        let before = after_ticks(runs, permitted, s, configs.drop_last());
        let last: nat = if step(runs, permitted, before, configs.last()).advance {
            1
        } else {
            0
        };
        commits(runs, permitted, s, configs.drop_last()) + last
    }
}

/// The code points of the runs from place `from` on, counted together.
pub open spec fn chars_from(runs: Seq<TextPrintView>, from: nat) -> nat
    decreases runs.len() - from,
{
    if from >= runs.len() {
        0
    } else {
        runs[from as int].msg.len() + chars_from(runs, from + 1)
    }
}

/// The code points of all the runs, counted together.
pub open spec fn total_chars(runs: Seq<TextPrintView>) -> nat {
    chars_from(runs, 0)
}

/// The ticks that it takes from `s` to the end of `runs` while settings and log stay
/// shut: one for each character that does not show yet, and one for each run that is
/// left, to hand over to the next.
pub open spec fn ticks_left(runs: Seq<TextPrintView>, s: Progress) -> nat {
    if s.run >= runs.len() {
        0
    } else {
        (runs[s.run as int].msg.len() - s.chars + 1 + chars_from(runs, s.run + 1) + (runs.len()
            - s.run - 1)) as nat
    }
}

/// With skip and auto-advance off, a tick never commits and never goes back: either
/// the run stays and no character is taken back, or the next run takes over with no
/// character shown.
pub proof fn lemma_tick_monotone(
    runs: Seq<TextPrintView>,
    permitted: bool,
    s: Progress,
    c: TextConfig,
)
    requires
        !c.is_skip,
        !c.is_auto,
    ensures
        ({
            let out = step(runs, permitted, s, c);
            &&& !out.advance
            &&& {
                ||| out.state.run == s.run && out.state.chars >= s.chars
                ||| out.state.run == s.run + 1 && out.state.chars == 0
            }
        }),
{
}

/// With skip and auto-advance off, no number of ticks takes the reveal back: the run
/// index never falls, and while it stays the same the characters shown never get fewer.
pub proof fn lemma_reveal_monotone(
    runs: Seq<TextPrintView>,
    permitted: bool,
    s: Progress,
    configs: Seq<TextConfig>,
)
    requires
        forall|i: int| 0 <= i < configs.len() ==> !configs[i].is_skip && !configs[i].is_auto,
    ensures
        ({
            let t = after_ticks(runs, permitted, s, configs);
            &&& t.run >= s.run
            &&& t.run == s.run ==> t.chars >= s.chars
        }),
        commits(runs, permitted, s, configs) == 0,
    decreases configs.len(),
{
    if configs.len() > 0 {
        lemma_reveal_monotone(runs, permitted, s, configs.drop_last());
        lemma_tick_monotone(
            runs,
            permitted,
            after_ticks(runs, permitted, s, configs.drop_last()),
            configs.last(),
        );
    }
}

/// While settings and log are shut, a tick before the end brings the end one tick
/// nearer.
pub proof fn lemma_tick_progress(
    runs: Seq<TextPrintView>,
    permitted: bool,
    s: Progress,
    c: TextConfig,
)
    requires
        s.wf(runs),
        !s.at_end(runs),
        !c.is_setting,
        !c.is_log,
    ensures
        ({
            let out = step(runs, permitted, s, c);
            &&& out.state.wf(runs)
            &&& !out.advance
            &&& ticks_left(runs, out.state) + 1 == ticks_left(runs, s)
        }),
{
    let out = step(runs, permitted, s, c);
    if s.chars < runs[s.run as int].msg.len() {
    } else {
        assert(out.state.run == s.run + 1);
        if out.state.run < runs.len() {
            assert(chars_from(runs, out.state.run) == runs[out.state.run as int].msg.len()
                + chars_from(runs, out.state.run + 1));
        } else {
            assert(chars_from(runs, out.state.run) == 0);
        }
    }
}

/// While settings and log are shut, `k` ticks, of no more than are left to the end,
/// bring the end `k` ticks nearer and commit nothing.
pub proof fn lemma_ticks_progress(
    runs: Seq<TextPrintView>,
    permitted: bool,
    s: Progress,
    configs: Seq<TextConfig>,
)
    requires
        s.wf(runs),
        configs.len() <= ticks_left(runs, s),
        forall|i: int| 0 <= i < configs.len() ==> !configs[i].is_setting && !configs[i].is_log,
    ensures
        after_ticks(runs, permitted, s, configs).wf(runs),
        ticks_left(runs, after_ticks(runs, permitted, s, configs)) + configs.len() == ticks_left(
            runs,
            s,
        ),
        commits(runs, permitted, s, configs) == 0,
    decreases configs.len(),
{
    if configs.len() > 0 {
        lemma_ticks_progress(runs, permitted, s, configs.drop_last());
        let before = after_ticks(runs, permitted, s, configs.drop_last());
        assert(ticks_left(runs, before) > 0);
        lemma_tick_progress(runs, permitted, before, configs.last());
    }
}

/// Full reveal. From the start, while settings and log stay shut, the sequence is wholly
/// revealed after one tick for each of its code points and one for each of its runs, and
/// not before; none of these ticks commits. So the ticks that reveal a sequence are as
/// many as its code points only where it has no run.
pub proof fn lemma_full_reveal(
    runs: Seq<TextPrintView>,
    permitted: bool,
    configs: Seq<TextConfig>,
)
    requires
        configs.len() == total_chars(runs) + runs.len(),
        forall|i: int| 0 <= i < configs.len() ==> !configs[i].is_setting && !configs[i].is_log,
    ensures
        after_ticks(runs, permitted, Progress::start(), configs).run == runs.len(),
        forall|k: int|
            0 <= k < configs.len() ==> !(#[trigger] after_ticks(
                runs,
                permitted,
                Progress::start(),
                configs.take(k),
            )).at_end(runs),
        commits(runs, permitted, Progress::start(), configs) == 0,
        after_ticks(runs, permitted, Progress::start(), configs.take(total_chars(runs) as int)).at_end(
            runs,
        ) <==> runs.len() == 0,
{
    let s = Progress::start();
    assert(ticks_left(runs, s) == total_chars(runs) + runs.len());
    lemma_ticks_progress(runs, permitted, s, configs);
    assert forall|k: int| 0 <= k < configs.len() implies !(#[trigger] after_ticks(
        runs,
        permitted,
        s,
        configs.take(k),
    )).at_end(runs) by {
        lemma_ticks_progress(runs, permitted, s, configs.take(k));
    }
    if runs.len() == 0 {
        assert(configs.take(total_chars(runs) as int) =~= configs);
    }
}

/// Sound. A tick sounds a trigger only as it makes one more character of a run appear,
/// and then it is that run's trigger; never while sound is off, while skipping, while
/// the settings screen or the log is open, or at the end.
pub proof fn lemma_sound(runs: Seq<TextPrintView>, permitted: bool, s: Progress, c: TextConfig)
    ensures
        ({
            let out = step(runs, permitted, s, c);
            out.sound is Some ==> {
                &&& c.sound_on
                &&& !(c.is_skip && permitted)
                &&& !c.is_setting
                &&& !c.is_log
                &&& s.run < runs.len()
                &&& out.sound == runs[s.run as int].sound
                &&& out.state.run == s.run
                &&& out.state.chars == s.chars + 1
            }
        }),
{
}

/// Order. A tick shows the characters of a run one by one, hands over to the next run
/// only when all of them show, and commits only at the end. A click commits only at
/// the end.
pub proof fn lemma_order(
    runs: Seq<TextPrintView>,
    permitted: bool,
    can_skip: bool,
    s: Progress,
    c: TextConfig,
)
    requires
        s.wf(runs),
    ensures
        ({
            let out = step(runs, permitted, s, c);
            &&& out.state.wf(runs)
            &&& out.advance ==> s.at_end(runs) && out.state == Progress::start()
            &&& !out.advance ==> {
                ||| out.state.run == s.run && out.state.chars == s.chars
                ||| out.state.run == s.run && out.state.chars == s.chars + 1
                ||| out.state.run == s.run + 1 && out.state.chars == 0 && s.chars
                    == runs[s.run as int].msg.len()
            }
        }),
        click_step(runs, can_skip, s).1 ==> s.at_end(runs),
        click_step(runs, can_skip, s).0.wf(runs),
{
}

/// Commits. At the end of a sequence that has runs, a click commits; so does a tick
/// while skipping is asked for and permitted and the settings screen is shut. Each
/// leaves the reveal at its start.
pub proof fn lemma_commit(runs: Seq<TextPrintView>, can_skip: bool, s: Progress, c: TextConfig)
    requires
        s.at_end(runs),
    ensures
        runs.len() > 0 ==> click_step(runs, can_skip, s) == (Progress::start(), true),
        c.is_skip && !c.is_setting ==> step(runs, true, s, c).advance && step(
            runs,
            true,
            s,
            c,
        ).state == Progress::start(),
{
}

/// Idle at the end. With skip and auto-advance off, ticks at the end of a sequence
/// commit nothing, however many they are, and the sequence stays wholly revealed.
pub proof fn lemma_idle_at_end(
    runs: Seq<TextPrintView>,
    permitted: bool,
    s: Progress,
    configs: Seq<TextConfig>,
)
    requires
        s.at_end(runs),
        forall|i: int| 0 <= i < configs.len() ==> !configs[i].is_skip && !configs[i].is_auto,
    ensures
        commits(runs, permitted, s, configs) == 0,
        after_ticks(runs, permitted, s, configs).at_end(runs),
        after_ticks(runs, permitted, s, configs).run == s.run,
    decreases configs.len(),
{
    if configs.len() > 0 {
        lemma_idle_at_end(runs, permitted, s, configs.drop_last());
    }
}

} // verus!
