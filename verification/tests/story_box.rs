use story_text::story_base::TextConfig;
use story_text::story_box::{MessageLog, RevealState, StoryBox, Wait};
use story_text::text_print::{SoundTrigger, TextPrint};

fn sequence() -> Vec<TextPrint> {
    vec![
        TextPrint::default().msg("ab").speed(30),
        TextPrint::default().msg("").speed(40),
        TextPrint::default()
            .msg("메세지")
            .speed(50)
            .sound(SoundTrigger::AnimalCrossing("voice".to_owned())),
    ]
}

fn open_box(can_skip: bool, skip_len: usize, story_index: usize) -> StoryBox {
    StoryBox::new(Vec::new(), sequence(), can_skip, skip_len, story_index)
}

fn place(b: &StoryBox) -> (usize, usize) {
    (b.state.run_index, b.state.revealed_chars)
}

#[test]
fn a_new_box_shows_nothing() {
    let b = open_box(true, 0, 0);
    assert_eq!(b.state, RevealState { run_index: 0, revealed_chars: 0, idle: 0 });
    assert!(!b.is_at_end());
    assert!(b.before_message().is_empty());
    assert_eq!(b.message().unwrap().msg, "");
}

#[test]
fn ticks_reveal_character_by_character() {
    let mut b = open_box(true, 0, 0);
    let mut config = TextConfig::default();
    let mut log = MessageLog::new();
    let mut seen = Vec::new();
    let mut waits = Vec::new();
    for _ in 0..8 {
        let (wait, effects) = b.tick(&mut config, &mut log);
        assert!(!effects.advance);
        seen.push(place(&b));
        waits.push(wait);
    }
    assert_eq!(seen, vec![(0, 1), (0, 2), (1, 0), (2, 0), (2, 1), (2, 2), (2, 3), (3, 0)]);
    assert_eq!(
        waits,
        vec![
            Wait::Scaled(30),
            Wait::Scaled(30),
            Wait::Scaled(30),
            Wait::Scaled(40),
            Wait::Scaled(50),
            Wait::Scaled(50),
            Wait::Scaled(50),
            Wait::Scaled(50)
        ]
    );
    assert!(b.is_at_end());
    assert_eq!(log.len(), 0);
    assert_eq!(config, TextConfig::default());
}

#[test]
fn reveal_never_goes_back_without_skip_and_auto() {
    let mut b = open_box(true, 0, 0);
    let mut log = MessageLog::new();
    let mut before = place(&b);
    for n in 0..40 {
        let mut config = TextConfig::default();
        config.is_log = n % 5 == 1;
        config.is_setting = n % 7 == 2;
        config.sound_on = n % 2 == 0;
        b.tick(&mut config, &mut log);
        let after = place(&b);
        assert!(after.0 >= before.0);
        if after.0 == before.0 {
            assert!(after.1 >= before.1);
        } else {
            assert_eq!(after.0, before.0 + 1);
            assert_eq!(after.1, 0);
        }
        before = after;
    }
    assert!(b.is_at_end());
    assert_eq!(log.len(), 0);
}

#[test]
fn full_reveal_takes_one_tick_for_each_character_and_each_run() {
    let mut b = open_box(false, 0, 0);
    let mut config = TextConfig::default();
    let mut log = MessageLog::new();
    let characters: usize = sequence().iter().map(|run| run.len()).sum();
    assert_eq!(characters, 5);
    let ticks = characters + sequence().len();
    for n in 0..ticks {
        assert!(!b.is_at_end(), "at the end after {} ticks", n);
        b.tick(&mut config, &mut log);
    }
    assert!(b.is_at_end());
    assert_eq!(b.state.run_index, 3);
}

#[test]
fn a_box_without_runs_is_at_the_end_from_the_start() {
    let mut b = StoryBox::new(Vec::new(), Vec::new(), true, 0, 0);
    assert!(b.is_at_end());
    assert!(b.message().is_none());
    assert!(b.before_message().is_empty());
    let mut log = MessageLog::new();
    let effects = b.click(&mut log);
    assert!(!effects.advance);
    assert!(effects.sound.is_none());
    assert_eq!(log.len(), 0);
    assert_eq!(place(&b), (0, 0));
    let mut config = TextConfig::default();
    let (wait, effects) = b.tick(&mut config, &mut log);
    assert_eq!(wait, Wait::Millis(10));
    assert!(!effects.advance);
    assert_eq!(log.len(), 0);
}

#[test]
fn sound_plays_once_for_each_character_of_a_sounding_run() {
    let mut b = open_box(true, 0, 0);
    let mut config = TextConfig::default();
    let mut log = MessageLog::new();
    let mut sounds = Vec::new();
    for _ in 0..8 {
        let (_, effects) = b.tick(&mut config, &mut log);
        sounds.push(effects.sound);
    }
    let voice = Some(SoundTrigger::AnimalCrossing("voice".to_owned()));
    assert_eq!(
        sounds,
        vec![None, None, None, None, voice.clone(), voice.clone(), voice, None]
    );
}

#[test]
fn no_sound_while_sound_is_off() {
    let mut b = open_box(true, 0, 0);
    let mut config = TextConfig::default();
    config.sound_on = false;
    let mut log = MessageLog::new();
    for _ in 0..8 {
        let (_, effects) = b.tick(&mut config, &mut log);
        assert!(effects.sound.is_none());
    }
    assert!(b.is_at_end());
}

#[test]
fn skipping_is_fast_and_silent_and_commits_at_the_end() {
    let mut b = open_box(true, 1, 0);
    assert!(b.skip_permitted());
    let mut config = TextConfig::default();
    config.is_skip = true;
    let mut log = MessageLog::new();
    for _ in 0..8 {
        let (wait, effects) = b.tick(&mut config, &mut log);
        assert_eq!(wait, Wait::Millis(5));
        assert!(effects.sound.is_none());
        assert!(!effects.advance);
        assert!(config.is_skip);
    }
    assert!(b.is_at_end());
    let (wait, effects) = b.tick(&mut config, &mut log);
    assert_eq!(wait, Wait::Millis(10));
    assert!(effects.advance);
    assert_eq!(log.len(), 1);
    assert_eq!(log.entries[0], sequence());
    assert_eq!(b.state, RevealState { run_index: 0, revealed_chars: 0, idle: 0 });
    assert!(config.is_skip);
}

#[test]
fn a_skip_that_is_not_permitted_is_withdrawn() {
    for (can_skip, skip_len, story_index) in [(false, 9, 0), (true, 0, 0), (true, 2, 2), (true, 2, 5)]
    {
        let mut b = open_box(can_skip, skip_len, story_index);
        assert!(!b.skip_permitted());
        let mut config = TextConfig::default();
        config.is_skip = true;
        let mut log = MessageLog::new();
        let (wait, _) = b.tick(&mut config, &mut log);
        assert_eq!(wait, Wait::Scaled(30));
        assert!(!config.is_skip);
        assert_eq!(place(&b), (0, 1));
    }
    let mut b = open_box(true, 2, 1);
    assert!(b.skip_permitted());
    b.state.run_index = 3;
    b.can_skip = false;
    let mut config = TextConfig::default();
    config.is_skip = true;
    let mut log = MessageLog::new();
    let (wait, effects) = b.tick(&mut config, &mut log);
    assert_eq!(wait, Wait::Millis(10));
    assert!(!effects.advance);
    assert!(!config.is_skip);
    assert_eq!(log.len(), 0);
}

#[test]
fn settings_freeze_the_box() {
    let mut b = open_box(true, 1, 0);
    let mut config = TextConfig::default();
    config.is_setting = true;
    config.is_skip = true;
    config.is_auto = true;
    let mut log = MessageLog::new();
    for _ in 0..5 {
        let (wait, effects) = b.tick(&mut config, &mut log);
        assert_eq!(wait, Wait::Millis(5));
        assert!(!effects.advance);
        assert!(effects.sound.is_none());
    }
    assert_eq!(place(&b), (0, 0));
    b.state.run_index = 3;
    b.state.idle = 20;
    b.tick(&mut config, &mut log);
    assert_eq!(b.state, RevealState { run_index: 3, revealed_chars: 0, idle: 20 });
    assert_eq!(log.len(), 0);
    assert!(config.is_skip);
}

#[test]
fn the_log_view_holds_the_reveal() {
    let mut b = open_box(true, 0, 0);
    let mut config = TextConfig::default();
    config.is_log = true;
    config.is_skip = true;
    let mut log = MessageLog::new();
    let (wait, effects) = b.tick(&mut config, &mut log);
    assert_eq!(wait, Wait::Scaled(30));
    assert!(effects.sound.is_none());
    assert_eq!(place(&b), (0, 0));
    assert!(!config.is_skip);
}

#[test]
fn idle_ticks_at_the_end_leave_the_log_alone() {
    let mut b = open_box(true, 1, 0);
    b.state.run_index = 3;
    let mut config = TextConfig::default();
    let mut log = MessageLog::new();
    for _ in 0..100 {
        let (wait, effects) = b.tick(&mut config, &mut log);
        assert_eq!(wait, Wait::Millis(10));
        assert!(!effects.advance);
        assert!(b.is_at_end());
    }
    assert_eq!(log.len(), 0);
}

#[test]
fn auto_advance_waits_and_then_commits_once() {
    let mut b = open_box(true, 0, 0);
    b.state.run_index = 3;
    let mut config = TextConfig::default();
    config.is_auto = true;
    config.auto_speed = 12;
    let mut log = MessageLog::new();
    let mut idle = Vec::new();
    for _ in 0..3 {
        let (wait, effects) = b.tick(&mut config, &mut log);
        assert_eq!(wait, Wait::Millis(5));
        assert!(!effects.advance);
        idle.push(b.state.idle);
    }
    assert_eq!(idle, vec![5, 10, 15]);
    assert_eq!(log.len(), 0);
    let (wait, effects) = b.tick(&mut config, &mut log);
    assert_eq!(wait, Wait::Millis(10));
    assert!(effects.advance);
    assert_eq!(log.len(), 1);
    assert_eq!(b.state, RevealState { run_index: 0, revealed_chars: 0, idle: 0 });
}

#[test]
fn auto_advance_starts_over_when_it_is_switched_off() {
    let mut b = open_box(true, 0, 0);
    b.state.run_index = 3;
    let mut config = TextConfig::default();
    config.is_auto = true;
    config.auto_speed = 5000;
    let mut log = MessageLog::new();
    b.tick(&mut config, &mut log);
    b.tick(&mut config, &mut log);
    assert_eq!(b.state.idle, 10);
    config.is_auto = false;
    b.tick(&mut config, &mut log);
    assert_eq!(b.state.idle, 0);
    assert_eq!(log.len(), 0);
}

#[test]
fn auto_advance_without_delay_commits_at_once() {
    let mut b = open_box(true, 0, 0);
    b.state.run_index = 3;
    let mut config = TextConfig::default();
    config.is_auto = true;
    config.auto_speed = 0;
    let mut log = MessageLog::new();
    let (_, effects) = b.tick(&mut config, &mut log);
    assert!(effects.advance);
    assert_eq!(log.len(), 1);
}

#[test]
fn the_waiting_time_stops_at_the_largest_number() {
    let mut b = open_box(true, 0, 0);
    b.state.run_index = 3;
    b.state.idle = u32::MAX - 2;
    let mut config = TextConfig::default();
    config.is_auto = true;
    config.auto_speed = u32::MAX;
    let mut log = MessageLog::new();
    let (_, effects) = b.tick(&mut config, &mut log);
    assert!(!effects.advance);
    assert_eq!(b.state.idle, u32::MAX);
    let (_, effects) = b.tick(&mut config, &mut log);
    assert!(effects.advance);
}

#[test]
fn a_click_reveals_everything_at_once() {
    let mut b = open_box(true, 0, 0);
    let mut config = TextConfig::default();
    let mut log = MessageLog::new();
    b.tick(&mut config, &mut log);
    let effects = b.click(&mut log);
    assert!(effects.sound.is_none());
    assert!(!effects.advance);
    assert_eq!(b.state.run_index, 3);
    assert!(b.is_at_end());
    assert_eq!(log.len(), 0);
    assert_eq!(b.before_message(), sequence());
    assert!(b.message().is_none());
}

#[test]
fn a_click_at_the_end_commits_exactly_one_sequence() {
    let mut b = open_box(true, 0, 0);
    let mut log = MessageLog::new();
    b.click(&mut log);
    let effects = b.click(&mut log);
    assert!(effects.advance);
    assert!(effects.sound.is_none());
    assert_eq!(log.len(), 1);
    assert_eq!(log.entries[0], sequence());
    assert_eq!(b.state, RevealState { run_index: 0, revealed_chars: 0, idle: 0 });
    b.click(&mut log);
    b.click(&mut log);
    assert_eq!(log.len(), 2);
}

#[test]
fn a_click_does_nothing_where_the_box_does_not_skip() {
    let mut b = open_box(false, 9, 0);
    let mut log = MessageLog::new();
    let effects = b.click(&mut log);
    assert!(!effects.advance);
    assert_eq!(place(&b), (0, 0));
    assert_eq!(log.len(), 0);
}

#[test]
fn the_control_key_asks_for_a_skip_where_it_is_permitted() {
    let mut config = TextConfig::default();
    let b = open_box(true, 1, 0);
    b.key_down(true, &mut config);
    assert!(config.is_skip);
    b.key_down(false, &mut config);
    assert!(!config.is_skip);
    b.key_down(true, &mut config);
    b.key_up(false, &mut config);
    assert!(config.is_skip);
    b.key_up(true, &mut config);
    assert!(!config.is_skip);

    let past = open_box(true, 1, 1);
    past.key_down(true, &mut config);
    assert!(!config.is_skip);
    config.is_skip = true;
    past.key_up(true, &mut config);
    assert!(!config.is_skip);

    let fixed = open_box(false, 1, 0);
    config.is_skip = true;
    fixed.key_up(false, &mut config);
    assert!(config.is_skip);
    fixed.key_down(true, &mut config);
    assert!(!config.is_skip);
    config.is_skip = true;
    fixed.key_up(true, &mut config);
    assert!(!config.is_skip);
}

#[test]
fn the_snapshot_shows_what_is_revealed() {
    let mut b = open_box(true, 0, 0);
    let mut config = TextConfig::default();
    let mut log = MessageLog::new();
    for _ in 0..6 {
        b.tick(&mut config, &mut log);
    }
    assert_eq!(place(&b), (2, 2));
    let before = b.before_message();
    assert_eq!(before.len(), 2);
    assert_eq!(before[0].msg, "ab");
    assert_eq!(before[1].msg, "");
    let current = b.message().unwrap();
    assert_eq!(current.msg, "메세");
    assert_eq!(current.speed, 50);
}

#[test]
fn bind_starts_the_next_sequence() {
    let mut b = open_box(true, 3, 0);
    let mut log = MessageLog::new();
    b.click(&mut log);
    b.bind(vec![TextPrint::default().msg("name")], vec![TextPrint::default().msg("next")], 1);
    assert_eq!(b.title.len(), 1);
    assert_eq!(b.story.len(), 1);
    assert_eq!(b.story_index, 1);
    assert_eq!(b.skip_len, 3);
    assert!(b.can_skip);
    assert_eq!(b.state, RevealState { run_index: 0, revealed_chars: 0, idle: 0 });
}

#[test]
fn a_state_past_its_run_moves_on() {
    let mut b = open_box(true, 0, 0);
    b.state.revealed_chars = 17;
    let mut config = TextConfig::default();
    let mut log = MessageLog::new();
    b.tick(&mut config, &mut log);
    assert_eq!(place(&b), (1, 0));
    b.state.run_index = 12;
    assert!(b.is_at_end());
    assert!(b.message().is_none());
    assert_eq!(b.before_message().len(), 3);
}

#[test]
fn the_log_keeps_the_order_of_commits() {
    let mut log = MessageLog::new();
    assert_eq!(log.len(), 0);
    log.push(vec![TextPrint::default().msg("one")]);
    log.push(Vec::new());
    log.push(vec![TextPrint::default().msg("three")]);
    assert_eq!(log.len(), 3);
    assert_eq!(log.entries[0][0].msg, "one");
    assert!(log.entries[1].is_empty());
    assert_eq!(log.entries[2][0].msg, "three");
}
