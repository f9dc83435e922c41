//! The run model: one styled segment of text, its attributes, and its printed forms.

use crate::text::{decimal, digit_char, pieces, split, substring, texts, Span};
use vstd::prelude::*;
use vstd::std_specs::cmp::PartialEqSpecImpl;

verus! {

/// The slant of a run.
#[derive(Debug, PartialEq, Eq, Clone, Copy, Structural)]
pub enum TextOption {
    Normal,
    Italic,
    /// Slanted by the given number of degrees.
    Oblique(u32),
}

/// The weight of a run's font.
#[derive(Debug, PartialEq, Eq, Clone, Copy, Structural)]
pub enum FontWeight {
    Normal,
    Bold,
    /// A numeric weight.
    Num(u32),
}

/// The size of a run's font, in rem. A size that the markup gives is kept as it was
/// written: reading it as a number is left to the renderer, which falls back to 1 rem
/// where the text is no number.
#[derive(Debug, PartialEq, Eq)]
pub enum TextSize {
    /// The size of a run that names none: 2 rem.
    Base,
    /// The size as written.
    Written(String),
}

/// What a `TextSize` holds.
pub enum TextSizeView {
    Base,
    Written(Seq<char>),
}

impl View for TextSize {
    type V = TextSizeView;

    open spec fn view(&self) -> TextSizeView {
        match self {
            TextSize::Base => TextSizeView::Base,
            TextSize::Written(s) => TextSizeView::Written(s@),
        }
    }
}

impl Clone for TextSize {
    fn clone(&self) -> (r: Self)
        ensures
            r@ == self@,
    {
        match self {
            TextSize::Base => TextSize::Base,
            TextSize::Written(s) => TextSize::Written(s.clone()),
        }
    }
}

/// A copy of `v` that holds the same texts.
pub fn clone_texts(v: &Vec<String>) -> (r: Vec<String>)
    ensures
        texts(r@) == texts(v@),
{
    let mut r: Vec<String> = Vec::new();
    let mut i: usize = 0;
    while i < v.len()
        invariant
            i <= v.len(),
            r@.len() == i,
            forall|j: int| 0 <= j < i ==> r@[j]@ == v@[j]@,
        decreases v.len() - i,
    {
        r.push(v[i].clone());
        i += 1;
    }
    assert(texts(r@) =~= texts(v@));
    r
}

/// The generator of a run's extra style text. The two `min_max` forms carry their
/// arguments as written, trimmed and in order: the renderer reads them as numbers.
#[derive(Debug, PartialEq, Eq)]
pub enum TextStyle {
    /// No extra style: the empty text.
    Plain,
    /// `min_max4(a, b, c, d)`: on each use a fresh `--min` from `[a, b)` and a fresh
    /// `--max` from `[c, d)`.
    MinMax4(Vec<String>),
    /// `min_max2(a, b)`: `--min` is `a` and `--max` is `b`, the same on each use.
    MinMax2(Vec<String>),
    /// Any other command: the constant text `--min:1;--max:1`.
    Unit,
}

/// What a `TextStyle` holds.
pub enum TextStyleView {
    Plain,
    MinMax4(Seq<Seq<char>>),
    MinMax2(Seq<Seq<char>>),
    Unit,
}

impl View for TextStyle {
    type V = TextStyleView;

    open spec fn view(&self) -> TextStyleView {
        match self {
            TextStyle::Plain => TextStyleView::Plain,
            TextStyle::MinMax4(a) => TextStyleView::MinMax4(texts(a@)),
            TextStyle::MinMax2(a) => TextStyleView::MinMax2(texts(a@)),
            TextStyle::Unit => TextStyleView::Unit,
        }
    }
}

impl Clone for TextStyle {
    fn clone(&self) -> (r: Self)
        ensures
            r@ == self@,
    {
        match self {
            TextStyle::Plain => TextStyle::Plain,
            TextStyle::MinMax4(a) => TextStyle::MinMax4(clone_texts(a)),
            TextStyle::MinMax2(a) => TextStyle::MinMax2(clone_texts(a)),
            TextStyle::Unit => TextStyle::Unit,
        }
    }
}

impl TextStyleView {
    /// The style text of a generator that gives the same text on every use and needs no
    /// number read: `Some` for `Plain` and `Unit`, `None` for the two `min_max` forms.
    pub open spec fn constant_text(self) -> Option<Seq<char>> {
        match self {
            TextStyleView::Plain => Some(Seq::empty()),
            TextStyleView::Unit => Some("--min:1;--max:1"@),
            _ => None,
        }
    }
}

impl TextStyle {
    /// The constant style text, where the generator has one.
    pub fn constant(&self) -> (r: Option<String>)
        ensures
            match r {
                Some(text) => self@.constant_text() == Some(text@),
                None => self@.constant_text() is None,
            },
    {
        match self {
            TextStyle::Plain => Some(String::new()),
            TextStyle::Unit => Some("--min:1;--max:1".to_owned()),
            _ => None,
        }
    }
}

/// The sound that a run makes as its characters appear.
#[derive(Debug, PartialEq, Eq)]
pub enum SoundTrigger {
    /// The babble of the sound asset with the given key: played reversed, at a speed
    /// drawn afresh for every character.
    AnimalCrossing(String),
}

/// What a `SoundTrigger` holds.
pub enum SoundTriggerView {
    AnimalCrossing(Seq<char>),
}

impl View for SoundTrigger {
    type V = SoundTriggerView;

    open spec fn view(&self) -> SoundTriggerView {
        match self {
            SoundTrigger::AnimalCrossing(key) => SoundTriggerView::AnimalCrossing(key@),
        }
    }
}

impl Clone for SoundTrigger {
    fn clone(&self) -> (r: Self)
        ensures
            r@ == self@,
    {
        match self {
            SoundTrigger::AnimalCrossing(key) => SoundTrigger::AnimalCrossing(key.clone()),
        }
    }
}

impl SoundTrigger {
    /// The key of the sound asset.
    pub fn key(&self) -> (r: &String)
        ensures
            self@ == SoundTriggerView::AnimalCrossing(r@),
    {
        match self {
            SoundTrigger::AnimalCrossing(key) => key,
        }
    }
}

/// What an optional sound trigger holds.
pub open spec fn sound_view(s: Option<SoundTrigger>) -> Option<SoundTriggerView> {
    match s {
        Some(t) => Some(t@),
        None => None,
    }
}

/// A copy of an optional sound trigger.
pub fn clone_sound(s: &Option<SoundTrigger>) -> (r: Option<SoundTrigger>)
    ensures
        sound_view(r) == sound_view(*s),
{
    match s {
        Some(t) => Some(t.clone()),
        None => None,
    }
}

/// One run: a segment of text with its own style, pace and sound.
#[derive(Debug)]
pub struct TextPrint {
    pub color: String,
    pub option: TextOption,
    pub msg: String,
    pub size: TextSize,
    /// Milliseconds between two characters, before the reader's speed setting.
    pub speed: u32,
    /// Whether each character is styled on its own.
    pub is_split: bool,
    pub style: TextStyle,
    pub font: String,
    pub font_weight: FontWeight,
    pub class: String,
    pub sound: Option<SoundTrigger>,
}

/// What a run holds.
pub struct TextPrintView {
    pub color: Seq<char>,
    pub option: TextOption,
    pub msg: Seq<char>,
    pub size: TextSizeView,
    pub speed: u32,
    pub is_split: bool,
    pub style: TextStyleView,
    pub font: Seq<char>,
    pub font_weight: FontWeight,
    pub class: Seq<char>,
    pub sound: Option<SoundTriggerView>,
}

impl View for TextPrint {
    type V = TextPrintView;

    open spec fn view(&self) -> TextPrintView {
        TextPrintView {
            color: self.color@,
            option: self.option,
            msg: self.msg@,
            size: self.size@,
            speed: self.speed,
            is_split: self.is_split,
            style: self.style@,
            font: self.font@,
            font_weight: self.font_weight,
            class: self.class@,
            sound: sound_view(self.sound),
        }
    }
}

/// What the runs of `v` hold, in order.
pub open spec fn runs(v: Seq<TextPrint>) -> Seq<TextPrintView> {
    Seq::new(v.len(), |i: int| v[i]@)
}

/// A copy of `v` that holds the same runs.
pub fn clone_runs(v: &Vec<TextPrint>) -> (r: Vec<TextPrint>)
    ensures
        runs(r@) == runs(v@),
{
    let mut r: Vec<TextPrint> = Vec::new();
    let mut i: usize = 0;
    while i < v.len()
        invariant
            i <= v.len(),
            r@.len() == i,
            forall|j: int| 0 <= j < i ==> r@[j]@ == v@[j]@,
        decreases v.len() - i,
    {
        r.push(v[i].clone());
        i += 1;
    }
    assert(runs(r@) =~= runs(v@));
    r
}

impl TextPrintView {
    /// The run that every attribute is reset to: black, upright, normal weight, 2 rem,
    /// 60 ms per character, no text, no extra style, no class, no sound.
    pub open spec fn initial() -> TextPrintView {
        TextPrintView {
            color: "black"@,
            option: TextOption::Normal,
            msg: Seq::empty(),
            size: TextSizeView::Base,
            speed: 60,
            is_split: false,
            style: TextStyleView::Plain,
            font: "hancom-malang"@,
            font_weight: FontWeight::Normal,
            class: Seq::empty(),
            sound: None,
        }
    }

    /// The run with the text `msg`.
    pub open spec fn with_msg(self, msg: Seq<char>) -> TextPrintView {
        TextPrintView { msg, ..self }
    }

    /// The run as it shows when `len` of its code points are revealed: the text cut to
    /// its first `len` code points (all of it where it has no more), the rest unchanged.
    pub open spec fn part(self, len: nat) -> TextPrintView {
        if len < self.msg.len() {
            TextPrintView { msg: self.msg.take(len as int), ..self }
        } else {
            self
        }
    }
}

impl Clone for TextPrint {
    fn clone(&self) -> (r: Self)
        ensures
            r@ == self@,
    {
        TextPrint {
            color: self.color.clone(),
            option: self.option,
            msg: self.msg.clone(),
            size: self.size.clone(),
            speed: self.speed,
            is_split: self.is_split,
            style: self.style.clone(),
            font: self.font.clone(),
            font_weight: self.font_weight,
            class: self.class.clone(),
            sound: clone_sound(&self.sound),
        }
    }
}

impl Default for TextPrint {
    fn default() -> (r: Self)
        ensures
            r@ == TextPrintView::initial(),
    {
        TextPrint {
            color: "black".to_owned(),
            option: TextOption::Normal,
            msg: String::new(),
            size: TextSize::Base,
            speed: 60,
            is_split: false,
            style: TextStyle::Plain,
            font: "hancom-malang".to_owned(),
            font_weight: FontWeight::Normal,
            class: String::new(),
            sound: None,
        }
    }
}

/// Two runs are equal when they agree in colour, slant, text, pace, font, split flag and
/// class. Size, style generator, weight and sound take no part in the comparison.
impl PartialEq for TextPrint {
    fn eq(&self, other: &Self) -> (r: bool) {
        self.color == other.color && self.option == other.option && self.msg == other.msg
            && self.speed == other.speed && self.font == other.font && self.is_split
            == other.is_split && self.class == other.class
    }
}

impl PartialEqSpecImpl for TextPrint {
    open spec fn obeys_eq_spec() -> bool {
        true
    }

    open spec fn eq_spec(&self, other: &Self) -> bool {
        &&& self.color@ == other.color@
        &&& self.option == other.option
        &&& self.msg@ == other.msg@
        &&& self.speed == other.speed
        &&& self.font@ == other.font@
        &&& self.is_split == other.is_split
        &&& self.class@ == other.class@
    }
}


impl TextOption {
    /// The value of the `font-style` property: `normal`, `italic`, or `oblique` with
    /// the angle in degrees.
    pub open spec fn css_text(self) -> Seq<char> {
        match self {
            TextOption::Normal => "normal"@,
            TextOption::Italic => "italic"@,
            TextOption::Oblique(deg) => "oblique "@ + decimal(deg as nat) + "deg"@,
        }
    }

    /// The slant as the value of the `font-style` property.
    pub fn css(&self) -> (r: String)
        ensures
            r@ == self.css_text(),
    {
        match self {
            TextOption::Normal => "normal".to_owned(),
            TextOption::Italic => "italic".to_owned(),
            TextOption::Oblique(deg) => {
                let mut r = "oblique ".to_owned();
                push_decimal(&mut r, *deg);
                r.append("deg");
                r
            },
        }
    }
}

impl FontWeight {
    /// The value of the `font-weight` property: `normal`, `bold`, or the number.
    pub open spec fn css_text(self) -> Seq<char> {
        match self {
            FontWeight::Normal => "normal"@,
            FontWeight::Bold => "bold"@,
            FontWeight::Num(n) => decimal(n as nat),
        }
    }

    /// The weight as the value of the `font-weight` property.
    pub fn css(&self) -> (r: String)
        ensures
            r@ == self.css_text(),
    {
        match self {
            FontWeight::Normal => "normal".to_owned(),
            FontWeight::Bold => "bold".to_owned(),
            FontWeight::Num(n) => {
                let mut r = String::new();
                push_decimal(&mut r, *n);
                r
            },
        }
    }
}

/// The text that writes the digit `d`.
fn digit_str(d: u32) -> (r: &'static str)
    requires
        d < 10,
    ensures
        r@ == seq![digit_char(d as nat)],
{
    proof {
        reveal_strlit("0");
        reveal_strlit("1");
        reveal_strlit("2");
        reveal_strlit("3");
        reveal_strlit("4");
        reveal_strlit("5");
        reveal_strlit("6");
        reveal_strlit("7");
        reveal_strlit("8");
        reveal_strlit("9");
    }
    let r = if d == 0 {
        "0"
    } else if d == 1 {
        "1"
    } else if d == 2 {
        "2"
    } else if d == 3 {
        "3"
    } else if d == 4 {
        "4"
    } else if d == 5 {
        "5"
    } else if d == 6 {
        "6"
    } else if d == 7 {
        "7"
    } else if d == 8 {
        "8"
    } else {
        "9"
    };
    assert(r@ =~= seq![digit_char(d as nat)]);
    r
}

/// Appends `n`, written in base ten, to `s`.
pub fn push_decimal(s: &mut String, n: u32)
    ensures
        final(s)@ == old(s)@ + decimal(n as nat),
    decreases n,
{
    if n >= 10 {
        push_decimal(s, n / 10);
    }
    let ghost before = s@;
    s.append(digit_str(n % 10));
    proof {
        if n >= 10 {
            assert(s@ =~= old(s)@ + decimal((n / 10) as nat).push(digit_char((n % 10) as nat)));
        } else {
            assert(s@ =~= old(s)@ + seq![digit_char(n as nat)]);
        }
    }
}

/// One string for each code point of `line`, in order.
pub fn letters(line: &str) -> (r: Vec<String>)
    ensures
        r@.len() == line@.len(),
        forall|i: int| 0 <= i < r@.len() ==> (#[trigger] r@[i])@ == seq![line@[i]],
{
    let n = line.unicode_len();
    let mut r: Vec<String> = Vec::new();
    let mut i: usize = 0;
    while i < n
        invariant
            n == line@.len(),
            i <= n,
            r@.len() == i,
            forall|j: int| 0 <= j < i ==> (#[trigger] r@[j])@ == seq![line@[j]],
        decreases n - i,
    {
        let one = substring(line, Span { lo: i, hi: i + 1 });
        assert(one@ =~= seq![line@[i as int]]);
        r.push(one);
        i += 1;
    }
    r
}

impl TextPrint {
    /// The run with the text `msg`.
    pub fn msg(self, msg: &str) -> (r: Self)
        ensures
            r@ == self@.with_msg(msg@),
    {
        let mut r = self;
        r.msg = msg.to_owned();
        r
    }

    /// The run in the font `font`.
    pub fn font(self, font: &str) -> (r: Self)
        ensures
            r@ == (TextPrintView { font: font@, ..self@ }),
    {
        let mut r = self;
        r.font = font.to_owned();
        r
    }

    /// The run with the weight `font_weight`.
    pub fn font_weight(self, font_weight: FontWeight) -> (r: Self)
        ensures
            r@ == (TextPrintView { font_weight, ..self@ }),
    {
        let mut r = self;
        r.font_weight = font_weight;
        r
    }

    /// The run with the slant `option`.
    pub fn option(self, option: TextOption) -> (r: Self)
        ensures
            r@ == (TextPrintView { option, ..self@ }),
    {
        let mut r = self;
        r.option = option;
        r
    }

    /// The run with `speed` milliseconds between two characters.
    pub fn speed(self, speed: u32) -> (r: Self)
        ensures
            r@ == (TextPrintView { speed, ..self@ }),
    {
        let mut r = self;
        r.speed = speed;
        r
    }

    /// The run in the colour `color`.
    pub fn color(self, color: &str) -> (r: Self)
        ensures
            r@ == (TextPrintView { color: color@, ..self@ }),
    {
        let mut r = self;
        r.color = color.to_owned();
        r
    }

    /// The run in the size `size`.
    pub fn size(self, size: TextSize) -> (r: Self)
        ensures
            r@ == (TextPrintView { size: size@, ..self@ }),
    {
        let mut r = self;
        r.size = size;
        r
    }

    /// The run with the style generator `style`.
    pub fn style(self, style: TextStyle) -> (r: Self)
        ensures
            r@ == (TextPrintView { style: style@, ..self@ }),
    {
        let mut r = self;
        r.style = style;
        r
    }

    /// The run with the sound `sound`.
    pub fn sound(self, sound: SoundTrigger) -> (r: Self)
        ensures
            r@ == (TextPrintView { sound: Some(sound@), ..self@ }),
    {
        let mut r = self;
        r.sound = Some(sound);
        r
    }

    /// The run with the class name `class`.
    pub fn class(self, class: &str) -> (r: Self)
        ensures
            r@ == (TextPrintView { class: class@, ..self@ }),
    {
        let mut r = self;
        r.class = class.to_owned();
        r
    }

    /// The run with the split flag `is_split`.
    pub fn is_split(self, is_split: bool) -> (r: Self)
        ensures
            r@ == (TextPrintView { is_split, ..self@ }),
    {
        let mut r = self;
        r.is_split = is_split;
        r
    }

    /// A bold run of the text `msg` in the colour `color`, at 100 ms per character; the
    /// other attributes are those of the initial run.
    pub fn color_bold(msg: &str, color: &str) -> (r: Self)
        ensures
            r@ == (TextPrintView {
                msg: msg@,
                color: color@,
                speed: 100,
                font_weight: FontWeight::Bold,
                ..TextPrintView::initial()
            }),
    {
        TextPrint::default().msg(msg).color(color).speed(100).font_weight(FontWeight::Bold)
    }

    /// A run with the given attributes and no sound.
    pub fn new(
        msg: &str,
        font: &str,
        font_weight: FontWeight,
        option: TextOption,
        color: &str,
        size: TextSize,
        speed: u32,
        style: TextStyle,
        class: &str,
        is_split: bool,
    ) -> (r: Self)
        ensures
            r@ == (TextPrintView {
                color: color@,
                option,
                msg: msg@,
                size: size@,
                speed,
                is_split,
                style: style@,
                font: font@,
                font_weight,
                class: class@,
                sound: None,
            }),
    {
        TextPrint {
            color: color.to_owned(),
            option,
            msg: msg.to_owned(),
            size,
            speed,
            is_split,
            style,
            font: font.to_owned(),
            font_weight,
            class: class.to_owned(),
            sound: None,
        }
    }

    /// The number of code points of the run's text.
    pub fn len(&self) -> (n: usize)
        ensures
            n == self@.msg.len(),
    {
        self.msg.as_str().unicode_len()
    }

    /// The run as it is printed when only its first `len` code points are revealed.
    pub fn part_print(&self, len: usize) -> (r: Self)
        ensures
            r@ == self@.part(len as nat),
    {
        let n = self.msg.as_str().unicode_len();
        if len < n {
            let mut r = self.clone();
            r.msg = substring(self.msg.as_str(), Span { lo: 0, hi: len });
            r
        } else {
            self.clone()
        }
    }

    /// The lines of the run's text: its pieces between line feeds, which are printed
    /// one below the other.
    pub fn lines(&self) -> (r: Vec<String>)
        ensures
            texts(r@) == split(self@.msg, seq!['\n']),
    {
        proof {
            reveal_strlit("\n");
            assert("\n"@ =~= seq!['\n']);
        }
        pieces(self.msg.as_str(), "\n")
    }

    /// The class name of the element that holds the whole run: the run's own, unless
    /// each character is styled on its own.
    pub fn outer_class(&self) -> (r: String)
        ensures
            r@ == if self.is_split {
                Seq::<char>::empty()
            } else {
                self@.class
            },
    {
        if self.is_split {
            String::new()
        } else {
            self.class.clone()
        }
    }
}

} // verus!
