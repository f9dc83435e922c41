//! The markup of a dialogue line, and its parser.
//!
//! A line is a chain of segments, each written `{{options}}text`. What stands before the
//! first `{{` is dropped. The options of a segment are separated by `|`; each is
//! `key:value`. A segment starts from the attributes of the run before it (the first one
//! from the initial run), takes its text, applies its options from left to right, and
//! gives one run.
//!
//! | key           | value                                  | effect                         |
//! |---------------|----------------------------------------|--------------------------------|
//! | `default`     | none needed, ignored                   | every attribute is reset       |
//! | `color`       | text                                   | colour                         |
//! | `font`        | text                                   | font family                    |
//! | `font_weight` | `normal`, `bold`, or a number in `(..)`| weight; 10 for no number       |
//! | `option`      | `normal`, `italic`, or degrees in `(..)`| slant; 10 degrees for no number |
//! | `speed`       | a number                               | delay per character; 10 for no number |
//! | `size`        | text                                   | size, kept as written          |
//! | `style`       | `min_max4(..)`, `min_max2(..)`, other `name(..)` | style generator      |
//! | `sound`       | `animal_crossing(key)`, other `name(..)` | sound; others change nothing |
//! | `class`       | text                                   | class name                     |
//! | `is_split`    | `true`, or anything else               | split flag                     |
//!
//! Other keys are ignored. A segment without `}}`, an option without `:` (but `default`),
//! and a value that needs `(` and has none are errors: the segment then gives the initial
//! run with the segment's text, and the runs after it go on from the run before it.

use crate::text::{
    decimal_in, decimal_u32, find, lemma_split_first, lemma_split_whole, occurs, one, parts,
    span_is, split, split_in, substring, texts, to_chars, trim, trim_in, twice, Span,
};
use crate::text_print::{
    runs, FontWeight, SoundTrigger, SoundTriggerView, TextOption, TextPrint, TextPrintView,
    TextSize, TextSizeView, TextStyle, TextStyleView,
};
use vstd::prelude::*;

verus! {

/// What is wrong with a segment.
#[derive(Debug, Clone, Copy, PartialEq, Eq, Structural)]
pub enum ParseErrorKind {
    /// The segment has no `}}` after its options.
    MissingClose,
    /// The option has no `:` between key and value.
    MissingColon,
    /// The value has no `(` before its argument.
    MissingParen,
}

/// An error of the markup, with its place.
#[derive(Debug, Clone, Copy, PartialEq, Eq, Structural)]
pub struct ParseError {
    /// The segment, counted from 0: it is also the place of the segment's run.
    pub segment: usize,
    /// The option within the segment, counted from 0 (0 for a missing `}}`).
    pub option: usize,
    pub kind: ParseErrorKind,
}

/// An error of the markup as plain numbers.
pub struct MarkupError {
    pub segment: nat,
    pub option: nat,
    pub kind: ParseErrorKind,
}

impl View for ParseError {
    type V = MarkupError;

    open spec fn view(&self) -> MarkupError {
        MarkupError { segment: self.segment as nat, option: self.option as nat, kind: self.kind }
    }
}

/// What the errors of `v` hold, in order.
pub open spec fn errors(v: Seq<ParseError>) -> Seq<MarkupError> {
    Seq::new(v.len(), |i: int| v[i]@)
}

/// What a line of markup says: its runs, one for each segment, and the errors of the
/// segments that are malformed, in order.
pub struct Markup {
    pub runs: Seq<TextPrintView>,
    pub errors: Seq<MarkupError>,
}

/// The runs of a line and the errors found in it.
#[derive(Debug)]
pub struct ParseReport {
    pub runs: Vec<TextPrint>,
    pub errors: Vec<ParseError>,
}

impl View for ParseReport {
    type V = Markup;

    open spec fn view(&self) -> Markup {
        Markup { runs: runs(self.runs@), errors: errors(self.errors@) }
    }
}

/// The name of a value written `name(argument)`: what stands before its first `(`.
pub open spec fn call_name(v: Seq<char>) -> Seq<char> {
    split(v, seq!['('])[0]
}

/// The argument of a value written `name(argument)`: what stands between its first `(`
/// and the next `)`, or the end. `None` where the value has no `(`.
pub open spec fn call_argument(v: Seq<char>) -> Option<Seq<char>> {
    let p = split(v, seq!['(']);
    if p.len() < 2 {
        None
    } else {
        Some(split(p[1], seq![')'])[0])
    }
}

/// The number that `s` writes, or 10 where it writes none.
pub open spec fn number_or_ten(s: Seq<char>) -> u32 {
    match decimal_u32(s) {
        Some(n) => n,
        None => 10,
    }
}

/// The items of a list separated by commas, each without the white space around it.
pub open spec fn list_items(s: Seq<char>) -> Seq<Seq<char>> {
    let p = split(trim(s), seq![',']);
    Seq::new(p.len(), |i: int| trim(p[i]))
}

/// The run `acc` after the option `op` of a segment with the text `message`.
pub open spec fn apply_option(acc: TextPrintView, message: Seq<char>, op: Seq<char>) -> Result<
    TextPrintView,
    ParseErrorKind,
> {
    let kv = split(op, seq![':']);
    let key = trim(kv[0]);
    if op.len() == 0 {
        Ok(acc)
    } else if key == "default"@ {
        Ok(TextPrintView::initial().with_msg(message))
    } else if kv.len() < 2 {
        Err(ParseErrorKind::MissingColon)
    } else {
        let value = trim(kv[1]);
        if key == "color"@ {
            Ok(TextPrintView { color: value, ..acc })
        } else if key == "font"@ {
            Ok(TextPrintView { font: value, ..acc })
        } else if key == "font_weight"@ {
            if value == "normal"@ {
                Ok(TextPrintView { font_weight: FontWeight::Normal, ..acc })
            } else if value == "bold"@ {
                Ok(TextPrintView { font_weight: FontWeight::Bold, ..acc })
            } else {
                match call_argument(value) {
                    Some(a) => Ok(
                        TextPrintView { font_weight: FontWeight::Num(number_or_ten(a)), ..acc },
                    ),
                    None => Err(ParseErrorKind::MissingParen),
                }
            }
        } else if key == "option"@ {
            if value == "normal"@ {
                Ok(TextPrintView { option: TextOption::Normal, ..acc })
            } else if value == "italic"@ {
                Ok(TextPrintView { option: TextOption::Italic, ..acc })
            } else {
                match call_argument(value) {
                    Some(a) => Ok(
                        TextPrintView { option: TextOption::Oblique(number_or_ten(a)), ..acc },
                    ),
                    None => Err(ParseErrorKind::MissingParen),
                }
            }
        } else if key == "speed"@ {
            Ok(TextPrintView { speed: number_or_ten(value), ..acc })
        } else if key == "size"@ {
            Ok(TextPrintView { size: TextSizeView::Written(value), ..acc })
        } else if key == "style"@ {
            match call_argument(value) {
                Some(a) => {
                    let name = call_name(value);
                    let style = if name == "min_max4"@ {
                        TextStyleView::MinMax4(list_items(a))
                    } else if name == "min_max2"@ {
                        TextStyleView::MinMax2(list_items(a))
                    } else {
                        TextStyleView::Unit
                    };
                    Ok(TextPrintView { style, ..acc })
                },
                None => Err(ParseErrorKind::MissingParen),
            }
        } else if key == "sound"@ {
            match call_argument(value) {
                Some(a) => if call_name(value) == "animal_crossing"@ {
                    Ok(
                        TextPrintView {
                            sound: Some(SoundTriggerView::AnimalCrossing(trim(a))),
                            ..acc
                        },
                    )
                } else {
                    Ok(acc)
                },
                None => Err(ParseErrorKind::MissingParen),
            }
        } else if key == "class"@ {
            Ok(TextPrintView { class: value, ..acc })
        } else if key == "is_split"@ {
            Ok(TextPrintView { is_split: value == "true"@, ..acc })
        } else {
            Ok(acc)
        }
    }
}

/// The run `acc` after the options `ops` from place `from` on, applied from left to
/// right, or the first error with the place of its option.
pub open spec fn apply_options(
    acc: TextPrintView,
    message: Seq<char>,
    ops: Seq<Seq<char>>,
    from: nat,
) -> Result<TextPrintView, (nat, ParseErrorKind)>
    decreases ops.len() - from,
{
    if from >= ops.len() {
        Ok(acc)
    } else {
        match apply_option(acc, message, ops[from as int]) {
            Ok(next) => apply_options(next, message, ops, from + 1),
            Err(kind) => Err((from, kind)),
        }
    }
}

/// The run of the segment `seg`, which stands after the run `acc`: the text is what
/// follows the first `}}` (up to a second one), the options are what stands before it.
pub open spec fn parse_segment(acc: TextPrintView, seg: Seq<char>) -> Result<
    TextPrintView,
    (nat, ParseErrorKind),
> {
    let p = split(seg, seq!['}', '}']);
    if p.len() < 2 {
        Err((0nat, ParseErrorKind::MissingClose))
    } else {
        apply_options(acc.with_msg(p[1]), p[1], split(p[0], seq!['|']), 0)
    }
}

/// The text of the run that a malformed segment gives: the segment's text, or all of the
/// segment where it has no `}}`.
pub open spec fn plain_text(seg: Seq<char>) -> Seq<char> {
    let p = split(seg, seq!['}', '}']);
    if p.len() < 2 {
        seg
    } else {
        p[1]
    }
}

/// The runs and errors of the pieces `segs` from place `from` on, where `acc` is the run
/// before them. The piece at place 0 is what stands before the first `{{`, so the
/// segment at place `from` is counted as `from - 1`.
pub open spec fn parse_segments(acc: TextPrintView, segs: Seq<Seq<char>>, from: nat) -> Markup
    decreases segs.len() - from,
{
    if from >= segs.len() {
        Markup { runs: Seq::empty(), errors: Seq::empty() }
    } else {
        match parse_segment(acc, segs[from as int]) {
            Ok(run) => {
                let rest = parse_segments(run, segs, from + 1);
                Markup { runs: seq![run] + rest.runs, errors: rest.errors }
            },
            Err((option, kind)) => {
                let rest = parse_segments(acc, segs, from + 1);
                let run = TextPrintView::initial().with_msg(plain_text(segs[from as int]));
                let error = MarkupError { segment: (from - 1) as nat, option, kind };
                Markup { runs: seq![run] + rest.runs, errors: seq![error] + rest.errors }
            },
        }
    }
}

/// What the line `source` says.
pub open spec fn parse_markup(source: Seq<char>) -> Markup {
    parse_segments(TextPrintView::initial(), split(source, seq!['{', '{']), 1)
}

/// One run for each segment: of the pieces from place `from` on, each gives one run, and
/// each error names the place of the run that its segment gives.
pub proof fn lemma_one_run_per_segment(acc: TextPrintView, segs: Seq<Seq<char>>, from: nat)
    requires
        1 <= from <= segs.len(),
    ensures
        parse_segments(acc, segs, from).runs.len() == segs.len() - from,
        parse_segments(acc, segs, from).errors.len() <= segs.len() - from,
        forall|i: int|
            0 <= i < parse_segments(acc, segs, from).errors.len() ==> from - 1 <= (
            #[trigger] parse_segments(acc, segs, from).errors[i]).segment < segs.len() - 1,
    decreases segs.len() - from,
{
    if from < segs.len() {
        match parse_segment(acc, segs[from as int]) {
            Ok(run) => {
                lemma_one_run_per_segment(run, segs, from + 1);
            },
            Err((option, kind)) => {
                lemma_one_run_per_segment(acc, segs, from + 1);
            },
        }
    }
}

/// Inheritance: a segment without options gives the run before it with the segment's
/// text, whatever that run is.
pub proof fn lemma_empty_options_inherit(acc: TextPrintView, text: Seq<char>)
    requires
        find(text, seq!['}', '}'], 0) is None,
    ensures
        parse_segment(acc, seq!['}', '}'] + text) == Ok::<TextPrintView, (nat, ParseErrorKind)>(
            acc.with_msg(text),
        ),
{
    let close = seq!['}', '}'];
    let seg = close + text;
    assert(seg.subrange(0, 2) =~= close);
    assert(find(seg, close, 0) == Some(0int));
    assert(seg.subrange(2, seg.len() as int) =~= text);
    assert(seg.subrange(0, 0) =~= Seq::<char>::empty());
    assert(split(text, close) =~= seq![text]);
    assert(split(seg, close) =~= seq![Seq::<char>::empty(), text]);
    let none = Seq::<char>::empty();
    assert(find(none, seq!['|'], 0) is None);
    assert(split(none, seq!['|']) =~= seq![none]);
    let first = acc.with_msg(text);
    assert(apply_option(first, text, none) == Ok::<TextPrintView, ParseErrorKind>(first));
    assert(apply_options(first, text, seq![none], 1) == Ok::<
        TextPrintView,
        (nat, ParseErrorKind),
    >(first));
    assert(apply_options(first, text, seq![none], 0) == Ok::<
        TextPrintView,
        (nat, ParseErrorKind),
    >(first));
}

/// Reset: a segment whose only option is `default` gives the initial run with the
/// segment's text, whatever the run before it is.
pub proof fn lemma_default_resets(acc: TextPrintView, text: Seq<char>)
    requires
        find(text, seq!['}', '}'], 0) is None,
    ensures
        parse_segment(acc, "default"@ + seq!['}', '}'] + text) == Ok::<
            TextPrintView,
            (nat, ParseErrorKind),
        >(TextPrintView::initial().with_msg(text)),
{
    reveal_strlit("default");
    let word = "default"@;
    let close = seq!['}', '}'];
    let seg = word + close + text;
    assert(word =~= seq!['d', 'e', 'f', 'a', 'u', 'l', 't']);
    assert forall|j: int| 0 <= j < 7 implies !#[trigger] occurs(seg, close, j) by {
        if occurs(seg, close, j) {
            assert(seg.subrange(j, j + 2)[0] == '}');
        }
    }
    assert(occurs(seg, close, 7)) by {
        assert(seg.subrange(7, 9) =~= close);
    }
    lemma_split_first(seg, close, 7);
    assert(seg.subrange(0, 7) =~= word);
    assert(seg.subrange(9, seg.len() as int) =~= text);
    assert(split(text, close) =~= seq![text]);
    assert(split(seg, close) =~= seq![word, text]);
    assert forall|j: int| 0 <= j implies !#[trigger] occurs(word, seq!['|'], j) by {
        if occurs(word, seq!['|'], j) {
            assert(word.subrange(j, j + 1)[0] == '|');
        }
    }
    lemma_split_whole(word, seq!['|']);
    assert forall|j: int| 0 <= j implies !#[trigger] occurs(word, seq![':'], j) by {
        if occurs(word, seq![':'], j) {
            assert(word.subrange(j, j + 1)[0] == ':');
        }
    }
    lemma_split_whole(word, seq![':']);
    assert(trim(word) == word);
    let first = acc.with_msg(text);
    let fresh = TextPrintView::initial().with_msg(text);
    assert(apply_option(first, text, word) == Ok::<TextPrintView, ParseErrorKind>(fresh));
    assert(apply_options(fresh, text, seq![word], 1) == Ok::<
        TextPrintView,
        (nat, ParseErrorKind),
    >(fresh));
    assert(apply_options(first, text, seq![word], 0) == Ok::<
        TextPrintView,
        (nat, ParseErrorKind),
    >(fresh));
}

/// A line of markup, decoded once: the positions of spans count its code points.
struct Line<'a> {
    source: &'a str,
    chars: Vec<char>,
}

impl<'a> Line<'a> {
    spec fn wf(&self) -> bool {
        self.chars@ == self.source@
    }

    spec fn at(&self, sp: Span) -> Seq<char> {
        sp.of(self.source@)
    }

    fn new(source: &'a str) -> (r: Self)
        ensures
            r.wf(),
            r.source@ == source@,
    {
        Line { source, chars: to_chars(source) }
    }

    fn text(&self, sp: Span) -> (r: String)
        requires
            self.wf(),
            sp.within(self.source@.len()),
        ensures
            r@ == self.at(sp),
    {
        substring(self.source, sp)
    }
}

/// Name and argument of a value written `name(argument)`.
fn call_in(line: &Line, value: Span) -> (r: Option<(Span, Span)>)
    requires
        line.wf(),
        value.within(line.source@.len()),
    ensures
        match r {
            Some((name, arg)) => {
                &&& name.within(line.source@.len())
                &&& arg.within(line.source@.len())
                &&& line.at(name) == call_name(line.at(value))
                &&& call_argument(line.at(value)) == Some(line.at(arg))
            },
            None => call_argument(line.at(value)) is None,
        },
{
    let p = split_in(&line.chars, value, &one('('));
    assert(parts(line.chars@, p@)[0] == p@[0].of(line.chars@));
    if p.len() < 2 {
        None
    } else {
        assert(parts(line.chars@, p@)[1] == p@[1].of(line.chars@));
        let q = split_in(&line.chars, p[1], &one(')'));
        assert(parts(line.chars@, q@)[0] == q@[0].of(line.chars@));
        Some((p[0], q[0]))
    }
}

/// The number written under `sp`, or 10.
fn number_in(line: &Line, sp: Span) -> (r: u32)
    requires
        line.wf(),
        sp.within(line.source@.len()),
    ensures
        r == number_or_ten(line.at(sp)),
{
    match decimal_in(&line.chars, sp) {
        Some(n) => n,
        None => 10,
    }
}

/// The items of the list written under `sp`.
fn items_in(line: &Line, sp: Span) -> (r: Vec<String>)
    requires
        line.wf(),
        sp.within(line.source@.len()),
    ensures
        texts(r@) == list_items(line.at(sp)),
{
    let inner = trim_in(&line.chars, sp);
    let p = split_in(&line.chars, inner, &one(','));
    let mut r: Vec<String> = Vec::new();
    let mut i: usize = 0;
    while i < p.len()
        invariant
            line.wf(),
            inner.within(line.source@.len()),
            i <= p@.len(),
            r@.len() == i,
            forall|j: int| 0 <= j < p@.len() ==> (#[trigger] p@[j]).inside(inner),
            forall|j: int| 0 <= j < i ==> (#[trigger] r@[j])@ == trim(p@[j].of(line.chars@)),
        decreases p.len() - i,
    {
        let item = trim_in(&line.chars, p[i]);
        r.push(line.text(item));
        i += 1;
    }
    assert(texts(r@) =~= list_items(line.at(sp))) by {
        assert forall|j: int| 0 <= j < p@.len() implies trim(
            #[trigger] split(trim(line.at(sp)), seq![','])[j],
        ) == r@[j]@ by {
            assert(parts(line.chars@, p@)[j] == p@[j].of(line.chars@));
        }
    }
    r
}

/// Applies the option under `op` to `acc`.
fn apply_option_in(line: &Line, acc: &mut TextPrint, message: Span, op: Span) -> (r: Result<
    (),
    ParseErrorKind,
>)
    requires
        line.wf(),
        message.within(line.source@.len()),
        op.within(line.source@.len()),
    ensures
        match apply_option(old(acc)@, line.at(message), line.at(op)) {
            Ok(next) => r is Ok && final(acc)@ == next,
            Err(kind) => r == Err::<(), ParseErrorKind>(kind),
        },
{
    if op.lo == op.hi {
        return Ok(());
    }
    let kv = split_in(&line.chars, op, &one(':'));
    assert(parts(line.chars@, kv@)[0] == kv@[0].of(line.chars@));
    let key = trim_in(&line.chars, kv[0]);
    if span_is(&line.chars, key, "default") {
        let mut fresh = TextPrint::default();
        fresh.msg = line.text(message);
        *acc = fresh;
        return Ok(());
    }
    if kv.len() < 2 {
        return Err(ParseErrorKind::MissingColon);
    }
    assert(parts(line.chars@, kv@)[1] == kv@[1].of(line.chars@));
    let value = trim_in(&line.chars, kv[1]);
    if span_is(&line.chars, key, "color") {
        acc.color = line.text(value);
    } else if span_is(&line.chars, key, "font") {
        acc.font = line.text(value);
    } else if span_is(&line.chars, key, "font_weight") {
        if span_is(&line.chars, value, "normal") {
            acc.font_weight = FontWeight::Normal;
        } else if span_is(&line.chars, value, "bold") {
            acc.font_weight = FontWeight::Bold;
        } else {
            match call_in(line, value) {
                Some((_, arg)) => {
                    acc.font_weight = FontWeight::Num(number_in(line, arg));
                },
                None => {
                    return Err(ParseErrorKind::MissingParen);
                },
            }
        }
    } else if span_is(&line.chars, key, "option") {
        if span_is(&line.chars, value, "normal") {
            acc.option = TextOption::Normal;
        } else if span_is(&line.chars, value, "italic") {
            acc.option = TextOption::Italic;
        } else {
            match call_in(line, value) {
                Some((_, arg)) => {
                    acc.option = TextOption::Oblique(number_in(line, arg));
                },
                None => {
                    return Err(ParseErrorKind::MissingParen);
                },
            }
        }
    } else if span_is(&line.chars, key, "speed") {
        acc.speed = number_in(line, value);
    } else if span_is(&line.chars, key, "size") {
        acc.size = TextSize::Written(line.text(value));
    } else if span_is(&line.chars, key, "style") {
        match call_in(line, value) {
            Some((name, arg)) => {
                if span_is(&line.chars, name, "min_max4") {
                    acc.style = TextStyle::MinMax4(items_in(line, arg));
                } else if span_is(&line.chars, name, "min_max2") {
                    acc.style = TextStyle::MinMax2(items_in(line, arg));
                } else {
                    acc.style = TextStyle::Unit;
                }
            },
            None => {
                return Err(ParseErrorKind::MissingParen);
            },
        }
    } else if span_is(&line.chars, key, "sound") {
        match call_in(line, value) {
            Some((name, arg)) => {
                if span_is(&line.chars, name, "animal_crossing") {
                    let key_span = trim_in(&line.chars, arg);
                    acc.sound = Some(SoundTrigger::AnimalCrossing(line.text(key_span)));
                }
            },
            None => {
                return Err(ParseErrorKind::MissingParen);
            },
        }
    } else if span_is(&line.chars, key, "class") {
        acc.class = line.text(value);
    } else if span_is(&line.chars, key, "is_split") {
        acc.is_split = span_is(&line.chars, value, "true");
    }
    Ok(())
}

/// The run of the segment under `seg`, which stands after the run `acc`.
fn parse_segment_in(line: &Line, acc: &TextPrint, seg: Span) -> (r: Result<
    TextPrint,
    (usize, ParseErrorKind),
>)
    requires
        line.wf(),
        seg.within(line.source@.len()),
    ensures
        match parse_segment(acc@, line.at(seg)) {
            Ok(run) => r is Ok && r->Ok_0@ == run,
            Err((option, kind)) => r == Err::<TextPrint, (usize, ParseErrorKind)>(
                (option as usize, kind),
            ) && option <= usize::MAX,
        },
{
    let p = split_in(&line.chars, seg, &twice('}'));
    if p.len() < 2 {
        return Err((0, ParseErrorKind::MissingClose));
    }
    assert(parts(line.chars@, p@)[0] == p@[0].of(line.chars@));
    assert(parts(line.chars@, p@)[1] == p@[1].of(line.chars@));
    let message = p[1];
    let ops = split_in(&line.chars, p[0], &one('|'));
    let mut run = acc.clone();
    run.msg = line.text(message);
    let ghost all = split(line.at(p@[0]), seq!['|']);
    let ghost first = acc@.with_msg(line.at(message));
    let mut i: usize = 0;
    while i < ops.len()
        invariant
            line.wf(),
            message.within(line.source@.len()),
            i <= ops@.len(),
            all == parts(line.chars@, ops@),
            forall|j: int| 0 <= j < ops@.len() ==> (#[trigger] ops@[j]).within(line.source@.len()),
            parse_segment(acc@, line.at(seg)) == apply_options(first, line.at(message), all, 0),
            apply_options(first, line.at(message), all, 0) == apply_options(
                run@,
                line.at(message),
                all,
                i as nat,
            ),
        decreases ops.len() - i,
    {
        assert(all[i as int] == ops@[i as int].of(line.chars@));
        match apply_option_in(line, &mut run, message, ops[i]) {
            Ok(()) => {},
            Err(kind) => {
                return Err((i, kind));
            },
        }
        i += 1;
    }
    Ok(run)
}

/// The text of the run that the malformed segment under `seg` gives.
fn plain_text_in(line: &Line, seg: Span) -> (r: String)
    requires
        line.wf(),
        seg.within(line.source@.len()),
    ensures
        r@ == plain_text(line.at(seg)),
{
    let p = split_in(&line.chars, seg, &twice('}'));
    if p.len() < 2 {
        line.text(seg)
    } else {
        assert(parts(line.chars@, p@)[1] == p@[1].of(line.chars@));
        line.text(p[1])
    }
}

impl TextPrint {
    /// Reads the line `source`: its runs, one for each segment, and the errors of its
    /// malformed segments.
    pub fn parse_report(source: &str) -> (r: ParseReport)
        ensures
            r@ == parse_markup(source@),
    {
        let line = Line::new(source);
        let whole = Span { lo: 0, hi: line.chars.len() };
        assert(whole.of(line.chars@) =~= source@);
        let segs = split_in(&line.chars, whole, &twice('{'));
        let ghost pieces = split(source@, seq!['{', '{']);
        let ghost start = TextPrintView::initial();
        let mut acc = TextPrint::default();
        let mut out: Vec<TextPrint> = Vec::new();
        let mut errs: Vec<ParseError> = Vec::new();
        let mut i: usize = 1;
        while i < segs.len()
            invariant
                line.wf(),
                line.source@ == source@,
                1 <= i <= segs@.len(),
                pieces == parts(line.chars@, segs@),
                forall|j: int|
                    0 <= j < segs@.len() ==> (#[trigger] segs@[j]).within(line.source@.len()),
                parse_segments(start, pieces, 1).runs == runs(out@) + parse_segments(
                    acc@,
                    pieces,
                    i as nat,
                ).runs,
                parse_segments(start, pieces, 1).errors == errors(errs@) + parse_segments(
                    acc@,
                    pieces,
                    i as nat,
                ).errors,
            decreases segs.len() - i,
        {
            assert(pieces[i as int] == segs@[i as int].of(line.chars@));
            let ghost before_runs = runs(out@);
            let ghost before_errors = errors(errs@);
            let ghost here = parse_segments(acc@, pieces, i as nat);
            match parse_segment_in(&line, &acc, segs[i]) {
                Ok(run) => {
                    let ghost rest = parse_segments(run@, pieces, (i + 1) as nat);
                    out.push(run.clone());
                    acc = run;
                    proof {
                        assert(runs(out@) =~= before_runs + seq![acc@]);
                        assert(here.runs == seq![acc@] + rest.runs);
                        assert(before_runs + here.runs =~= runs(out@) + rest.runs);
                    }
                },
                Err((option, kind)) => {
                    let ghost rest = parse_segments(acc@, pieces, (i + 1) as nat);
                    let mut plain = TextPrint::default();
                    plain.msg = plain_text_in(&line, segs[i]);
                    let ghost shown = plain@;
                    out.push(plain);
                    let error = ParseError { segment: i - 1, option, kind };
                    errs.push(error);
                    proof {
                        assert(runs(out@) =~= before_runs + seq![shown]);
                        assert(errors(errs@) =~= before_errors + seq![error@]);
                        assert(here.runs == seq![shown] + rest.runs);
                        assert(here.errors == seq![error@] + rest.errors);
                        assert(before_runs + here.runs =~= runs(out@) + rest.runs);
                        assert(before_errors + here.errors =~= errors(errs@) + rest.errors);
                    }
                },
            }
            i += 1;
        }
        let r = ParseReport { runs: out, errors: errs };
        proof {
            let done = parse_segments(acc@, pieces, i as nat);
            assert(runs(out@) + done.runs =~= runs(out@));
            assert(errors(errs@) + done.errors =~= errors(errs@));
            assert(r@.runs == parse_markup(source@).runs);
            assert(r@.errors == parse_markup(source@).errors);
        }
        r
    }

    /// The runs of the line `s`, one for each of its segments. A malformed segment
    /// gives the initial run with the segment's text.
    pub fn parse(s: String) -> (r: Vec<TextPrint>)
        ensures
            runs(r@) == parse_markup(s@).runs,
    {
        TextPrint::parse_report(s.as_str()).runs
    }

    /// The runs of the line `source`, or its first error where a segment is malformed.
    pub fn try_parse(source: &str) -> (r: Result<Vec<TextPrint>, ParseError>)
        ensures
            match r {
                Ok(v) => parse_markup(source@).errors.len() == 0 && runs(v@) == parse_markup(
                    source@,
                ).runs,
                Err(e) => parse_markup(source@).errors.len() > 0 && e@ == parse_markup(
                    source@,
                ).errors[0],
            },
    {
        let report = TextPrint::parse_report(source);
        if report.errors.len() == 0 {
            Ok(report.runs)
        } else {
            let e = report.errors[0];
            Err(e)
        }
    }
}

} // verus!
