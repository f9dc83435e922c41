//! From a script to the source of a story.
//!
//! A script is plain text. Its first line is the title. Each line after it is either
//! `speaker: message` or a bare `message`; empty lines are left out. The source that is
//! generated is one function, named by the title, that builds the steps of the story:
//! first a base step and, for each speaker, a step that carries the speaker's name and a
//! placeholder for the speaker's colour, then one step for each line.

use crate::text::{one, parts, split, split_in, to_chars, trim, trim_in, Span};
use vstd::prelude::*;

verus! {

/// `s` with `_` in place of each space.
pub open spec fn underscored(s: Seq<char>) -> Seq<char> {
    Seq::new(
        s.len(),
        |i: int|
            if s[i] == ' ' {
                '_'
            } else {
                s[i]
            },
    )
}

/// Whether `a` comes before `b` where the two are compared code point by code point, a
/// text before every longer one that starts with it.
pub open spec fn text_lt(a: Seq<char>, b: Seq<char>) -> bool
    decreases a.len(),
{
    if b.len() == 0 {
        false
    } else if a.len() == 0 {
        true
    } else if a[0] != b[0] {
        a[0] < b[0]
    } else {
        text_lt(a.drop_first(), b.drop_first())
    }
}

/// The ordered names `names` with `name` at its place among them; unchanged where
/// `name` is one of them.
pub open spec fn with_name(names: Seq<Seq<char>>, name: Seq<char>) -> Seq<Seq<char>>
    decreases names.len(),
{
    if names.len() == 0 {
        seq![name]
    } else if names[0] == name {
        names
    } else if text_lt(name, names[0]) {
        seq![name] + names
    } else {
        seq![names[0]] + with_name(names.drop_first(), name)
    }
}

/// The speaker of a line: what stands before its colon, trimmed, where the line has
/// exactly one colon.
pub open spec fn speaker_of(line: Seq<char>) -> Option<Seq<char>> {
    let p = split(line, seq![':']);
    if line.len() > 0 && p.len() == 2 {
        Some(trim(p[0]))
    } else {
        None
    }
}

/// The speakers of the lines at places 1 to `upto - 1`, each once, in order.
pub open spec fn speakers(lines: Seq<Seq<char>>, upto: nat) -> Seq<Seq<char>>
    decreases upto,
{
    if upto <= 1 {
        Seq::empty()
    } else {
        let before = speakers(lines, (upto - 1) as nat);
        match speaker_of(lines[upto - 1]) {
            Some(name) => with_name(before, name),
            None => before,
        }
    }
}

/// The source that declares the step and the colour of the speaker `name`.
pub open spec fn declaration(name: Seq<char>) -> Seq<char> {
    "\tlet mut "@ + name
        + "_story = base_story.clone().title(TextPrint::parse(format!(\"{{{{}}}}"@ + name
        + "\")));\n\tlet mut "@ + name + "_color = \"input_color\";\n"@
}

/// The declarations of the first `upto` of `names`.
pub open spec fn declarations(names: Seq<Seq<char>>, upto: nat) -> Seq<char>
    decreases upto,
{
    if upto == 0 {
        Seq::empty()
    } else {
        declarations(names, (upto - 1) as nat) + declaration(names[upto - 1])
    }
}

/// The source of the step for one line of the script: nothing for an empty line; for
/// `speaker: message` a step of the speaker in the speaker's colour; for any other line
/// a step of the base, with what stands before the line's first colon as its text.
pub open spec fn entry(line: Seq<char>) -> Seq<char> {
    let p = split(line, seq![':']);
    if line.len() == 0 {
        Seq::empty()
    } else if p.len() == 2 {
        "\t\t"@ + trim(p[0]) + "_story.clone().msg(TextPrint::parse(format!(\"{{{{color:{"@
            + trim(p[0]) + "_color}}}}}"@ + trim(p[1]) + "\"))),\n"@
    } else {
        "\t\tbase_story.clone().msg(TextPrint::parse(format!(\"{{{{}}}}"@ + p[0]
            + "\"))),\n"@
    }
}

/// The steps for the lines at places 1 to `upto - 1`.
pub open spec fn entries(lines: Seq<Seq<char>>, upto: nat) -> Seq<char>
    decreases upto,
{
    if upto <= 1 {
        Seq::empty()
    } else {
        entries(lines, (upto - 1) as nat) + entry(lines[upto - 1])
    }
}

/// The source that the script `input` gives.
pub open spec fn generated(input: Seq<char>) -> Seq<char> {
    let lines = split(input, seq!['\n']);
    "pub fn "@ + underscored(trim(lines[0]))
        + "() -> Vec<Story>{\n\tlet mut base_story = Story::default();\n"@ + declarations(
        speakers(lines, lines.len()),
        speakers(lines, lines.len()).len(),
    ) + "vec![\n"@ + entries(lines, lines.len()) + "\n\t]\n}"@
}

/// Whether each of `names` comes before all that follow it.
pub open spec fn ordered(names: Seq<Seq<char>>) -> bool {
    forall|i: int, j: int| 0 <= i < j < names.len() ==> text_lt(#[trigger] names[i], #[trigger] names[j])
}

/// No text comes before itself.
pub proof fn lemma_text_lt_irreflexive(a: Seq<char>)
    ensures
        !text_lt(a, a),
    decreases a.len(),
{
    if a.len() > 0 {
        lemma_text_lt_irreflexive(a.drop_first());
    }
}

/// Of two different texts one comes before the other.
pub proof fn lemma_text_lt_total(a: Seq<char>, b: Seq<char>)
    ensures
        a == b || text_lt(a, b) || text_lt(b, a),
    decreases a.len(),
{
    if a.len() > 0 && b.len() > 0 && a[0] == b[0] {
        lemma_text_lt_total(a.drop_first(), b.drop_first());
        if a.drop_first() == b.drop_first() {
            assert(a =~= seq![a[0]] + a.drop_first());
            assert(b =~= seq![b[0]] + b.drop_first());
        }
    } else if a.len() == 0 && b.len() == 0 {
        assert(a =~= b);
    }
}

/// What comes before a text comes before all that the text comes before.
pub proof fn lemma_text_lt_transitive(a: Seq<char>, b: Seq<char>, c: Seq<char>)
    requires
        text_lt(a, b),
        text_lt(b, c),
    ensures
        text_lt(a, c),
    decreases a.len(),
{
    if a.len() > 0 && a[0] == b[0] && b[0] == c[0] {
        lemma_text_lt_transitive(a.drop_first(), b.drop_first(), c.drop_first());
    }
}

/// Putting a name among ordered names keeps them ordered, and adds nothing but the name.
pub proof fn lemma_with_name_ordered(names: Seq<Seq<char>>, name: Seq<char>)
    requires
        ordered(names),
    ensures
        ordered(with_name(names, name)),
        forall|x: Seq<char>|
            #![trigger with_name(names, name).contains(x)]
            #![trigger names.contains(x)]
            with_name(names, name).contains(x) <==> names.contains(x) || x == name,
        with_name(names, name).contains(name),
    decreases names.len(),
{
    let out = with_name(names, name);
    if names.len() == 0 {
        assert(out[0] == name);
    } else if names[0] == name {
        assert(out[0] == name);
    } else if text_lt(name, names[0]) {
        assert forall|i: int, j: int| 0 <= i < j < out.len() implies text_lt(
            #[trigger] out[i],
            #[trigger] out[j],
        ) by {
            if i == 0 {
                if j > 1 {
                    assert(text_lt(names[0], names[j - 1]));
                    lemma_text_lt_transitive(name, names[0], names[j - 1]);
                }
            } else {
                assert(text_lt(names[i - 1], names[j - 1]));
            }
        }
        assert(out[0] == name);
        assert forall|x: Seq<char>|
            #![trigger out.contains(x)]
            #![trigger names.contains(x)]
            out.contains(x) <==> names.contains(x) || x == name by {
            if out.contains(x) {
                let k = choose|k: int| 0 <= k < out.len() && out[k] == x;
                if k > 0 {
                    assert(names[k - 1] == x);
                }
            }
            if names.contains(x) {
                let k = choose|k: int| 0 <= k < names.len() && names[k] == x;
                assert(out[k + 1] == x);
            }
        }
    } else {
        let rest = names.drop_first();
        let tail = with_name(rest, name);
        assert(ordered(rest)) by {
            assert forall|i: int, j: int| 0 <= i < j < rest.len() implies text_lt(
                #[trigger] rest[i],
                #[trigger] rest[j],
            ) by {
                assert(text_lt(names[i + 1], names[j + 1]));
            }
        }
        lemma_with_name_ordered(rest, name);
        lemma_text_lt_total(name, names[0]);
        assert forall|i: int, j: int| 0 <= i < j < out.len() implies text_lt(
            #[trigger] out[i],
            #[trigger] out[j],
        ) by {
            if i == 0 {
                let x = tail[j - 1];
                assert(tail.contains(x));
                assert(rest.contains(x) || x == name);
                if x != name {
                    let k = choose|k: int| 0 <= k < rest.len() && rest[k] == x;
                    assert(text_lt(names[0], names[k + 1]));
                }
            } else {
                assert(text_lt(tail[i - 1], tail[j - 1]));
            }
        }
        assert(out.contains(name)) by {
            let m = choose|m: int| 0 <= m < tail.len() && tail[m] == name;
            assert(out[m + 1] == name);
        }
        assert forall|x: Seq<char>|
            #![trigger out.contains(x)]
            #![trigger names.contains(x)]
            out.contains(x) <==> names.contains(x) || x == name by {
            if out.contains(x) {
                let k = choose|k: int| 0 <= k < out.len() && out[k] == x;
                if k > 0 {
                    assert(tail[k - 1] == x);
                    assert(tail.contains(x));
                    assert(rest.contains(x) || x == name);
                    if x != name {
                        let m = choose|m: int| 0 <= m < rest.len() && rest[m] == x;
                        assert(names[m + 1] == x);
                    }
                } else {
                    assert(names[0] == x);
                }
            }
            if names.contains(x) {
                let k = choose|k: int| 0 <= k < names.len() && names[k] == x;
                if k == 0 {
                    assert(out[0] == x);
                } else {
                    assert(rest[k - 1] == x);
                    assert(rest.contains(x));
                    assert(tail.contains(x));
                    let m = choose|m: int| 0 <= m < tail.len() && tail[m] == x;
                    assert(out[m + 1] == x);
                }
            }
        }
    }
}

/// The speakers of a script are ordered, so each is declared once.
pub proof fn lemma_speakers_ordered(lines: Seq<Seq<char>>, upto: nat)
    ensures
        ordered(speakers(lines, upto)),
    decreases upto,
{
    if upto > 1 {
        lemma_speakers_ordered(lines, (upto - 1) as nat);
        match speaker_of(lines[upto - 1]) {
            Some(name) => {
                lemma_with_name_ordered(speakers(lines, (upto - 1) as nat), name);
            },
            None => {},
        }
    }
}

/// Whether the parts of `chars` under `a` and `b` read the same.
fn same_text(chars: &Vec<char>, a: Span, b: Span) -> (r: bool)
    requires
        a.within(chars@.len()),
        b.within(chars@.len()),
    ensures
        r == (a.of(chars@) == b.of(chars@)),
{
    if a.hi - a.lo != b.hi - b.lo {
        assert(a.of(chars@).len() != b.of(chars@).len());
        return false;
    }
    let n = a.hi - a.lo;
    let mut i: usize = 0;
    while i < n
        invariant
            a.within(chars@.len()),
            b.within(chars@.len()),
            n == a.hi - a.lo,
            n == b.hi - b.lo,
            i <= n,
            forall|j: int| 0 <= j < i ==> (#[trigger] a.of(chars@)[j]) == b.of(chars@)[j],
        decreases n - i,
    {
        if chars[a.lo + i] != chars[b.lo + i] {
            assert(a.of(chars@)[i as int] != b.of(chars@)[i as int]);
            return false;
        }
        i += 1;
    }
    assert(a.of(chars@) =~= b.of(chars@));
    true
}

/// Whether the part of `chars` under `a` comes before the part under `b`.
fn text_before(chars: &Vec<char>, a: Span, b: Span) -> (r: bool)
    requires
        a.within(chars@.len()),
        b.within(chars@.len()),
    ensures
        r == text_lt(a.of(chars@), b.of(chars@)),
{
    let mut i: usize = 0;
    loop
        invariant
            a.within(chars@.len()),
            b.within(chars@.len()),
            a.lo + i <= a.hi,
            b.lo + i <= b.hi,
            text_lt(a.of(chars@), b.of(chars@)) == text_lt(
                chars@.subrange(a.lo + i, a.hi as int),
                chars@.subrange(b.lo + i, b.hi as int),
            ),
        decreases a.hi - a.lo - i,
    {
        if b.lo + i == b.hi {
            return false;
        }
        if a.lo + i == a.hi {
            return true;
        }
        let x = chars[a.lo + i];
        let y = chars[b.lo + i];
        if x != y {
            return x < y;
        }
        assert(chars@.subrange(a.lo + i, a.hi as int).drop_first() =~= chars@.subrange(
            a.lo + i + 1,
            a.hi as int,
        ));
        assert(chars@.subrange(b.lo + i, b.hi as int).drop_first() =~= chars@.subrange(
            b.lo + i + 1,
            b.hi as int,
        ));
        i += 1;
    }
}

/// Puts `name` at its place among the ordered `names`, unless it is one of them.
fn insert_name(chars: &Vec<char>, names: &mut Vec<Span>, name: Span)
    requires
        name.within(chars@.len()),
        forall|j: int| 0 <= j < old(names)@.len() ==> (#[trigger] old(names)@[j]).within(chars@.len()),
    ensures
        parts(chars@, final(names)@) == with_name(parts(chars@, old(names)@), name.of(chars@)),
        forall|j: int| 0 <= j < final(names)@.len() ==> (#[trigger] final(names)@[j]).within(chars@.len()),
{
    let ghost all = parts(chars@, names@);
    let ghost n = name.of(chars@);
    let mut i: usize = 0;
    assert(all.skip(0) =~= all);
    assert(all.take(0) + with_name(all, n) =~= with_name(all, n));
    while i < names.len()
        invariant
            name.within(chars@.len()),
            names@ == old(names)@,
            forall|j: int| 0 <= j < names@.len() ==> (#[trigger] names@[j]).within(chars@.len()),
            all == parts(chars@, names@),
            n == name.of(chars@),
            i <= names@.len(),
            with_name(all, n) == all.take(i as int) + with_name(all.skip(i as int), n),
        decreases names.len() - i,
    {
        let ghost rest = all.skip(i as int);
        assert(rest[0] == names@[i as int].of(chars@));
        if same_text(chars, names[i], name) {
            assert(all.take(i as int) + rest =~= all);
            return;
        }
        if text_before(chars, name, names[i]) {
            names.insert(i, name);
            assert(parts(chars@, names@) =~= all.take(i as int) + (seq![n] + rest));
            return;
        }
        assert(rest.drop_first() =~= all.skip(i + 1));
        assert(all.take(i as int) + (seq![rest[0]] + with_name(all.skip(i + 1), n)) =~= all.take(
            i + 1,
        ) + with_name(all.skip(i + 1), n));
        i += 1;
    }
    assert(all.skip(i as int) =~= Seq::<Seq<char>>::empty());
    names.push(name);
    assert(parts(chars@, names@) =~= all.take(i as int) + seq![n]);
}

/// Appends the part of `source` under `sp` to `out`.
fn push_span(out: &mut String, source: &str, sp: Span)
    requires
        sp.within(source@.len()),
    ensures
        final(out)@ == old(out)@ + sp.of(source@),
{
    out.append(source.substring_char(sp.lo, sp.hi));
}

/// Appends the part of `source` under `sp` to `out`, with `_` in place of each space.
fn push_underscored(out: &mut String, source: &str, chars: &Vec<char>, sp: Span)
    requires
        chars@ == source@,
        sp.within(source@.len()),
    ensures
        final(out)@ == old(out)@ + underscored(sp.of(source@)),
{
    let mut i: usize = sp.lo;
    while i < sp.hi
        invariant
            chars@ == source@,
            sp.within(source@.len()),
            sp.lo <= i <= sp.hi,
            out@ == old(out)@ + underscored(sp.of(source@)).take(i - sp.lo),
        decreases sp.hi - i,
    {
        let ghost before = out@;
        if chars[i] == ' ' {
            proof {
                reveal_strlit("_");
            }
            out.append("_");
            assert(out@ =~= before + seq!['_']);
        } else {
            push_span(out, source, Span { lo: i, hi: i + 1 });
            assert(out@ =~= before + seq![chars@[i as int]]);
        }
        assert(out@ =~= old(out)@ + underscored(sp.of(source@)).take(i + 1 - sp.lo));
        i += 1;
    }
    assert(underscored(sp.of(source@)).take(sp.hi - sp.lo) =~= underscored(sp.of(source@)));
}

/// Appends the step for the line under `line` to `out`.
fn push_entry(out: &mut String, source: &str, chars: &Vec<char>, line: Span)
    requires
        chars@ == source@,
        line.within(source@.len()),
    ensures
        final(out)@ == old(out)@ + entry(line.of(source@)),
{
    if line.lo == line.hi {
        assert(out@ =~= old(out)@ + entry(line.of(source@)));
        return;
    }
    let p = split_in(chars, line, &one(':'));
    assert(parts(chars@, p@)[0] == p@[0].of(chars@));
    if p.len() == 2 {
        assert(parts(chars@, p@)[1] == p@[1].of(chars@));
        let name = trim_in(chars, p[0]);
        let value = trim_in(chars, p[1]);
        out.append("\t\t");
        push_span(out, source, name);
        out.append("_story.clone().msg(TextPrint::parse(format!(\"{{{{color:{");
        push_span(out, source, name);
        out.append("_color}}}}}");
        push_span(out, source, value);
        out.append("\"))),\n");
        assert(out@ =~= old(out)@ + entry(line.of(source@)));
    } else {
        out.append("\t\tbase_story.clone().msg(TextPrint::parse(format!(\"{{{{}}}}");
        push_span(out, source, p[0]);
        out.append("\"))),\n");
        assert(out@ =~= old(out)@ + entry(line.of(source@)));
    }
}

/// Appends the declaration of the speaker under `name` to `out`.
fn push_declaration(out: &mut String, source: &str, name: Span)
    requires
        name.within(source@.len()),
    ensures
        final(out)@ == old(out)@ + declaration(name.of(source@)),
{
    out.append("\tlet mut ");
    push_span(out, source, name);
    out.append("_story = base_story.clone().title(TextPrint::parse(format!(\"{{{{}}}}");
    push_span(out, source, name);
    out.append("\")));\n\tlet mut ");
    push_span(out, source, name);
    out.append("_color = \"input_color\";\n");
    assert(out@ =~= old(out)@ + declaration(name.of(source@)));
}

/// The speakers of the lines under `lines`, but the first, each once, in order.
fn speakers_in(chars: &Vec<char>, lines: &Vec<Span>) -> (names: Vec<Span>)
    requires
        forall|j: int| 0 <= j < lines@.len() ==> (#[trigger] lines@[j]).within(chars@.len()),
    ensures
        parts(chars@, names@) == speakers(parts(chars@, lines@), lines@.len()),
        forall|j: int| 0 <= j < names@.len() ==> (#[trigger] names@[j]).within(chars@.len()),
{
    let mut names: Vec<Span> = Vec::new();
    let ghost all = parts(chars@, lines@);
    assert(parts(chars@, names@) =~= speakers(all, 1));
    if lines.len() <= 1 {
        assert(parts(chars@, names@) =~= speakers(all, lines@.len()));
        return names;
    }
    let mut i: usize = 1;
    while i < lines.len()
        invariant
            1 <= i <= lines@.len(),
            all == parts(chars@, lines@),
            forall|j: int| 0 <= j < lines@.len() ==> (#[trigger] lines@[j]).within(chars@.len()),
            forall|j: int| 0 <= j < names@.len() ==> (#[trigger] names@[j]).within(chars@.len()),
            parts(chars@, names@) == speakers(all, i as nat),
        decreases lines.len() - i,
    {
        let line = lines[i];
        assert(all[i as int] == line.of(chars@));
        if line.lo != line.hi {
            let p = split_in(chars, line, &one(':'));
            if p.len() == 2 {
                assert(parts(chars@, p@)[0] == p@[0].of(chars@));
                let name = trim_in(chars, p[0]);
                insert_name(chars, &mut names, name);
            }
        }
        i += 1;
    }
    names
}

/// The source of the function that builds the story of the script `input`.
pub fn generate(input: &str) -> (out: String)
    ensures
        out@ == generated(input@),
{
    let chars = to_chars(input);
    let whole = Span { lo: 0, hi: chars.len() };
    assert(whole.of(chars@) =~= input@);
    let lines = split_in(&chars, whole, &one('\n'));
    let ghost all = split(input@, seq!['\n']);
    assert(all[0] == lines@[0].of(chars@)) by {
        assert(parts(chars@, lines@)[0] == lines@[0].of(chars@));
    }
    let names = speakers_in(&chars, &lines);
    let ghost speakers = speakers(all, all.len());
    let mut out = "pub fn ".to_owned();
    push_underscored(&mut out, input, &chars, trim_in(&chars, lines[0]));
    out.append("() -> Vec<Story>{\n\tlet mut base_story = Story::default();\n");
    let ghost head = out@;
    let mut i: usize = 0;
    while i < names.len()
        invariant
            chars@ == input@,
            i <= names@.len(),
            speakers == parts(chars@, names@),
            forall|j: int| 0 <= j < names@.len() ==> (#[trigger] names@[j]).within(chars@.len()),
            out@ == head + declarations(speakers, i as nat),
        decreases names.len() - i,
    {
        assert(speakers[i as int] == names@[i as int].of(chars@));
        push_declaration(&mut out, input, names[i]);
        assert(out@ =~= head + declarations(speakers, (i + 1) as nat));
        i += 1;
    }
    out.append("vec![\n");
    let ghost body = out@;
    let mut k: usize = 1;
    while k < lines.len()
        invariant
            chars@ == input@,
            1 <= k <= lines@.len(),
            all == parts(chars@, lines@),
            forall|j: int| 0 <= j < lines@.len() ==> (#[trigger] lines@[j]).within(chars@.len()),
            out@ == body + entries(all, k as nat),
        decreases lines.len() - k,
    {
        assert(all[k as int] == lines@[k as int].of(chars@));
        push_entry(&mut out, input, &chars, lines[k]);
        assert(out@ =~= body + entries(all, (k + 1) as nat));
        k += 1;
    }
    out.append("\n\t]\n}");
    assert(out@ =~= generated(input@));
    out
}

} // verus!
