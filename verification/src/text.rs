//! Text as sequences of code points: the vocabulary in which the markup grammar is stated
//! (`trim`, `find`, `split`, decimal numbers), and executable counterparts that work on
//! spans of a decoded string.

use vstd::prelude::*;

verus! {

/// Whether `c` has the Unicode `White_Space` property.
pub open spec fn is_space(c: char) -> bool {
    let n = c as u32;
    ||| 0x09 <= n <= 0x0D
    ||| n == 0x20
    ||| n == 0x85
    ||| n == 0xA0
    ||| n == 0x1680
    ||| 0x2000 <= n <= 0x200A
    ||| n == 0x2028
    ||| n == 0x2029
    ||| n == 0x202F
    ||| n == 0x205F
    ||| n == 0x3000
}

/// `s` without its leading white space.
pub open spec fn trim_start(s: Seq<char>) -> Seq<char>
    decreases s.len(),
{
    if s.len() > 0 && is_space(s[0]) {
        trim_start(s.drop_first())
    } else {
        s
    }
}

/// `s` without its trailing white space.
pub open spec fn trim_end(s: Seq<char>) -> Seq<char>
    decreases s.len(),
{
    if s.len() > 0 && is_space(s.last()) {
        trim_end(s.drop_last())
    } else {
        s
    }
}

/// `s` without leading and trailing white space.
pub open spec fn trim(s: Seq<char>) -> Seq<char> {
    trim_end(trim_start(s))
}

/// Whether `pat` stands in `s` at position `at`.
pub open spec fn occurs(s: Seq<char>, pat: Seq<char>, at: int) -> bool {
    0 <= at && at + pat.len() <= s.len() && s.subrange(at, at + pat.len()) == pat
}

/// The least index at or after `from` at which `pat` occurs in `s`, if there is one.
pub open spec fn find(s: Seq<char>, pat: Seq<char>, from: int) -> Option<int>
    decreases s.len() + 1 - from,
{
    if from < 0 || from + pat.len() > s.len() {
        None
    } else if occurs(s, pat, from) {
        Some(from)
    } else {
        find(s, pat, from + 1)
    }
}

/// The pieces of `s` between the occurrences of `pat`, which are taken from left to right
/// and do not overlap. There is always at least one piece; with an empty `pat` the only
/// piece is `s`.
pub open spec fn split(s: Seq<char>, pat: Seq<char>) -> Seq<Seq<char>>
    decreases s.len(),
    via split_decreases
{
    match find(s, pat, 0) {
        Some(i) if pat.len() > 0 => seq![s.subrange(0, i)] + split(
            s.subrange(i + pat.len(), s.len() as int),
            pat,
        ),
        _ => seq![s],
    }
}

#[via_fn]
proof fn split_decreases(s: Seq<char>, pat: Seq<char>) {
    lemma_find_bounds(s, pat, 0);
}

/// A match that `find` reports lies inside `s`, at or after `from`, and nothing matches
/// between `from` and it.
pub proof fn lemma_find_bounds(s: Seq<char>, pat: Seq<char>, from: int)
    ensures
        find(s, pat, from) matches Some(i) ==> {
            &&& from <= i
            &&& occurs(s, pat, i)
            &&& forall|j: int| from <= j < i ==> !#[trigger] occurs(s, pat, j)
        },
        find(s, pat, from) is None ==> forall|j: int|
            0 <= from <= j ==> !#[trigger] occurs(s, pat, j),
    decreases s.len() + 1 - from,
{
    if from < 0 || from + pat.len() > s.len() {
    } else if occurs(s, pat, from) {
    } else {
        lemma_find_bounds(s, pat, from + 1);
    }
}

/// Where `pat` occurs nowhere in `s` at or after `from`, `find` reports nothing.
pub proof fn lemma_find_none(s: Seq<char>, pat: Seq<char>, from: int)
    requires
        forall|j: int| from <= j ==> !#[trigger] occurs(s, pat, j),
    ensures
        find(s, pat, from) is None,
    decreases s.len() + 1 - from,
{
    if from < 0 || from + pat.len() > s.len() {
    } else {
        assert(!occurs(s, pat, from));
        lemma_find_none(s, pat, from + 1);
    }
}

/// Where `pat` occurs in `s` at `at` and nowhere between `from` and `at`, `find` reports
/// `at`.
pub proof fn lemma_find_some(s: Seq<char>, pat: Seq<char>, from: int, at: int)
    requires
        0 <= from <= at,
        occurs(s, pat, at),
        forall|j: int| from <= j < at ==> !#[trigger] occurs(s, pat, j),
    ensures
        find(s, pat, from) == Some(at),
    decreases at - from,
{
    if from < at {
        assert(!occurs(s, pat, from));
        lemma_find_some(s, pat, from + 1, at);
    }
}

/// A text in which `pat` occurs nowhere is one piece.
pub proof fn lemma_split_whole(s: Seq<char>, pat: Seq<char>)
    requires
        forall|j: int| 0 <= j ==> !#[trigger] occurs(s, pat, j),
    ensures
        split(s, pat) == seq![s],
{
    lemma_find_none(s, pat, 0);
}

/// A text in which `pat` occurs first at `at` is cut there: its first piece is what
/// stands before `at`, its other pieces are those of what follows the occurrence.
pub proof fn lemma_split_first(s: Seq<char>, pat: Seq<char>, at: int)
    requires
        pat.len() > 0,
        occurs(s, pat, at),
        forall|j: int| 0 <= j < at ==> !#[trigger] occurs(s, pat, j),
    ensures
        split(s, pat) == seq![s.subrange(0, at)] + split(
            s.subrange(at + pat.len(), s.len() as int),
            pat,
        ),
{
    lemma_find_some(s, pat, 0, at);
}

/// Whether `c` is one of the ten ASCII digits.
pub open spec fn is_digit(c: char) -> bool {
    '0' <= c <= '9'
}

/// The value of the ASCII digit `c`.
pub open spec fn digit_of(c: char) -> nat {
    (c as u32 - '0' as u32) as nat
}

/// The number that the ASCII digits `s` write in base ten (0 for no digits), or `None`
/// where `s` holds anything but digits.
pub open spec fn digits_value(s: Seq<char>) -> Option<nat>
    decreases s.len(),
{
    if s.len() == 0 {
        Some(0nat)
    } else if !is_digit(s.last()) {
        None
    } else {
        match digits_value(s.drop_last()) {
            Some(v) => Some(v * 10 + digit_of(s.last())),
            None => None,
        }
    }
}

/// `s` without the `+` that it may start with.
pub open spec fn unsigned(s: Seq<char>) -> Seq<char> {
    if s.len() > 0 && s[0] == '+' {
        s.drop_first()
    } else {
        s
    }
}

/// `s` read as an unsigned 32-bit number: an optional `+`, then one or more ASCII digits
/// whose value fits. Anything else (the empty text, a sign alone, spaces, a value
/// too large) is `None`.
pub open spec fn decimal_u32(s: Seq<char>) -> Option<u32> {
    let body = unsigned(s);
    match digits_value(body) {
        Some(v) if body.len() > 0 && v <= u32::MAX => Some(v as u32),
        _ => None,
    }
}

/// The character that writes the digit `d`.
pub open spec fn digit_char(d: nat) -> char {
    if d == 0 {
        '0'
    } else if d == 1 {
        '1'
    } else if d == 2 {
        '2'
    } else if d == 3 {
        '3'
    } else if d == 4 {
        '4'
    } else if d == 5 {
        '5'
    } else if d == 6 {
        '6'
    } else if d == 7 {
        '7'
    } else if d == 8 {
        '8'
    } else {
        '9'
    }
}

/// `n` written in base ten, without leading zeros.
pub open spec fn decimal(n: nat) -> Seq<char>
    decreases n,
{
    if n < 10 {
        seq![digit_char(n)]
    } else {
        decimal(n / 10).push(digit_char(n % 10))
    }
}

/// A half-open range of positions, counted in code points.
#[derive(Clone, Copy, Debug)]
pub(crate) struct Span {
    pub(crate) lo: usize,
    pub(crate) hi: usize,
}

impl Span {
    /// The span is a range of positions of a text of `len` code points.
    pub(crate) open spec fn within(self, len: nat) -> bool {
        self.lo <= self.hi <= len
    }

    /// The part of `s` that the span covers.
    pub(crate) open spec fn of(self, s: Seq<char>) -> Seq<char> {
        s.subrange(self.lo as int, self.hi as int)
    }

    /// The span lies inside `outer`.
    pub(crate) open spec fn inside(self, outer: Span) -> bool {
        outer.lo <= self.lo <= self.hi <= outer.hi
    }
}

/// What the strings of `v` hold, in order.
pub open spec fn texts(v: Seq<String>) -> Seq<Seq<char>> {
    Seq::new(v.len(), |i: int| v[i]@)
}

/// The parts of `s` that the spans cover, in order.
pub(crate) open spec fn parts(s: Seq<char>, spans: Seq<Span>) -> Seq<Seq<char>> {
    Seq::new(spans.len(), |i: int| spans[i].of(s))
}

/// The code points of `s`, in order.
pub fn to_chars(s: &str) -> (v: Vec<char>)
    ensures
        v@ == s@,
{
    let mut v: Vec<char> = Vec::new();
    for c in it: s.chars()
        invariant
            v@ == it.seq().take(it.index() as int),
            it.seq() == s@,
    {
        v.push(c);
    }
    v
}

/// The part of `source` that `sp` covers, as a string of its own.
pub(crate) fn substring(source: &str, sp: Span) -> (s: String)
    requires
        sp.within(source@.len()),
    ensures
        s@ == sp.of(source@),
{
    source.substring_char(sp.lo, sp.hi).to_owned()
}

/// Whether `c` is white space.
pub fn is_whitespace(c: char) -> (r: bool)
    ensures
        r == is_space(c),
{
    let n: u32 = c as u32;
    (0x09 <= n && n <= 0x0D) || n == 0x20 || n == 0x85 || n == 0xA0 || n == 0x1680 || (0x2000 <= n
        && n <= 0x200A) || n == 0x2028 || n == 0x2029 || n == 0x202F || n == 0x205F || n == 0x3000
}

/// Whether the part of `chars` under `sp` reads `word`.
pub(crate) fn span_is(chars: &Vec<char>, sp: Span, word: &str) -> (r: bool)
    requires
        sp.within(chars@.len()),
    ensures
        r == (sp.of(chars@) == word@),
{
    let w = to_chars(word);
    if sp.hi - sp.lo != w.len() {
        return false;
    }
    let mut i: usize = 0;
    while i < w.len()
        invariant
            sp.within(chars@.len()),
            sp.hi - sp.lo == w.len(),
            w@ == word@,
            i <= w.len(),
            forall|j: int| 0 <= j < i ==> chars@[sp.lo + j] == w@[j],
        decreases w.len() - i,
    {
        if chars[sp.lo + i] != w[i] {
            assert(sp.of(chars@)[i as int] != word@[i as int]);
            return false;
        }
        i += 1;
    }
    assert(sp.of(chars@) =~= word@);
    true
}

/// Whether `pat` stands in `chars` at position `at`, before position `end`.
fn occurs_at(chars: &Vec<char>, at: usize, end: usize, pat: &Vec<char>) -> (r: bool)
    requires
        at <= end <= chars@.len(),
        at + pat@.len() <= end,
    ensures
        r == (chars@.subrange(at as int, at + pat@.len()) == pat@),
{
    let mut j: usize = 0;
    while j < pat.len()
        invariant
            at + pat@.len() <= end <= chars@.len(),
            j <= pat@.len(),
            forall|k: int| 0 <= k < j ==> chars@[at + k] == pat@[k],
        decreases pat.len() - j,
    {
        if chars[at + j] != pat[j] {
            assert(chars@.subrange(at as int, at + pat@.len())[j as int] != pat@[j as int]);
            return false;
        }
        j += 1;
    }
    assert(chars@.subrange(at as int, at + pat@.len()) =~= pat@);
    true
}

/// The first occurrence of `pat` in the part of `chars` under `sp`, as a position of `chars`.
pub(crate) fn find_in(chars: &Vec<char>, sp: Span, pat: &Vec<char>) -> (r: Option<usize>)
    requires
        sp.within(chars@.len()),
        pat@.len() > 0,
    ensures
        match r {
            Some(i) => sp.lo <= i && i + pat@.len() <= sp.hi && find(sp.of(chars@), pat@, 0)
                == Some(i - sp.lo),
            None => find(sp.of(chars@), pat@, 0) is None,
        },
{
    let n = pat.len();
    if sp.hi - sp.lo < n {
        return None;
    }
    let last = sp.hi - n;
    let mut i: usize = sp.lo;
    let ghost s = sp.of(chars@);
    while i <= last
        invariant
            sp.within(chars@.len()),
            n == pat@.len(),
            n > 0,
            last == sp.hi - n,
            sp.lo <= i <= last + 1,
            s == sp.of(chars@),
            find(s, pat@, 0) == find(s, pat@, i - sp.lo),
        decreases last + 1 - i,
    {
        let hit = occurs_at(chars, i, sp.hi, pat);
        assert(s.subrange(i - sp.lo, i - sp.lo + n) =~= chars@.subrange(i as int, i + n));
        if hit {
            return Some(i);
        }
        i += 1;
    }
    None
}

/// The spans of the pieces into which the occurrences of `pat` cut the part of `chars`
/// under `sp`.
pub(crate) fn split_in(chars: &Vec<char>, sp: Span, pat: &Vec<char>) -> (out: Vec<Span>)
    requires
        sp.within(chars@.len()),
        pat@.len() > 0,
    ensures
        parts(chars@, out@) == split(sp.of(chars@), pat@),
        out@.len() >= 1,
        forall|i: int| 0 <= i < out@.len() ==> (#[trigger] out@[i]).inside(sp),
{
    let mut out: Vec<Span> = Vec::new();
    let mut pos: usize = sp.lo;
    let ghost whole = split(sp.of(chars@), pat@);
    loop
        invariant
            sp.within(chars@.len()),
            pat@.len() > 0,
            sp.lo <= pos <= sp.hi,
            whole == split(sp.of(chars@), pat@),
            whole == parts(chars@, out@) + split(chars@.subrange(pos as int, sp.hi as int), pat@),
            forall|i: int| 0 <= i < out@.len() ==> (#[trigger] out@[i]).inside(sp),
        decreases sp.hi - pos,
    {
        let rest = Span { lo: pos, hi: sp.hi };
        let ghost before = parts(chars@, out@);
        let ghost tail = rest.of(chars@);
        match find_in(chars, rest, pat) {
            Some(i) => {
                let piece = Span { lo: pos, hi: i };
                out.push(piece);
                proof {
                    assert(tail.subrange(0, i - pos) =~= piece.of(chars@));
                    assert(tail.subrange(i - pos + pat@.len(), tail.len() as int)
                        =~= chars@.subrange(i + pat@.len(), sp.hi as int));
                    assert(parts(chars@, out@) =~= before + seq![piece.of(chars@)]);
                }
                pos = i + pat.len();
            },
            None => {
                out.push(rest);
                proof {
                    assert(parts(chars@, out@) =~= before + seq![tail]);
                }
                return out;
            },
        }
    }
}

/// The span of the part of `chars` under `sp` with its white space at both ends left out.
pub(crate) fn trim_in(chars: &Vec<char>, sp: Span) -> (r: Span)
    requires
        sp.within(chars@.len()),
    ensures
        r.inside(sp),
        r.of(chars@) == trim(sp.of(chars@)),
{
    let mut lo: usize = sp.lo;
    while lo < sp.hi && is_whitespace(chars[lo])
        invariant
            sp.within(chars@.len()),
            sp.lo <= lo <= sp.hi,
            trim_start(sp.of(chars@)) == trim_start(chars@.subrange(lo as int, sp.hi as int)),
        decreases sp.hi - lo,
    {
        assert(chars@.subrange(lo as int, sp.hi as int).drop_first() =~= chars@.subrange(
            lo + 1,
            sp.hi as int,
        ));
        lo += 1;
    }
    let mut hi: usize = sp.hi;
    while lo < hi && is_whitespace(chars[hi - 1])
        invariant
            sp.within(chars@.len()),
            sp.lo <= lo <= hi <= sp.hi,
            trim(sp.of(chars@)) == trim_end(chars@.subrange(lo as int, hi as int)),
        decreases hi - lo,
    {
        assert(chars@.subrange(lo as int, hi as int).drop_last() =~= chars@.subrange(
            lo as int,
            hi - 1,
        ));
        hi -= 1;
    }
    Span { lo, hi }
}

/// The digits written under `sp` keep their value below every longer run of digits
/// that starts with them.
proof fn lemma_digits_grow(s: Seq<char>, k: int)
    requires
        0 <= k <= s.len(),
        digits_value(s) is Some,
    ensures
        digits_value(s.take(k)) is Some,
        digits_value(s.take(k))->0 <= digits_value(s)->0,
    decreases s.len(),
{
    if k == s.len() {
        assert(s.take(k) =~= s);
    } else {
        assert(s.drop_last().take(k) =~= s.take(k));
        lemma_digits_grow(s.drop_last(), k);
    }
}

/// Where one of the characters is no digit, the text writes no number.
proof fn lemma_digits_none(s: Seq<char>, k: int)
    requires
        0 <= k < s.len(),
        !is_digit(s[k]),
    ensures
        digits_value(s) is None,
    decreases s.len(),
{
    if k == s.len() - 1 {
    } else {
        lemma_digits_none(s.drop_last(), k);
    }
}

/// The part of `chars` under `sp` read as an unsigned 32-bit decimal number.
pub(crate) fn decimal_in(chars: &Vec<char>, sp: Span) -> (r: Option<u32>)
    requires
        sp.within(chars@.len()),
    ensures
        r == decimal_u32(sp.of(chars@)),
{
    let ghost s = sp.of(chars@);
    let mut i: usize = sp.lo;
    if i < sp.hi && chars[i] == '+' {
        i += 1;
        assert(s.drop_first() =~= chars@.subrange(i as int, sp.hi as int));
    }
    let start = i;
    let ghost body = chars@.subrange(start as int, sp.hi as int);
    assert(body == unsigned(s));
    if start == sp.hi {
        return None;
    }
    let mut acc: u64 = 0;
    while i < sp.hi
        invariant
            sp.within(chars@.len()),
            sp.lo <= start <= i <= sp.hi,
            body == chars@.subrange(start as int, sp.hi as int),
            s == sp.of(chars@),
            body == unsigned(s),
            body.len() > 0,
            digits_value(body.take(i - start)) == Some(acc as nat),
            acc <= u32::MAX,
        decreases sp.hi - i,
    {
        let c = chars[i];
        if !(c >= '0' && c <= '9') {
            proof {
                lemma_digits_none(body, i - start);
            }
            return None;
        }
        let d: u64 = (c as u32 - '0' as u32) as u64;
        let next: u64 = acc * 10 + d;
        proof {
            let t = body.take(i - start + 1);
            assert(t.drop_last() =~= body.take(i - start));
            assert(t.last() == c);
        }
        if next > 0xFFFF_FFFF {
            proof {
                if digits_value(body) is Some {
                    lemma_digits_grow(body, i - start + 1);
                }
            }
            return None;
        }
        acc = next;
        i += 1;
    }
    assert(body.take(i - start) =~= body);
    Some(acc as u32)
}


/// The one-character pattern `c`.
pub(crate) fn one(c: char) -> (r: Vec<char>)
    ensures
        r@ == seq![c],
{
    let mut r: Vec<char> = Vec::new();
    r.push(c);
    assert(r@ =~= seq![c]);
    r
}

/// The pattern of `c` twice.
pub(crate) fn twice(c: char) -> (r: Vec<char>)
    ensures
        r@ == seq![c, c],
{
    let mut r: Vec<char> = Vec::new();
    r.push(c);
    r.push(c);
    assert(r@ =~= seq![c, c]);
    r
}

/// The strings of the parts of `source` under `spans`.
pub(crate) fn substrings(source: &str, chars: &Vec<char>, spans: &Vec<Span>) -> (r: Vec<String>)
    requires
        chars@ == source@,
        forall|j: int| 0 <= j < spans@.len() ==> (#[trigger] spans@[j]).within(chars@.len()),
    ensures
        texts(r@) == parts(chars@, spans@),
{
    let mut r: Vec<String> = Vec::new();
    let mut i: usize = 0;
    while i < spans.len()
        invariant
            chars@ == source@,
            i <= spans@.len(),
            r@.len() == i,
            forall|j: int| 0 <= j < spans@.len() ==> (#[trigger] spans@[j]).within(chars@.len()),
            forall|j: int| 0 <= j < i ==> (#[trigger] r@[j])@ == spans@[j].of(chars@),
        decreases spans.len() - i,
    {
        r.push(substring(source, spans[i]));
        i += 1;
    }
    assert(texts(r@) =~= parts(chars@, spans@));
    r
}

/// `s` without the white space at its two ends.
pub fn trimmed(s: &str) -> (r: String)
    ensures
        r@ == trim(s@),
{
    let chars = to_chars(s);
    let whole = Span { lo: 0, hi: chars.len() };
    assert(whole.of(chars@) =~= s@);
    substring(s, trim_in(&chars, whole))
}

/// The pieces of `s` between the occurrences of `pat`.
pub fn pieces(s: &str, pat: &str) -> (r: Vec<String>)
    ensures
        texts(r@) == split(s@, pat@),
{
    let chars = to_chars(s);
    let whole = Span { lo: 0, hi: chars.len() };
    assert(whole.of(chars@) =~= s@);
    let pat = to_chars(pat);
    let mut spans: Vec<Span> = Vec::new();
    if pat.len() == 0 {
        spans.push(whole);
        assert(parts(chars@, spans@) =~= seq![s@]);
    } else {
        spans = split_in(&chars, whole, &pat);
        assert forall|j: int| 0 <= j < spans@.len() implies (#[trigger] spans@[j]).within(
            chars@.len(),
        ) by {
            assert(spans@[j].inside(whole));
        }
    }
    substrings(s, &chars, &spans)
}

/// `s` read as an unsigned 32-bit decimal number.
pub fn number(s: &str) -> (r: Option<u32>)
    ensures
        r == decimal_u32(s@),
{
    let chars = to_chars(s);
    let whole = Span { lo: 0, hi: chars.len() };
    assert(whole.of(chars@) =~= s@);
    decimal_in(&chars, whole)
}

} // verus!
