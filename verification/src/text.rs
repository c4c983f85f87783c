//! Character sequences: the primitives under every message and every file body.

use vstd::prelude::*;

verus! {

/// `String::push` of the standard library: the string afterwards is the string
/// before with `ch` added at its end.
pub assume_specification[ String::push ](s: &mut String, ch: char)
    ensures
        final(s)@ == old(s)@.push(ch),
;

/// The characters of `s`, in order.
pub fn to_chars(s: &str) -> (out: Vec<char>)
    ensures
        out@ == s@,
{
    let mut out: Vec<char> = Vec::new();
    for c in it: s.chars()
        invariant
            out@ == it.seq().take(it.index()),
            it.seq() == s@,
    {
        out.push(c);
    }
    out
}

/// Appends the characters `v[from..to]` to `out`.
pub fn push_range(out: &mut String, v: &Vec<char>, from: usize, to: usize)
    requires
        from <= to <= v.len(),
    ensures
        final(out)@ == old(out)@ + v@.subrange(from as int, to as int),
{
    let mut i: usize = from;
    while i < to
        invariant
            from <= i <= to <= v.len(),
            out@ == old(out)@ + v@.subrange(from as int, i as int),
        decreases to - i,
    {
        out.push(v[i]);
        i += 1;
        assert(v@.subrange(from as int, i as int) == v@.subrange(from as int, i - 1).push(
            v@[i - 1],
        ));
    }
}

/// The string that holds exactly the characters of `v`.
pub fn from_chars(v: &Vec<char>) -> (out: String)
    ensures
        out@ == v@,
{
    let mut out = String::new();
    push_range(&mut out, v, 0, v.len());
    assert(v@.subrange(0, v.len() as int) == v@);
    out
}

/// `a` followed by `b`.
pub fn concat2(a: &str, b: &str) -> (out: String)
    ensures
        out@ == a@ + b@,
{
    let mut out = a.to_owned();
    out.append(b);
    out
}

/// `a`, `b` and `c` in a row.
pub fn concat3(a: &str, b: &str, c: &str) -> (out: String)
    ensures
        out@ == a@ + b@ + c@,
{
    let mut out = a.to_owned();
    out.append(b);
    out.append(c);
    out
}

/// The decimal digit that stands for `d`.
pub open spec fn digit(d: nat) -> char {
    if d == 0 {
        '0'
    } else if d == 1 {
        '1'
    } else if d == 2 {
        '2'
    } else if d == 3 {
        '3'
    } else if d == 4 {
        '4'
    } else if d == 5 {
        '5'
    } else if d == 6 {
        '6'
    } else if d == 7 {
        '7'
    } else if d == 8 {
        '8'
    } else {
        '9'
    }
}

/// `n` written in base ten, without leading zeros.
pub open spec fn decimal(n: nat) -> Seq<char>
    decreases n,
{
    if n < 10 {
        seq![digit(n)]
    } else {
        decimal(n / 10).push(digit(n % 10))
    }
}

fn digit_char(d: usize) -> (c: char)
    requires
        d < 10,
    ensures
        c == digit(d as nat),
{
    if d == 0 {
        '0'
    } else if d == 1 {
        '1'
    } else if d == 2 {
        '2'
    } else if d == 3 {
        '3'
    } else if d == 4 {
        '4'
    } else if d == 5 {
        '5'
    } else if d == 6 {
        '6'
    } else if d == 7 {
        '7'
    } else if d == 8 {
        '8'
    } else {
        '9'
    }
}

/// Appends `n` in base ten to `out`.
pub fn push_decimal(out: &mut String, n: usize)
    ensures
        final(out)@ == old(out)@ + decimal(n as nat),
    decreases n,
{
    if n < 10 {
        out.push(digit_char(n));
        assert(old(out)@.push(digit(n as nat)) == old(out)@ + decimal(n as nat));
    } else {
        push_decimal(out, n / 10);
        out.push(digit_char(n % 10));
        assert((old(out)@ + decimal((n / 10) as nat)).push(digit((n % 10) as nat)) == old(out)@
            + decimal(n as nat));
    }
}

/// Whether `c` is white space: the set that `char::is_whitespace` tests for,
/// written out by code point.
pub open spec fn is_blank(c: char) -> bool {
    ||| '\u{9}' <= c <= '\u{d}'
    ||| c == ' '
    ||| c == '\u{85}'
    ||| c == '\u{a0}'
    ||| c == '\u{1680}'
    ||| '\u{2000}' <= c <= '\u{200a}'
    ||| c == '\u{2028}'
    ||| c == '\u{2029}'
    ||| c == '\u{202f}'
    ||| c == '\u{205f}'
    ||| c == '\u{3000}'
}

/// Tests `c` for white space.
pub fn is_blank_char(c: char) -> (b: bool)
    ensures
        b == is_blank(c),
{
    ('\u{9}' <= c && c <= '\u{d}') || c == ' ' || c == '\u{85}' || c == '\u{a0}' || c
        == '\u{1680}' || ('\u{2000}' <= c && c <= '\u{200a}') || c == '\u{2028}' || c
        == '\u{2029}' || c == '\u{202f}' || c == '\u{205f}' || c == '\u{3000}'
}

/// Index of the first line feed in `s`; `s.len()` where it has none.
pub open spec fn first_newline(s: Seq<char>) -> int
    decreases s.len(),
{
    if s.len() == 0 || s[0] == '\n' {
        0
    } else {
        1 + first_newline(s.drop_first())
    }
}

/// `first_newline` is the one index before which no line feed stands and at
/// which one does, or the text ends.
pub proof fn lemma_first_newline(s: Seq<char>, i: int)
    requires
        0 <= i <= s.len(),
        forall|k: int| 0 <= k < i ==> s[k] != '\n',
        i < s.len() ==> s[i] == '\n',
    ensures
        first_newline(s) == i,
    decreases s.len(),
{
    if s.len() != 0 && s[0] != '\n' {
        lemma_first_newline(s.drop_first(), i - 1);
    }
}

/// `line` without one carriage return at its end.
pub open spec fn strip_cr(line: Seq<char>) -> Seq<char> {
    if line.len() > 0 && line.last() == '\r' {
        line.drop_last()
    } else {
        line
    }
}

/// The lines of `s`. A line ends at a line feed; a carriage return just
/// before that line feed belongs to the ending too. Text after the last line
/// feed is a line of its own unless it is empty.
pub open spec fn split_lines(s: Seq<char>) -> Seq<Seq<char>>
    decreases s.len(),
{
    if s.len() == 0 {
        Seq::empty()
    } else {
        let i = first_newline(s);
        if i < 0 || i >= s.len() {
            seq![s]
        } else {
            seq![strip_cr(s.take(i))] + split_lines(s.skip(i + 1))
        }
    }
}

/// The lines of `s`, as `split_lines` defines them.
pub fn lines(s: &Vec<char>) -> (out: Vec<String>)
    ensures
        out.deep_view() == split_lines(s@),
{
    let mut out: Vec<String> = Vec::new();
    let mut pos: usize = 0;
    assert(s@.skip(0) == s@);
    while pos < s.len()
        invariant
            pos <= s.len(),
            out.deep_view() + split_lines(s@.skip(pos as int)) == split_lines(s@),
        decreases s.len() - pos,
    {
        let ghost rest = s@.skip(pos as int);
        let ghost before = out.deep_view();
        let mut end: usize = pos;
        while end < s.len() && s[end] != '\n'
            invariant
                pos <= end <= s.len(),
                forall|k: int| pos <= k < end ==> s@[k] != '\n',
            decreases s.len() - end,
        {
            end += 1;
        }
        proof {
            lemma_first_newline(rest, end - pos);
        }
        let mut stop: usize = end;
        if end < s.len() && end > pos && s[end - 1] == '\r' {
            stop = end - 1;
        }
        let mut line = String::new();
        push_range(&mut line, s, pos, stop);
        proof {
            assert(rest.take(end - pos) == s@.subrange(pos as int, end as int));
            if end < s.len() {
                assert(line@ == strip_cr(rest.take(end - pos)));
                assert(rest.skip(end - pos + 1) == s@.skip(end + 1));
            } else {
                assert(line@ == rest);
                assert(split_lines(s@.skip(end as int)) == Seq::<Seq<char>>::empty());
            }
        }
        out.push(line);
        pos = if end < s.len() {
            end + 1
        } else {
            end
        };
        proof {
            assert(out.deep_view() == before.push(line@));
            assert(split_lines(rest) == seq![line@] + split_lines(s@.skip(pos as int)));
            assert(before.push(line@) + split_lines(s@.skip(pos as int)) == before + (seq![line@]
                + split_lines(s@.skip(pos as int))));
        }
    }
    assert(out.deep_view() + Seq::<Seq<char>>::empty() == out.deep_view());
    out
}

/// `ls` with one line feed between each two neighbours.
pub open spec fn join_lines(ls: Seq<Seq<char>>) -> Seq<char>
    decreases ls.len(),
{
    if ls.len() == 0 {
        Seq::empty()
    } else if ls.len() == 1 {
        ls[0]
    } else {
        ls[0] + seq!['\n'] + join_lines(ls.drop_first())
    }
}

/// Joining one more line adds a line feed and the line, or the line alone
/// where it is the first.
pub proof fn lemma_join_push(ls: Seq<Seq<char>>, line: Seq<char>)
    ensures
        join_lines(ls.push(line)) == if ls.len() == 0 {
            line
        } else {
            join_lines(ls) + seq!['\n'] + line
        },
    decreases ls.len(),
{
    let more = ls.push(line);
    if ls.len() == 0 {
        assert(more[0] == line);
    } else {
        let rest = ls.drop_first();
        assert(more.drop_first() == rest.push(line));
        assert(more[0] == ls[0]);
        lemma_join_push(rest, line);
        assert(join_lines(more) == ls[0] + seq!['\n'] + join_lines(rest.push(line)));
        if rest.len() == 0 {
            assert(join_lines(ls) == ls[0]);
        } else {
            assert(join_lines(ls) == ls[0] + seq!['\n'] + join_lines(rest));
            assert(ls[0] + seq!['\n'] + (join_lines(rest) + seq!['\n'] + line) == ls[0]
                + seq!['\n'] + join_lines(rest) + seq!['\n'] + line);
        }
    }
}

/// The lines of `ls` joined by line feeds.
pub fn join(ls: &Vec<String>) -> (out: String)
    ensures
        out@ == join_lines(ls.deep_view()),
{
    let mut out = String::new();
    let mut i: usize = 0;
    while i < ls.len()
        invariant
            i <= ls.len(),
            out@ == join_lines(ls.deep_view().take(i as int)),
        decreases ls.len() - i,
    {
        proof {
            lemma_join_push(ls.deep_view().take(i as int), ls@[i as int]@);
            assert(ls.deep_view().take(i + 1) == ls.deep_view().take(i as int).push(
                ls@[i as int]@,
            ));
        }
        if i > 0 {
            out.push('\n');
        }
        out.append(ls[i].as_str());
        i += 1;
    }
    assert(ls.deep_view().take(ls.len() as int) == ls.deep_view());
    out
}

/// `s` without the white space at its start.
pub open spec fn skip_blank(s: Seq<char>) -> Seq<char>
    decreases s.len(),
{
    if s.len() > 0 && is_blank(s[0]) {
        skip_blank(s.drop_first())
    } else {
        s
    }
}

/// `s` without the white space at its end.
pub open spec fn drop_blank_end(s: Seq<char>) -> Seq<char>
    decreases s.len(),
{
    if s.len() > 0 && is_blank(s.last()) {
        drop_blank_end(s.drop_last())
    } else {
        s
    }
}

/// `s` without the white space at either end.
pub open spec fn trimmed(s: Seq<char>) -> Seq<char> {
    drop_blank_end(skip_blank(s))
}

/// `skip_blank` cuts at the first character that is not white space.
pub proof fn lemma_skip_blank(s: Seq<char>, a: int)
    requires
        0 <= a <= s.len(),
        forall|k: int| 0 <= k < a ==> is_blank(s[k]),
        a < s.len() ==> !is_blank(s[a]),
    ensures
        skip_blank(s) == s.skip(a),
    decreases s.len(),
{
    if a == 0 {
        assert(s.skip(0) == s);
    } else {
        lemma_skip_blank(s.drop_first(), a - 1);
        assert(s.drop_first().skip(a - 1) == s.skip(a));
    }
}

/// `drop_blank_end` cuts behind the last character that is not white space.
pub proof fn lemma_drop_blank_end(s: Seq<char>, b: int)
    requires
        0 <= b <= s.len(),
        forall|k: int| b <= k < s.len() ==> is_blank(s[k]),
        b > 0 ==> !is_blank(s[b - 1]),
    ensures
        drop_blank_end(s) == s.take(b),
    decreases s.len(),
{
    if b == s.len() {
        assert(s.take(b) == s);
    } else {
        lemma_drop_blank_end(s.drop_last(), b);
        assert(s.drop_last().take(b) == s.take(b));
    }
}

/// Whether `line`, without the white space at either end, begins with `key`.
pub fn trimmed_starts_with(line: &Vec<char>, key: &Vec<char>) -> (b: bool)
    ensures
        b == key@.is_prefix_of(trimmed(line@)),
{
    let mut from: usize = 0;
    while from < line.len() && is_blank_char(line[from])
        invariant
            from <= line.len(),
            forall|k: int| 0 <= k < from ==> is_blank(line@[k]),
        decreases line.len() - from,
    {
        from += 1;
    }
    let mut to: usize = line.len();
    while to > from && is_blank_char(line[to - 1])
        invariant
            from <= to <= line.len(),
            forall|k: int| to <= k < line.len() ==> is_blank(line@[k]),
        decreases to,
    {
        to -= 1;
    }
    let ghost core = line@.subrange(from as int, to as int);
    proof {
        lemma_skip_blank(line@, from as int);
        lemma_drop_blank_end(line@.skip(from as int), to - from);
        assert(line@.skip(from as int).take(to - from) == core);
    }
    if key.len() > to - from {
        return false;
    }
    let mut i: usize = 0;
    while i < key.len()
        invariant
            i <= key.len() <= to - from,
            from <= to <= line.len(),
            core == line@.subrange(from as int, to as int),
            trimmed(line@) == core,
            forall|k: int| 0 <= k < i ==> key@[k] == core[k],
        decreases key.len() - i,
    {
        if key[i] != line[from + i] {
            assert(core.subrange(0, key@.len() as int)[i as int] != key@[i as int]);
            return false;
        }
        i += 1;
    }
    assert(core.subrange(0, key@.len() as int) == key@);
    true
}

/// Whether `part` stands in `s` from index `at` on.
pub open spec fn occurs_at(s: Seq<char>, part: Seq<char>, at: int) -> bool {
    0 <= at && at + part.len() <= s.len() && s.subrange(at, at + part.len()) == part
}

/// Whether `part` stands somewhere in `s`, character for character.
pub open spec fn contains_text(s: Seq<char>, part: Seq<char>) -> bool {
    exists|at: int| occurs_at(s, part, at)
}

/// Searches `s` for `part`.
pub fn text_contains(s: &Vec<char>, part: &Vec<char>) -> (found: bool)
    ensures
        found == contains_text(s@, part@),
{
    if part.len() > s.len() {
        return false;
    }
    let last: usize = s.len() - part.len();
    let mut at: usize = 0;
    while at <= last
        invariant
            at <= last + 1,
            last == s.len() - part.len(),
            forall|k: int| 0 <= k < at ==> !occurs_at(s@, part@, k),
        decreases last + 1 - at,
    {
        let mut i: usize = 0;
        while i < part.len() && s[at + i] == part[i]
            invariant
                i <= part.len(),
                at + part.len() <= s.len(),
                forall|k: int| 0 <= k < i ==> s@[at + k] == part@[k],
            decreases part.len() - i,
        {
            i += 1;
        }
        if i == part.len() {
            assert(s@.subrange(at as int, at + part.len()) == part@);
            assert(occurs_at(s@, part@, at as int));
            return true;
        }
        assert(s@.subrange(at as int, at + part.len())[i as int] != part@[i as int]);
        at += 1;
    }
    false
}

/// What the `Debug` form of a string holds: the text between double quotes,
/// with the characters that `Debug` escapes written as escapes.
pub uninterp spec fn quoted(text: Seq<char>) -> Seq<char>;

/// `format!("{:?}", ..)` of the standard library, on a string: the result is
/// the `Debug` form of `text`, which depends on `text` alone.
#[verifier::external_body]
pub(crate) fn debug_quote(text: &str) -> (out: String)
    ensures
        out@ == quoted(text@),
{
    format!("{:?}", text)
}

/// Whether `line` holds no line feed.
pub open spec fn newline_free(line: Seq<char>) -> bool {
    forall|k: int| 0 <= k < line.len() ==> line[k] != '\n'
}

/// `first_newline` lies within the text, no line feed stands before it, and
/// one stands at it unless the text has none.
pub proof fn lemma_first_newline_found(s: Seq<char>)
    ensures
        0 <= first_newline(s) <= s.len(),
        forall|k: int| 0 <= k < first_newline(s) ==> s[k] != '\n',
        first_newline(s) < s.len() ==> s[first_newline(s)] == '\n',
    decreases s.len(),
{
    if s.len() != 0 && s[0] != '\n' {
        let rest = s.drop_first();
        lemma_first_newline_found(rest);
        assert forall|k: int| 0 <= k < first_newline(s) implies s[k] != '\n' by {
            if k > 0 {
                assert(s[k] == rest[k - 1]);
            }
        }
        assert(first_newline(s) < s.len() ==> s[first_newline(s)] == rest[first_newline(rest)]);
    }
}

/// No line of a text holds a line feed.
pub proof fn lemma_lines_newline_free(s: Seq<char>)
    ensures
        forall|i: int| 0 <= i < split_lines(s).len() ==> newline_free(#[trigger] split_lines(s)[i]),
    decreases s.len(),
{
    if s.len() != 0 {
        lemma_first_newline_found(s);
        let i = first_newline(s);
        if i < s.len() {
            let head = strip_cr(s.take(i));
            let rest = split_lines(s.skip(i + 1));
            lemma_lines_newline_free(s.skip(i + 1));
            assert(newline_free(head));
            assert forall|j: int| 0 <= j < split_lines(s).len() implies newline_free(
                #[trigger] split_lines(s)[j],
            ) by {
                if j > 0 {
                    assert(split_lines(s)[j] == rest[j - 1]);
                }
            }
        }
    }
}

/// Whether splitting the joined lines gives `ls` back as it is, given that no
/// line holds a line feed: no line but the last ends in a carriage return,
/// and the last line is not empty.
pub open spec fn resplits_alike(ls: Seq<Seq<char>>) -> bool {
    &&& forall|i: int| 0 <= i < ls.len() - 1 ==> strip_cr(#[trigger] ls[i]) == ls[i]
    &&& ls.len() > 0 ==> ls.last().len() > 0
}

/// Joining lines and splitting the text again gives, line by line, the line
/// that went in or that line without a carriage return at its end; no line
/// is added.
pub proof fn lemma_resplit(ls: Seq<Seq<char>>)
    requires
        forall|i: int| 0 <= i < ls.len() ==> newline_free(#[trigger] ls[i]),
    ensures
        split_lines(join_lines(ls)).len() <= ls.len(),
        forall|j: int|
            0 <= j < split_lines(join_lines(ls)).len() ==> {
                ||| #[trigger] split_lines(join_lines(ls))[j] == ls[j]
                ||| split_lines(join_lines(ls))[j] == strip_cr(ls[j])
            },
        resplits_alike(ls) ==> split_lines(join_lines(ls)) == ls,
    decreases ls.len(),
{
    let text = join_lines(ls);
    if ls.len() == 0 {
    } else if ls.len() == 1 {
        assert(newline_free(ls[0]));
        if text.len() > 0 {
            lemma_first_newline(text, text.len() as int);
            assert(split_lines(text) == seq![text]);
        }
        if resplits_alike(ls) {
            assert(split_lines(text) == ls);
        }
    } else {
        let rest = ls.drop_first();
        let cut = ls[0].len() as int;
        assert forall|i: int| 0 <= i < rest.len() implies newline_free(#[trigger] rest[i]) by {
            assert(rest[i] == ls[i + 1]);
        }
        lemma_resplit(rest);
        assert(newline_free(ls[0]));
        assert(text == ls[0] + seq!['\n'] + join_lines(rest));
        assert(text[cut] == '\n');
        assert(forall|k: int| 0 <= k < cut ==> text[k] == ls[0][k]);
        lemma_first_newline(text, cut);
        assert(text.take(cut) == ls[0]);
        assert(text.skip(cut + 1) == join_lines(rest));
        let back = split_lines(text);
        let tail = split_lines(join_lines(rest));
        assert(back == seq![strip_cr(ls[0])] + tail);
        assert forall|j: int| 0 <= j < back.len() implies {
            ||| #[trigger] back[j] == ls[j]
            ||| back[j] == strip_cr(ls[j])
        } by {
            if j > 0 {
                assert(back[j] == tail[j - 1]);
                assert(rest[j - 1] == ls[j]);
            }
        }
        if resplits_alike(ls) {
            assert(resplits_alike(rest)) by {
                assert forall|i: int| 0 <= i < rest.len() - 1 implies strip_cr(#[trigger] rest[i])
                    == rest[i] by {
                    assert(rest[i] == ls[i + 1]);
                }
                assert(rest.last() == ls.last());
            }
            assert(strip_cr(ls[0]) == ls[0]);
            assert(tail == rest);
            assert(back == ls);
        }
    }
}

/// A text that stands in a line stands in the joined lines as well.
pub proof fn lemma_contains_in_joined(ls: Seq<Seq<char>>, part: Seq<char>)
    requires
        newline_free(part),
        part.len() > 0,
        contains_text(join_lines(ls), part),
    ensures
        exists|i: int| 0 <= i < ls.len() && contains_text(#[trigger] ls[i], part),
    decreases ls.len(),
{
    let text = join_lines(ls);
    let at = choose|at: int| occurs_at(text, part, at);
    if ls.len() == 0 {
    } else if ls.len() == 1 {
        assert(contains_text(ls[0], part));
    } else {
        let rest = ls.drop_first();
        let cut = ls[0].len() as int;
        assert(text == ls[0] + seq!['\n'] + join_lines(rest));
        if at + part.len() <= cut {
            assert(ls[0].subrange(at, at + part.len()) == text.subrange(at, at + part.len()));
            assert(occurs_at(ls[0], part, at));
            assert(contains_text(ls[0], part));
        } else if at > cut {
            let inner = at - cut - 1;
            assert(join_lines(rest).subrange(inner, inner + part.len()) == text.subrange(
                at,
                at + part.len(),
            ));
            assert(occurs_at(join_lines(rest), part, inner));
            lemma_contains_in_joined(rest, part);
            let i = choose|i: int| 0 <= i < rest.len() && contains_text(#[trigger] rest[i], part);
            assert(rest[i] == ls[i + 1]);
            assert(contains_text(ls[i + 1], part));
        } else {
            assert(text.subrange(at, at + part.len())[cut - at] == text[cut]);
            assert(part[cut - at] == '\n');
        }
    }
}

/// A text that stands in the start of a line stands in the line.
pub proof fn lemma_contains_in_prefix(line: Seq<char>, upto: int, part: Seq<char>)
    requires
        0 <= upto <= line.len(),
        contains_text(line.take(upto), part),
    ensures
        contains_text(line, part),
{
    let at = choose|at: int| occurs_at(line.take(upto), part, at);
    assert(line.subrange(at, at + part.len()) == line.take(upto).subrange(at, at + part.len()));
    assert(occurs_at(line, part, at));
}

} // verus!
