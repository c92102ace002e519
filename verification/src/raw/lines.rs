//! Lines, words and numbers of the system's tables.
use vstd::prelude::*;

verus! {

/// Whether a character is white space.
pub open spec fn blank(c: char) -> bool {
    let code = c as int;
    ||| 0x9 <= code <= 0xd
    ||| code == 0x20
    ||| code == 0x85
    ||| code == 0xa0
    ||| code == 0x1680
    ||| 0x2000 <= code <= 0x200a
    ||| code == 0x2028
    ||| code == 0x2029
    ||| code == 0x202f
    ||| code == 0x205f
    ||| code == 0x3000
}

/// Whether a character is white space.
pub fn is_blank(c: char) -> (blank: bool)
    ensures
        blank == self::blank(c),
{
    let code: u32 = c as u32;
    (0x9 <= code && code <= 0xd) || code == 0x20 || code == 0x85 || code == 0xa0 || code == 0x1680 || (0x2000 <= code
        && code <= 0x200a) || code == 0x2028 || code == 0x2029 || code == 0x202f || code == 0x205f || code == 0x3000
}

/// Where the first line ends: at the first line feed, or at the end of the text.
pub open spec fn line_length(text: Seq<char>) -> int
    decreases text.len(),
{
    if text.len() == 0 || text[0] == '\n' {
        0
    } else {
        1 + line_length(text.skip(1))
    }
}

/// The lines of a text, without their ends: a line feed, or a carriage return and a line
/// feed.
pub open spec fn lines(text: Seq<char>) -> Seq<Seq<char>>
    decreases text.len(),
{
    if text.len() == 0 {
        Seq::empty()
    } else {
        let end = line_length(text);
        if end >= text.len() || end < 0 {
            seq![text]
        } else {
            seq![
                if end > 0 && text[end - 1] == '\r' {
                    text.take(end - 1)
                } else {
                    text.take(end)
                },
            ] + lines(text.skip(end + 1))
        }
    }
}

/// How many characters come before the first blank.
pub open spec fn word_length(text: Seq<char>) -> int
    decreases text.len(),
{
    if text.len() == 0 || blank(text[0]) {
        0
    } else {
        1 + word_length(text.skip(1))
    }
}

/// The words of a line.
pub open spec fn words(line: Seq<char>) -> Seq<Seq<char>>
    decreases line.len(),
{
    if line.len() == 0 {
        Seq::empty()
    } else if blank(line[0]) {
        words(line.skip(1))
    } else {
        let end = word_length(line);
        if 0 < end <= line.len() {
            seq![line.take(end)] + words(line.skip(end))
        } else {
            Seq::empty()
        }
    }
}

proof fn lemma_word_length(text: Seq<char>)
    ensures
        0 <= word_length(text) <= text.len(),
        text.len() > 0 && !blank(text[0]) ==> word_length(text) > 0,
    decreases text.len(),
{
    if text.len() > 0 && !blank(text[0]) {
        lemma_word_length(text.skip(1));
    }
}

/// The first line ends within the text.
pub proof fn lemma_line_length(text: Seq<char>)
    ensures
        0 <= line_length(text) <= text.len(),
    decreases text.len(),
{
    if text.len() > 0 && text[0] != '\n' {
        lemma_line_length(text.skip(1));
    }
}

/// A line of a text, and where the next one begins.
#[derive(Clone, Copy, Debug, PartialEq, Eq, Structural)]
pub struct Line {
    /// Where the line begins.
    pub start: usize,
    /// Where it ends.
    pub end: usize,
    /// Where the next one begins.
    pub next: usize,
}

/// The line that begins at `at`, if a line does.
pub fn line_at(text: &[char], at: usize) -> (found: Option<Line>)
    requires
        at <= text@.len(),
    ensures
        match found {
            None => lines(text@.skip(at as int)).len() == 0,
            Some(line) => {
                &&& at == line.start <= line.end <= line.next <= text@.len()
                &&& at < line.next
                &&& lines(text@.skip(at as int)) == seq![text@.subrange(line.start as int, line.end as int)] + lines(
                    text@.skip(line.next as int),
                )
            },
        },
{
    let ghost rest = text@.skip(at as int);
    if at >= text.len() {
        return None;
    }
    let mut end: usize = at;
    assert(text@.skip(end as int) =~= rest);
    while end < text.len() && text[end] != '\n'
        invariant
            at <= end <= text@.len(),
            rest == text@.skip(at as int),
            line_length(rest) == (end - at) + line_length(text@.skip(end as int)),
        decreases text@.len() - end,
    {
        assert(text@.skip(end as int).skip(1) =~= text@.skip(end + 1));
        end = end + 1;
    }
    if end >= text.len() {
        assert(text@.subrange(at as int, end as int) =~= rest);
        assert(text@.skip(end as int).len() == 0);
        assert(lines(rest) =~= seq![rest] + lines(text@.skip(end as int)));
        return Some(Line { start: at, end, next: end });
    }
    assert(text@.skip(end as int)[0] == '\n');
    assert(rest.skip(end - at + 1) =~= text@.skip(end + 1));
    if end > at && text[end - 1] == '\r' {
        assert(rest.take(end - at - 1) =~= text@.subrange(at as int, end - 1));
        Some(Line { start: at, end: end - 1, next: end + 1 })
    } else {
        assert(rest.take(end - at) =~= text@.subrange(at as int, end as int));
        Some(Line { start: at, end, next: end + 1 })
    }
}

/// The words that lie at some places of a text.
pub open spec fn at_places(text: Seq<char>, places: Seq<(usize, usize)>) -> Seq<Seq<char>> {
    Seq::new(places.len(), |index: int| text.subrange(places[index].0 as int, places[index].1 as int))
}

/// Where the words of a line lie.
pub fn words_at(line: &[char]) -> (places: Vec<(usize, usize)>)
    ensures
        at_places(line@, places@) == words(line@),
        forall|index: int|
            0 <= index < places@.len() ==> (#[trigger] places@[index]).0 <= places@[index].1 <= line@.len(),
{
    let mut places: Vec<(usize, usize)> = Vec::new();
    let mut at: usize = 0;
    assert(line@.skip(0) =~= line@);
    assert(at_places(line@, places@) + words(line@) =~= words(line@));
    while at < line.len()
        invariant
            at <= line@.len(),
            at_places(line@, places@) + words(line@.skip(at as int)) == words(line@),
            forall|index: int|
                0 <= index < places@.len() ==> (#[trigger] places@[index]).0 <= places@[index].1 <= line@.len(),
        decreases line@.len() - at,
    {
        let ghost rest = line@.skip(at as int);
        assert(rest[0] == line@[at as int]);
        if is_blank(line[at]) {
            assert(rest.skip(1) =~= line@.skip(at + 1));
            at = at + 1;
        } else {
            let mut end: usize = at;
            while end < line.len() && !is_blank(line[end])
                invariant
                    at <= end <= line@.len(),
                    rest == line@.skip(at as int),
                    word_length(rest) == (end - at) + word_length(line@.skip(end as int)),
                decreases line@.len() - end,
            {
                assert(line@.skip(end as int).skip(1) =~= line@.skip(end + 1));
                end = end + 1;
            }
            proof {
                lemma_word_length(rest);
                assert(word_length(line@.skip(end as int)) == 0);
                assert(rest.take(end - at) =~= line@.subrange(at as int, end as int));
                assert(rest.skip(end - at) =~= line@.skip(end as int));
                let before = at_places(line@, places@);
                let after = at_places(line@, places@.push((at, end)));
                assert(after =~= before.push(line@.subrange(at as int, end as int)));
                assert(before + words(rest) =~= after + words(line@.skip(end as int)));
            }
            places.push((at, end));
            at = end;
        }
    }
    assert(line@.skip(at as int).len() == 0);
    assert(at_places(line@, places@) =~= words(line@));
    places
}

/// The value of a hexadecimal digit, if the character is one.
pub open spec fn hex_digit(c: char) -> Option<int> {
    let code = c as int;
    if 48 <= code <= 57 {
        Some(code - 48)
    } else if 97 <= code <= 102 {
        Some(code - 87)
    } else if 65 <= code <= 70 {
        Some(code - 55)
    } else {
        None
    }
}

/// The value of hexadecimal digits, if they all are.
pub open spec fn hex_value(digits: Seq<char>) -> Option<int>
    decreases digits.len(),
{
    if digits.len() == 0 {
        Some(0)
    } else {
        match (hex_value(digits.drop_last()), hex_digit(digits.last())) {
            (Some(high), Some(low)) => Some(high * 16 + low),
            _ => None,
        }
    }
}

/// The hexadecimal number that a word is, if it is one of at most `limit`. A plus sign may
/// stand in front.
pub open spec fn hex_number(word: Seq<char>, limit: int) -> Option<int> {
    let digits = if word.len() > 1 && word[0] == '+' {
        word.skip(1)
    } else {
        word
    };
    if digits.len() == 0 {
        None
    } else {
        match hex_value(digits) {
            Some(value) if value <= limit => Some(value),
            _ => None,
        }
    }
}

fn digit_of(c: char) -> (value: Option<u32>)
    ensures
        match value {
            Some(found) => found < 16 && hex_digit(c) == Some(found as int),
            None => hex_digit(c) is None,
        },
{
    let code: u32 = c as u32;
    if 48 <= code && code <= 57 {
        Some(code - 48)
    } else if 97 <= code && code <= 102 {
        Some(code - 87)
    } else if 65 <= code && code <= 70 {
        Some(code - 55)
    } else {
        None
    }
}

proof fn lemma_hex_prefix(digits: Seq<char>, count: int)
    requires
        0 <= count <= digits.len(),
    ensures
        hex_value(digits) matches Some(value) ==> hex_value(digits.take(count)) matches Some(part) && 0 <= part
            <= value,
    decreases digits.len() - count,
{
    if count == digits.len() {
        assert(digits.take(count) =~= digits);
        lemma_hex_positive(digits);
    } else {
        lemma_hex_prefix(digits, count + 1);
        assert(digits.take(count + 1).drop_last() =~= digits.take(count));
        lemma_hex_positive(digits.take(count));
    }
}

proof fn lemma_hex_positive(digits: Seq<char>)
    ensures
        hex_value(digits) matches Some(value) ==> value >= 0,
    decreases digits.len(),
{
    if digits.len() > 0 {
        lemma_hex_positive(digits.drop_last());
    }
}

/// Reads a hexadecimal number of at most `limit`.
pub fn parse_hex(word: &[char], limit: u32) -> (number: Option<u32>)
    ensures
        match number {
            Some(value) => hex_number(word@, limit as int) == Some(value as int),
            None => hex_number(word@, limit as int) is None,
        },
{
    let first: usize = if word.len() > 1 && word[0] == '+' {
        1
    } else {
        0
    };
    if word.len() == 0 {
        return None;
    }
    let ghost digits = word@.skip(first as int);
    assert(first == 0 ==> digits =~= word@);
    let mut value: u64 = 0;
    let mut at: usize = first;
    assert(digits.take(0) =~= Seq::empty());
    while at < word.len()
        invariant
            first <= at <= word@.len(),
            digits == word@.skip(first as int),
            hex_number(word@, limit as int) == (match hex_value(digits) {
                Some(value) if value <= limit => Some(value),
                _ => None,
            }),
            hex_value(digits.take(at - first)) == Some(value as int),
            value <= limit,
        decreases word@.len() - at,
    {
        proof {
            lemma_hex_prefix(digits, at - first + 1);
            assert(digits.take(at - first + 1).drop_last() =~= digits.take(at - first));
            assert(digits.take(at - first + 1).last() == word@[at as int]);
        }
        match digit_of(word[at]) {
            None => return None,
            Some(digit) => {
                value = value * 16 + digit as u64;
                if value > limit as u64 {
                    return None;
                }
            },
        }
        at = at + 1;
    }
    assert(digits.take(at - first) =~= digits);
    Some(value as u32)
}

}
