//! Text as sequences of characters: white space, searching and replacing.
use vstd::prelude::*;
use vstd::string::*;

verus! {

/// The text an optional string holds.
pub open spec fn opt_text(value: Option<String>) -> Option<Seq<char>> {
    match value {
        Some(text) => Some(text@),
        None => None,
    }
}

/// The texts that pairs of strings hold.
pub open spec fn pairs(strings: Seq<(String, String)>) -> Seq<(Seq<char>, Seq<char>)> {
    Seq::new(strings.len(), |i: int| (strings[i].0@, strings[i].1@))
}

/// The characters of `text`, in order.
pub fn chars_of(text: &str) -> (chars: Vec<char>)
    ensures
        chars@ == text@,
{
    let mut chars: Vec<char> = Vec::new();
    for c in it: text.chars()
        invariant
            it.seq() == text@,
            chars@ == it.seq().take(it.index() as int),
    {
        chars.push(c);
    }
    chars
}

/// Whether the two texts are the same.
pub fn same_text(left: &str, right: &str) -> (same: bool)
    ensures
        same == (left@ == right@),
{
    left.to_owned() == right.to_owned()
}

/// A copy of an optional string.
pub fn copy_opt(value: &Option<String>) -> (copy: Option<String>)
    ensures
        copy == *value,
{
    match value {
        Some(text) => Some(text.clone()),
        None => None,
    }
}

/// The characters with the Unicode property White_Space.
pub open spec fn is_space(c: char) -> bool {
    let n = c as u32;
    ||| 0x9 <= n <= 0xd
    ||| n == 0x20
    ||| n == 0x85
    ||| n == 0xa0
    ||| n == 0x1680
    ||| 0x2000 <= n <= 0x200a
    ||| n == 0x2028
    ||| n == 0x2029
    ||| n == 0x202f
    ||| n == 0x205f
    ||| n == 0x3000
}

/// Whether `c` is white space.
pub fn space(c: char) -> (found: bool)
    ensures
        found == is_space(c),
{
    let n: u32 = c as u32;
    (0x9 <= n && n <= 0xd) || n == 0x20 || n == 0x85 || n == 0xa0 || n == 0x1680 || (0x2000 <= n
        && n <= 0x200a) || n == 0x2028 || n == 0x2029 || n == 0x202f || n == 0x205f || n == 0x3000
}

/// `text` without its leading white space.
pub open spec fn trim_start(text: Seq<char>) -> Seq<char>
    decreases text.len(),
{
    if text.len() > 0 && is_space(text.first()) {
        trim_start(text.drop_first())
    } else {
        text
    }
}

/// `text` without its trailing white space.
pub open spec fn trim_end(text: Seq<char>) -> Seq<char>
    decreases text.len(),
{
    if text.len() > 0 && is_space(text.last()) {
        trim_end(text.drop_last())
    } else {
        text
    }
}

/// `text` without the white space around it.
pub open spec fn trimmed(text: Seq<char>) -> Seq<char> {
    trim_end(trim_start(text))
}

/// `text` without the white space around it.
pub fn trim(text: &str) -> (kept: String)
    ensures
        kept@ == trimmed(text@),
{
    let chars = chars_of(text);
    let mut from: usize = 0;
    assert(chars@.skip(0) =~= chars@);
    while from < chars.len() && space(chars[from])
        invariant
            from <= chars.len(),
            chars@ == text@,
            trim_start(chars@) == trim_start(chars@.skip(from as int)),
        decreases chars.len() - from,
    {
        assert(chars@.skip(from as int).drop_first() =~= chars@.skip(from + 1));
        from = from + 1;
    }
    assert(trim_start(text@) == text@.skip(from as int));
    let mut to: usize = chars.len();
    assert(chars@.subrange(from as int, to as int) =~= chars@.skip(from as int));
    while to > from && space(chars[to - 1])
        invariant
            from <= to <= chars.len(),
            chars@ == text@,
            trim_end(text@.skip(from as int)) == trim_end(text@.subrange(from as int, to as int)),
        decreases to,
    {
        assert(text@.subrange(from as int, to as int).drop_last() =~= text@.subrange(
            from as int,
            to - 1,
        ));
        to = to - 1;
    }
    text.substring_char(from, to).to_owned()
}

/// The index of the first `c` in `text`, or the length of `text` if it has none.
pub open spec fn first_at(text: Seq<char>, c: char) -> int
    decreases text.len(),
{
    if text.len() == 0 || text.first() == c {
        0
    } else {
        1 + first_at(text.drop_first(), c)
    }
}

/// The index of the last `c` in `text`, or -1 if it has none.
pub open spec fn last_at(text: Seq<char>, c: char) -> int
    decreases text.len(),
{
    if text.len() == 0 {
        -1
    } else if text.last() == c {
        text.len() - 1
    } else {
        last_at(text.drop_last(), c)
    }
}

/// The index of the first `c`, or the number of characters.
pub fn find_first(chars: &Vec<char>, c: char) -> (index: usize)
    ensures
        index == first_at(chars@, c),
        index <= chars.len(),
        index < chars.len() ==> chars@[index as int] == c,
{
    let mut index: usize = 0;
    assert(chars@.skip(0) =~= chars@);
    while index < chars.len() && chars[index] != c
        invariant
            index <= chars.len(),
            first_at(chars@, c) == index + first_at(chars@.skip(index as int), c),
        decreases chars.len() - index,
    {
        assert(chars@.skip(index as int).drop_first() =~= chars@.skip(index + 1));
        index = index + 1;
    }
    index
}

/// The index of the last `c`, if there is one.
pub fn find_last(chars: &Vec<char>, c: char) -> (index: Option<usize>)
    ensures
        match index {
            Some(i) => i == last_at(chars@, c) && i < chars.len(),
            None => last_at(chars@, c) == -1,
        },
{
    let mut to: usize = chars.len();
    assert(chars@.take(to as int) =~= chars@);
    while to > 0
        invariant
            to <= chars.len(),
            last_at(chars@, c) == last_at(chars@.take(to as int), c),
        decreases to,
    {
        if chars[to - 1] == c {
            return Some(to - 1);
        }
        assert(chars@.take(to as int).drop_last() =~= chars@.take(to - 1));
        to = to - 1;
    }
    None
}

/// Whether `part` stands in `text` at `at`.
pub open spec fn stands_at(text: Seq<char>, part: Seq<char>, at: int) -> bool {
    0 <= at <= text.len() && part.is_prefix_of(text.skip(at))
}

/// Whether `part` stands somewhere in `text`.
pub open spec fn holds_text(text: Seq<char>, part: Seq<char>) -> bool {
    exists|at: int| #[trigger] stands_at(text, part, at)
}

fn part_at(chars: &Vec<char>, part: &Vec<char>, at: usize) -> (found: bool)
    requires
        at <= chars.len(),
    ensures
        found == part@.is_prefix_of(chars@.skip(at as int)),
{
    if chars.len() - at < part.len() {
        return false;
    }
    let mut index: usize = 0;
    while index < part.len()
        invariant
            index <= part.len(),
            at + part.len() <= chars.len(),
            forall|k: int| 0 <= k < index ==> part@[k] == chars@[at + k],
        decreases part.len() - index,
    {
        if chars[at + index] != part[index] {
            assert(chars@.skip(at as int)[index as int] != part@[index as int]);
            assert(chars@.skip(at as int).take(part.len() as int)[index as int]
                != part@[index as int]);
            return false;
        }
        index = index + 1;
    }
    assert(part@ =~= chars@.skip(at as int).take(part.len() as int));
    true
}

/// Whether `text` begins with `part`.
pub fn begins_with(text: &str, part: &str) -> (found: bool)
    ensures
        found == part@.is_prefix_of(text@),
{
    let chars = chars_of(text);
    let part_chars = chars_of(part);
    assert(chars@.skip(0) =~= chars@);
    part_at(&chars, &part_chars, 0)
}

/// Whether `part` stands somewhere in `text`.
pub fn contains_text(text: &str, part: &str) -> (found: bool)
    ensures
        found == holds_text(text@, part@),
{
    let chars = chars_of(text);
    let part_chars = chars_of(part);
    let mut at: usize = 0;
    while at < chars.len()
        invariant
            at <= chars.len(),
            chars@ == text@,
            part_chars@ == part@,
            forall|k: int| 0 <= k < at ==> !#[trigger] stands_at(text@, part@, k),
        decreases chars.len() - at,
    {
        if part_at(&chars, &part_chars, at) {
            assert(stands_at(text@, part@, at as int));
            return true;
        }
        at = at + 1;
    }
    if part_at(&chars, &part_chars, at) {
        assert(stands_at(text@, part@, at as int));
        true
    } else {
        false
    }
}

/// `text` with every `from` made `to`: from the left, none overlapping another.
pub open spec fn replaced(text: Seq<char>, from: Seq<char>, to: Seq<char>) -> Seq<char>
    decreases text.len(),
{
    if from.len() == 0 || text.len() < from.len() {
        text
    } else if from.is_prefix_of(text) {
        to + replaced(text.skip(from.len() as int), from, to)
    } else {
        seq![text.first()] + replaced(text.drop_first(), from, to)
    }
}

/// `text` with every `from` made `to`: from the left, none overlapping another.
pub fn replace_text(text: &str, from: &str, to: &str) -> (result: String)
    requires
        from@.len() > 0,
    ensures
        result@ == replaced(text@, from@, to@),
{
    let chars = chars_of(text);
    let part = chars_of(from);
    let mut result: String = String::new();
    let mut start: usize = 0;
    let mut at: usize = 0;
    assert(result@ + text@.subrange(0, 0) + replaced(text@.skip(0), from@, to@) =~= replaced(
        text@,
        from@,
        to@,
    )) by {
        assert(text@.skip(0) =~= text@);
    }
    while chars.len() - at >= part.len()
        invariant
            start <= at <= chars.len(),
            chars@ == text@,
            part@ == from@,
            part.len() > 0,
            replaced(text@, from@, to@) == result@ + text@.subrange(start as int, at as int)
                + replaced(text@.skip(at as int), from@, to@),
        decreases chars.len() - at,
    {
        let ghost rest = text@.skip(at as int);
        if part_at(&chars, &part, at) {
            let piece: &str = text.substring_char(start, at);
            result.append(piece);
            result.append(to);
            proof {
                assert(rest.skip(from@.len() as int) =~= text@.skip(at + from@.len()));
            }
            at = at + part.len();
            start = at;
            assert(result@ + text@.subrange(start as int, at as int) =~= result@);
            assert(replaced(text@, from@, to@) =~= result@ + replaced(
                text@.skip(at as int),
                from@,
                to@,
            ));
        } else {
            assert(rest.drop_first() =~= text@.skip(at + 1));
            assert(text@.subrange(start as int, at + 1) =~= text@.subrange(
                start as int,
                at as int,
            ).push(rest.first()));
            at = at + 1;
            assert(replaced(text@, from@, to@) =~= result@ + text@.subrange(
                start as int,
                at as int,
            ) + replaced(text@.skip(at as int), from@, to@));
        }
    }
    let tail: &str = text.substring_char(start, chars.len());
    assert(text@.subrange(start as int, at as int) + text@.skip(at as int) =~= text@.subrange(
        start as int,
        chars.len() as int,
    ));
    result.append(tail);
    assert(result@ =~= replaced(text@, from@, to@));
    result
}

pub(crate) proof fn lemma_first_at(text: Seq<char>, c: char, at: int)
    requires
        0 <= at < text.len(),
        text[at] == c,
        forall|k: int| 0 <= k < at ==> text[k] != c,
    ensures
        first_at(text, c) == at,
    decreases text.len(),
{
    if at > 0 {
        assert(text.first() == text[0]);
        lemma_first_at(text.drop_first(), c, at - 1);
    }
}

pub(crate) proof fn lemma_first_at_bounds(text: Seq<char>, c: char)
    ensures
        0 <= first_at(text, c) <= text.len(),
    decreases text.len(),
{
    if text.len() > 0 && text.first() != c {
        lemma_first_at_bounds(text.drop_first(), c);
    }
}

pub(crate) proof fn lemma_last_at(text: Seq<char>, c: char, at: int)
    requires
        0 <= at < text.len(),
        text[at] == c,
        forall|k: int| at < k < text.len() ==> text[k] != c,
    ensures
        last_at(text, c) == at,
    decreases text.len(),
{
    if at < text.len() - 1 {
        lemma_last_at(text.drop_last(), c, at);
    }
}

proof fn lemma_trim_start(text: Seq<char>)
    ensures
        trim_start(text).len() > 0 ==> !is_space(trim_start(text).first()),
        trim_start(trim_start(text)) == trim_start(text),
    decreases text.len(),
{
    if text.len() > 0 && is_space(text.first()) {
        lemma_trim_start(text.drop_first());
    }
}

proof fn lemma_trim_end(text: Seq<char>)
    ensures
        trim_end(text).len() > 0 ==> !is_space(trim_end(text).last()) && text.len() > 0
            && trim_end(text).first() == text.first(),
    decreases text.len(),
{
    if text.len() > 0 && is_space(text.last()) {
        lemma_trim_end(text.drop_last());
    }
}

/// A trimmed text neither begins nor ends with white space.
pub proof fn trimmed_text_has_no_space_at_its_ends(text: Seq<char>)
    ensures
        trimmed(text).len() > 0 ==> !is_space(trimmed(text).first()) && !is_space(
            trimmed(text).last(),
        ),
{
    lemma_trim_start(text);
    lemma_trim_end(trim_start(text));
}

/// Trimming a trimmed text changes nothing.
pub proof fn trimming_twice_is_trimming_once(text: Seq<char>)
    ensures
        trimmed(trimmed(text)) == trimmed(text),
{
    trimmed_text_has_no_space_at_its_ends(text);
}

} // verus!
