//! Laws on text: white space, numbers, replacing, and addresses.
use vstd::prelude::*;

use crate::number::{
    all_digits, decimal, digits_value, is_digit, read_unsigned, signed_decimal,
};
use crate::server::request_origin;
use crate::stream::tracked_name;
use crate::text::{
    first_at, holds_text, is_space, last_at, replaced, stands_at, trim_end, trim_start, trimmed,
};
use crate::util::{address_url, tpu_address};
use crate::web_url::{url_of, UrlView};

verus! {

/// The characters that count as white space.
pub open spec fn white(c: char) -> bool {
    ||| '\u{9}' <= c <= '\u{d}'
    ||| c == ' '
    ||| c == '\u{85}'
    ||| c == '\u{a0}'
    ||| c == '\u{1680}'
    ||| '\u{2000}' <= c <= '\u{200a}'
    ||| c == '\u{2028}'
    ||| c == '\u{2029}'
    ||| c == '\u{202f}'
    ||| c == '\u{205f}'
    ||| c == '\u{3000}'
}

/// White space is what counts as such.
pub proof fn white_space_is_white(c: char)
    ensures
        is_space(c) == white(c),
{
}

/// Whether a text has something in it, and white space at neither end.
pub open spec fn bare(text: Seq<char>) -> bool {
    text.len() > 0 && !white(text[0]) && !white(text[text.len() - 1])
}

/// Whether a text consists of white space alone.
pub open spec fn blank(text: Seq<char>) -> bool {
    forall|i: int| 0 <= i < text.len() ==> white(#[trigger] text[i])
}

proof fn lemma_trim_start_of_blank(before: Seq<char>, text: Seq<char>)
    requires
        blank(before),
    ensures
        trim_start(before + text) == trim_start(text),
    decreases before.len(),
{
    let whole = before + text;
    if before.len() > 0 {
        assert(whole.first() == before[0]);
        assert(whole.drop_first() =~= before.drop_first() + text);
        lemma_trim_start_of_blank(before.drop_first(), text);
    } else {
        assert(whole =~= text);
    }
}

proof fn lemma_trim_end_of_blank(text: Seq<char>, after: Seq<char>)
    requires
        blank(after),
    ensures
        trim_end(text + after) == trim_end(text),
    decreases after.len(),
{
    let whole = text + after;
    if after.len() > 0 {
        assert(whole.last() == after[after.len() - 1]);
        assert(whole.drop_last() =~= text + after.drop_last());
        lemma_trim_end_of_blank(text, after.drop_last());
    } else {
        assert(whole =~= text);
    }
}

/// Of a text with white space around it trimming leaves the text; of white space alone
/// it leaves nothing.
pub proof fn trimming_leaves_the_text(before: Seq<char>, text: Seq<char>, after: Seq<char>)
    requires
        blank(before),
        blank(after),
    ensures
        bare(text) ==> trimmed(before + text + after) == text,
        blank(text) ==> trimmed(text).len() == 0,
{
    if bare(text) {
        lemma_trim_start_of_blank(before, text + after);
        assert(before + text + after =~= before + (text + after));
        assert((text + after).first() == text[0]);
        white_space_is_white(text[0]);
        white_space_is_white(text[text.len() - 1]);
        assert(trim_start(text + after) == text + after);
        lemma_trim_end_of_blank(text, after);
        assert(text.last() == text[text.len() - 1]);
    }
    if blank(text) {
        lemma_trim_start_of_blank(text, Seq::empty());
        assert(text + Seq::<char>::empty() =~= text);
    }
}

proof fn lemma_bare(text: Seq<char>)
    requires
        bare(text),
    ensures
        trimmed(text) == text,
{
    assert(text.first() == text[0]);
    assert(text.last() == text[text.len() - 1]);
    white_space_is_white(text[0]);
    white_space_is_white(text[text.len() - 1]);
}

/// Whether a text begins with another one, character by character.
pub open spec fn begins(text: Seq<char>, part: Seq<char>, at: int) -> bool {
    &&& 0 <= at
    &&& at + part.len() <= text.len()
    &&& forall|i: int| 0 <= i < part.len() ==> #[trigger] part[i] == text[at + i]
}

pub(crate) proof fn lemma_stands(text: Seq<char>, part: Seq<char>, at: int)
    ensures
        stands_at(text, part, at) == begins(text, part, at),
{
    if 0 <= at <= text.len() {
        let rest = text.skip(at);
        if begins(text, part, at) {
            assert(part =~= rest.take(part.len() as int));
        }
        if part.is_prefix_of(rest) {
            assert(part == rest.take(part.len() as int));
            assert forall|i: int| 0 <= i < part.len() implies #[trigger] part[i] == text[at
                + i] by {
                assert(rest.take(part.len() as int)[i] == rest[i]);
            }
        }
    }
}

/// A text holds another one just where the other one stands in it, character by
/// character, at some place.
pub proof fn holding_is_standing_somewhere(text: Seq<char>, part: Seq<char>)
    ensures
        holds_text(text, part) <==> exists|at: int| #[trigger] begins(text, part, at),
{
    if holds_text(text, part) {
        let at = choose|at: int| #[trigger] stands_at(text, part, at);
        lemma_stands(text, part, at);
    }
    if exists|at: int| #[trigger] begins(text, part, at) {
        let at = choose|at: int| #[trigger] begins(text, part, at);
        lemma_stands(text, part, at);
    }
}

/// Replacing goes from the left: what stands before the first place is kept, the first
/// place is filled, and what follows it is replaced in the same way; a text in which
/// there is no such place is kept.
pub proof fn replacing_goes_from_the_left(
    text: Seq<char>,
    from: Seq<char>,
    to: Seq<char>,
    at: int,
)
    requires
        from.len() > 0,
        forall|k: int| 0 <= k < at ==> !#[trigger] begins(text, from, k),
    ensures
        begins(text, from, at) ==> replaced(text, from, to) == text.take(at) + to + replaced(
            text.skip(at + from.len()),
            from,
            to,
        ),
        at >= text.len() ==> replaced(text, from, to) == text,
    decreases text.len(),
{
    lemma_stands(text, from, 0);
    assert(text.skip(0) =~= text);
    if begins(text, from, at) {
        if at == 0 {
            assert(text.take(0) + to + replaced(text.skip(from.len() as int), from, to) =~= to
                + replaced(text.skip(from.len() as int), from, to));
        } else {
            let rest = text.drop_first();
            assert(!begins(text, from, 0));
            lemma_shifted(text, from, at);
            replacing_goes_from_the_left(rest, from, to, at - 1);
            assert(rest.skip(at - 1 + from.len()) =~= text.skip(at + from.len()));
            assert(seq![text.first()] + rest.take(at - 1) =~= text.take(at));
            assert(replaced(text, from, to) =~= text.take(at) + to + replaced(
                text.skip(at + from.len()),
                from,
                to,
            ));
        }
    } else if at >= text.len() && text.len() >= from.len() {
        let rest = text.drop_first();
        assert(!begins(text, from, 0));
        lemma_shifted(text, from, at);
        replacing_goes_from_the_left(rest, from, to, at - 1);
        assert(replaced(text, from, to) =~= text);
    }
}

proof fn lemma_shifted(text: Seq<char>, from: Seq<char>, at: int)
    requires
        text.len() > 0,
        forall|k: int| 0 <= k < at ==> !#[trigger] begins(text, from, k),
    ensures
        forall|k: int| 0 <= k < at - 1 ==> !#[trigger] begins(text.drop_first(), from, k),
        begins(text, from, at) && at > 0 ==> begins(text.drop_first(), from, at - 1),
{
    assert forall|k: int| 0 <= k < at - 1 implies !#[trigger] begins(
        text.drop_first(),
        from,
        k,
    ) by {
        if begins(text.drop_first(), from, k) {
            assert forall|i: int| 0 <= i < from.len() implies #[trigger] from[i] == text[k + 1
                + i] by {
                assert(text.drop_first()[k + i] == text[k + 1 + i]);
            }
            assert(begins(text, from, k + 1));
        }
    }
    if begins(text, from, at) && at > 0 {
        assert forall|i: int| 0 <= i < from.len() implies #[trigger] from[i]
            == text.drop_first()[at - 1 + i] by {
            assert(text.drop_first()[at - 1 + i] == text[at + i]);
        }
    }
}

/// A number is written digit by digit: the last digit is what is left over of the
/// number by ten, and before it stands what the rest is written as.
pub proof fn numbers_are_written_in_tens(n: nat, digit: nat)
    requires
        digit < 10,
    ensures
        decimal(digit).len() == 1,
        decimal(digit)[0] as u32 == '0' as u32 + digit,
        n > 0 ==> decimal(n * 10 + digit) == decimal(n) + decimal(digit),
        signed_decimal(n as int) == decimal(n),
        n > 0 ==> signed_decimal(-n) == seq!['-'] + decimal(n),
{
    if n > 0 {
        assert((n * 10 + digit) / 10 == n && (n * 10 + digit) % 10 == digit);
        assert(decimal(n * 10 + digit) =~= decimal(n) + decimal(digit));
    }
}

proof fn lemma_digit(c: char)
    ensures
        is_digit(c) == ('0' <= c <= '9'),
{
}

/// Digits are read as the number that they write, if that is not beyond the greatest
/// one, with or without a plus; a text with anything else in it is read as none.
pub proof fn digits_are_read_in_tens(text: Seq<char>, c: char, max: nat)
    requires
        text.len() > 0,
        text[0] != '+' && text[0] != '-',
    ensures
        !('0' <= c <= '9') ==> read_unsigned(text.push(c), max) is None,
        !('0' <= text[0] <= '9') ==> read_unsigned(text, max) is None,
        '0' <= c <= '9' ==> {
            let n = (c as u32 - '0' as u32) as nat;
            &&& read_unsigned(seq![c], max) == if n <= max {
                Some(n)
            } else {
                None
            }
            &&& read_unsigned(text, max) is None ==> read_unsigned(text.push(c), max) is None
            &&& read_unsigned(text, max) matches Some(before) ==> read_unsigned(text.push(c), max)
                == if before * 10 + n <= max {
                Some(before * 10 + n)
            } else {
                None
            }
        },
        read_unsigned(seq!['+'] + text, max) == read_unsigned(text, max),
        read_unsigned(Seq::empty(), max) is None,
        read_unsigned(seq!['+'], max) is None,
{
    let longer = text.push(c);
    assert(longer.drop_last() =~= text);
    assert(longer[0] == text[0]);
    assert(longer.first() == text.first());
    assert(seq!['+'].drop_first() =~= Seq::<char>::empty());
    assert((seq!['+'] + text).drop_first() =~= text);
    assert(seq![c].drop_last() =~= Seq::<char>::empty());
    if !('0' <= c <= '9') {
        lemma_digit(longer[text.len() as int]);
    } else {
        assert(all_digits(longer) ==> all_digits(text)) by {
            if all_digits(longer) {
                assert forall|i: int| 0 <= i < text.len() implies is_digit(
                    #[trigger] text[i],
                ) by {
                    assert(text[i] == longer[i]);
                }
            }
        }
        assert(all_digits(text) ==> all_digits(longer));
        assert(digits_value(longer) == digits_value(text) * 10 + (c as u32 - 48) as nat);
        assert(digits_value(seq![c]) == (c as u32 - 48) as nat);
        assert(is_digit(seq![c][0]));
    }
    if !('0' <= text[0] <= '9') {
        lemma_digit(text[0]);
    }
}

proof fn lemma_first(text: Seq<char>, c: char)
    ensures
        0 <= first_at(text, c) <= text.len(),
        first_at(text, c) < text.len() ==> text[first_at(text, c)] == c,
        forall|k: int| 0 <= k < first_at(text, c) ==> #[trigger] text[k] != c,
    decreases text.len(),
{
    if text.len() > 0 && text.first() != c {
        let rest = text.drop_first();
        lemma_first(rest, c);
        assert forall|k: int| 0 <= k < first_at(text, c) implies #[trigger] text[k] != c by {
            if k > 0 {
                assert(text[k] == rest[k - 1]);
            }
        }
    }
}

proof fn lemma_last(text: Seq<char>, c: char)
    ensures
        -1 <= last_at(text, c) < text.len(),
        last_at(text, c) >= 0 ==> text[last_at(text, c)] == c,
        forall|k: int| last_at(text, c) < k < text.len() ==> #[trigger] text[k] != c,
    decreases text.len(),
{
    if text.len() > 0 && text.last() != c {
        let rest = text.drop_last();
        lemma_last(rest, c);
        assert forall|k: int| last_at(text, c) < k < text.len() implies #[trigger] text[k] != c by {
            if k < text.len() - 1 {
                assert(text[k] == rest[k]);
            }
        }
    }
}

/// An address that is no URL is taken apart without loss. In brackets stands the host,
/// and a port only after a colon behind them; without brackets the host and the port
/// stand before and after the last colon, where both are there; or else the whole text
/// is the host.
pub proof fn plain_address_is_taken_apart(text: Seq<char>)
    requires
        bare(text),
        url_of(text) is None || forall|k: int| !#[trigger] begins(text, "://"@, k),
    ensures
        ({
            let address = tpu_address(Some(text));
            let host = address.ip->0;
            let bracketed = text[0] == '[' && text.contains(']');
            &&& address.ip is Some
            &&& bracketed ==> {
                &&& !host.contains(']')
                &&& host.len() + 2 <= text.len()
                &&& text.take(host.len() as int + 2) == seq!['['] + host + seq![']']
                &&& match address.port {
                    Some(port) => port.len() > 0 && text == seq!['['] + host + seq![']', ':']
                        + port,
                    None => text.len() <= host.len() + 3 || text[host.len() as int + 2] != ':',
                }
            }
            &&& !bracketed ==> match address.port {
                Some(port) => {
                    &&& host.len() > 0
                    &&& port.len() > 0
                    &&& !port.contains(':')
                    &&& text == host + seq![':'] + port
                },
                None => {
                    &&& host == text
                    &&& text[text.len() - 1] == ':' || forall|k: int|
                        0 < k < text.len() ==> #[trigger] text[k] != ':'
                },
            }
        }),
{
    lemma_bare(text);
    assert(address_url(text) is None) by {
        holding_is_standing_somewhere(text, "://"@);
    }
    let close = first_at(text, ']');
    let colon = last_at(text, ':');
    lemma_first(text, ']');
    lemma_last(text, ':');
    assert(text.first() == text[0]);
    let address = tpu_address(Some(text));
    let host = address.ip->0;
    if close < text.len() {
        assert(text.contains(']'));
    }
    if text.contains(']') {
        let k = choose|k: int| 0 <= k < text.len() && text[k] == ']';
        assert(close <= k);
    }
    if text[0] == '[' && close < text.len() {
        assert(host =~= text.subrange(1, close));
        assert forall|k: int| 0 <= k < host.len() implies host[k] != ']' by {
            assert(host[k] == text[k + 1]);
        }
        assert(text.take(host.len() as int + 2) =~= seq!['['] + host + seq![']']);
        if address.port is Some {
            assert(text =~= seq!['['] + host + seq![']', ':'] + address.port->0);
        }
    } else if address.port is Some {
        let port = address.port->0;
        assert(text =~= host + seq![':'] + port);
        assert forall|k: int| 0 <= k < port.len() implies port[k] != ':' by {
            assert(port[k] == text[colon + 1 + k]);
        }
    }
}

/// An address that is a URL gives the URL's host, and its port in digits, if it has one.
pub proof fn url_address_is_the_urls(text: Seq<char>, url: UrlView, at: int)
    requires
        bare(text),
        begins(text, "://"@, at),
        url_of(text) == Some(url),
    ensures
        tpu_address(Some(text)).ip == url.host,
        url.port matches Some(port) ==> tpu_address(Some(text)).port == Some(decimal(port as nat)),
        url.port is None ==> tpu_address(Some(text)).port is None,
{
    lemma_bare(text);
    holding_is_standing_somewhere(text, "://"@);
}

/// An address that is missing or blank gives nothing, and white space around one does
/// not matter.
pub proof fn blank_address_gives_nothing(before: Seq<char>, text: Seq<char>, after: Seq<char>)
    requires
        blank(before),
        blank(after),
    ensures
        tpu_address(None).ip is None && tpu_address(None).port is None,
        blank(text) ==> tpu_address(Some(text)).ip is None && tpu_address(Some(text)).port is None,
        bare(text) ==> tpu_address(Some(before + text + after)) == tpu_address(Some(text)),
{
    trimming_leaves_the_text(before, text, after);
    if bare(text) {
        lemma_bare(text);
    }
}

/// A client tracks the validator that it names, without the white space around the
/// name; and none where the name is missing or blank.
pub proof fn tracked_name_is_the_one_given(before: Seq<char>, name: Seq<char>, after: Seq<char>)
    requires
        blank(before),
        blank(after),
    ensures
        bare(name) ==> tracked_name(Some(before + name + after)) == Some(name),
        blank(name) ==> tracked_name(Some(name)) is None,
        tracked_name(None) is None,
{
    trimming_leaves_the_text(before, name, after);
}

/// A request comes from the first address that it was forwarded for, without the white
/// space around it; where that is blank or missing, from the other side; and where that
/// is not known either, from nowhere.
pub proof fn request_comes_from_the_first(
    before: Seq<char>,
    first: Seq<char>,
    after: Seq<char>,
    rest: Seq<char>,
    peer: Option<Seq<char>>,
)
    requires
        blank(before),
        blank(after),
        bare(first) || first.len() == 0 && before.len() == 0 && after.len() == 0,
        !(before + first + after).contains(','),
    ensures
        ({
            let piece = before + first + after;
            let listed = request_origin(Some(piece + seq![','] + rest), peer);
            let alone = request_origin(Some(piece), peer);
            let none = request_origin(None, peer);
            &&& bare(first) ==> listed == first && alone == first
            &&& first.len() == 0 ==> listed == none && alone == none
            &&& peer matches Some(other) ==> none == other
            &&& peer is None ==> none == "-"@
        }),
{
    let piece = before + first + after;
    let list = piece + seq![','] + rest;
    lemma_first(list, ',');
    lemma_first(piece, ',');
    let at = first_at(list, ',');
    if at < piece.len() {
        assert(piece[at] == list[at]);
        assert(piece.contains(','));
    }
    assert(list[piece.len() as int] == ',');
    assert(at == piece.len());
    assert(list.take(at) =~= piece);
    let lone = first_at(piece, ',');
    if lone < piece.len() {
        assert(piece.contains(piece[lone]));
    }
    assert(piece.take(lone) =~= piece);
    if bare(first) {
        trimming_leaves_the_text(before, first, after);
    } else {
        trimming_leaves_the_text(before, piece, after);
    }
}

} // verus!
