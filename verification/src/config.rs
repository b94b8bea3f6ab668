//! Reading a node's configuration: flags, comma-separated lists, and lists
//! of `key:value` pairs.

use crate::search::lemma_first_index;
use crate::text::{
    chars_of, find_stop_in, is_char, parse_u64, parsed_u64, run_before, same_text, text_of,
};
use vstd::prelude::*;
use vstd::string::*;

verus! {

/// Whether a character is white space, as `char::is_whitespace` tells it.
pub uninterp spec fn is_whitespace(c: char) -> bool;

/// A text in lower case, as `str::to_lowercase` gives it.
pub uninterp spec fn lowercased(text: Seq<char>) -> Seq<char>;

/// `char::is_whitespace` tells whether a character has the Unicode property
/// White_Space; the result depends on the character alone.
pub assume_specification[ char::is_whitespace ](c: char) -> (r: bool)
    ensures
        r == is_whitespace(c),
;

/// `str::to_lowercase` gives the text in lower case by the rules of
/// Unicode; the result depends on the text alone.
pub assume_specification[ str::to_lowercase ](text: &str) -> (r: String)
    ensures
        r@ == lowercased(text@),
;

/// Whether a text says yes: in lower case it is `1`, `true` or `yes`.
pub open spec fn says_yes(text: Seq<char>) -> bool {
    lowercased(text) == "1"@ || lowercased(text) == "true"@ || lowercased(text) == "yes"@
}

/// The value of a flag: whether its text says yes, or the default where the
/// flag is not set.
pub open spec fn flag_value(text: Option<Seq<char>>, default: bool) -> bool {
    match text {
        Some(t) => says_yes(t),
        None => default,
    }
}

/// Reads a flag.
pub fn parse_flag(text: Option<&str>, default: bool) -> (r: bool)
    ensures
        r == flag_value(crate::sdk::optional_str(text), default),
{
    match text {
        Some(t) => {
            let lower = t.to_lowercase();
            same_text(lower.as_str(), "1") || same_text(lower.as_str(), "true") || same_text(
                lower.as_str(),
                "yes",
            )
        },
        None => default,
    }
}

/// A text cut at every `stop`: a text with n stops has n + 1 pieces, of
/// which some may be empty.
pub open spec fn pieces(text: Seq<char>, stop: char) -> Seq<Seq<char>>
    decreases text.len(),
{
    let n = run_before(text, stop);
    if 0 <= n < text.len() {
        seq![text.take(n)] + pieces(text.skip(n + 1), stop)
    } else {
        seq![text]
    }
}

/// A text without the white space at its start.
pub open spec fn without_leading_space(text: Seq<char>) -> Seq<char>
    decreases text.len(),
{
    if text.len() > 0 && is_whitespace(text[0]) {
        without_leading_space(text.drop_first())
    } else {
        text
    }
}

/// A text without the white space at its end.
pub open spec fn without_trailing_space(text: Seq<char>) -> Seq<char>
    decreases text.len(),
{
    if text.len() > 0 && is_whitespace(text.last()) {
        without_trailing_space(text.drop_last())
    } else {
        text
    }
}

/// A text without the white space at its start and at its end.
pub open spec fn trimmed(text: Seq<char>) -> Seq<char> {
    without_trailing_space(without_leading_space(text))
}

/// The items among pieces: each piece loses the white space around it, and
/// empty pieces are dropped.
pub open spec fn items_of(list: Seq<Seq<char>>) -> Seq<Seq<char>>
    decreases list.len(),
{
    if list.len() == 0 {
        Seq::empty()
    } else if trimmed(list.last()).len() > 0 {
        items_of(list.drop_last()).push(trimmed(list.last()))
    } else {
        items_of(list.drop_last())
    }
}

/// The items of a comma-separated list.
pub open spec fn list_items(raw: Seq<char>) -> Seq<Seq<char>> {
    items_of(pieces(raw, ','))
}

/// The pair that a piece of the form `key:value` stands for: what stands
/// before the first colon, and what stands between the first colon and the
/// second or the end, both without the white space around them. A piece
/// without a colon stands for no pair.
pub open spec fn pair_of(piece: Seq<char>) -> Option<(Seq<char>, Seq<char>)> {
    let columns = pieces(piece, ':');
    if columns.len() >= 2 {
        Some((trimmed(columns[0]), trimmed(columns[1])))
    } else {
        None
    }
}

/// The pairs among pieces; a piece that stands for no pair is dropped.
pub open spec fn pairs_of(list: Seq<Seq<char>>) -> Seq<(Seq<char>, Seq<char>)>
    decreases list.len(),
{
    if list.len() == 0 {
        Seq::empty()
    } else {
        match pair_of(list.last()) {
            Some(pair) => pairs_of(list.drop_last()).push(pair),
            None => pairs_of(list.drop_last()),
        }
    }
}

/// The pairs of a comma-separated list of `key:value` pairs.
pub open spec fn list_pairs(raw: Seq<char>) -> Seq<(Seq<char>, Seq<char>)> {
    pairs_of(pieces(raw, ','))
}

/// The steps among pairs: a step is a pair whose key is a number of days;
/// any other pair is dropped. The value stays a text.
pub open spec fn steps_of(list: Seq<(Seq<char>, Seq<char>)>) -> Seq<(u64, Seq<char>)>
    decreases list.len(),
{
    if list.len() == 0 {
        Seq::empty()
    } else {
        match parsed_u64(list.last().0) {
            Some(days) => steps_of(list.drop_last()).push((days, list.last().1)),
            None => steps_of(list.drop_last()),
        }
    }
}

/// The steps of a comma-separated list of `days:value` pairs.
pub open spec fn list_steps(raw: Seq<char>) -> Seq<(u64, Seq<char>)> {
    steps_of(list_pairs(raw))
}

/// The models of a list of texts.
pub open spec fn texts(list: Seq<String>) -> Seq<Seq<char>> {
    list.map_values(|s: String| s@)
}

/// The models of a list of pairs of texts.
pub open spec fn text_pairs(list: Seq<(String, String)>) -> Seq<(Seq<char>, Seq<char>)> {
    list.map_values(|p: (String, String)| (p.0@, p.1@))
}

/// The models of a list of steps.
pub open spec fn text_steps(list: Seq<(u64, String)>) -> Seq<(u64, Seq<char>)> {
    list.map_values(|p: (u64, String)| (p.0, p.1@))
}

/// The parts of `chars` that a list of ranges names.
pub open spec fn ranged(chars: Seq<char>, ranges: Seq<(usize, usize)>) -> Seq<Seq<char>> {
    ranges.map_values(|r: (usize, usize)| chars.subrange(r.0 as int, r.1 as int))
}

/// Cuts `chars[from..to]` at every `stop`, and gives the range of each piece.
fn split_ranges(chars: &Vec<char>, from: usize, to: usize, stop: char) -> (r: Vec<(usize, usize)>)
    requires
        from <= to <= chars@.len(),
    ensures
        ranged(chars@, r@) == pieces(chars@.subrange(from as int, to as int), stop),
        forall|i: int| 0 <= i < r@.len() ==> from <= (#[trigger] r@[i]).0 <= r@[i].1 <= to,
{
    let ghost part = chars@.subrange(from as int, to as int);
    let mut out: Vec<(usize, usize)> = Vec::new();
    let mut at: usize = from;
    let mut done: bool = false;
    proof {
        assert(part.skip(0) =~= part);
        assert(ranged(chars@, out@) =~= Seq::<Seq<char>>::empty());
        assert(Seq::<Seq<char>>::empty() + pieces(part, stop) =~= pieces(part, stop));
    }
    while !done
        invariant
            from <= at <= to <= chars@.len(),
            part == chars@.subrange(from as int, to as int),
            forall|i: int| 0 <= i < out@.len() ==> from <= (#[trigger] out@[i]).0 <= out@[i].1 <= to,
            !done ==> pieces(part, stop) == ranged(chars@, out@) + pieces(
                part.skip(at - from),
                stop,
            ),
            done ==> pieces(part, stop) == ranged(chars@, out@),
        decreases (if done { 0int } else { to - at + 1 }),
    {
        let ghost rest = part.skip(at - from);
        let ghost before = ranged(chars@, out@);
        let end = find_stop_in(chars, at, to, stop);
        proof {
            assert(rest =~= chars@.subrange(at as int, to as int));
            lemma_first_index(rest, is_char(stop));
            assert(rest.take(end - at) =~= chars@.subrange(at as int, end as int));
        }
        out.push((at, end));
        proof {
            assert(ranged(chars@, out@) =~= before + seq![rest.take(end - at)]);
        }
        if end < to {
            proof {
                assert(rest.skip(end - at + 1) =~= part.skip(end + 1 - from));
                assert(before + (seq![rest.take(end - at)] + pieces(part.skip(end + 1 - from), stop))
                    =~= (before + seq![rest.take(end - at)]) + pieces(
                    part.skip(end + 1 - from),
                    stop,
                ));
            }
            at = end + 1;
        } else {
            done = true;
        }
    }
    out
}

/// Where `chars[from..to]` begins without its leading white space, and where
/// it ends without its trailing white space.
fn trim_range(chars: &Vec<char>, from: usize, to: usize) -> (r: (usize, usize))
    requires
        from <= to <= chars@.len(),
    ensures
        from <= r.0 <= r.1 <= to,
        chars@.subrange(r.0 as int, r.1 as int) == trimmed(chars@.subrange(from as int, to as int)),
{
    let mut start: usize = from;
    while start < to && chars[start].is_whitespace()
        invariant
            from <= start <= to <= chars@.len(),
            without_leading_space(chars@.subrange(from as int, to as int))
                == without_leading_space(chars@.subrange(start as int, to as int)),
        decreases to - start,
    {
        proof {
            let here = chars@.subrange(start as int, to as int);
            assert(here[0] == chars@[start as int]);
            assert(here.drop_first() =~= chars@.subrange(start + 1, to as int));
        }
        start = start + 1;
    }
    proof {
        let here = chars@.subrange(start as int, to as int);
        if start < to {
            assert(here[0] == chars@[start as int]);
        }
        assert(without_leading_space(here) == here);
    }
    let mut end: usize = to;
    while end > start && chars[end - 1].is_whitespace()
        invariant
            start <= end <= to <= chars@.len(),
            without_trailing_space(chars@.subrange(start as int, to as int))
                == without_trailing_space(chars@.subrange(start as int, end as int)),
        decreases end - start,
    {
        proof {
            let here = chars@.subrange(start as int, end as int);
            assert(here.last() == chars@[end - 1]);
            assert(here.drop_last() =~= chars@.subrange(start as int, end - 1));
        }
        end = end - 1;
    }
    proof {
        let here = chars@.subrange(start as int, end as int);
        if end > start {
            assert(here.last() == chars@[end - 1]);
        }
        assert(without_trailing_space(here) == here);
    }
    (start, end)
}

/// Reads a comma-separated list.
pub fn parse_list(raw: &str) -> (r: Vec<String>)
    ensures
        texts(r@) == list_items(raw@),
{
    let chars = chars_of(raw);
    let ranges = split_ranges(&chars, 0, chars.len(), ',');
    let ghost cut = pieces(raw@, ',');
    proof {
        assert(chars@.subrange(0, chars@.len() as int) =~= chars@);
    }
    let mut out: Vec<String> = Vec::new();
    let mut i: usize = 0;
    proof {
        assert(texts(out@) =~= items_of(cut.take(0)));
    }
    while i < ranges.len()
        invariant
            chars@ == raw@,
            cut == ranged(chars@, ranges@),
            forall|k: int|
                0 <= k < ranges@.len() ==> (#[trigger] ranges@[k]).0 <= ranges@[k].1
                    <= chars@.len(),
            i <= ranges@.len(),
            texts(out@) == items_of(cut.take(i as int)),
        decreases ranges@.len() - i,
    {
        let ghost before = texts(out@);
        let (from, to) = ranges[i];
        let (start, stop) = trim_range(&chars, from, to);
        proof {
            assert(cut.take(i + 1).drop_last() =~= cut.take(i as int));
            assert(cut.take(i + 1).last() == chars@.subrange(from as int, to as int));
        }
        if start < stop {
            out.push(text_of(&chars, start, stop));
            proof {
                assert(texts(out@) =~= before.push(chars@.subrange(start as int, stop as int)));
            }
        }
        i = i + 1;
    }
    proof {
        assert(cut.take(i as int) =~= cut);
    }
    out
}

/// The peers of a node: the items of a comma-separated list of URLs.
pub fn parse_peers(raw: &str) -> (r: Vec<String>)
    ensures
        texts(r@) == list_items(raw@),
{
    parse_list(raw)
}

/// The origins that a node allows: the items of a comma-separated list.
pub fn parse_origins(raw: &str) -> (r: Vec<String>)
    ensures
        texts(r@) == list_items(raw@),
{
    parse_list(raw)
}

/// Reads a comma-separated list of `key:value` pairs.
pub fn parse_pairs(raw: &str) -> (r: Vec<(String, String)>)
    ensures
        text_pairs(r@) == list_pairs(raw@),
{
    let chars = chars_of(raw);
    let ranges = split_ranges(&chars, 0, chars.len(), ',');
    let ghost cut = pieces(raw@, ',');
    proof {
        assert(chars@.subrange(0, chars@.len() as int) =~= chars@);
    }
    let mut out: Vec<(String, String)> = Vec::new();
    let mut i: usize = 0;
    proof {
        assert(text_pairs(out@) =~= pairs_of(cut.take(0)));
    }
    while i < ranges.len()
        invariant
            chars@ == raw@,
            cut == ranged(chars@, ranges@),
            forall|k: int|
                0 <= k < ranges@.len() ==> (#[trigger] ranges@[k]).0 <= ranges@[k].1
                    <= chars@.len(),
            i <= ranges@.len(),
            text_pairs(out@) == pairs_of(cut.take(i as int)),
        decreases ranges@.len() - i,
    {
        let ghost before = text_pairs(out@);
        let (from, to) = ranges[i];
        let columns = split_ranges(&chars, from, to, ':');
        proof {
            assert(cut.take(i + 1).drop_last() =~= cut.take(i as int));
            assert(cut.take(i + 1).last() == chars@.subrange(from as int, to as int));
            assert(ranged(chars@, columns@).len() == columns@.len());
        }
        if columns.len() >= 2 {
            let (key_from, key_to) = trim_range(&chars, columns[0].0, columns[0].1);
            let (value_from, value_to) = trim_range(&chars, columns[1].0, columns[1].1);
            let key = text_of(&chars, key_from, key_to);
            let value = text_of(&chars, value_from, value_to);
            proof {
                assert(ranged(chars@, columns@)[0] == chars@.subrange(
                    columns@[0].0 as int,
                    columns@[0].1 as int,
                ));
                assert(ranged(chars@, columns@)[1] == chars@.subrange(
                    columns@[1].0 as int,
                    columns@[1].1 as int,
                ));
            }
            out.push((key, value));
            proof {
                assert(text_pairs(out@) =~= before.push((key@, value@)));
            }
        }
        i = i + 1;
    }
    proof {
        assert(cut.take(i as int) =~= cut);
    }
    out
}

/// Reads a comma-separated list of `days:value` pairs, where `days` is a
/// whole number; the values stay texts.
pub fn parse_steps(raw: &str) -> (r: Vec<(u64, String)>)
    ensures
        text_steps(r@) == list_steps(raw@),
{
    let pairs = parse_pairs(raw);
    let ghost source = text_pairs(pairs@);
    let mut out: Vec<(u64, String)> = Vec::new();
    let mut i: usize = 0;
    proof {
        assert(text_steps(out@) =~= steps_of(source.take(0)));
    }
    while i < pairs.len()
        invariant
            source == text_pairs(pairs@),
            i <= pairs@.len(),
            text_steps(out@) == steps_of(source.take(i as int)),
        decreases pairs@.len() - i,
    {
        let ghost before = text_steps(out@);
        let key = chars_of(pairs[i].0.as_str());
        proof {
            assert(source.take(i + 1).drop_last() =~= source.take(i as int));
            assert(source.take(i + 1).last() == (pairs@[i as int].0@, pairs@[i as int].1@));
            assert(key@.subrange(0, key@.len() as int) =~= key@);
        }
        match parse_u64(&key, 0, key.len()) {
            Some(days) => {
                out.push((days, pairs[i].1.clone()));
                proof {
                    assert(text_steps(out@) =~= before.push((days, pairs@[i as int].1@)));
                }
            },
            None => {},
        }
        i = i + 1;
    }
    proof {
        assert(source.take(i as int) =~= source);
    }
    out
}

} // verus!
