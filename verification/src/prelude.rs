//! What the script prelude defines by hand, read out of its own text.
//!
//! The prelude puts methods on the element prototype, and some of them check their argument against
//! a fixed list of words. Reading the methods and the lists out of the text itself keeps a second
//! copy of them from drifting.
use crate::text;
use vstd::prelude::*;
use vstd::string::*;

verus! {

/// A method and the words it takes.
pub struct Vocabulary {
    pub name: String,
    pub values: Vec<String>,
}

/// A method and the words it takes, with sequences in place of strings and vectors.
pub open spec fn vocabulary_view(vocabulary: Vocabulary) -> (Seq<char>, Seq<Seq<char>>) {
    (vocabulary.name@, text::texts(vocabulary.values@))
}

/// Methods and the words they take.
pub open spec fn vocabulary_views(list: Seq<Vocabulary>) -> Seq<(Seq<char>, Seq<Seq<char>>)> {
    list.map_values(|vocabulary: Vocabulary| vocabulary_view(vocabulary))
}

/// The name of the method whose definition begins at a position, if one does.
pub open spec fn definition(source: Seq<char>, at: int) -> Option<Seq<char>> {
    let start = at + "\n  methods."@.len();
    if text::occurs_at(source, "\n  methods."@, at) {
        match text::find_from(source, " = function"@, start) {
            Some(end) => Some(source.subrange(start, end)),
            None => None,
        }
    } else {
        None
    }
}

/// Whether a character may stand in a method's name.
pub open spec fn name_char(c: char) -> bool {
    ('a' <= c <= 'z') || ('A' <= c <= 'Z') || ('0' <= c <= '9') || c == '_'
}

/// Whether a text is a method's name.
pub open spec fn is_name(name: Seq<char>) -> bool {
    name.len() > 0 && forall|i: int| 0 <= i < name.len() ==> name_char(#[trigger] name[i])
}

/// Whether a method of that name is defined at or after a position.
pub open spec fn defined_from(source: Seq<char>, from: int, name: Seq<char>) -> bool {
    exists|at: int| from <= at && #[trigger] definition(source, at) == Some(name) && is_name(name)
}

/// Whether texts are in order, none of them twice.
pub open spec fn ascending(list: Seq<Seq<char>>) -> bool {
    forall|i: int, j: int|
        0 <= i < j < list.len() ==> text::text_before(#[trigger] list[i], #[trigger] list[j])
}

fn all_name_chars(name: &str) -> (r: bool)
    ensures
        r == is_name(name@),
{
    let chars = text::chars_of(name);
    if chars.len() == 0 {
        return false;
    }
    let mut i: usize = 0;
    while i < chars.len()
        invariant
            i <= chars@.len(),
            chars@ == name@,
            forall|j: int| 0 <= j < i ==> name_char(#[trigger] name@[j]),
        decreases chars@.len() - i,
    {
        let c = chars[i];
        if !(('a' <= c && c <= 'z') || ('A' <= c && c <= 'Z') || ('0' <= c && c <= '9') || c
            == '_') {
            assert(!name_char(name@[i as int]));
            return false;
        }
        i += 1;
    }
    true
}

/// Adds a text to an ordered list, unless it is there.
fn add_in_order(list: &mut Vec<String>, added: String)
    requires
        ascending(text::texts(old(list)@)),
    ensures
        ascending(text::texts(final(list)@)),
        forall|name: Seq<char>| #[trigger]
            text::texts(final(list)@).contains(name) <==> text::texts(old(list)@).contains(name)
                || name == added@,
{
    let ghost before = text::texts(list@);
    let ghost new = added@;
    let mut at: usize = 0;
    while at < list.len() && text::comes_before(list[at].as_str(), added.as_str())
        invariant
            at <= list@.len(),
            before == text::texts(list@),
            new == added@,
            forall|i: int| 0 <= i < at ==> text::text_before(#[trigger] before[i], new),
        decreases list@.len() - at,
    {
        at += 1;
    }
    if at < list.len() && text::same(list[at].as_str(), added.as_str()) {
        assert(before[at as int] == new);
        return;
    }
    list.insert(at, added);
    proof {
        let after = text::texts(list@);
        assert(after =~= before.insert(at as int, new));
        assert forall|i: int| at <= i < before.len() implies text::text_before(
            new,
            #[trigger] before[i],
        ) by {
            text::lemma_before_total(before[at as int], new);
            if i > at {
                assert(text::text_before(before[at as int], before[i]));
                text::lemma_before_transitive(new, before[at as int], before[i]);
            }
        }
        assert forall|i: int, j: int| 0 <= i < j < after.len() implies text::text_before(
            #[trigger] after[i],
            #[trigger] after[j],
        ) by {
            if i < at && j < at {
                assert(after[i] == before[i] && after[j] == before[j]);
            } else if i < at && j == at {
                assert(after[i] == before[i]);
            } else if i < at {
                assert(after[i] == before[i] && after[j] == before[j - 1]);
            } else if i == at {
                assert(after[j] == before[j - 1]);
            } else {
                assert(after[i] == before[i - 1] && after[j] == before[j - 1]);
            }
        }
        assert forall|name: Seq<char>| #[trigger] after.contains(name) <==> before.contains(name)
            || name == new by {
            if before.contains(name) {
                let k = choose|k: int| 0 <= k < before.len() && before[k] == name;
                if k < at {
                    assert(after[k] == name);
                } else {
                    assert(after[k + 1] == name);
                }
            }
            if name == new {
                assert(after[at as int] == name);
            }
            if after.contains(name) {
                let k = choose|k: int| 0 <= k < after.len() && after[k] == name;
                if k < at {
                    assert(before[k] == name);
                } else if k > at {
                    assert(before[k - 1] == name);
                }
            }
        }
    }
}

/// The names of the methods that the prelude defines by hand, after the place where it installs the
/// others, in order.
pub fn prelude_owned_element_methods(source: &str) -> (r: Vec<String>)
    requires
        text::find_from(
            source@,
            "for (const name of __behaviorNames) define(name);"@,
            0,
        ) is Some,
    ensures
        ascending(text::texts(r@)),
        forall|name: Seq<char>| #[trigger]
            text::texts(r@).contains(name) <==> defined_from(
                source@,
                text::find_from(
                    source@,
                    "for (const name of __behaviorNames) define(name);"@,
                    0,
                )->Some_0,
                name,
            ),
{
    let chars = text::chars_of(source);
    let dispatch = text::chars_of("for (const name of __behaviorNames) define(name);");
    let marker = text::chars_of("\n  methods.");
    let ending = text::chars_of(" = function");
    let start: usize = match text::find_pattern(&chars, &dispatch, 0) {
        Some(start) => start,
        None => {
            return Vec::new();
        },
    };
    let total: usize = chars.len();
    let mut out: Vec<String> = Vec::new();
    let mut from: usize = start;
    let ghost s = source@;
    assert(text::texts(out@) =~= Seq::empty());
    proof {
        reveal_strlit("\n  methods.");
        assert(marker@.len() == 11);
    }
    while from <= total
        invariant_except_break
            forall|name: Seq<char>| #[trigger]
                text::texts(out@).contains(name) <==> defined_between(
                    s,
                    start as int,
                    from as int,
                    name,
                ),
        invariant
            s == source@,
            chars@ == s,
            total == chars@.len(),
            marker@ == "\n  methods."@,
            marker@.len() == 11,
            ending@ == " = function"@,
            start <= from,
            ascending(text::texts(out@)),
        ensures
            forall|name: Seq<char>| #[trigger]
                text::texts(out@).contains(name) <==> defined_from(s, start as int, name),
        decreases total + 1 - from,
    {
        match text::find_pattern(&chars, &marker, from) {
            None => {
                proof {
                    assert forall|name: Seq<char>| #[trigger]
                        text::texts(out@).contains(name) <==> defined_from(
                            s,
                            start as int,
                            name,
                        ) by {
                        lemma_no_more(s, start as int, from as int, name);
                    }
                }
                break;
            },
            Some(at) => {
                let begin: usize = at + marker.len();
                let ghost before = text::texts(out@);
                match text::find_pattern(&chars, &ending, begin) {
                    Some(end) => {
                        let name = text::slice_text(&chars, begin, end);
                        assert(definition(s, at as int) == Some(name@));
                        if all_name_chars(name.as_str()) {
                            add_in_order(&mut out, name);
                        }
                    },
                    None => {
                        assert(definition(s, at as int) is None);
                    },
                }
                proof {
                    assert forall|name: Seq<char>| #[trigger]
                        text::texts(out@).contains(name) <==> defined_between(
                            s,
                            start as int,
                            at + 1,
                            name,
                        ) by {
                        assert(before.contains(name) <==> defined_between(
                            s,
                            start as int,
                            from as int,
                            name,
                        ));
                        lemma_next(s, start as int, from as int, at as int, name);
                    }
                }
                from = at + 1;
            },
        }
    }
    out
}

/// Whether a method of that name is defined between two positions.
pub open spec fn defined_between(source: Seq<char>, from: int, to: int, name: Seq<char>) -> bool {
    exists|at: int|
        from <= at < to && #[trigger] definition(source, at) == Some(name) && is_name(name)
}

proof fn lemma_no_more(source: Seq<char>, start: int, from: int, name: Seq<char>)
    requires
        start <= from,
        text::find_from(source, "\n  methods."@, from) is None,
    ensures
        defined_between(source, start, from, name) <==> defined_from(source, start, name),
{
    if defined_from(source, start, name) {
        let at = choose|at: int|
            start <= at && #[trigger] definition(source, at) == Some(name) && is_name(name);
        if at >= from {
            text::lemma_some_first(source, "\n  methods."@, from, at);
        }
    }
    if defined_between(source, start, from, name) {
        let at = choose|at: int|
            start <= at < from && #[trigger] definition(source, at) == Some(name) && is_name(name);
        assert(definition(source, at) == Some(name));
    }
}

proof fn lemma_next(source: Seq<char>, start: int, from: int, at: int, name: Seq<char>)
    requires
        start <= from,
        text::first_from(source, "\n  methods."@, from, at),
    ensures
        defined_between(source, start, at + 1, name) <==> defined_between(
            source,
            start,
            from,
            name,
        ) || (definition(source, at) == Some(name) && is_name(name)),
{
    if defined_between(source, start, at + 1, name) {
        let k = choose|k: int|
            start <= k < at + 1 && #[trigger] definition(source, k) == Some(name) && is_name(name);
        if from <= k < at {
            assert(!text::occurs_at(source, "\n  methods."@, k));
        }
    }
    if defined_between(source, start, from, name) {
        let k = choose|k: int|
            start <= k < from && #[trigger] definition(source, k) == Some(name) && is_name(name);
        assert(definition(source, k) == Some(name));
    }
}

/// Which characters are taken off both ends of a text.
#[derive(Clone, Copy, PartialEq, Eq, Structural, Debug)]
pub enum Trim {
    White,
    Quotes,
}

/// Whether a character is taken off.
pub open spec fn trims(trim: Trim, c: char) -> bool {
    match trim {
        Trim::Quotes => c == '"',
        Trim::White => {
            ||| '\u{9}' <= c <= '\u{d}'
            ||| c == ' '
            ||| c == '\u{85}'
            ||| c == '\u{a0}'
            ||| c == '\u{1680}'
            ||| '\u{2000}' <= c <= '\u{200a}'
            ||| c == '\u{2028}'
            ||| c == '\u{2029}'
            ||| c == '\u{202f}'
            ||| c == '\u{205f}'
            ||| c == '\u{3000}'
        },
    }
}

/// The text without what is taken off its front.
pub open spec fn trimmed_front(s: Seq<char>, trim: Trim) -> Seq<char>
    decreases s.len(),
{
    if s.len() > 0 && trims(trim, s[0]) {
        trimmed_front(s.skip(1), trim)
    } else {
        s
    }
}

/// The text without what is taken off its end.
pub open spec fn trimmed_end(s: Seq<char>, trim: Trim) -> Seq<char>
    decreases s.len(),
{
    if s.len() > 0 && trims(trim, s.last()) {
        trimmed_end(s.drop_last(), trim)
    } else {
        s
    }
}

/// The word that a part of a list is, or nothing where it is blank: what is left of it without white
/// space and then without quotes.
pub open spec fn word(part: Seq<char>) -> Seq<Seq<char>> {
    let bare = trimmed_end(trimmed_front(part, Trim::White), Trim::White);
    let inner = trimmed_end(trimmed_front(bare, Trim::Quotes), Trim::Quotes);
    if inner.len() > 0 {
        seq![inner]
    } else {
        Seq::empty()
    }
}

/// The first comma at or after a position, or the end.
pub open spec fn comma(s: Seq<char>, from: int) -> int
    decreases s.len() - from,
{
    if from >= s.len() || s[from] == ',' {
        from
    } else {
        comma(s, from + 1)
    }
}

/// The words of a list from a position on.
pub open spec fn words_from(s: Seq<char>, from: int) -> Seq<Seq<char>>
    decreases s.len() - from,
{
    if from < 0 || from > s.len() {
        Seq::empty()
    } else {
        let end = comma(s, from);
        if from <= end < s.len() {
            word(s.subrange(from, end)) + words_from(s, end + 1)
        } else {
            word(s.subrange(from, s.len() as int))
        }
    }
}

/// The text of a method's definition: up to where it closes.
pub open spec fn body_of(rest: Seq<char>) -> Seq<char> {
    match text::find_from(rest, "\n  };"@, 0) {
        Some(close) => rest.take(close),
        None => rest,
    }
}

/// The words that a definition checks its argument against, if it does. `anchors` are those of the
/// anchors.
pub open spec fn checked_words(body: Seq<char>, anchors: Seq<Seq<char>>) -> Option<Seq<Seq<char>>> {
    if text::find_from(body, "__anchorNames.includes"@, 0) is Some {
        Some(anchors)
    } else {
        match text::find_from(body, "["@, 0) {
            None => None,
            Some(open) => match text::find_from(
                body.skip(open),
                "].includes(value)"@,
                0,
            ) {
                None => None,
                Some(close) => {
                    let words = words_from(body.skip(open).subrange(1, close), 0);
                    if words.len() > 0 {
                        Some(words)
                    } else {
                        None
                    }
                },
            },
        }
    }
}

/// The method whose definition begins at a position and the words it takes, if it checks for them.
pub open spec fn vocabulary_at(source: Seq<char>, at: int, anchors: Seq<Seq<char>>) -> Option<
    (Seq<char>, Seq<Seq<char>>),
> {
    if text::occurs_at(source, "\n  methods."@, at) {
        let rest = source.skip(at + "\n  methods."@.len());
        match text::find_from(rest, " = function"@, 0) {
            None => None,
            Some(end) => match checked_words(body_of(rest), anchors) {
                Some(words) => Some((rest.take(end), words)),
                None => None,
            },
        }
    } else {
        None
    }
}

/// Whether the source checks a vocabulary.
pub open spec fn checks(
    source: Seq<char>,
    anchors: Seq<Seq<char>>,
    vocabulary: (Seq<char>, Seq<Seq<char>>),
) -> bool {
    exists|at: int| 0 <= at && #[trigger] vocabulary_at(source, at, anchors) == Some(vocabulary)
}

/// Whether one list of texts comes before another, text by text.
pub open spec fn list_before(a: Seq<Seq<char>>, b: Seq<Seq<char>>) -> bool
    decreases a.len(),
{
    if b.len() == 0 {
        false
    } else if a.len() == 0 {
        true
    } else if a[0] != b[0] {
        text::text_before(a[0], b[0])
    } else {
        list_before(a.skip(1), b.skip(1))
    }
}

/// Whether one vocabulary comes before another: by name, and then by words.
pub open spec fn vocabulary_before(
    a: (Seq<char>, Seq<Seq<char>>),
    b: (Seq<char>, Seq<Seq<char>>),
) -> bool {
    if a.0 != b.0 {
        text::text_before(a.0, b.0)
    } else {
        list_before(a.1, b.1)
    }
}

/// Whether vocabularies are in order, none of them twice.
pub open spec fn in_vocabulary_order(list: Seq<(Seq<char>, Seq<Seq<char>>)>) -> bool {
    forall|i: int, j: int|
        0 <= i < j < list.len() ==> vocabulary_before(#[trigger] list[i], #[trigger] list[j])
}

/// The characters from one position to another.
fn part_of(chars: &Vec<char>, from: usize, to: usize) -> (r: Vec<char>)
    requires
        from <= to <= chars@.len(),
    ensures
        r@ == chars@.subrange(from as int, to as int),
{
    let part = text::slice_text(chars, from, to);
    text::chars_of(part.as_str())
}

fn is_trimmed(trim: Trim, c: char) -> (r: bool)
    ensures
        r == trims(trim, c),
{
    match trim {
        Trim::Quotes => c == '"',
        Trim::White => ('\u{9}' <= c && c <= '\u{d}') || c == ' ' || c == '\u{85}' || c == '\u{a0}'
            || c == '\u{1680}' || ('\u{2000}' <= c && c <= '\u{200a}') || c == '\u{2028}' || c
            == '\u{2029}' || c == '\u{202f}' || c == '\u{205f}' || c == '\u{3000}',
    }
}

/// The text without what is taken off both its ends.
fn trimmed(chars: &Vec<char>, trim: Trim) -> (r: Vec<char>)
    ensures
        r@ == trimmed_end(trimmed_front(chars@, trim), trim),
{
    let ghost s = chars@;
    let mut from: usize = 0;
    assert(s.skip(0) =~= s);
    while from < chars.len() && is_trimmed(trim, chars[from])
        invariant
            s == chars@,
            from <= s.len(),
            trimmed_front(s, trim) == trimmed_front(s.skip(from as int), trim),
        decreases s.len() - from,
    {
        assert(s.skip(from as int)[0] == s[from as int]);
        assert(s.skip(from as int).skip(1) =~= s.skip(from + 1));
        from += 1;
    }
    proof {
        if from < s.len() {
            assert(s.skip(from as int)[0] == s[from as int]);
        }
    }
    let ghost front = trimmed_front(s, trim);
    assert(front == s.skip(from as int));
    let mut to: usize = chars.len();
    assert(front.take(to - from) =~= front);
    while from < to && is_trimmed(trim, chars[to - 1])
        invariant
            s == chars@,
            front == s.skip(from as int),
            from <= to <= s.len(),
            trimmed_end(front, trim) == trimmed_end(front.take(to - from), trim),
        decreases to - from,
    {
        assert(front.take(to - from).last() == s[to - 1]);
        assert(front.take(to - from).drop_last() =~= front.take(to - 1 - from));
        to -= 1;
    }
    proof {
        if from < to {
            assert(front.take(to - from).last() == s[to - 1]);
        }
        assert(front.take(to - from) =~= s.subrange(from as int, to as int));
    }
    part_of(chars, from, to)
}

/// The words of a list.
fn words_in(list: &Vec<char>) -> (r: Vec<String>)
    ensures
        text::texts(r@) == words_from(list@, 0),
{
    let ghost s = list@;
    let total: usize = list.len();
    let mut words: Vec<String> = Vec::new();
    let mut from: usize = 0;
    let mut done = false;
    assert(text::texts(words@) =~= Seq::empty());
    assert(text::texts(words@) + words_from(s, 0) =~= words_from(s, 0));
    while !done
        invariant
            s == list@,
            total == s.len(),
            from <= total,
            words_from(s, 0) == text::texts(words@) + (if done {
                Seq::empty()
            } else {
                words_from(s, from as int)
            }),
        decreases
                (if done {
                    0int
                } else {
                    1 + total - from
                }),
    {
        let mut end: usize = from;
        while end < total && list[end] != ','
            invariant
                s == list@,
                total == s.len(),
                from <= end <= total,
                comma(s, from as int) == comma(s, end as int),
            decreases total - end,
        {
            end += 1;
        }
        let part = part_of(list, from, end);
        let bare = trimmed(&part, Trim::White);
        let inner = trimmed(&bare, Trim::Quotes);
        let ghost before = words@;
        if inner.len() > 0 {
            let text = text::slice_text(&inner, 0, inner.len());
            assert(text@ =~= inner@);
            words.push(text);
        }
        proof {
            assert(text::texts(words@) =~= text::texts(before) + word(part@));
            assert(end < total ==> words_from(s, from as int) == word(part@) + words_from(
                s,
                end + 1,
            ));
            assert(end >= total ==> words_from(s, from as int) == word(part@));
        }
        if end < total {
            from = end + 1;
            assert(words_from(s, 0) =~= text::texts(words@) + words_from(s, from as int));
        } else {
            done = true;
            assert(words_from(s, 0) =~= text::texts(words@) + Seq::<Seq<char>>::empty());
        }
    }
    assert(text::texts(words@) + Seq::<Seq<char>>::empty() =~= text::texts(words@));
    words
}

/// Several words, if there are any.
pub open spec fn words_view(words: Option<Vec<String>>) -> Option<Seq<Seq<char>>> {
    match words {
        Some(words) => Some(text::texts(words@)),
        None => None,
    }
}

/// The words that a definition checks its argument against, if it does.
fn words_checked(body: &Vec<char>, anchors: &Vec<String>) -> (r: Option<Vec<String>>)
    ensures
        words_view(r) == checked_words(body@, text::texts(anchors@)),
{
    let anchor_check = text::chars_of("__anchorNames.includes");
    if let Some(_at) = text::find_pattern(body, &anchor_check, 0) {
        return Some(text::copy_texts(anchors));
    }
    let opening = text::chars_of("[");
    let closing = text::chars_of("].includes(value)");
    let open: usize = match text::find_pattern(body, &opening, 0) {
        Some(open) => open,
        None => {
            return None;
        },
    };
    let list = part_of(body, open, body.len());
    assert(list@ =~= body@.skip(open as int));
    let close: usize = match text::find_pattern(&list, &closing, 0) {
        Some(close) => close,
        None => {
            return None;
        },
    };
    proof {
        reveal_strlit("[");
        reveal_strlit("].includes(value)");
        assert(body@.subrange(open as int, open + 1)[0] == body@[open as int]);
        assert(list@[0] == '[');
        if close == 0 {
            assert(list@.subrange(0, 17)[0] == list@[0]);
        }
    }
    let inner = part_of(&list, 1, close);
    let words = words_in(&inner);
    if words.len() > 0 {
        Some(words)
    } else {
        None
    }
}

/// One of two lists of texts comes before the other, unless they are equal.
proof fn lemma_list_total(a: Seq<Seq<char>>, b: Seq<Seq<char>>)
    ensures
        list_before(a, b) || list_before(b, a) || a == b,
        a == b ==> !list_before(a, b),
    decreases a.len(),
{
    if a.len() == 0 && b.len() == 0 {
        assert(a =~= b);
    } else if a.len() > 0 && b.len() > 0 {
        if a[0] == b[0] {
            lemma_list_total(a.skip(1), b.skip(1));
            if a.skip(1) == b.skip(1) {
                assert(a =~= seq![a[0]] + a.skip(1));
                assert(b =~= seq![b[0]] + b.skip(1));
            }
        } else {
            text::lemma_before_total(a[0], b[0]);
        }
    }
}

/// What comes before a list comes before all that the list comes before.
proof fn lemma_list_transitive(a: Seq<Seq<char>>, b: Seq<Seq<char>>, c: Seq<Seq<char>>)
    requires
        list_before(a, b),
        list_before(b, c),
    ensures
        list_before(a, c),
    decreases a.len(),
{
    if a.len() > 0 {
        if a[0] == b[0] && b[0] == c[0] {
            lemma_list_transitive(a.skip(1), b.skip(1), c.skip(1));
        } else if a[0] != b[0] && b[0] != c[0] {
            text::lemma_before_transitive(a[0], b[0], c[0]);
            text::lemma_before_total(a[0], c[0]);
            text::lemma_before_total(b[0], c[0]);
        }
    }
}

proof fn lemma_vocabulary_total(
    a: (Seq<char>, Seq<Seq<char>>),
    b: (Seq<char>, Seq<Seq<char>>),
)
    ensures
        vocabulary_before(a, b) || vocabulary_before(b, a) || a == b,
{
    text::lemma_before_total(a.0, b.0);
    lemma_list_total(a.1, b.1);
}

proof fn lemma_vocabulary_transitive(
    a: (Seq<char>, Seq<Seq<char>>),
    b: (Seq<char>, Seq<Seq<char>>),
    c: (Seq<char>, Seq<Seq<char>>),
)
    requires
        vocabulary_before(a, b),
        vocabulary_before(b, c),
    ensures
        vocabulary_before(a, c),
{
    if a.0 == b.0 && b.0 == c.0 {
        lemma_list_transitive(a.1, b.1, c.1);
    } else if a.0 != b.0 && b.0 != c.0 {
        text::lemma_before_transitive(a.0, b.0, c.0);
        text::lemma_before_total(a.0, b.0);
        text::lemma_before_total(b.0, c.0);
    }
}

/// Whether one list of texts comes before another.
fn list_comes_before(a: &Vec<String>, b: &Vec<String>) -> (r: bool)
    ensures
        r == list_before(text::texts(a@), text::texts(b@)),
{
    let ghost left = text::texts(a@);
    let ghost right = text::texts(b@);
    let mut i: usize = 0;
    assert(left.skip(0) =~= left && right.skip(0) =~= right);
    while i < a.len() && i < b.len() && text::same(a[i].as_str(), b[i].as_str())
        invariant
            i <= a@.len(),
            i <= b@.len(),
            left == text::texts(a@),
            right == text::texts(b@),
            list_before(left, right) == list_before(left.skip(i as int), right.skip(i as int)),
        decreases a@.len() - i,
    {
        assert(left.skip(i as int).skip(1) =~= left.skip(i + 1));
        assert(right.skip(i as int).skip(1) =~= right.skip(i + 1));
        i += 1;
    }
    if i == b.len() {
        false
    } else if i == a.len() {
        true
    } else {
        text::comes_before(a[i].as_str(), b[i].as_str())
    }
}

fn same_list(a: &Vec<String>, b: &Vec<String>) -> (r: bool)
    ensures
        r == (text::texts(a@) == text::texts(b@)),
{
    if a.len() != b.len() {
        assert(text::texts(a@).len() != text::texts(b@).len());
        return false;
    }
    let mut i: usize = 0;
    while i < a.len()
        invariant
            i <= a@.len(),
            a@.len() == b@.len(),
            forall|j: int|
                0 <= j < i ==> #[trigger] text::texts(a@)[j] == text::texts(b@)[j],
        decreases a@.len() - i,
    {
        if !text::same(a[i].as_str(), b[i].as_str()) {
            assert(text::texts(a@)[i as int] != text::texts(b@)[i as int]);
            return false;
        }
        i += 1;
    }
    assert(text::texts(a@) =~= text::texts(b@));
    true
}

fn vocabulary_comes_before(a: &Vocabulary, b: &Vocabulary) -> (r: bool)
    ensures
        r == vocabulary_before(vocabulary_view(*a), vocabulary_view(*b)),
{
    if text::same(a.name.as_str(), b.name.as_str()) {
        list_comes_before(&a.values, &b.values)
    } else {
        text::comes_before(a.name.as_str(), b.name.as_str())
    }
}

/// Adds a vocabulary to an ordered list, unless it is there.
fn add_vocabulary(list: &mut Vec<Vocabulary>, added: Vocabulary)
    requires
        in_vocabulary_order(vocabulary_views(old(list)@)),
    ensures
        in_vocabulary_order(vocabulary_views(final(list)@)),
        forall|entry: (Seq<char>, Seq<Seq<char>>)| #[trigger]
            vocabulary_views(final(list)@).contains(entry) <==> vocabulary_views(
                old(list)@,
            ).contains(entry) || entry == vocabulary_view(added),
{
    let ghost before = vocabulary_views(list@);
    let ghost new = vocabulary_view(added);
    let mut at: usize = 0;
    while at < list.len() && vocabulary_comes_before(&list[at], &added)
        invariant
            at <= list@.len(),
            before == vocabulary_views(list@),
            new == vocabulary_view(added),
            forall|i: int| 0 <= i < at ==> vocabulary_before(#[trigger] before[i], new),
        decreases list@.len() - at,
    {
        at += 1;
    }
    if at < list.len() && text::same(list[at].name.as_str(), added.name.as_str()) && same_list(
        &list[at].values,
        &added.values,
    ) {
        assert(before[at as int] == new);
        return;
    }
    list.insert(at, added);
    proof {
        let after = vocabulary_views(list@);
        assert(after =~= before.insert(at as int, new));
        assert forall|i: int| at <= i < before.len() implies vocabulary_before(
            new,
            #[trigger] before[i],
        ) by {
            lemma_vocabulary_total(before[at as int], new);
            if i > at {
                assert(vocabulary_before(before[at as int], before[i]));
                lemma_vocabulary_transitive(new, before[at as int], before[i]);
            }
        }
        assert forall|i: int, j: int| 0 <= i < j < after.len() implies vocabulary_before(
            #[trigger] after[i],
            #[trigger] after[j],
        ) by {
            if i < at && j < at {
                assert(after[i] == before[i] && after[j] == before[j]);
            } else if i < at && j == at {
                assert(after[i] == before[i]);
            } else if i < at {
                assert(after[i] == before[i] && after[j] == before[j - 1]);
            } else if i == at {
                assert(after[j] == before[j - 1]);
            } else {
                assert(after[i] == before[i - 1] && after[j] == before[j - 1]);
            }
        }
        assert forall|entry: (Seq<char>, Seq<Seq<char>>)| #[trigger]
            after.contains(entry) <==> before.contains(entry) || entry == new by {
            if before.contains(entry) {
                let k = choose|k: int| 0 <= k < before.len() && before[k] == entry;
                if k < at {
                    assert(after[k] == entry);
                } else {
                    assert(after[k + 1] == entry);
                }
            }
            if entry == new {
                assert(after[at as int] == entry);
            }
            if after.contains(entry) {
                let k = choose|k: int| 0 <= k < after.len() && after[k] == entry;
                if k < at {
                    assert(before[k] == entry);
                } else if k > at {
                    assert(before[k - 1] == entry);
                }
            }
        }
    }
}

/// The method whose definition begins at a position and the words it takes, if it checks for them.
fn read_vocabulary(source: &Vec<char>, at: usize, anchors: &Vec<String>) -> (r: Option<Vocabulary>)
    requires
        text::occurs_at(source@, "\n  methods."@, at as int),
    ensures
        vocabulary_at(source@, at as int, text::texts(anchors@)) == (match r {
            Some(vocabulary) => Some(vocabulary_view(vocabulary)),
            None => None,
        }),
{
    proof {
        reveal_strlit("\n  methods.");
    }
    let total: usize = source.len();
    let rest = part_of(source, at + 11, total);
    assert(rest@ =~= source@.skip(at + 11));
    let ending = text::chars_of(" = function");
    let end: usize = match text::find_pattern(&rest, &ending, 0) {
        Some(end) => end,
        None => {
            return None;
        },
    };
    let closing = text::chars_of("\n  };");
    let close: usize = match text::find_pattern(&rest, &closing, 0) {
        Some(close) => close,
        None => rest.len(),
    };
    let body = part_of(&rest, 0, close);
    assert(body@ =~= body_of(rest@));
    match words_checked(&body, anchors) {
        Some(values) => {
            let name = text::slice_text(&rest, 0, end);
            assert(name@ =~= rest@.take(end as int));
            Some(Vocabulary { name, values })
        },
        None => None,
    }
}

/// Whether the source checks a vocabulary in a definition before a position.
pub open spec fn checks_before(
    source: Seq<char>,
    anchors: Seq<Seq<char>>,
    to: int,
    vocabulary: (Seq<char>, Seq<Seq<char>>),
) -> bool {
    exists|at: int|
        0 <= at < to && #[trigger] vocabulary_at(source, at, anchors) == Some(vocabulary)
}

proof fn lemma_all_checks(
    source: Seq<char>,
    anchors: Seq<Seq<char>>,
    from: int,
    vocabulary: (Seq<char>, Seq<Seq<char>>),
)
    requires
        0 <= from,
        text::find_from(source, "\n  methods."@, from) is None,
    ensures
        checks_before(source, anchors, from, vocabulary) <==> checks(source, anchors, vocabulary),
{
    if checks(source, anchors, vocabulary) {
        let at = choose|at: int|
            0 <= at && #[trigger] vocabulary_at(source, at, anchors) == Some(vocabulary);
        if at >= from {
            text::lemma_some_first(source, "\n  methods."@, from, at);
        }
    }
    if checks_before(source, anchors, from, vocabulary) {
        let at = choose|at: int|
            0 <= at < from && #[trigger] vocabulary_at(source, at, anchors) == Some(vocabulary);
        assert(vocabulary_at(source, at, anchors) == Some(vocabulary));
    }
}

proof fn lemma_next_check(
    source: Seq<char>,
    anchors: Seq<Seq<char>>,
    from: int,
    at: int,
    vocabulary: (Seq<char>, Seq<Seq<char>>),
)
    requires
        0 <= from,
        text::first_from(source, "\n  methods."@, from, at),
    ensures
        checks_before(source, anchors, at + 1, vocabulary) <==> checks_before(
            source,
            anchors,
            from,
            vocabulary,
        ) || vocabulary_at(source, at, anchors) == Some(vocabulary),
{
    if checks_before(source, anchors, at + 1, vocabulary) {
        let k = choose|k: int|
            0 <= k < at + 1 && #[trigger] vocabulary_at(source, k, anchors) == Some(vocabulary);
        if from <= k < at {
            assert(!text::occurs_at(source, "\n  methods."@, k));
        }
    }
    if checks_before(source, anchors, from, vocabulary) {
        let k = choose|k: int|
            0 <= k < from && #[trigger] vocabulary_at(source, k, anchors) == Some(vocabulary);
        assert(vocabulary_at(source, k, anchors) == Some(vocabulary));
    }
}

/// The methods of the prelude that check their argument against a list of words, each with the
/// words, in order. `anchors` are the names of the anchors, which the prelude holds in a list of
/// their own.
pub fn prelude_checked_vocabularies(source: &str, anchors: &Vec<String>) -> (r: Vec<Vocabulary>)
    ensures
        in_vocabulary_order(vocabulary_views(r@)),
        forall|vocabulary: (Seq<char>, Seq<Seq<char>>)| #[trigger]
            vocabulary_views(r@).contains(vocabulary) <==> checks(
                source@,
                text::texts(anchors@),
                vocabulary,
            ),
{
    let chars = text::chars_of(source);
    let marker = text::chars_of("\n  methods.");
    let total: usize = chars.len();
    let mut found: Vec<Vocabulary> = Vec::new();
    let mut from: usize = 0;
    let ghost s = source@;
    let ghost names = text::texts(anchors@);
    assert(vocabulary_views(found@) =~= Seq::empty());
    proof {
        reveal_strlit("\n  methods.");
        assert(marker@.len() == 11);
    }
    while from <= total
        invariant_except_break
            forall|vocabulary: (Seq<char>, Seq<Seq<char>>)| #[trigger]
                vocabulary_views(found@).contains(vocabulary) <==> checks_before(
                    s,
                    names,
                    from as int,
                    vocabulary,
                ),
        invariant
            s == source@,
            names == text::texts(anchors@),
            chars@ == s,
            total == chars@.len(),
            marker@ == "\n  methods."@,
            marker@.len() == 11,
            in_vocabulary_order(vocabulary_views(found@)),
        ensures
            forall|vocabulary: (Seq<char>, Seq<Seq<char>>)| #[trigger]
                vocabulary_views(found@).contains(vocabulary) <==> checks(s, names, vocabulary),
        decreases total + 1 - from,
    {
        match text::find_pattern(&chars, &marker, from) {
            None => {
                proof {
                    assert forall|vocabulary: (Seq<char>, Seq<Seq<char>>)| #[trigger]
                        vocabulary_views(found@).contains(vocabulary) <==> checks(
                            s,
                            names,
                            vocabulary,
                        ) by {
                        lemma_all_checks(s, names, from as int, vocabulary);
                    }
                }
                break;
            },
            Some(at) => {
                let ghost before = vocabulary_views(found@);
                if let Some(vocabulary) = read_vocabulary(&chars, at, anchors) {
                    add_vocabulary(&mut found, vocabulary);
                }
                proof {
                    assert forall|vocabulary: (Seq<char>, Seq<Seq<char>>)| #[trigger]
                        vocabulary_views(found@).contains(vocabulary) <==> checks_before(
                            s,
                            names,
                            at + 1,
                            vocabulary,
                        ) by {
                        assert(before.contains(vocabulary) <==> checks_before(
                            s,
                            names,
                            from as int,
                            vocabulary,
                        ));
                        lemma_next_check(s, names, from as int, at as int, vocabulary);
                    }
                }
                from = at + 1;
            },
        }
    }
    found
}

/// A method whose words are checked, where it is defined behind the place from which the definitions
/// count and its name is one, is among the methods that are defined by hand: no text checks the words
/// of a method that it leaves to others.
pub proof fn law_a_checked_method_is_defined_by_hand(
    source: Seq<char>,
    from: int,
    at: int,
    anchors: Seq<Seq<char>>,
    vocabulary: (Seq<char>, Seq<Seq<char>>),
)
    requires
        0 <= from <= at,
        vocabulary_at(source, at, anchors) == Some(vocabulary),
        is_name(vocabulary.0),
    ensures
        defined_from(source, from, vocabulary.0),
{
    let ending = " = function"@;
    let start = at + "\n  methods."@.len();
    let rest = source.skip(start);
    let end = text::find_from(rest, ending, 0)->Some_0;
    assert(text::first_from(rest, ending, 0, end));
    assert forall|j: int| #[trigger]
        text::occurs_at(source, ending, j) <==> (j < start && text::occurs_at(source, ending, j))
            || text::occurs_at(rest, ending, j - start) by {
        if start <= j && j + ending.len() <= source.len() {
            assert(rest.subrange(j - start, j - start + ending.len()) =~= source.subrange(
                j,
                j + ending.len(),
            ));
        }
        if text::occurs_at(rest, ending, j - start) {
            assert(rest.subrange(j - start, j - start + ending.len()) =~= source.subrange(
                j,
                j + ending.len(),
            ));
        }
    }
    assert(text::occurs_at(source, ending, start + end)) by {
        assert(text::occurs_at(rest, ending, start + end - start));
    }
    assert forall|j: int| start <= j < start + end implies !#[trigger] text::occurs_at(
        source,
        ending,
        j,
    ) by {
        assert(!text::occurs_at(rest, ending, j - start));
    }
    text::lemma_find_from(source, ending, start, start + end);
    assert(source.subrange(start, start + end) =~= rest.take(end));
    assert(definition(source, at) == Some(vocabulary.0));
}

/// How a method is defined on a line of its own: its name, and what it is made by or is.
pub open spec fn method_text(name: Seq<char>, made: Seq<char>) -> Seq<char> {
    "\n  methods."@ + name + " = "@ + made
}

/// How a method is bound to what a function makes of it.
pub open spec fn binding(name: Seq<char>, maker: Seq<char>) -> Seq<char> {
    method_text(name, maker) + "("@
}

/// Whether a function makes methods of the prelude.
pub open spec fn makes_methods(maker: Seq<char>) -> bool {
    maker == "slot"@ || maker == "state"@ || maker == "delay"@
}

/// Whether the line that begins behind a position of a text can be told to define no method.
pub open spec fn other_line(part: Seq<char>, at: int) -> bool {
    ||| at + 1 < part.len() && part[at + 1] != ' '
    ||| at + 2 < part.len() && part[at + 2] != ' '
    ||| at + 3 < part.len() && part[at + 3] != 'm'
    ||| at + 4 < part.len() && part[at + 4] != 'e'
    ||| at + 5 < part.len() && part[at + 5] != 't'
}

/// Whether no line that begins in a part of the prelude defines a method, whatever follows.
pub open spec fn binds_nothing(part: Seq<char>) -> bool {
    forall|at: int| 0 <= at < part.len() && #[trigger] part[at] == '\n' ==> other_line(part, at)
}

/// Whether no line that begins in a part of the prelude defines a method, where another line follows.
pub open spec fn ends_before_line(part: Seq<char>) -> bool {
    forall|at: int|
        0 <= at < part.len() - 1 && #[trigger] part[at] == '\n' ==> other_line(part, at)
}

/// Whether a part of the prelude begins with its opening, the methods which it defines by hand are the
/// owned ones, all behind the opening, and those which it takes from a function that makes them are
/// among the made ones, whatever follows.
#[verifier::opaque]
pub open spec fn accounts_for(
    part: Seq<char>,
    opening: Seq<char>,
    owned: Set<Seq<char>>,
    made: Set<Seq<char>>,
) -> bool {
    &&& opening.len() <= part.len()
    &&& part.take(opening.len() as int) == opening
    &&& forall|rest: Seq<char>, at: int, name: Seq<char>|
        0 <= at < part.len() && #[trigger] definition(part + rest, at) == Some(name) && #[trigger]
            is_name(name) ==> owned.contains(name)
    &&& forall|rest: Seq<char>, name: Seq<char>| #[trigger]
        owned.contains(name) ==> #[trigger] defined_between(
            part + rest,
            opening.len() as int,
            part.len() as int,
            name,
        )
    &&& forall|rest: Seq<char>, at: int, name: Seq<char>, maker: Seq<char>|
        0 <= at < part.len() && is_name(name) && makes_methods(maker) && #[trigger] text::occurs_at(
            part + rest,
            binding(name, maker),
            at,
        ) ==> made.contains(name)
}

/// An opening that defines no method.
pub proof fn lemma_opening(opening: Seq<char>)
    requires
        binds_nothing(opening),
    ensures
        accounts_for(opening, opening, Set::empty(), Set::empty()),
{
    reveal(accounts_for);
    assert(opening.take(opening.len() as int) =~= opening);
    assert forall|rest: Seq<char>, at: int| 0 <= at < opening.len() implies #[trigger] definition(
        opening + rest,
        at,
    ) is None by {
        lemma_other_line(opening + rest, opening, 0, at);
    }
    assert forall|rest: Seq<char>, at: int, name: Seq<char>, maker: Seq<char>|
        0 <= at < opening.len() implies !#[trigger] text::occurs_at(
        opening + rest,
        binding(name, maker),
        at,
    ) by {
        lemma_other_line(opening + rest, opening, 0, at);
    }
}

/// No line that is of another kind defines a method.
proof fn lemma_other_line(all: Seq<char>, part: Seq<char>, before: int, at: int)
    requires
        0 <= before,
        0 <= at < part.len(),
        before + part.len() <= all.len(),
        forall|i: int| 0 <= i < part.len() ==> all[before + i] == #[trigger] part[i],
        part[at] == '\n' ==> other_line(part, at),
    ensures
        definition(all, before + at) is None,
        forall|name: Seq<char>, maker: Seq<char>|
            !#[trigger] text::occurs_at(all, binding(name, maker), before + at),
{
    let mark = "\n  methods."@;
    reveal_strlit("\n  methods.");
    let place = before + at;
    assert(!text::occurs_at(all, mark, place)) by {
        if text::occurs_at(all, mark, place) {
            let found = all.subrange(place, place + 11);
            assert(found[0] == all[place]);
            assert(found[1] == all[place + 1]);
            assert(found[2] == all[place + 2]);
            assert(found[3] == all[place + 3]);
            assert(found[4] == all[place + 4]);
            assert(found[5] == all[place + 5]);
            assert(all[before + at] == part[at]);
            if at + 1 < part.len() {
                assert(all[before + (at + 1)] == part[at + 1]);
            }
            if at + 2 < part.len() {
                assert(all[before + (at + 2)] == part[at + 2]);
            }
            if at + 3 < part.len() {
                assert(all[before + (at + 3)] == part[at + 3]);
            }
            if at + 4 < part.len() {
                assert(all[before + (at + 4)] == part[at + 4]);
            }
            if at + 5 < part.len() {
                assert(all[before + (at + 5)] == part[at + 5]);
            }
        }
    }
    assert forall|name: Seq<char>, maker: Seq<char>|
        !#[trigger] text::occurs_at(all, binding(name, maker), place) by {
        if text::occurs_at(all, binding(name, maker), place) {
            lemma_binding_marked(all, name, maker, place);
        }
    }
}

proof fn lemma_binding_marked(all: Seq<char>, name: Seq<char>, maker: Seq<char>, at: int)
    requires
        text::occurs_at(all, binding(name, maker), at),
    ensures
        text::occurs_at(all, "\n  methods."@, at),
        text::occurs_at(all, method_text(name, maker), at),
{
    let whole = binding(name, maker);
    let line = method_text(name, maker);
    let mark = "\n  methods."@;
    assert forall|i: int| 0 <= i < whole.len() implies #[trigger] whole[i] == all[at + i] by {
        assert(all.subrange(at, at + whole.len())[i] == all[at + i]);
    }
    assert(all.subrange(at, at + line.len()) =~= line) by {
        assert forall|i: int| 0 <= i < line.len() implies all[at + i] == #[trigger] line[i] by {
            assert(whole[i] == line[i]);
        }
    }
    assert(all.subrange(at, at + mark.len()) =~= mark) by {
        assert forall|i: int| 0 <= i < mark.len() implies all[at + i] == #[trigger] mark[i] by {
            assert(whole[i] == mark[i]);
        }
    }
}

/// A part in which no method is defined changes nothing.
pub proof fn lemma_part(
    before: Seq<char>,
    part: Seq<char>,
    opening: Seq<char>,
    owned: Set<Seq<char>>,
    made: Set<Seq<char>>,
)
    requires
        accounts_for(before, opening, owned, made),
        binds_nothing(part),
    ensures
        accounts_for(before + part, opening, owned, made),
{
    reveal(accounts_for);
    lemma_more(before, part, opening, owned, made);
    let both = before + part;
    assert(both.take(opening.len() as int) =~= before.take(opening.len() as int));
    assert forall|rest: Seq<char>, at: int| before.len() <= at < both.len() implies #[trigger]
        definition(both + rest, at) is None by {
        lemma_other_line(both + rest, part, before.len() as int, at - before.len());
    }
    assert forall|rest: Seq<char>, at: int, name: Seq<char>, maker: Seq<char>|
        before.len() <= at < both.len() implies !#[trigger] text::occurs_at(
        both + rest,
        binding(name, maker),
        at,
    ) by {
        lemma_other_line(both + rest, part, before.len() as int, at - before.len());
    }
}

/// What a part accounts for is so with more of the prelude behind it.
proof fn lemma_more(
    before: Seq<char>,
    part: Seq<char>,
    opening: Seq<char>,
    owned: Set<Seq<char>>,
    made: Set<Seq<char>>,
)
    requires
        accounts_for(before, opening, owned, made),
    ensures
        forall|rest: Seq<char>, at: int, name: Seq<char>|
            0 <= at < before.len() && #[trigger] definition(before + part + rest, at) == Some(name)
                && #[trigger] is_name(name) ==> owned.contains(name),
        forall|rest: Seq<char>, name: Seq<char>| #[trigger]
            owned.contains(name) ==> #[trigger] defined_between(
                before + part + rest,
                opening.len() as int,
                (before + part).len() as int,
                name,
            ),
        forall|rest: Seq<char>, at: int, name: Seq<char>, maker: Seq<char>|
            0 <= at < before.len() && is_name(name) && makes_methods(maker)
                && #[trigger] text::occurs_at(before + part + rest, binding(name, maker), at)
                ==> made.contains(name),
{
    reveal(accounts_for);
    assert forall|rest: Seq<char>| #[trigger] (before + part + rest) == before + (part + rest) by {
        assert(before + part + rest =~= before + (part + rest));
    }
    assert forall|rest: Seq<char>, name: Seq<char>| #[trigger]
        owned.contains(name) implies #[trigger] defined_between(
        before + part + rest,
        opening.len() as int,
        (before + part).len() as int,
        name,
    ) by {
        assert(defined_between(before + (part + rest), opening.len() as int, before.len() as int, name));
        let at = choose|at: int|
            opening.len() <= at < before.len() && #[trigger] definition(before + (part + rest), at) == Some(
                name,
            ) && is_name(name);
        assert(definition(before + part + rest, at) == Some(name));
    }
}

/// The characters of the line that defines a method.
proof fn lemma_line(all: Seq<char>, at: int, name: Seq<char>, made: Seq<char>)
    requires
        text::occurs_at(all, method_text(name, made), at),
    ensures
        text::occurs_at(all, "\n  methods."@, at),
        "\n  methods."@.len() == 11,
        at + 11 + name.len() + 3 + made.len() <= all.len(),
        forall|i: int| 0 <= i < name.len() ==> all[at + 11 + i] == #[trigger] name[i],
        all[at + 11 + name.len()] == ' ',
        all[at + 11 + name.len() + 1] == '=',
        all[at + 11 + name.len() + 2] == ' ',
        forall|i: int| 0 <= i < made.len() ==> all[at + 11 + name.len() + 3 + i] == #[trigger] made[i],
{
    let line = method_text(name, made);
    let mark = "\n  methods."@;
    let equals = " = "@;
    reveal_strlit("\n  methods.");
    reveal_strlit(" = ");
    assert forall|i: int| 0 <= i < line.len() implies #[trigger] line[i] == all[at + i] by {
        assert(all.subrange(at, at + line.len())[i] == all[at + i]);
    }
    assert(all.subrange(at, at + mark.len()) =~= mark) by {
        assert forall|i: int| 0 <= i < mark.len() implies all[at + i] == #[trigger] mark[i] by {
            assert(line[i] == mark[i]);
        }
    }
    assert forall|i: int| 0 <= i < name.len() implies all[at + 11 + i] == #[trigger] name[i] by {
        assert(line[11 + i] == name[i]);
    }
    assert(line[11 + name.len() as int] == equals[0]);
    assert(line[11 + name.len() as int + 1] == equals[1]);
    assert(line[11 + name.len() as int + 2] == equals[2]);
    assert forall|i: int| 0 <= i < made.len() implies all[at + 11 + name.len() + 3 + i]
        == #[trigger] made[i] by {
        assert(line[11 + name.len() + 3 + i] == made[i]);
    }
}

/// A line that defines a method by hand gives its name.
proof fn lemma_function_line(all: Seq<char>, at: int, name: Seq<char>)
    requires
        is_name(name),
        text::occurs_at(all, method_text(name, "function"@), at),
    ensures
        definition(all, at) == Some(name),
{
    let ending = " = function"@;
    let start = at + 11;
    lemma_line(all, at, name, "function"@);
    reveal_strlit(" = function");
    reveal_strlit("function");
    let word = "function"@;
    assert(all.subrange(start + name.len(), start + name.len() + 11) =~= ending) by {
        assert(all[start + name.len() + 3 + 0] == word[0]);
        assert(all[start + name.len() + 3 + 1] == word[1]);
        assert(all[start + name.len() + 3 + 2] == word[2]);
        assert(all[start + name.len() + 3 + 3] == word[3]);
        assert(all[start + name.len() + 3 + 4] == word[4]);
        assert(all[start + name.len() + 3 + 5] == word[5]);
        assert(all[start + name.len() + 3 + 6] == word[6]);
        assert(all[start + name.len() + 3 + 7] == word[7]);
    }
    assert forall|j: int| start <= j < start + name.len() implies !#[trigger] text::occurs_at(
        all,
        ending,
        j,
    ) by {
        assert(name_char(name[j - start]));
        assert(all[at + 11 + (j - start)] == name[j - start]);
        if text::occurs_at(all, ending, j) {
            assert(all.subrange(j, j + 11)[0] == ' ');
        }
    }
    assert(text::occurs_at(all, ending, start + name.len()));
    text::lemma_find_from(all, ending, start, start + name.len());
    assert(all.subrange(start, start + name.len()) =~= name);
}

/// A line that takes a method from a function gives no name.
proof fn lemma_made_line(all: Seq<char>, at: int, name: Seq<char>, maker: Seq<char>)
    requires
        is_name(name),
        makes_methods(maker),
        text::occurs_at(all, method_text(name, maker), at),
    ensures
        definition(all, at) matches Some(found) ==> !is_name(found),
{
    let ending = " = function"@;
    let start = at + 11;
    lemma_line(all, at, name, maker);
    reveal_strlit(" = function");
    reveal_strlit("slot");
    reveal_strlit("state");
    reveal_strlit("delay");
    if definition(all, at) is Some {
        let found = definition(all, at)->Some_0;
        let end = text::find_from(all, ending, start)->Some_0;
        assert(text::first_from(all, ending, start, end));
        let window = all.subrange(end, end + 11);
        assert(window[0] == ' ' && window[3] == 'f');
        if end < start + name.len() {
            assert(name_char(name[end - start]));
            assert(all[at + 11 + (end - start)] == name[end - start]);
        } else if end == start + name.len() {
            assert(all[at + 11 + name.len() + 3 + 0] == maker[0]);
            assert(window[3] == all[end + 3]);
        } else {
            assert(found[name.len() as int] == all[start + name.len()]);
            assert(!name_char(found[name.len() as int]));
        }
    }
}

/// A line defines one method, and in one way.
proof fn lemma_one_line(
    all: Seq<char>,
    at: int,
    name: Seq<char>,
    made: Seq<char>,
    found: Seq<char>,
    maker: Seq<char>,
)
    requires
        is_name(name),
        is_name(found),
        makes_methods(maker),
        text::occurs_at(all, method_text(name, made), at),
        text::occurs_at(all, method_text(found, maker), at),
    ensures
        found == name,
        made != "function"@,
{
    lemma_line(all, at, name, made);
    lemma_line(all, at, found, maker);
    if found.len() < name.len() {
        assert(name_char(name[found.len() as int]));
        assert(all[at + 11 + found.len()] == name[found.len() as int]);
    }
    if name.len() < found.len() {
        assert(name_char(found[name.len() as int]));
        assert(all[at + 11 + name.len()] == found[name.len() as int]);
    }
    assert forall|i: int| 0 <= i < name.len() implies found[i] == name[i] by {
        assert(all[at + 11 + i] == name[i]);
        assert(all[at + 11 + i] == found[i]);
    }
    assert(found =~= name);
    reveal_strlit("function");
    reveal_strlit("slot");
    reveal_strlit("state");
    reveal_strlit("delay");
    if made == "function"@ {
        assert(all[at + 11 + name.len() + 3 + 0] == made[0]);
        assert(all[at + 11 + name.len() + 3 + 0] == maker[0]);
    }
}

/// Behind a part and a line that defines a method, what holds of each place where a line begins.
proof fn lemma_places(
    before: Seq<char>,
    part: Seq<char>,
    name: Seq<char>,
    made: Seq<char>,
    rest: Seq<char>,
    at: int,
)
    requires
        is_name(name),
        ends_before_line(part),
        forall|i: int| 0 <= i < made.len() ==> #[trigger] made[i] != '\n',
        before.len() <= at < (before + part + method_text(name, made)).len(),
        at != before.len() + part.len(),
    ensures
        definition(before + part + method_text(name, made) + rest, at) is None,
        forall|found: Seq<char>, maker: Seq<char>|
            !#[trigger] text::occurs_at(
                before + part + method_text(name, made) + rest,
                binding(found, maker),
                at,
            ),
{
    let line = method_text(name, made);
    let whole = part + line;
    let all = before + part + line + rest;
    reveal_strlit("\n  methods.");
    reveal_strlit(" = ");
    assert forall|i: int| 0 <= i < whole.len() implies all[before.len() + i] == #[trigger] whole[i] by {}
    let i = at - before.len();
    if whole[i] == '\n' {
        if i < part.len() - 1 {
            assert(part[i] == '\n');
            assert(other_line(part, i));
            assert(other_line(whole, i));
        } else if i == part.len() - 1 {
            assert(whole[i + 1] == line[0]);
            assert(line[0] == '\n');
        } else {
            let k = i - part.len();
            assert(line[k] == '\n');
            if 11 <= k < 11 + name.len() {
                assert(line[k] == name[k - 11]);
                assert(name_char(name[k - 11]));
            } else if k >= 11 + name.len() + 3 {
                assert(line[k] == made[k - 11 - name.len() - 3]);
            }
        }
    }
    lemma_other_line(all, whole, before.len() as int, i);
}

/// A method that is defined by hand is owned.
pub proof fn lemma_defined_method(
    before: Seq<char>,
    part: Seq<char>,
    name: Seq<char>,
    opening: Seq<char>,
    owned: Set<Seq<char>>,
    made: Set<Seq<char>>,
)
    requires
        accounts_for(before, opening, owned, made),
        ends_before_line(part),
        is_name(name),
    ensures
        accounts_for(
            before + part + method_text(name, "function"@),
            opening,
            owned.insert(name),
            made,
        ),
{
    reveal(accounts_for);
    let line = method_text(name, "function"@);
    let both = before + part + line;
    let spot = (before + part).len() as int;
    reveal_strlit("function");
    lemma_more(before, part + line, opening, owned, made);
    assert(before + (part + line) =~= both);
    assert(both.take(opening.len() as int) =~= before.take(opening.len() as int));
    assert forall|rest: Seq<char>| #[trigger] definition(both + rest, spot) == Some(name) by {
        assert((both + rest).subrange(spot, spot + line.len()) =~= line);
        lemma_function_line(both + rest, spot, name);
    }
    assert forall|rest: Seq<char>, at: int, x: Seq<char>|
        0 <= at < both.len() && #[trigger] definition(both + rest, at) == Some(x) && #[trigger]
            is_name(x) implies owned.insert(name).contains(x) by {
        if at >= before.len() && at != spot {
            lemma_places(before, part, name, "function"@, rest, at);
        }
    }
    assert forall|rest: Seq<char>, x: Seq<char>| #[trigger]
        owned.insert(name).contains(x) implies #[trigger] defined_between(
        both + rest,
        opening.len() as int,
        both.len() as int,
        x,
    ) by {
        if x == name {
            assert(definition(both + rest, spot) == Some(x));
        } else {
            assert(owned.contains(x));
        }
    }
    assert forall|rest: Seq<char>, at: int, x: Seq<char>, maker: Seq<char>|
        0 <= at < both.len() && is_name(x) && makes_methods(maker) && #[trigger] text::occurs_at(
            both + rest,
            binding(x, maker),
            at,
        ) implies made.contains(x) by {
        if at == spot {
            assert((both + rest).subrange(spot, spot + line.len()) =~= line);
            lemma_binding_marked(both + rest, x, maker, at);
            lemma_one_line(both + rest, at, name, "function"@, x, maker);
        } else if at >= before.len() {
            lemma_places(before, part, name, "function"@, rest, at);
        }
    }
}

/// A method that is taken from a function which makes it is not owned.
pub proof fn lemma_made_method(
    before: Seq<char>,
    part: Seq<char>,
    name: Seq<char>,
    from: Seq<char>,
    opening: Seq<char>,
    owned: Set<Seq<char>>,
    made: Set<Seq<char>>,
)
    requires
        accounts_for(before, opening, owned, made),
        ends_before_line(part),
        is_name(name),
        makes_methods(from),
    ensures
        accounts_for(before + part + method_text(name, from), opening, owned, made.insert(name)),
{
    reveal(accounts_for);
    let line = method_text(name, from);
    let both = before + part + line;
    let spot = (before + part).len() as int;
    reveal_strlit("slot");
    reveal_strlit("state");
    reveal_strlit("delay");
    lemma_more(before, part + line, opening, owned, made);
    assert(before + (part + line) =~= both);
    assert(both.take(opening.len() as int) =~= before.take(opening.len() as int));
    assert forall|rest: Seq<char>, at: int, x: Seq<char>|
        0 <= at < both.len() && #[trigger] definition(both + rest, at) == Some(x) && #[trigger]
            is_name(x) implies owned.contains(x) by {
        if at == spot {
            assert((both + rest).subrange(spot, spot + line.len()) =~= line);
            lemma_made_line(both + rest, spot, name, from);
        } else if at >= before.len() {
            lemma_places(before, part, name, from, rest, at);
        }
    }
    assert forall|rest: Seq<char>, at: int, x: Seq<char>, maker: Seq<char>|
        0 <= at < both.len() && is_name(x) && makes_methods(maker) && #[trigger] text::occurs_at(
            both + rest,
            binding(x, maker),
            at,
        ) implies made.insert(name).contains(x) by {
        if at == spot {
            assert((both + rest).subrange(spot, spot + line.len()) =~= line);
            lemma_binding_marked(both + rest, x, maker, at);
            lemma_one_line(both + rest, at, name, from, x, maker);
        } else if at >= before.len() {
            lemma_places(before, part, name, from, rest, at);
        }
    }
}

/// The methods that are defined by hand in a text whose last characters define none.
pub proof fn lemma_all_accounted_for(
    part: Seq<char>,
    end: Seq<char>,
    from: int,
    opening: Seq<char>,
    owned: Set<Seq<char>>,
    made: Set<Seq<char>>,
    name: Seq<char>,
)
    requires
        accounts_for(part, opening, owned, made),
        end.len() == 1,
        0 <= from <= opening.len(),
    ensures
        defined_from(part + end, from, name) <==> owned.contains(name),
{
    reveal(accounts_for);
    let all = part + end;
    reveal_strlit("\n  methods.");
    if defined_from(all, from, name) {
        let at = choose|at: int|
            from <= at && #[trigger] definition(all, at) == Some(name) && is_name(name);
        assert(text::occurs_at(all, "\n  methods."@, at));
        assert(at < part.len());
    }
    if owned.contains(name) {
        assert(defined_between(part + end, opening.len() as int, part.len() as int, name));
        let at = choose|at: int|
            opening.len() <= at < part.len() && #[trigger] definition(all, at) == Some(name) && is_name(
                name,
            );
        assert(from <= at && definition(all, at) == Some(name));
    }
}

/// A text begins with its opening.
pub proof fn lemma_begins(
    part: Seq<char>,
    opening: Seq<char>,
    owned: Set<Seq<char>>,
    made: Set<Seq<char>>,
)
    requires
        accounts_for(part, opening, owned, made),
    ensures
        opening.len() <= part.len(),
        forall|i: int| 0 <= i < opening.len() ==> part[i] == #[trigger] opening[i],
{
    reveal(accounts_for);
    assert forall|i: int| 0 <= i < opening.len() implies part[i] == #[trigger] opening[i] by {
        assert(part.take(opening.len() as int)[i] == part[i]);
    }
}

/// A method that is bound to what a function makes of it is among those which are.
pub proof fn lemma_made_accounted_for(
    part: Seq<char>,
    end: Seq<char>,
    opening: Seq<char>,
    owned: Set<Seq<char>>,
    made: Set<Seq<char>>,
    name: Seq<char>,
    maker: Seq<char>,
    at: int,
)
    requires
        accounts_for(part, opening, owned, made),
        end.len() == 1,
        is_name(name),
        makes_methods(maker),
        text::occurs_at(part + end, binding(name, maker), at),
    ensures
        made.contains(name),
{
    reveal(accounts_for);
    lemma_binding_marked(part + end, name, maker, at);
    reveal_strlit("\n  methods.");
    assert(at < part.len());
}

/// Taking characters off an end takes off all that stand there, and nothing else.
pub proof fn law_trimming_takes_off_the_ends(s: Seq<char>, trim: Trim) -> (r: (int, int))
    ensures
        0 <= r.0 <= s.len(),
        trimmed_front(s, trim) == s.skip(r.0),
        forall|i: int| 0 <= i < r.0 ==> trims(trim, #[trigger] s[i]),
        r.0 < s.len() ==> !trims(trim, s[r.0]),
        0 <= r.1 <= s.len(),
        trimmed_end(s, trim) == s.take(r.1),
        forall|i: int| r.1 <= i < s.len() ==> trims(trim, #[trigger] s[i]),
        r.1 > 0 ==> !trims(trim, s[r.1 - 1]),
    decreases s.len(),
{
    if s.len() == 0 {
        assert(s.skip(0) =~= s);
        assert(s.take(0) =~= s);
        (0, 0)
    } else {
        let front = if trims(trim, s[0]) {
            let later = law_trimming_takes_off_the_ends(s.skip(1), trim).0;
            assert(s.skip(1).skip(later) =~= s.skip(later + 1));
            assert forall|i: int| 0 <= i < later + 1 implies trims(trim, #[trigger] s[i]) by {
                if i > 0 {
                    assert(s.skip(1)[i - 1] == s[i]);
                }
            }
            later + 1
        } else {
            assert(s.skip(0) =~= s);
            0
        };
        let end = if trims(trim, s.last()) {
            let fewer = law_trimming_takes_off_the_ends(s.drop_last(), trim).1;
            assert(s.drop_last().take(fewer) =~= s.take(fewer));
            assert forall|i: int| fewer <= i < s.len() implies trims(trim, #[trigger] s[i]) by {
                if i < s.len() - 1 {
                    assert(s.drop_last()[i] == s[i]);
                }
            }
            fewer
        } else {
            assert(s.take(s.len() as int) =~= s);
            s.len() as int
        };
        (front, end)
    }
}

proof fn lemma_trims_to(s: Seq<char>, before: Seq<char>, inner: Seq<char>, after: Seq<char>, trim:
    Trim)
    requires
        s == before + inner + after,
        forall|i: int| 0 <= i < before.len() ==> trims(trim, #[trigger] before[i]),
        forall|i: int| 0 <= i < after.len() ==> trims(trim, #[trigger] after[i]),
        inner.len() > 0,
        !trims(trim, inner[0]),
        !trims(trim, inner.last()),
    ensures
        trimmed_end(trimmed_front(s, trim), trim) == inner,
{
    let front = law_trimming_takes_off_the_ends(s, trim).0;
    let b = before.len() as int;
    assert(s[b] == inner[0]);
    if front < b {
        assert(s[front] == before[front]);
    }
    assert(front == b);
    let rest = s.skip(b);
    assert(rest =~= inner + after);
    let end = law_trimming_takes_off_the_ends(rest, trim).1;
    let n = inner.len() as int;
    assert(rest[n - 1] == inner.last());
    if end > n {
        assert(rest[end - 1] == after[end - 1 - n]);
    }
    assert(end == n);
    assert(rest.take(n) =~= inner);
}

/// A quoted word is read as it is, whatever white space stands around it.
pub proof fn law_a_quoted_word_is_read_as_it_is(
    before: Seq<char>,
    inner: Seq<char>,
    after: Seq<char>,
)
    requires
        forall|i: int| 0 <= i < before.len() ==> #[trigger] before[i] == ' ' || before[i] == '\n',
        forall|i: int| 0 <= i < after.len() ==> #[trigger] after[i] == ' ' || after[i] == '\n',
        inner.len() > 0,
        forall|i: int| 0 <= i < inner.len() ==> #[trigger] inner[i] != '"',
    ensures
        word(before + (seq!['"'] + inner + seq!['"']) + after) == seq![inner],
{
    let quoted = seq!['"'] + inner + seq!['"'];
    let part = before + quoted + after;
    assert(quoted[0] == '"');
    assert(quoted.last() == '"');
    lemma_trims_to(part, before, quoted, after, Trim::White);
    lemma_trims_to(quoted, seq!['"'], inner, seq!['"'], Trim::Quotes);
}

proof fn lemma_comma(s: Seq<char>, from: int)
    requires
        0 <= from <= s.len(),
    ensures
        from <= comma(s, from) <= s.len(),
        forall|i: int| from <= i < comma(s, from) ==> #[trigger] s[i] != ',',
        comma(s, from) < s.len() ==> s[comma(s, from)] == ',',
    decreases s.len() - from,
{
    if from < s.len() && s[from] != ',' {
        lemma_comma(s, from + 1);
    }
}

proof fn lemma_words_behind(a: Seq<char>, b: Seq<char>, k: int)
    requires
        0 <= k <= b.len(),
    ensures
        words_from(a + b, a.len() + k) == words_from(b, k),
    decreases b.len() - k,
{
    let s = a + b;
    let n = a.len() as int;
    lemma_comma(b, k);
    lemma_comma(s, n + k);
    let end = comma(b, k);
    let shifted = comma(s, n + k);
    if shifted < n + end {
        assert(s[shifted] == b[shifted - n]);
    }
    if n + end < shifted {
        assert(s[n + end] == b[end]);
    }
    assert(s.subrange(n + k, n + end) =~= b.subrange(k, end));
    if end < b.len() {
        lemma_words_behind(a, b, end + 1);
    }
}

proof fn lemma_words_to(a: Seq<char>, b: Seq<char>, from: int)
    requires
        0 <= from <= a.len(),
    ensures
        words_from(a + seq![','] + b, from) == words_from(a, from) + words_from(b, 0),
    decreases a.len() - from,
{
    let s = a + seq![','] + b;
    let n = a.len() as int;
    lemma_comma(a, from);
    lemma_comma(s, from);
    let end = comma(a, from);
    let same = comma(s, from);
    assert(s[n] == ',');
    assert forall|i: int| 0 <= i < n implies #[trigger] s[i] == a[i] by {}
    if same < end {
        assert(s[same] == a[same]);
    }
    if end < same {
        assert(s[end] == ',');
    }
    assert(s.subrange(from, end) =~= a.subrange(from, end));
    if end < n {
        lemma_words_to(a, b, end + 1);
        assert(words_from(s, from) =~= words_from(a, from) + words_from(b, 0));
    } else {
        lemma_words_behind(a + seq![','], b, 0);
    }
}

/// The words on both sides of a comma are read in order, each side for itself; a part without a
/// comma is one word, or none.
pub proof fn law_a_comma_separates_words(a: Seq<char>, b: Seq<char>)
    ensures
        words_from(a + seq![','] + b, 0) == words_from(a, 0) + words_from(b, 0),
        (forall|i: int| 0 <= i < a.len() ==> #[trigger] a[i] != ',') ==> words_from(a, 0) == word(a),
{
    lemma_words_to(a, b, 0);
    lemma_comma(a, 0);
    assert(a.subrange(0, a.len() as int) =~= a);
}

/// A definition that checks its argument against a list in brackets takes the words of that list,
/// unless it checks against the names of the anchors.
pub proof fn law_a_check_takes_the_words_between_its_brackets(
    before: Seq<char>,
    inner: Seq<char>,
    after: Seq<char>,
    anchors: Seq<Seq<char>>,
)
    requires
        forall|i: int| 0 <= i < before.len() ==> #[trigger] before[i] != '[',
        forall|i: int| 0 <= i < inner.len() ==> #[trigger] inner[i] != ']',
        words_from(inner, 0).len() > 0,
    ensures
        ({
            let body = before + seq!['['] + inner + "].includes(value)"@ + after;
            let anchored = exists|at: int| text::occurs_at(body, "__anchorNames.includes"@, at);
            checked_words(body, anchors) == Some(
                if anchored {
                    anchors
                } else {
                    words_from(inner, 0)
                },
            )
        }),
{
    let anchor = "__anchorNames.includes"@;
    let closing = "].includes(value)"@;
    let body = before + seq!['['] + inner + closing + after;
    reveal_strlit("[");
    reveal_strlit("].includes(value)");
    assert(closing.len() == 17 && closing[0] == ']');
    let open = before.len() as int;
    assert("["@ =~= seq!['[']);
    if exists|at: int| text::occurs_at(body, anchor, at) {
        let at = choose|at: int| text::occurs_at(body, anchor, at);
        text::lemma_some_first(body, anchor, 0, at);
    } else {
        text::lemma_find_from_none(body, anchor, 0);
        assert(body.subrange(open, open + 1) =~= "["@);
        assert forall|j: int| 0 <= j < open implies !#[trigger] text::occurs_at(body, "["@, j) by {
            if text::occurs_at(body, "["@, j) {
                assert(body.subrange(j, j + 1)[0] == before[j]);
            }
        }
        text::lemma_find_from(body, "["@, 0, open);
        let rest = body.skip(open);
        let close = inner.len() as int + 1;
        assert(rest =~= seq!['['] + inner + closing + after);
        assert(rest.subrange(close, close + closing.len()) =~= closing);
        assert forall|j: int| 0 <= j < close implies !#[trigger] text::occurs_at(
            rest,
            closing,
            j,
        ) by {
            if text::occurs_at(rest, closing, j) {
                assert(rest.subrange(j, j + closing.len())[0] == rest[j]);
                if j > 0 {
                    assert(rest[j] == inner[j - 1]);
                }
            }
        }
        text::lemma_find_from(rest, closing, 0, close);
        assert(rest.subrange(1, close) =~= inner);
    }
}

/// A definition ends where it closes: what follows does not count for it.
pub proof fn law_a_definition_ends_where_it_closes(rest: Seq<char>, close: int)
    requires
        text::first_from(rest, "\n  };"@, 0, close),
    ensures
        body_of(rest) == rest.subrange(0, close),
        text::find_from(body_of(rest), "\n  };"@, 0) is None,
{
    let ending = "\n  };"@;
    text::lemma_find_from(rest, ending, 0, close);
    assert(rest.take(close) =~= rest.subrange(0, close));
    reveal_strlit("\n  };");
    assert(ending.len() == 5);
    let body = rest.take(close);
    assert forall|j: int| 0 <= j implies !#[trigger] text::occurs_at(body, ending, j) by {
        if text::occurs_at(body, ending, j) {
            assert(rest.subrange(j, j + 5) =~= body.subrange(j, j + 5));
            assert(text::occurs_at(rest, ending, j));
        }
    }
}

/// Vocabularies and lists of words have one order: of two that differ, one comes before the other
/// and not the other before it; a list comes before all that continue it.
pub proof fn law_vocabularies_have_one_order(
    a: (Seq<char>, Seq<Seq<char>>),
    b: (Seq<char>, Seq<Seq<char>>),
    more: Seq<Seq<char>>,
)
    ensures
        a != b ==> (vocabulary_before(a, b) <==> !vocabulary_before(b, a)),
        !vocabulary_before(a, a),
        more.len() > 0 ==> vocabulary_before(a, (a.0, a.1 + more)),
{
    lemma_one_order(a.1, b.1);
    lemma_one_order(a.1, a.1);
    if more.len() > 0 {
        lemma_continued(a.1, more);
    }
    lemma_text_order(a.0, b.0);
}

proof fn lemma_text_order(a: Seq<char>, b: Seq<char>)
    ensures
        a != b ==> (text::text_before(a, b) <==> !text::text_before(b, a)),
        !text::text_before(a, a),
{
    text::lemma_before_total(a, b);
    lemma_not_before_itself(a);
    if text::text_before(a, b) && text::text_before(b, a) {
        text::lemma_before_transitive(a, b, a);
    }
}

proof fn lemma_not_before_itself(a: Seq<char>)
    ensures
        !text::text_before(a, a),
    decreases a.len(),
{
    if a.len() > 0 {
        lemma_not_before_itself(a.skip(1));
    }
}

proof fn lemma_one_order(a: Seq<Seq<char>>, b: Seq<Seq<char>>)
    ensures
        a != b ==> (list_before(a, b) <==> !list_before(b, a)),
        a == b ==> !list_before(a, b),
    decreases a.len(),
{
    if a.len() > 0 && b.len() > 0 {
        if a[0] == b[0] {
            lemma_one_order(a.skip(1), b.skip(1));
            if a.skip(1) == b.skip(1) {
                assert(a =~= seq![a[0]] + a.skip(1));
                assert(b =~= seq![b[0]] + b.skip(1));
            }
        } else {
            lemma_text_order(a[0], b[0]);
        }
    } else if a.len() == b.len() {
        assert(a =~= b);
    }
}

proof fn lemma_continued(a: Seq<Seq<char>>, more: Seq<Seq<char>>)
    requires
        more.len() > 0,
    ensures
        list_before(a, a + more),
    decreases a.len(),
{
    if a.len() > 0 {
        lemma_continued(a.skip(1), more);
        assert((a + more).skip(1) =~= a.skip(1) + more);
    }
}

} // verus!
