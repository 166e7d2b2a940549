//! Character-level operations on text, with their meaning stated over sequences of characters.
use vstd::prelude::*;
use vstd::string::*;
use vstd::utf8::*;

verus! {

/// `String::push` appends one character at the end of the string and changes nothing before it.
pub assume_specification[ std::string::String::push ](s: &mut std::string::String, c: char)
    ensures
        final(s)@ == old(s)@.push(c),
;

/// Whether `pattern` stands in `s` at position `at`.
pub open spec fn occurs_at(s: Seq<char>, pattern: Seq<char>, at: int) -> bool {
    &&& 0 <= at
    &&& at + pattern.len() <= s.len()
    &&& s.subrange(at, at + pattern.len()) == pattern
}

/// Whether `at` is the first position at or after `from` at which `pattern` stands in `s`.
pub open spec fn first_from(s: Seq<char>, pattern: Seq<char>, from: int, at: int) -> bool {
    &&& from <= at
    &&& occurs_at(s, pattern, at)
    &&& forall|j: int| from <= j < at ==> !#[trigger] occurs_at(s, pattern, j)
}

/// The first position at or after `from` at which `pattern` stands in `s`.
pub open spec fn find_from(s: Seq<char>, pattern: Seq<char>, from: int) -> Option<int> {
    if exists|at: int| first_from(s, pattern, from, at) {
        Some(choose|at: int| first_from(s, pattern, from, at))
    } else {
        None
    }
}

/// Whether `at` is the last position at which `pattern` stands in `s`.
pub open spec fn last_at(s: Seq<char>, pattern: Seq<char>, at: int) -> bool {
    &&& occurs_at(s, pattern, at)
    &&& forall|j: int| at < j ==> !#[trigger] occurs_at(s, pattern, j)
}

/// The last position at which `pattern` stands in `s`.
pub open spec fn find_last(s: Seq<char>, pattern: Seq<char>) -> Option<int> {
    if exists|at: int| last_at(s, pattern, at) {
        Some(choose|at: int| last_at(s, pattern, at))
    } else {
        None
    }
}

/// A position that is the first occurrence is what `find_from` gives.
pub proof fn lemma_find_from(s: Seq<char>, pattern: Seq<char>, from: int, at: int)
    requires
        first_from(s, pattern, from, at),
    ensures
        find_from(s, pattern, from) == Some(at),
{
    let found = choose|a: int| first_from(s, pattern, from, a);
    assert(first_from(s, pattern, from, found));
    if found < at {
        assert(!occurs_at(s, pattern, found));
    }
    if at < found {
        assert(!occurs_at(s, pattern, at));
    }
}

/// Where the pattern stands nowhere at or after `from`, `find_from` gives nothing.
pub proof fn lemma_find_from_none(s: Seq<char>, pattern: Seq<char>, from: int)
    requires
        forall|j: int| from <= j ==> !#[trigger] occurs_at(s, pattern, j),
    ensures
        find_from(s, pattern, from) is None,
{
}

/// A position that is the last occurrence is what `find_last` gives.
pub proof fn lemma_find_last(s: Seq<char>, pattern: Seq<char>, at: int)
    requires
        last_at(s, pattern, at),
    ensures
        find_last(s, pattern) == Some(at),
{
    let found = choose|a: int| last_at(s, pattern, a);
    assert(last_at(s, pattern, found));
    if found < at {
        assert(!occurs_at(s, pattern, at));
    }
    if at < found {
        assert(!occurs_at(s, pattern, found));
    }
}

/// Whether two strings hold the same characters.
pub fn same(a: &str, b: &str) -> (r: bool)
    ensures
        r == (a@ == b@),
{
    proof {
        encode_utf8_decode_utf8(a@);
        encode_utf8_decode_utf8(b@);
    }
    let left = a.as_bytes();
    let right = b.as_bytes();
    if left.len() != right.len() {
        return false;
    }
    let mut i: usize = 0;
    while i < left.len()
        invariant
            i <= left@.len(),
            left@.len() == right@.len(),
            left@ == encode_utf8(a@),
            right@ == encode_utf8(b@),
            left@.take(i as int) == right@.take(i as int),
        decreases left@.len() - i,
    {
        if left[i] != right[i] {
            return false;
        }
        assert(left@.take(i + 1) =~= left@.take(i as int).push(left@[i as int]));
        assert(right@.take(i + 1) =~= right@.take(i as int).push(right@[i as int]));
        i += 1;
    }
    assert(left@.take(i as int) =~= left@);
    assert(right@.take(i as int) =~= right@);
    true
}

/// The length of the text in bytes.
pub open spec fn byte_len(s: Seq<char>) -> nat {
    encode_utf8(s).len()
}

/// The length of the text in bytes.
pub fn bytes_in(s: &str) -> (r: usize)
    ensures
        r == byte_len(s@),
{
    s.as_bytes().len()
}

/// The characters of a string.
pub fn chars_of(s: &str) -> (r: Vec<char>)
    ensures
        r@ == s@,
{
    let mut out: Vec<char> = Vec::new();
    for c in it: s.chars()
        invariant
            out@ == it.seq().take(it.index()),
            it.seq() == s@,
    {
        out.push(c);
    }
    out
}

/// The string of the characters from `from` up to `to`.
pub fn slice_text(chars: &Vec<char>, from: usize, to: usize) -> (r: String)
    requires
        from <= to <= chars@.len(),
    ensures
        r@ == chars@.subrange(from as int, to as int),
{
    let mut out = String::new();
    let mut i: usize = from;
    while i < to
        invariant
            from <= i <= to <= chars@.len(),
            out@ == chars@.subrange(from as int, i as int),
        decreases to - i,
    {
        out.push(chars[i]);
        assert(chars@.subrange(from as int, i + 1) =~= chars@.subrange(from as int, i as int).push(
            chars@[i as int],
        ));
        i += 1;
    }
    out
}

/// `a` followed by `b`.
pub fn join2(a: &str, b: &str) -> (r: String)
    ensures
        r@ == a@ + b@,
{
    let mut out = a.to_owned();
    out.append(b);
    out
}

/// `a`, `b` and `c` in order.
pub fn join3(a: &str, b: &str, c: &str) -> (r: String)
    ensures
        r@ == a@ + b@ + c@,
{
    let mut out = a.to_owned();
    out.append(b);
    out.append(c);
    out
}

/// Whether `pattern` stands in `chars` at position `at`.
pub fn pattern_at(chars: &Vec<char>, pattern: &Vec<char>, at: usize) -> (r: bool)
    ensures
        r == occurs_at(chars@, pattern@, at as int),
{
    let total: usize = chars.len();
    if pattern.len() > total || at > total - pattern.len() {
        return false;
    }
    let ghost window = chars@.subrange(at as int, at + pattern@.len());
    let mut i: usize = 0;
    while i < pattern.len()
        invariant
            i <= pattern@.len(),
            total == chars@.len(),
            at + pattern@.len() <= total,
            window == chars@.subrange(at as int, at + pattern@.len()),
            forall|j: int| 0 <= j < i ==> window[j] == pattern@[j],
        decreases pattern@.len() - i,
    {
        if chars[at + i] != pattern[i] {
            assert(window[i as int] != pattern@[i as int]);
            return false;
        }
        assert(window[i as int] == pattern@[i as int]);
        i += 1;
    }
    assert(window =~= pattern@);
    true
}

/// The first position at or after `from` at which `pattern` stands.
pub fn find_pattern(chars: &Vec<char>, pattern: &Vec<char>, from: usize) -> (r: Option<usize>)
    ensures
        match r {
            Some(at) => find_from(chars@, pattern@, from as int) == Some(at as int) && first_from(
                chars@,
                pattern@,
                from as int,
                at as int,
            ),
            None => find_from(chars@, pattern@, from as int) is None,
        },
{
    if pattern.len() > chars.len() {
        proof {
            lemma_find_from_none(chars@, pattern@, from as int);
        }
        return None;
    }
    let last: usize = chars.len() - pattern.len();
    let mut at: usize = from;
    while at <= last
        invariant_except_break
            forall|j: int| from <= j < at ==> !#[trigger] occurs_at(chars@, pattern@, j),
        invariant
            from <= at,
            last == chars@.len() - pattern@.len(),
        ensures
            forall|j: int| from <= j <= last ==> !#[trigger] occurs_at(chars@, pattern@, j),
        decreases last + 1 - at,
    {
        if pattern_at(chars, pattern, at) {
            proof {
                lemma_find_from(chars@, pattern@, from as int, at as int);
            }
            return Some(at);
        }
        if at == last {
            break;
        }
        at += 1;
    }
    proof {
        assert forall|j: int| from <= j implies !#[trigger] occurs_at(chars@, pattern@, j) by {}
        lemma_find_from_none(chars@, pattern@, from as int);
    }
    None
}

/// The last position at which `pattern` stands.
pub fn find_last_pattern(chars: &Vec<char>, pattern: &Vec<char>) -> (r: Option<usize>)
    ensures
        match r {
            Some(at) => find_last(chars@, pattern@) == Some(at as int) && last_at(
                chars@,
                pattern@,
                at as int,
            ),
            None => find_last(chars@, pattern@) is None,
        },
{
    let mut found: Option<usize> = None;
    let mut from: usize = 0;
    let ghost total = chars@.len();
    while from <= chars.len()
        invariant_except_break
            match found {
                Some(at) => at < from && occurs_at(chars@, pattern@, at as int) && forall|j: int|
                    at < j < from ==> !#[trigger] occurs_at(chars@, pattern@, j),
                None => forall|j: int| 0 <= j < from ==> !#[trigger] occurs_at(chars@, pattern@, j),
            },
        invariant
            total == chars@.len(),
        ensures
            match found {
                Some(at) => last_at(chars@, pattern@, at as int),
                None => forall|j: int| !#[trigger] occurs_at(chars@, pattern@, j),
            },
        decreases total + 1 - from,
    {
        match find_pattern(chars, pattern, from) {
            Some(at) => {
                found = Some(at);
                if at == chars.len() {
                    break;
                }
                from = at + 1;
            },
            None => {
                proof {
                    assert forall|j: int| from <= j implies !#[trigger] occurs_at(
                        chars@,
                        pattern@,
                        j,
                    ) by {
                        if occurs_at(chars@, pattern@, j) {
                            lemma_some_first(chars@, pattern@, from as int, j);
                        }
                    }
                }
                break;
            },
        }
    }
    proof {
        match found {
            Some(at) => lemma_find_last(chars@, pattern@, at as int),
            None => {},
        }
    }
    found
}

/// Where a pattern stands somewhere at or after `from`, it has a first position there.
pub proof fn lemma_some_first(s: Seq<char>, pattern: Seq<char>, from: int, at: int)
    requires
        from <= at,
        occurs_at(s, pattern, at),
    ensures
        find_from(s, pattern, from) is Some,
    decreases at - from,
{
    if forall|j: int| from <= j < at ==> !#[trigger] occurs_at(s, pattern, j) {
        lemma_find_from(s, pattern, from, at);
    } else {
        let earlier = choose|j: int| from <= j < at && #[trigger] occurs_at(s, pattern, j);
        lemma_some_first(s, pattern, from, earlier);
    }
}

/// The text before and after the last place where `pattern` stands.
pub open spec fn split_at_last(s: Seq<char>, pattern: Seq<char>) -> Option<(Seq<char>, Seq<char>)> {
    match find_last(s, pattern) {
        Some(at) => Some((s.subrange(0, at), s.subrange(at + pattern.len(), s.len() as int))),
        None => None,
    }
}

/// The views of a pair of strings.
pub open spec fn pair_view(pair: Option<(String, String)>) -> Option<(Seq<char>, Seq<char>)> {
    match pair {
        Some((a, b)) => Some((a@, b@)),
        None => None,
    }
}

/// The text before and after the last place where `pattern` stands.
pub fn rsplit_once(s: &str, pattern: &str) -> (r: Option<(String, String)>)
    ensures
        pair_view(r) == split_at_last(s@, pattern@),
{
    let chars = chars_of(s);
    let wanted = chars_of(pattern);
    let total: usize = chars.len();
    match find_last_pattern(&chars, &wanted) {
        Some(at) => Some(
            (slice_text(&chars, 0, at), slice_text(&chars, at + wanted.len(), total)),
        ),
        None => None,
    }
}

/// The decimal digits of a number, most significant first.
pub open spec fn decimal_text(n: nat) -> Seq<char>
    decreases n,
{
    if n < 10 {
        seq![digit_char(n)]
    } else {
        decimal_text(n / 10).push(digit_char(n % 10))
    }
}

/// The character of a digit below sixteen, in lower case.
pub open spec fn digit_char(d: nat) -> char {
    if d < 10 {
        (48 + d) as char
    } else {
        (87 + d) as char
    }
}

/// The character of a digit below sixteen, in lower case.
pub fn digit(d: u8) -> (r: char)
    requires
        d < 16,
    ensures
        r == digit_char(d as nat),
{
    if d < 10 {
        (48 + d) as char
    } else {
        (87 + d) as char
    }
}

/// The decimal digits of a number.
pub fn decimal(n: u64) -> (r: String)
    ensures
        r@ == decimal_text(n as nat),
    decreases n,
{
    if n < 10 {
        let mut out = String::new();
        out.push(digit(n as u8));
        assert(out@ =~= seq![digit_char(n as nat)]);
        out
    } else {
        let mut out = decimal(n / 10);
        out.push(digit((n % 10) as u8));
        out
    }
}

/// The `width` low hexadecimal digits of a number, most significant first.
pub open spec fn hex_text(n: nat, width: nat) -> Seq<char>
    decreases width,
{
    if width == 0 {
        Seq::empty()
    } else {
        hex_text(n / 16, (width - 1) as nat).push(digit_char(n % 16))
    }
}

/// The `width` low hexadecimal digits of a number.
pub fn hex(n: u64, width: u8) -> (r: String)
    ensures
        r@ == hex_text(n as nat, width as nat),
    decreases width,
{
    if width == 0 {
        String::new()
    } else {
        let mut out = hex(n / 16, width - 1);
        out.push(digit((n % 16) as u8));
        out
    }
}

/// The value of a run of decimal digits.
pub open spec fn digits_value(s: Seq<char>) -> nat
    decreases s.len(),
{
    if s.len() == 0 {
        0
    } else {
        digits_value(s.drop_last()) * 10 + (s.last() as nat - 48) as nat
    }
}

/// Whether a character is a decimal digit.
pub open spec fn is_digit(c: char) -> bool {
    '0' <= c <= '9'
}

/// The digits of a number: what follows one leading plus sign, if there is one.
pub open spec fn unsigned_digits(s: Seq<char>) -> Seq<char> {
    if s.len() > 1 && s[0] == '+' {
        s.skip(1)
    } else {
        s
    }
}

/// The number that a text spells, where it spells one below two to the thirty-second.
pub open spec fn spelled_u32(s: Seq<char>) -> Option<u32> {
    let digits = unsigned_digits(s);
    if digits.len() > 0 && (forall|i: int| 0 <= i < digits.len() ==> is_digit(#[trigger] digits[i]))
        && digits_value(digits) <= u32::MAX {
        Some(digits_value(digits) as u32)
    } else {
        None
    }
}

proof fn lemma_digits_grow(s: Seq<char>, k: int)
    requires
        0 <= k <= s.len(),
    ensures
        digits_value(s.take(k)) <= digits_value(s),
    decreases s.len(),
{
    if k == s.len() {
        assert(s.take(k) =~= s);
    } else {
        lemma_digits_grow(s.drop_last(), k);
        assert(s.drop_last().take(k) =~= s.take(k));
    }
}

/// The number that a text spells: decimal digits, after at most one plus sign.
pub fn parse_u32(s: &str) -> (r: Option<u32>)
    ensures
        r == spelled_u32(s@),
{
    let chars = chars_of(s);
    let start: usize = if chars.len() > 1 && chars[0] == '+' {
        1
    } else {
        0
    };
    let ghost digits = unsigned_digits(s@);
    assert(digits =~= chars@.skip(start as int));
    if start == chars.len() {
        return None;
    }
    let mut value: u32 = 0;
    let mut i: usize = start;
    while i < chars.len()
        invariant
            start <= i <= chars@.len(),
            start < chars@.len(),
            start <= 1,
            chars@ == s@,
            digits == unsigned_digits(s@),
            digits == chars@.skip(start as int),
            value == digits_value(digits.take(i - start)),
            forall|j: int| 0 <= j < i - start ==> is_digit(#[trigger] digits[j]),
        decreases chars@.len() - i,
    {
        let c = chars[i];
        assert(digits[i - start] == c);
        if c < '0' || c > '9' {
            return None;
        }
        proof {
            assert(digits.take(i - start + 1).drop_last() =~= digits.take(i - start));
            lemma_digits_grow(digits, i - start + 1);
        }
        let d: u32 = c as u32 - 48;
        match value.checked_mul(10) {
            Some(tens) => match tens.checked_add(d) {
                Some(next) => {
                    value = next;
                },
                None => {
                    return None;
                },
            },
            None => {
                return None;
            },
        }
        i += 1;
    }
    assert(digits.take(i - start) =~= digits);
    Some(value)
}

/// Whether `s` begins with `prefix`.
pub open spec fn has_prefix(s: Seq<char>, prefix: Seq<char>) -> bool {
    prefix.len() <= s.len() && s.take(prefix.len() as int) == prefix
}

/// What follows `prefix` in `s`, where `s` begins with it.
pub fn strip_prefix(s: &str, prefix: &str) -> (r: Option<String>)
    ensures
        match r {
            Some(rest) => has_prefix(s@, prefix@) && rest@ == s@.skip(prefix@.len() as int),
            None => !has_prefix(s@, prefix@),
        },
{
    let chars = chars_of(s);
    let wanted = chars_of(prefix);
    if pattern_at(&chars, &wanted, 0) {
        assert(s@.take(prefix@.len() as int) =~= s@.subrange(0, prefix@.len() as int));
        let rest = slice_text(&chars, wanted.len(), chars.len());
        assert(rest@ =~= s@.skip(prefix@.len() as int));
        Some(rest)
    } else {
        assert(prefix@.len() <= s@.len() ==> s@.take(prefix@.len() as int) =~= s@.subrange(
            0,
            prefix@.len() as int,
        ));
        None
    }
}

/// Whether the first character of `s` is `c`.
pub open spec fn begins(s: Seq<char>, c: char) -> bool {
    s.len() > 0 && s[0] == c
}

/// Whether the first character of `s` is `c`.
pub fn begins_with(s: &str, c: char) -> (r: bool)
    ensures
        r == begins(s@, c),
{
    let chars = chars_of(s);
    chars.len() > 0 && chars[0] == c
}

/// Whether `c` stands somewhere in `s`.
pub fn contains_char(s: &str, c: char) -> (r: bool)
    ensures
        r == s@.contains(c),
{
    let chars = chars_of(s);
    let mut i: usize = 0;
    while i < chars.len()
        invariant
            i <= chars@.len(),
            chars@ == s@,
            forall|j: int| 0 <= j < i ==> s@[j] != c,
        decreases chars@.len() - i,
    {
        if chars[i] == c {
            assert(s@[i as int] == c);
            return true;
        }
        i += 1;
    }
    false
}

/// Whether `a` comes before `b`, character by character.
pub open spec fn text_before(a: Seq<char>, b: Seq<char>) -> bool
    decreases a.len(),
{
    if b.len() == 0 {
        false
    } else if a.len() == 0 {
        true
    } else if a[0] != b[0] {
        a[0] < b[0]
    } else {
        text_before(a.skip(1), b.skip(1))
    }
}

/// Whether `a` comes before `b`, character by character.
pub fn comes_before(a: &str, b: &str) -> (r: bool)
    ensures
        r == text_before(a@, b@),
{
    let left = chars_of(a);
    let right = chars_of(b);
    let mut i: usize = 0;
    assert(a@.skip(0) =~= a@ && b@.skip(0) =~= b@);
    while i < left.len() && i < right.len() && left[i] == right[i]
        invariant
            i <= left@.len(),
            i <= right@.len(),
            left@ == a@,
            right@ == b@,
            text_before(a@, b@) == text_before(a@.skip(i as int), b@.skip(i as int)),
        decreases left@.len() - i,
    {
        assert(a@.skip(i as int).skip(1) =~= a@.skip(i + 1));
        assert(b@.skip(i as int).skip(1) =~= b@.skip(i + 1));
        i += 1;
    }
    if i == right.len() {
        false
    } else if i == left.len() {
        true
    } else {
        left[i] < right[i]
    }
}

/// The views of a list of strings.
pub open spec fn texts(list: Seq<String>) -> Seq<Seq<char>> {
    list.map_values(|s: String| s@)
}

/// A copy of a list of strings.
pub fn copy_texts(list: &Vec<String>) -> (r: Vec<String>)
    ensures
        texts(r@) == texts(list@),
{
    let mut out: Vec<String> = Vec::new();
    let mut i: usize = 0;
    while i < list.len()
        invariant
            i <= list@.len(),
            out@.len() == i,
            forall|j: int| 0 <= j < i ==> out@[j]@ == list@[j]@,
        decreases list@.len() - i,
    {
        out.push(list[i].as_str().to_owned());
        i += 1;
    }
    assert(texts(out@) =~= texts(list@));
    out
}

/// The texts in order, with `between` in front of each but the first.
pub open spec fn joined(list: Seq<Seq<char>>, between: Seq<char>) -> Seq<char>
    decreases list.len(),
{
    if list.len() == 0 {
        Seq::empty()
    } else if list.len() == 1 {
        list[0]
    } else {
        joined(list.drop_last(), between) + between + list.last()
    }
}

/// The texts in order, with `between` in front of each but the first.
pub fn join_all(list: &Vec<String>, between: &str) -> (r: String)
    ensures
        r@ == joined(texts(list@), between@),
{
    let ghost all = texts(list@);
    let mut out = String::new();
    let mut i: usize = 0;
    while i < list.len()
        invariant
            i <= list@.len(),
            all == texts(list@),
            out@ == joined(all.take(i as int), between@),
        decreases list@.len() - i,
    {
        assert(all.take(i + 1).drop_last() =~= all.take(i as int));
        assert(all[i as int] == list@[i as int]@);
        if i > 0 {
            out.append(between);
        }
        out.append(list[i].as_str());
        assert(out@ =~= joined(all.take(i + 1), between@));
        i += 1;
    }
    assert(all.take(i as int) =~= all);
    out
}

/// Whether a text is in a list.
pub fn listed(list: &Vec<String>, name: &str) -> (r: bool)
    ensures
        r == texts(list@).contains(name@),
{
    let mut i: usize = 0;
    while i < list.len()
        invariant
            i <= list@.len(),
            forall|j: int| 0 <= j < i ==> list@[j]@ != name@,
        decreases list@.len() - i,
    {
        if same(list[i].as_str(), name) {
            assert(texts(list@)[i as int] == name@);
            return true;
        }
        i += 1;
    }
    false
}

/// Of two texts one comes before the other, unless they are equal.
pub proof fn lemma_before_total(a: Seq<char>, b: Seq<char>)
    ensures
        text_before(a, b) || text_before(b, a) || a == b,
        !(text_before(a, b) && text_before(b, a)),
        a == b ==> !text_before(a, b),
    decreases a.len(),
{
    if a.len() == 0 && b.len() == 0 {
        assert(a =~= b);
    } else if a.len() > 0 && b.len() > 0 && a[0] == b[0] {
        lemma_before_total(a.skip(1), b.skip(1));
        if a.skip(1) == b.skip(1) {
            assert(a =~= seq![a[0]] + a.skip(1));
            assert(b =~= seq![b[0]] + b.skip(1));
        }
    }
}

/// What comes before a text comes before all that the text comes before.
pub proof fn lemma_before_transitive(a: Seq<char>, b: Seq<char>, c: Seq<char>)
    requires
        text_before(a, b),
        text_before(b, c),
    ensures
        text_before(a, c),
    decreases a.len(),
{
    if a.len() > 0 && b.len() > 0 && c.len() > 0 && a[0] == b[0] && b[0] == c[0] {
        lemma_before_transitive(a.skip(1), b.skip(1), c.skip(1));
    }
}

/// Where a pattern is found it stands, and nowhere before, or behind for the last place; it is found
/// wherever it stands.
pub proof fn law_a_pattern_is_found_where_it_stands(
    before: Seq<char>,
    pattern: Seq<char>,
    after: Seq<char>,
    s: Seq<char>,
    from: int,
)
    ensures
        match find_from(s, pattern, from) {
            Some(at) => from <= at && occurs_at(s, pattern, at) && forall|j: int|
                from <= j < at ==> !#[trigger] occurs_at(s, pattern, j),
            None => forall|j: int| from <= j ==> !#[trigger] occurs_at(s, pattern, j),
        },
        find_from(before + pattern + after, pattern, 0) is Some,
        split_at_last(s, pattern) matches Some((left, right)) ==> s == left + pattern + right,
{
    assert forall|j: int| from <= j && #[trigger] occurs_at(s, pattern, j) implies find_from(
        s,
        pattern,
        from,
    ) is Some by {
        lemma_some_first(s, pattern, from, j);
    }
    let whole = before + pattern + after;
    let at = before.len() as int;
    assert(whole.subrange(at, at + pattern.len()) =~= pattern);
    lemma_some_first(whole, pattern, 0, at);
    match find_last(s, pattern) {
        Some(last) => {
            let found = choose|a: int| last_at(s, pattern, a);
            assert(last_at(s, pattern, found));
            assert(s =~= s.subrange(0, last) + pattern + s.subrange(
                last + pattern.len(),
                s.len() as int,
            )) by {
                assert(s.subrange(last, last + pattern.len()) == pattern);
                assert forall|i: int| 0 <= i < s.len() implies s[i] == (s.subrange(0, last) + pattern
                    + s.subrange(last + pattern.len(), s.len() as int))[i] by {
                    if last <= i < last + pattern.len() {
                        assert(s.subrange(last, last + pattern.len())[i - last] == pattern[i - last]);
                    }
                }
            }
        },
        None => {},
    }
}

/// The decimal digits of a number spell it: their value is the number, they are digits, and the
/// first is no zero but for zero itself. So no two numbers are written alike.
pub proof fn law_decimal_digits_spell_their_number(n: nat)
    ensures
        digits_value(decimal_text(n)) == n,
        decimal_text(n).len() > 0,
        forall|i: int| 0 <= i < decimal_text(n).len() ==> is_digit(#[trigger] decimal_text(n)[i]),
        n > 0 ==> decimal_text(n)[0] != '0',
    decreases n,
{
    if n < 10 {
        assert(decimal_text(n).drop_last() =~= Seq::empty());
        assert(digits_value(decimal_text(n).drop_last()) == 0);
    } else {
        law_decimal_digits_spell_their_number(n / 10);
        assert(decimal_text(n).drop_last() =~= decimal_text(n / 10));
    }
}

/// A text spells a number where it is digits, with one plus sign before them at most, whose value
/// fits; a digit more at the end is worth ten times what stood before, and itself.
pub proof fn law_a_number_is_spelled_by_its_digits(s: Seq<char>, digit: char)
    requires
        is_digit(digit),
    ensures
        digits_value(s.push(digit)) == 10 * digits_value(s) + (digit as nat - '0' as nat),
        digits_value(Seq::<char>::empty()) == 0,
        spelled_u32(s) matches Some(value) ==> exists|digits: Seq<char>| #[trigger]
            digits_value(digits) == value && digits.len() > 0 && (s == digits || s == seq!['+']
                + digits) && forall|i: int|
            0 <= i < digits.len() ==> '0' <= #[trigger] digits[i] <= '9',
        s.len() > 0 && (forall|i: int| 0 <= i < s.len() ==> '0' <= #[trigger] s[i] <= '9')
            && digits_value(s) <= 0xFFFF_FFFF ==> spelled_u32(s) == Some(digits_value(s) as u32)
            && spelled_u32(seq!['+'] + s) == spelled_u32(s),
        s.len() == 0 ==> spelled_u32(s) is None,
{
    assert(s.push(digit).drop_last() =~= s);
    let digits = unsigned_digits(s);
    if spelled_u32(s) is Some {
        assert(digits_value(digits) == spelled_u32(s)->Some_0);
        if s.len() > 1 && s[0] == '+' {
            assert(s =~= seq!['+'] + digits);
        }
        assert forall|i: int| 0 <= i < digits.len() implies '0' <= #[trigger] digits[i] <= '9' by {
            assert(is_digit(digits[i]));
        }
    }
    if s.len() > 0 && (forall|i: int| 0 <= i < s.len() ==> '0' <= #[trigger] s[i] <= '9') {
        assert('0' <= s[0] <= '9');
        assert(digits == s);
        let signed = seq!['+'] + s;
        assert(signed.skip(1) =~= s);
        assert(unsigned_digits(signed) == s);
    }
}

/// Sixteen to the `width`th.
spec fn span(width: nat) -> nat
    decreases width,
{
    if width == 0 {
        1
    } else {
        16 * span((width - 1) as nat)
    }
}

proof fn lemma_hex_differs(a: nat, b: nat, width: nat)
    requires
        hex_text(a, width) == hex_text(b, width),
        a < span(width),
        b < span(width),
    ensures
        a == b,
    decreases width,
{
    if width > 0 {
        let left = hex_text(a, width);
        let right = hex_text(b, width);
        assert(left.last() == right.last());
        assert(left.drop_last() =~= hex_text(a / 16, (width - 1) as nat));
        assert(right.drop_last() =~= hex_text(b / 16, (width - 1) as nat));
        lemma_hex_differs(a / 16, b / 16, (width - 1) as nat);
    }
}

/// Sixteen hexadecimal digits tell all numbers of sixty-four bits apart.
pub proof fn law_hexadecimal_digits_tell_numbers_apart(a: u64, b: u64)
    ensures
        hex_text(a as nat, 16).len() == 16,
        hex_text(a as nat, 16) == hex_text(b as nat, 16) ==> a == b,
{
    reveal_with_fuel(hex_text, 17);
    reveal_with_fuel(span, 17);
    if hex_text(a as nat, 16) == hex_text(b as nat, 16) {
        lemma_hex_differs(a as nat, b as nat, 16);
    }
}

/// Texts joined are the texts one after another, each but the first behind what goes between.
pub proof fn law_joined_texts_stand_in_order(
    list: Seq<Seq<char>>,
    last: Seq<char>,
    between: Seq<char>,
)
    ensures
        joined(Seq::empty(), between) == Seq::<char>::empty(),
        joined(seq![last], between) == last,
        list.len() > 0 ==> joined(list.push(last), between) == joined(list, between) + between
            + last,
{
    assert(list.push(last).drop_last() =~= list);
}

/// The value of a hexadecimal digit.
pub open spec fn hex_digit(c: char) -> int {
    if '0' <= c <= '9' {
        c as int - '0' as int
    } else if 'a' <= c <= 'f' {
        c as int - 'a' as int + 10
    } else {
        -1
    }
}

/// Hexadecimal digits spell their number: each has a value, and a digit more stands for sixteen
/// times the number and the digit.
pub proof fn law_hexadecimal_digits_spell_their_number(n: nat, digit: nat, width: nat, i: int)
    requires
        digit < 16,
        0 <= i < width,
    ensures
        hex_text(n, width).len() == width,
        0 <= hex_digit(hex_text(n, width)[i]) < 16,
        hex_digit(hex_text(16 * n + digit, width).last()) == digit,
        hex_text(16 * n + digit, width).drop_last() == hex_text(n, (width - 1) as nat),
    decreases width,
{
    let next = 16 * n + digit;
    assert(next / 16 == n && next % 16 == digit);
    lemma_hex_len(n, width);
    lemma_hex_len(n / 16, (width - 1) as nat);
    assert(hex_text(next, width).drop_last() =~= hex_text(n, (width - 1) as nat));
    if i < width - 1 {
        law_hexadecimal_digits_spell_their_number(n / 16, 0, (width - 1) as nat, i);
    }
}

proof fn lemma_hex_len(n: nat, width: nat)
    ensures
        hex_text(n, width).len() == width,
    decreases width,
{
    if width > 0 {
        lemma_hex_len(n / 16, (width - 1) as nat);
    }
}

/// A text is split where a pattern stands last: the parts with the pattern between them are the
/// text, and the pattern stands nowhere behind. It is split wherever the pattern stands in it.
pub proof fn law_a_text_is_split_at_the_last_pattern(s: Seq<char>, pattern: Seq<char>, at: int)
    requires
        pattern.len() > 0,
    ensures
        split_at_last(s, pattern) matches Some((before, after)) ==> {
            &&& before + pattern + after == s
            &&& at > before.len() ==> !occurs_at(s, pattern, at)
        },
        occurs_at(s, pattern, at) ==> split_at_last(s, pattern) is Some,
{
    if let Some((before, after)) = split_at_last(s, pattern) {
        let found = find_last(s, pattern)->Some_0;
        assert(last_at(s, pattern, found));
        assert(before + pattern + after =~= s) by {
            assert(s.subrange(found, found + pattern.len()) =~= pattern);
            assert forall|i: int| 0 <= i < s.len() implies (before + pattern + after)[i] == s[i] by {
                if found <= i < found + pattern.len() {
                    assert(s.subrange(found, found + pattern.len())[i - found] == s[i]);
                }
            }
        }
    }
    if occurs_at(s, pattern, at) {
        lemma_some_last(s, pattern, at);
    }
}

proof fn lemma_some_last(s: Seq<char>, pattern: Seq<char>, at: int)
    requires
        occurs_at(s, pattern, at),
    ensures
        find_last(s, pattern) is Some,
    decreases s.len() - at,
{
    if forall|j: int| at < j ==> !#[trigger] occurs_at(s, pattern, j) {
        assert(last_at(s, pattern, at));
    } else {
        let later = choose|j: int| at < j && #[trigger] occurs_at(s, pattern, j);
        lemma_some_last(s, pattern, later);
    }
}

} // verus!
