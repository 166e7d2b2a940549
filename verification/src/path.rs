//! Paths, held as their text and read component by component. How a path is written depends on the
//! platform, so that is told by the caller.
use crate::text;
use vstd::prelude::*;
use vstd::string::*;

verus! {

/// How paths are written.
#[derive(Clone, Copy, PartialEq, Eq, Structural, Debug)]
pub enum PathStyle {
    /// With slashes, from one root.
    Slash,
    /// With backslashes or slashes, from the root of a drive, a share or a device.
    Backslash,
}

/// Which characters separate the components of a path.
#[derive(Clone, Copy, PartialEq, Eq, Structural, Debug)]
pub enum Separators {
    Slash,
    Either,
    Backslash,
}

/// Whether a character separates components.
pub open spec fn is_separator(c: char, separators: Separators) -> bool {
    match separators {
        Separators::Slash => c == '/',
        Separators::Either => c == '/' || c == '\\',
        Separators::Backslash => c == '\\',
    }
}

impl Separators {
    /// Whether a character separates components.
    pub fn separates(self, c: char) -> (r: bool)
        ensures
            r == is_separator(c, self),
    {
        match self {
            Separators::Slash => c == '/',
            Separators::Either => c == '/' || c == '\\',
            Separators::Backslash => c == '\\',
        }
    }
}

/// The separators of a style, outside of a verbatim path.
pub open spec fn plain_separators(style: PathStyle) -> Separators {
    match style {
        PathStyle::Slash => Separators::Slash,
        PathStyle::Backslash => Separators::Either,
    }
}

/// The character that is written between components.
pub open spec fn separator(style: PathStyle) -> char {
    match style {
        PathStyle::Slash => '/',
        PathStyle::Backslash => '\\',
    }
}

impl PathStyle {
    fn plain(self) -> (r: Separators)
        ensures
            r == plain_separators(self),
    {
        match self {
            PathStyle::Slash => Separators::Slash,
            PathStyle::Backslash => Separators::Either,
        }
    }

    /// The character that is written between components.
    pub fn written(self) -> (r: char)
        ensures
            r == separator(self),
    {
        match self {
            PathStyle::Slash => '/',
            PathStyle::Backslash => '\\',
        }
    }
}

/// What stands before the root of a path. A drive is told by its letter, counted from `a` in either
/// case.
#[derive(PartialEq, Eq, Debug)]
pub enum PathPrefix<S> {
    /// `\\?\name`
    Verbatim { name: S },
    /// `\\?\UNC\server\share`
    VerbatimShare { server: S, share: S },
    /// `\\?\C:`
    VerbatimDrive { letter: u32 },
    /// `\\.\name`
    Device { name: S },
    /// `\\server\share`
    Share { server: S, share: S },
    /// `C:`
    Drive { letter: u32 },
}

/// A prefix, with sequences in place of strings.
pub open spec fn prefix_view(prefix: PathPrefix<String>) -> PathPrefix<Seq<char>> {
    match prefix {
        PathPrefix::Verbatim { name } => PathPrefix::Verbatim { name: name@ },
        PathPrefix::VerbatimShare { server, share } => PathPrefix::VerbatimShare {
            server: server@,
            share: share@,
        },
        PathPrefix::VerbatimDrive { letter } => PathPrefix::VerbatimDrive { letter },
        PathPrefix::Device { name } => PathPrefix::Device { name: name@ },
        PathPrefix::Share { server, share } => PathPrefix::Share {
            server: server@,
            share: share@,
        },
        PathPrefix::Drive { letter } => PathPrefix::Drive { letter },
    }
}

/// The first separator at or after `from`, or the end of the text.
pub open spec fn segment_end(s: Seq<char>, from: int, separators: Separators) -> int
    decreases s.len() - from,
{
    if from >= s.len() || is_separator(s[from], separators) {
        from
    } else {
        segment_end(s, from + 1, separators)
    }
}

/// The segment that begins at `from`.
pub open spec fn segment(s: Seq<char>, from: int, separators: Separators) -> Seq<char> {
    s.subrange(from, segment_end(s, from, separators))
}

/// The segment behind the one that begins at `from`, which is empty where there is none.
pub open spec fn next_segment(s: Seq<char>, from: int, separators: Separators) -> Seq<char> {
    let end = segment_end(s, from, separators);
    if end < s.len() {
        segment(s, end + 1, separators)
    } else {
        Seq::empty()
    }
}

/// Whether the letter of a drive and a colon stand at `at`.
pub open spec fn drive_at(s: Seq<char>, at: int) -> bool {
    &&& at + 2 <= s.len()
    &&& s[at + 1] == ':'
    &&& ('a' <= s[at] <= 'z' || 'A' <= s[at] <= 'Z')
}

/// The letter of a drive, counted from `a` in either case.
pub open spec fn letter_of(c: char) -> u32 {
    if 'a' <= c {
        (c as u32 - 'a' as u32) as u32
    } else {
        (c as u32 - 'A' as u32) as u32
    }
}

/// Whether a text begins with two separators.
pub open spec fn begins_twice(s: Seq<char>) -> bool {
    &&& s.len() >= 2
    &&& is_separator(s[0], Separators::Either)
    &&& is_separator(s[1], Separators::Either)
}

/// Whether a text begins with `\\?\`, written so.
pub open spec fn begins_verbatim(s: Seq<char>) -> bool {
    s.len() >= 4 && s[0] == '\\' && s[1] == '\\' && s[2] == '?' && s[3] == '\\'
}

/// What a verbatim path begins with.
pub open spec fn verbatim_prefix(s: Seq<char>) -> PathPrefix<Seq<char>> {
    if s.len() >= 8 && s[4] == 'U' && s[5] == 'N' && s[6] == 'C' && is_separator(
        s[7],
        Separators::Either,
    ) {
        PathPrefix::VerbatimShare {
            server: segment(s, 8, Separators::Backslash),
            share: next_segment(s, 8, Separators::Backslash),
        }
    } else if drive_at(s, 4) && (s.len() == 6 || is_separator(s[6], Separators::Either)) {
        PathPrefix::VerbatimDrive { letter: letter_of(s[4]) }
    } else {
        PathPrefix::Verbatim { name: segment(s, 4, Separators::Backslash) }
    }
}

/// What stands before the root of a path, if anything does.
pub open spec fn prefix_of(s: Seq<char>, style: PathStyle) -> Option<PathPrefix<Seq<char>>> {
    if style == PathStyle::Slash {
        None
    } else if begins_twice(s) {
        let server = segment(s, 2, Separators::Either);
        let share = next_segment(s, 2, Separators::Either);
        if begins_verbatim(s) {
            Some(verbatim_prefix(s))
        } else if s.len() >= 4 && s[2] == '.' && is_separator(s[3], Separators::Either) {
            Some(PathPrefix::Device { name: segment(s, 4, Separators::Either) })
        } else if server.len() > 0 && share.len() > 0 {
            Some(PathPrefix::Share { server, share })
        } else {
            None
        }
    } else if drive_at(s, 0) {
        Some(PathPrefix::Drive { letter: letter_of(s[0]) })
    } else {
        None
    }
}

/// How many characters a prefix takes.
pub open spec fn prefix_len(prefix: Option<PathPrefix<Seq<char>>>) -> int {
    match prefix {
        None => 0int,
        Some(PathPrefix::Verbatim { name }) => 4int + name.len(),
        Some(PathPrefix::VerbatimShare { server, share }) => 8int + server.len() + if share.len() > 0 {
            1int + share.len()
        } else {
            0int
        },
        Some(PathPrefix::VerbatimDrive { .. }) => 6int,
        Some(PathPrefix::Device { name }) => 4int + name.len(),
        Some(PathPrefix::Share { server, share }) => 3int + server.len() + share.len(),
        Some(PathPrefix::Drive { .. }) => 2int,
    }
}

/// Whether a path is taken as it is written: only the backslash separates, and dots are names.
pub open spec fn is_verbatim(prefix: Option<PathPrefix<Seq<char>>>) -> bool {
    match prefix {
        Some(PathPrefix::Verbatim { .. }) => true,
        Some(PathPrefix::VerbatimShare { .. }) => true,
        Some(PathPrefix::VerbatimDrive { .. }) => true,
        _ => false,
    }
}

/// Whether a prefix stands at a root also where none is written.
pub open spec fn is_rooted(prefix: Option<PathPrefix<Seq<char>>>) -> bool {
    match prefix {
        Some(PathPrefix::Device { .. }) => true,
        Some(PathPrefix::Share { .. }) => true,
        _ => false,
    }
}

/// The separators of a path.
pub open spec fn separators_of(s: Seq<char>, style: PathStyle) -> Separators {
    if is_verbatim(prefix_of(s, style)) {
        Separators::Backslash
    } else {
        plain_separators(style)
    }
}

/// Whether a root is written behind the prefix.
pub open spec fn writes_root(s: Seq<char>, style: PathStyle) -> bool {
    let from = prefix_len(prefix_of(s, style));
    from < s.len() && is_separator(s[from], plain_separators(style))
}

/// Where the names of a path begin.
pub open spec fn body_start(s: Seq<char>, style: PathStyle) -> int {
    prefix_len(prefix_of(s, style)) + if writes_root(s, style) {
        1int
    } else {
        0int
    }
}

/// Whether a segment of the text is a component: it is not empty, and `.` counts only where it
/// opens a relative path, or in a verbatim one.
pub open spec fn is_component(s: Seq<char>, start: int, end: int, verbatim: bool) -> bool {
    start < end && (verbatim || start == 0 || !(end == start + 1 && s[start] == '.'))
}

/// The components of the text from `from` on, as places in the text.
pub open spec fn spans_from(
    s: Seq<char>,
    from: int,
    separators: Separators,
    verbatim: bool,
) -> Seq<(int, int)>
    decreases s.len() - from,
{
    if from > s.len() || from < 0 {
        Seq::empty()
    } else {
        let end = segment_end(s, from, separators);
        let rest = if from <= end < s.len() {
            spans_from(s, end + 1, separators, verbatim)
        } else {
            Seq::empty()
        };
        if is_component(s, from, end, verbatim) {
            seq![(from, end)] + rest
        } else {
            rest
        }
    }
}

/// The names of a path, as places in its text.
pub open spec fn names_in(s: Seq<char>, style: PathStyle) -> Seq<(int, int)> {
    spans_from(
        s,
        body_start(s, style),
        separators_of(s, style),
        is_verbatim(prefix_of(s, style)),
    )
}

/// A component of a path.
#[derive(PartialEq, Eq, Debug)]
pub enum PathPart<S> {
    Prefix(PathPrefix<S>),
    Root,
    Name(S),
}

/// A component, with sequences in place of strings.
pub open spec fn part_view(part: PathPart<String>) -> PathPart<Seq<char>> {
    match part {
        PathPart::Prefix(prefix) => PathPart::Prefix(prefix_view(prefix)),
        PathPart::Root => PathPart::Root,
        PathPart::Name(name) => PathPart::Name(name@),
    }
}

/// Components, with sequences in place of strings.
pub open spec fn part_views(list: Seq<PathPart<String>>) -> Seq<PathPart<Seq<char>>> {
    list.map_values(|part: PathPart<String>| part_view(part))
}

/// What stands before the names of a path.
pub open spec fn head(s: Seq<char>, style: PathStyle) -> Seq<PathPart<Seq<char>>> {
    let prefix = prefix_of(s, style);
    let front = match prefix {
        Some(prefix) => seq![PathPart::Prefix(prefix)],
        None => Seq::empty(),
    };
    if writes_root(s, style) || is_rooted(prefix) {
        front.push(PathPart::Root)
    } else {
        front
    }
}

/// The components of a path.
pub open spec fn components(s: Seq<char>, style: PathStyle) -> Seq<PathPart<Seq<char>>> {
    head(s, style) + names_in(s, style).map_values(
        |span: (int, int)| PathPart::Name(s.subrange(span.0, span.1)),
    )
}

/// How many components a path has.
pub open spec fn depth(s: Seq<char>, style: PathStyle) -> nat {
    components(s, style).len()
}

/// Whether `prefix` is `path` or a directory above it, component by component.
pub open spec fn under(path: Seq<char>, prefix: Seq<char>, style: PathStyle) -> bool {
    &&& depth(prefix, style) <= depth(path, style)
    &&& components(path, style).take(depth(prefix, style) as int) == components(prefix, style)
}

/// Where the text before the first name ends. A dot that follows a drive stays with it.
pub open spec fn front_len(s: Seq<char>, style: PathStyle) -> int {
    let start = body_start(s, style);
    let dotted = {
        &&& prefix_of(s, style) matches Some(PathPrefix::Drive { .. })
        &&& !writes_root(s, style)
        &&& start < s.len()
        &&& s[start] == '.'
        &&& (start + 1 == s.len() || is_separator(s[start + 1], Separators::Either))
    };
    if dotted {
        start + 1
    } else {
        start
    }
}

/// The path without its last name, where it has one.
pub open spec fn parent_text(s: Seq<char>, style: PathStyle) -> Option<Seq<char>> {
    let names = names_in(s, style);
    if names.len() == 0 {
        None
    } else if names.len() == 1 {
        Some(s.take(front_len(s, style)))
    } else {
        Some(s.take(names[names.len() - 2].1))
    }
}

/// The components after one more was followed, as a verbatim path is: dots are not written.
pub open spec fn stepped(list: Seq<PathPart<Seq<char>>>, part: PathPart<Seq<char>>) -> Seq<
    PathPart<Seq<char>>,
> {
    match part {
        PathPart::Root => if list.len() > 1 {
            list.take(1).push(part)
        } else {
            list.push(part)
        },
        PathPart::Name(name) => if name == "."@ {
            list
        } else if name == ".."@ {
            if list.len() > 0 && is_plain_name(list.last()) {
                list.drop_last()
            } else {
                list
            }
        } else {
            list.push(part)
        },
        PathPart::Prefix(_) => list.push(part),
    }
}

/// Whether a component is a name other than `.` and `..`.
pub open spec fn is_plain_name(part: PathPart<Seq<char>>) -> bool {
    part matches PathPart::Name(name) && name != "."@ && name != ".."@
}

/// The components after others were followed, first to last.
pub open spec fn walked(
    list: Seq<PathPart<Seq<char>>>,
    parts: Seq<PathPart<Seq<char>>>,
) -> Seq<PathPart<Seq<char>>>
    decreases parts.len(),
{
    if parts.len() == 0 {
        list
    } else {
        stepped(walked(list, parts.drop_last()), parts.last())
    }
}

/// The text of components, the first of which may be a prefix that is written as it was.
pub open spec fn written(prefix: Seq<char>, list: Seq<PathPart<Seq<char>>>) -> Seq<char>
    decreases list.len(),
{
    if list.len() == 0 {
        Seq::empty()
    } else {
        let front = list.drop_last();
        written(prefix, front) + match list.last() {
            PathPart::Prefix(_) => prefix,
            PathPart::Root => seq!['\\'],
            PathPart::Name(name) => if front.len() > 0 && !(front.last() is Root) {
                seq!['\\'] + name
            } else {
                name
            },
        }
    }
}

/// Whether a path is no more than a drive, behind which a name follows directly.
pub open spec fn is_bare_drive(s: Seq<char>, style: PathStyle) -> bool {
    prefix_of(s, style) matches Some(PathPrefix::Drive { .. }) && s.len() == 2
}

/// `name` read from the directory `base`.
pub open spec fn join_text(base: Seq<char>, name: Seq<char>, style: PathStyle) -> Seq<char> {
    let prefix = prefix_of(base, style);
    if prefix_of(name, style) is Some || (style == PathStyle::Slash && writes_root(name, style)) {
        name
    } else if is_verbatim(prefix) && name.len() > 0 {
        written(
            base.take(prefix_len(prefix)),
            walked(components(base, style), components(name, style)),
        )
    } else if writes_root(name, style) {
        base.take(prefix_len(prefix)) + name
    } else if base.len() == 0 || is_separator(base.last(), plain_separators(style))
        || is_bare_drive(base, style) {
        base + name
    } else {
        base.push(separator(style)) + name
    }
}

/// The last place in `file` from which an extension can be replaced: its last dot, unless that is
/// the first character or there is none.
pub open spec fn stem_len(file: Seq<char>) -> int {
    match text::find_last(file, seq!['.']) {
        Some(at) => if at == 0 {
            file.len() as int
        } else {
            at
        },
        None => file.len() as int,
    }
}

/// Whether the last component names a file.
pub open spec fn names_file(s: Seq<char>, style: PathStyle) -> bool {
    let spans = names_in(s, style);
    spans.len() > 0 && {
        let file = s.subrange(spans.last().0, spans.last().1);
        file != seq!['.', '.'] && file != seq!['.']
    }
}

/// The path with the extension of its file name replaced, or added where there is none.
pub open spec fn with_extension_text(
    s: Seq<char>,
    extension: Seq<char>,
    style: PathStyle,
) -> Seq<char> {
    if names_file(s, style) {
        let span = names_in(s, style).last();
        s.take(span.0 + stem_len(s.subrange(span.0, span.1))).push('.') + extension
    } else {
        s
    }
}

/// Where one component of a path begins and ends in its text.
pub struct Span {
    pub start: usize,
    pub end: usize,
}

/// The places that a list of spans stands for.
pub open spec fn span_views(list: Seq<Span>) -> Seq<(int, int)> {
    list.map_values(|span: Span| (span.start as int, span.end as int))
}

proof fn lemma_segment_end(s: Seq<char>, from: int, separators: Separators)
    requires
        0 <= from <= s.len(),
    ensures
        from <= segment_end(s, from, separators) <= s.len(),
    decreases s.len() - from,
{
    if from < s.len() && !is_separator(s[from], separators) {
        lemma_segment_end(s, from + 1, separators);
    }
}

/// The first separator at or after `from`, or the end of the text.
fn end_of_segment(chars: &Vec<char>, from: usize, separators: Separators) -> (r: usize)
    requires
        from <= chars@.len(),
    ensures
        r == segment_end(chars@, from as int, separators),
        from <= r <= chars@.len(),
{
    let mut end: usize = from;
    while end < chars.len() && !separators.separates(chars[end])
        invariant
            from <= end <= chars@.len(),
            segment_end(chars@, from as int, separators) == segment_end(
                chars@,
                end as int,
                separators,
            ),
        decreases chars@.len() - end,
    {
        end += 1;
    }
    end
}

/// The text of a segment, of the one behind it, and where the latter ends.
fn two_segments(chars: &Vec<char>, from: usize, separators: Separators) -> (r: (
    String,
    String,
    usize,
))
    requires
        from <= chars@.len(),
    ensures
        r.0@ == segment(chars@, from as int, separators),
        r.1@ == next_segment(chars@, from as int, separators),
        r.2 == from + r.0@.len() + if r.1@.len() > 0 {
            1int + r.1@.len()
        } else {
            0int
        },
        r.2 <= chars@.len(),
{
    let end = end_of_segment(chars, from, separators);
    let first = text::slice_text(chars, from, end);
    if end == chars.len() {
        return (first, String::new(), end);
    }
    let last = end_of_segment(chars, end + 1, separators);
    let second = text::slice_text(chars, end + 1, last);
    let size: usize = if last > end + 1 {
        last
    } else {
        end
    };
    (first, second, size)
}

fn has_drive_at(chars: &Vec<char>, at: usize) -> (r: bool)
    requires
        at <= 4,
    ensures
        r == drive_at(chars@, at as int),
{
    if chars.len() < at + 2 {
        return false;
    }
    let c = chars[at];
    chars[at + 1] == ':' && (('a' <= c && c <= 'z') || ('A' <= c && c <= 'Z'))
}

fn letter_number(c: char) -> (r: u32)
    requires
        'a' <= c <= 'z' || 'A' <= c <= 'Z',
    ensures
        r == letter_of(c),
{
    if 'a' <= c {
        c as u32 - 'a' as u32
    } else {
        c as u32 - 'A' as u32
    }
}

/// What a verbatim path begins with, and how many characters that takes.
fn read_verbatim_prefix(chars: &Vec<char>) -> (r: (PathPrefix<String>, usize))
    requires
        begins_verbatim(chars@),
    ensures
        prefix_view(r.0) == verbatim_prefix(chars@),
        r.1 == prefix_len(Some(verbatim_prefix(chars@))),
        r.1 <= chars@.len(),
{
    if chars.len() >= 8 && chars[4] == 'U' && chars[5] == 'N' && chars[6] == 'C'
        && Separators::Either.separates(chars[7]) {
        let (server, share, size) = two_segments(chars, 8, Separators::Backslash);
        return (PathPrefix::VerbatimShare { server, share }, size);
    }
    if has_drive_at(chars, 4) && (chars.len() == 6 || Separators::Either.separates(chars[6])) {
        return (PathPrefix::VerbatimDrive { letter: letter_number(chars[4]) }, 6);
    }
    let end = end_of_segment(chars, 4, Separators::Backslash);
    (PathPrefix::Verbatim { name: text::slice_text(chars, 4, end) }, end)
}

/// What stands before the root of a path, and how many characters that takes.
fn read_prefix(chars: &Vec<char>, style: PathStyle) -> (r: (Option<PathPrefix<String>>, usize))
    ensures
        match (r.0, prefix_of(chars@, style)) {
            (Some(prefix), Some(expected)) => prefix_view(prefix) == expected,
            (None, None) => true,
            _ => false,
        },
        r.1 == prefix_len(prefix_of(chars@, style)),
        r.1 <= chars@.len(),
{
    match style {
        PathStyle::Slash => {
            return (None, 0);
        },
        PathStyle::Backslash => {},
    }
    if chars.len() >= 2 && Separators::Either.separates(chars[0]) && Separators::Either.separates(
        chars[1],
    ) {
        if chars.len() >= 4 && chars[0] == '\\' && chars[1] == '\\' && chars[2] == '?' && chars[3]
            == '\\' {
            let (prefix, size) = read_verbatim_prefix(chars);
            return (Some(prefix), size);
        }
        if chars.len() >= 4 && chars[2] == '.' && Separators::Either.separates(chars[3]) {
            let end = end_of_segment(chars, 4, Separators::Either);
            return (Some(PathPrefix::Device { name: text::slice_text(chars, 4, end) }), end);
        }
        let (server, share, size) = two_segments(chars, 2, Separators::Either);
        if text::same(server.as_str(), "") || text::same(share.as_str(), "") {
            proof {
                reveal_strlit("");
            }
            return (None, 0);
        }
        proof {
            reveal_strlit("");
            if server@.len() == 0 {
                assert(server@ =~= ""@);
            }
            if share@.len() == 0 {
                assert(share@ =~= ""@);
            }
        }
        return (Some(PathPrefix::Share { server, share }), size);
    }
    if has_drive_at(chars, 0) {
        return (Some(PathPrefix::Drive { letter: letter_number(chars[0]) }), 2);
    }
    (None, 0)
}

/// The parts into which a path falls before its names are told.
struct Outline {
    prefix: Option<PathPrefix<String>>,
    prefix_len: usize,
    body: usize,
    separators: Separators,
    verbatim: bool,
    drive: bool,
    rooted: bool,
    root: bool,
}

spec fn outlines(outline: Outline, s: Seq<char>, style: PathStyle) -> bool {
    let prefix = prefix_of(s, style);
    &&& match (outline.prefix, prefix) {
        (Some(found), Some(expected)) => prefix_view(found) == expected,
        (None, None) => true,
        _ => false,
    }
    &&& outline.prefix_len == prefix_len(prefix)
    &&& outline.prefix_len <= outline.body <= s.len()
    &&& outline.body == body_start(s, style)
    &&& outline.separators == separators_of(s, style)
    &&& outline.verbatim == is_verbatim(prefix)
    &&& outline.drive == (prefix matches Some(PathPrefix::Drive { .. }))
    &&& outline.rooted == is_rooted(prefix)
    &&& outline.root == writes_root(s, style)
}

fn outline(chars: &Vec<char>, style: PathStyle) -> (r: Outline)
    ensures
        outlines(r, chars@, style),
{
    let (prefix, size) = read_prefix(chars, style);
    let root = size < chars.len() && style.plain().separates(chars[size]);
    let (verbatim, drive, rooted) = match &prefix {
        None => (false, false, false),
        Some(PathPrefix::Verbatim { .. }) => (true, false, false),
        Some(PathPrefix::VerbatimShare { .. }) => (true, false, false),
        Some(PathPrefix::VerbatimDrive { .. }) => (true, false, false),
        Some(PathPrefix::Device { .. }) => (false, false, true),
        Some(PathPrefix::Share { .. }) => (false, false, true),
        Some(PathPrefix::Drive { .. }) => (false, true, false),
    };
    let separators = if verbatim {
        Separators::Backslash
    } else {
        style.plain()
    };
    let body: usize = if root {
        size + 1
    } else {
        size
    };
    Outline { prefix, prefix_len: size, body, separators, verbatim, drive, rooted, root }
}

/// The components of a text from a place on, as places in it.
fn spans_of(chars: &Vec<char>, begin: usize, separators: Separators, verbatim: bool) -> (r: Vec<
    Span,
>)
    requires
        begin <= chars@.len(),
    ensures
        span_views(r@) == spans_from(chars@, begin as int, separators, verbatim),
        forall|k: int|
            0 <= k < r@.len() ==> begin <= (#[trigger] r@[k]).start < r@[k].end <= chars@.len(),
{
    let mut out: Vec<Span> = Vec::new();
    let mut from: usize = begin;
    let total: usize = chars.len();
    let ghost s = chars@;
    let ghost all = spans_from(s, begin as int, separators, verbatim);
    let mut done = false;
    assert(span_views(out@) + spans_from(s, from as int, separators, verbatim) =~= all);
    while !done
        invariant
            total == chars@.len(),
            s == chars@,
            begin <= from <= total,
            all == spans_from(s, begin as int, separators, verbatim),
            !done ==> span_views(out@) + spans_from(s, from as int, separators, verbatim) == all,
            done ==> span_views(out@) == all,
            forall|k: int|
                0 <= k < out@.len() ==> begin <= (#[trigger] out@[k]).start < out@[k].end <= total,
        decreases total - from, (if done { 0int } else { 1int }),
    {
        let end = end_of_segment(chars, from, separators);
        let ghost before = span_views(out@);
        let ghost rest = if end < total {
            spans_from(s, end + 1, separators, verbatim)
        } else {
            Seq::empty()
        };
        if from < end && (verbatim || from == 0 || !(end == from + 1 && chars[from] == '.')) {
            out.push(Span { start: from, end });
            assert(span_views(out@) =~= before.push((from as int, end as int)));
            assert(span_views(out@) + rest =~= before + spans_from(
                s,
                from as int,
                separators,
                verbatim,
            ));
        } else {
            assert(span_views(out@) + rest =~= before + spans_from(
                s,
                from as int,
                separators,
                verbatim,
            ));
        }
        if end < total {
            from = end + 1;
        } else {
            done = true;
            assert(span_views(out@) + rest =~= span_views(out@));
        }
    }
    out
}

/// The components of a path.
pub fn components_of(path: &str, style: PathStyle) -> (r: Vec<PathPart<String>>)
    ensures
        part_views(r@) == components(path@, style),
{
    let chars = text::chars_of(path);
    let outlined = outline(&chars, style);
    let spans = spans_of(&chars, outlined.body, outlined.separators, outlined.verbatim);
    let ghost s = path@;
    let ghost views = names_in(s, style);
    let ghost expected = components(s, style);
    let mut out: Vec<PathPart<String>> = Vec::new();
    match outlined.prefix {
        Some(prefix) => {
            out.push(PathPart::Prefix(prefix));
        },
        None => {},
    }
    if outlined.root || outlined.rooted {
        out.push(PathPart::Root);
    }
    assert(part_views(out@) =~= head(s, style));
    let ghost front = head(s, style);
    let mut i: usize = 0;
    while i < spans.len()
        invariant
            i <= spans@.len(),
            chars@ == s,
            views == span_views(spans@),
            views == names_in(s, style),
            front == head(s, style),
            expected == components(s, style),
            part_views(out@) == expected.take(front.len() + i),
            forall|k: int|
                0 <= k < spans@.len() ==> (#[trigger] spans@[k]).start < spans@[k].end
                    <= chars@.len(),
        decreases spans@.len() - i,
    {
        assert(views[i as int] == (spans@[i as int].start as int, spans@[i as int].end as int));
        let ghost before = part_views(out@);
        let name = text::slice_text(&chars, spans[i].start, spans[i].end);
        let ghost added = PathPart::Name(name@);
        out.push(PathPart::Name(name));
        assert(expected[front.len() + i] == added);
        assert(part_views(out@) =~= before.push(added));
        assert(part_views(out@) =~= expected.take(front.len() + i + 1));
        i += 1;
    }
    assert(expected.take(front.len() + i) =~= expected);
    out
}

fn same_prefix(a: &PathPrefix<String>, b: &PathPrefix<String>) -> (r: bool)
    ensures
        r == (prefix_view(*a) == prefix_view(*b)),
{
    match (a, b) {
        (PathPrefix::Verbatim { name }, PathPrefix::Verbatim { name: other }) => text::same(
            name.as_str(),
            other.as_str(),
        ),
        (
            PathPrefix::VerbatimShare { server, share },
            PathPrefix::VerbatimShare { server: other, share: that },
        ) => text::same(server.as_str(), other.as_str()) && text::same(
            share.as_str(),
            that.as_str(),
        ),
        (PathPrefix::VerbatimDrive { letter }, PathPrefix::VerbatimDrive { letter: other }) => {
            *letter == *other
        },
        (PathPrefix::Device { name }, PathPrefix::Device { name: other }) => text::same(
            name.as_str(),
            other.as_str(),
        ),
        (
            PathPrefix::Share { server, share },
            PathPrefix::Share { server: other, share: that },
        ) => text::same(server.as_str(), other.as_str()) && text::same(
            share.as_str(),
            that.as_str(),
        ),
        (PathPrefix::Drive { letter }, PathPrefix::Drive { letter: other }) => *letter == *other,
        _ => false,
    }
}

fn same_part(a: &PathPart<String>, b: &PathPart<String>) -> (r: bool)
    ensures
        r == (part_view(*a) == part_view(*b)),
{
    match (a, b) {
        (PathPart::Prefix(prefix), PathPart::Prefix(other)) => same_prefix(prefix, other),
        (PathPart::Root, PathPart::Root) => true,
        (PathPart::Name(name), PathPart::Name(other)) => text::same(
            name.as_str(),
            other.as_str(),
        ),
        _ => false,
    }
}

/// Whether `prefix` is `path` or a directory above it, component by component.
pub fn path_starts_with(path: &str, prefix: &str, style: PathStyle) -> (r: bool)
    ensures
        r == under(path@, prefix@, style),
{
    let all = components_of(path, style);
    let wanted = components_of(prefix, style);
    let ghost above = components(prefix@, style);
    let ghost below = components(path@, style);
    assert(above.len() == wanted@.len() && below.len() == all@.len());
    if wanted.len() > all.len() {
        return false;
    }
    let mut i: usize = 0;
    while i < wanted.len()
        invariant
            i <= wanted@.len() <= all@.len(),
            part_views(all@) == below,
            part_views(wanted@) == above,
            below == components(path@, style),
            above == components(prefix@, style),
            above.len() == wanted@.len(),
            forall|k: int| 0 <= k < i ==> below[k] == above[k],
        decreases wanted@.len() - i,
    {
        assert(part_views(all@)[i as int] == part_view(all@[i as int]));
        assert(part_views(wanted@)[i as int] == part_view(wanted@[i as int]));
        if !same_part(&all[i], &wanted[i]) {
            assert(below.take(above.len() as int)[i as int] != above[i as int]);
            return false;
        }
        i += 1;
    }
    assert(below.take(above.len() as int) =~= above);
    true
}

/// How many components a path has.
pub fn path_depth(path: &str, style: PathStyle) -> (r: usize)
    ensures
        r == depth(path@, style),
{
    let listed = components_of(path, style);
    assert(part_views(listed@).len() == listed@.len());
    listed.len()
}

/// The path without its last name, where it has one.
pub fn path_parent(path: &str, style: PathStyle) -> (r: Option<String>)
    ensures
        match r {
            Some(parent) => parent_text(path@, style) == Some(parent@),
            None => parent_text(path@, style) is None,
        },
{
    let chars = text::chars_of(path);
    let outlined = outline(&chars, style);
    let spans = spans_of(&chars, outlined.body, outlined.separators, outlined.verbatim);
    let ghost views = names_in(path@, style);
    assert(views == span_views(spans@));
    assert(views.len() == spans@.len());
    if spans.len() == 0 {
        return None;
    }
    let end: usize = if spans.len() == 1 {
        let start: usize = outlined.body;
        if outlined.drive && !outlined.root && start < chars.len() && chars[start] == '.' && (start
            + 1 == chars.len() || Separators::Either.separates(chars[start + 1])) {
            start + 1
        } else {
            start
        }
    } else {
        assert(views[spans@.len() - 2] == (
            spans@[spans@.len() - 2].start as int,
            spans@[spans@.len() - 2].end as int,
        ));
        spans[spans.len() - 2].end
    };
    let parent = text::slice_text(&chars, 0, end);
    assert(parent@ =~= path@.take(end as int));
    Some(parent)
}

/// Follows one more component, as a verbatim path is followed.
fn step(list: &mut Vec<PathPart<String>>, part: PathPart<String>)
    ensures
        part_views(final(list)@) == stepped(part_views(old(list)@), part_view(part)),
{
    let ghost before = part_views(list@);
    let ghost added = part_view(part);
    match &part {
        PathPart::Root => {
            if list.len() > 1 {
                list.truncate(1);
                assert(part_views(list@) =~= before.take(1));
            }
        },
        PathPart::Name(name) => {
            if text::same(name.as_str(), ".") {
                return;
            }
            if text::same(name.as_str(), "..") {
                let plain = match list.last() {
                    Some(PathPart::Name(last)) => !text::same(last.as_str(), ".") && !text::same(
                        last.as_str(),
                        "..",
                    ),
                    _ => false,
                };
                assert(before.len() == list@.len());
                assert(list@.len() > 0 ==> before.last() == part_view(list@.last()));
                if plain {
                    list.pop();
                    assert(part_views(list@) =~= before.drop_last());
                }
                return;
            }
        },
        PathPart::Prefix(_) => {},
    }
    let ghost middle = part_views(list@);
    list.push(part);
    assert(part_views(list@) =~= middle.push(added));
}

/// The text of components.
fn write_parts(prefix: &str, list: &Vec<PathPart<String>>) -> (r: String)
    ensures
        r@ == written(prefix@, part_views(list@)),
{
    let ghost views = part_views(list@);
    let mut out = String::new();
    let mut needs_separator = false;
    let mut i: usize = 0;
    assert(views.take(0) =~= Seq::empty());
    while i < list.len()
        invariant
            i <= list@.len(),
            views == part_views(list@),
            out@ == written(prefix@, views.take(i as int)),
            needs_separator == (i > 0 && !(views[i - 1] is Root)),
        decreases list@.len() - i,
    {
        let ghost front = views.take(i as int);
        assert(views.take(i + 1).drop_last() =~= front);
        assert(views.take(i + 1).last() == views[i as int]);
        assert(views[i as int] == part_view(list@[i as int]));
        assert(i > 0 ==> front.last() == views[i - 1]);
        let ghost before = out@;
        match &list[i] {
            PathPart::Prefix(_) => {
                out.append(prefix);
                needs_separator = true;
            },
            PathPart::Root => {
                out.push('\\');
                assert(out@ =~= before + seq!['\\']);
                needs_separator = false;
            },
            PathPart::Name(name) => {
                if needs_separator {
                    out.push('\\');
                }
                out.append(name.as_str());
                assert(needs_separator ==> out@ =~= before + (seq!['\\'] + name@));
                needs_separator = true;
            },
        }
        i += 1;
    }
    assert(views.take(i as int) =~= views);
    out
}

/// `name` read from a directory that is written verbatim.
fn join_verbatim(base: &str, prefix_len: usize, name: &str, style: PathStyle) -> (r: String)
    requires
        prefix_len <= base@.len(),
    ensures
        r@ == written(
            base@.take(prefix_len as int),
            walked(components(base@, style), components(name@, style)),
        ),
{
    let chars = text::chars_of(base);
    let prefix = text::slice_text(&chars, 0, prefix_len);
    assert(prefix@ =~= base@.take(prefix_len as int));
    let mut list = components_of(base, style);
    let mut followed = components_of(name, style);
    let ghost start = part_views(list@);
    let ghost all = part_views(followed@);
    let mut done: usize = 0;
    let total: usize = followed.len();
    assert(all.take(0) =~= Seq::empty());
    assert(all.skip(0) =~= all);
    while followed.len() > 0
        invariant
            done <= total,
            total == all.len(),
            part_views(followed@) == all.skip(done as int),
            part_views(list@) == walked(start, all.take(done as int)),
        decreases followed@.len(),
    {
        assert(part_views(followed@).len() == followed@.len());
        let ghost part = part_view(followed@[0]);
        assert(part == all[done as int]) by {
            assert(part_views(followed@)[0] == part);
        }
        let ghost left = part_views(followed@);
        let next = followed.remove(0);
        assert(part_views(followed@) =~= left.skip(1));
        assert(part_views(followed@) =~= all.skip(done + 1));
        step(&mut list, next);
        assert(all.take(done + 1).drop_last() =~= all.take(done as int));
        done += 1;
    }
    assert(part_views(followed@).len() == 0);
    assert(all.take(done as int) =~= all);
    write_parts(prefix.as_str(), &list)
}

/// `name` read from the directory `base`.
pub fn path_join(base: &str, name: &str, style: PathStyle) -> (r: String)
    ensures
        r@ == join_text(base@, name@, style),
{
    let chars = text::chars_of(base);
    let letters = text::chars_of(name);
    let from = outline(&chars, style);
    let to = outline(&letters, style);
    let slashes = match style {
        PathStyle::Slash => true,
        PathStyle::Backslash => false,
    };
    if to.prefix.is_some() || (slashes && to.root) {
        return name.to_owned();
    }
    if from.verbatim && letters.len() > 0 {
        return join_verbatim(base, from.prefix_len, name, style);
    }
    if to.root {
        let mut out = text::slice_text(&chars, 0, from.prefix_len);
        assert(out@ =~= base@.take(from.prefix_len as int));
        out.append(name);
        return out;
    }
    if chars.len() == 0 || style.plain().separates(chars[chars.len() - 1]) || (from.drive
        && chars.len() == 2) {
        text::join2(base, name)
    } else {
        let mut out = base.to_owned();
        out.push(style.written());
        out.append(name);
        out
    }
}

/// The path with the extension of its file name replaced, or added where there is none.
pub fn path_with_extension(path: &str, extension: &str, style: PathStyle) -> (r: String)
    ensures
        r@ == with_extension_text(path@, extension@, style),
{
    let chars = text::chars_of(path);
    let outlined = outline(&chars, style);
    let spans = spans_of(&chars, outlined.body, outlined.separators, outlined.verbatim);
    let ghost views = names_in(path@, style);
    assert(views == span_views(spans@));
    assert(views.len() == spans@.len());
    if spans.len() == 0 {
        return path.to_owned();
    }
    let last: usize = spans.len() - 1;
    let start: usize = spans[last].start;
    let end: usize = spans[last].end;
    assert(views.last() == (start as int, end as int));
    let ghost file = path@.subrange(start as int, end as int);
    if end - start == 1 && chars[start] == '.' {
        assert(file =~= seq!['.']);
        return path.to_owned();
    }
    if end - start == 2 && chars[start] == '.' && chars[start + 1] == '.' {
        assert(file =~= seq!['.', '.']);
        return path.to_owned();
    }
    assert(file != seq!['.']) by {
        if file == seq!['.'] {
            assert(file.len() == 1);
            assert(file[0] == '.');
        }
    }
    assert(file != seq!['.', '.']) by {
        if file == seq!['.', '.'] {
            assert(file.len() == 2);
            assert(file[0] == '.');
            assert(file[1] == '.');
        }
    }
    let mut stem: usize = end;
    let mut i: usize = end;
    let mut found = false;
    while i > start && !found
        invariant
            start <= i <= end <= chars@.len(),
            start < end,
            chars@ == path@,
            file == path@.subrange(start as int, end as int),
            !found ==> stem == end && forall|j: int| i <= j < end ==> path@[j] != '.',
            found ==> i < end && path@[i as int] == '.' && stem == (if i == start {
                end
            } else {
                i
            }) && forall|j: int| i < j < end ==> path@[j] != '.',
        decreases i - start,
    {
        i -= 1;
        if chars[i] == '.' {
            found = true;
            if i > start {
                stem = i;
            }
        }
    }
    proof {
        let dot = seq!['.'];
        assert forall|j: int| #[trigger]
            text::occurs_at(file, dot, j) == (0 <= j < file.len() && path@[start + j] == '.') by {
            if 0 <= j < file.len() {
                assert(file.subrange(j, j + 1)[0] == file[j]);
                assert(dot[0] == '.');
                if file[j] == '.' {
                    assert(file.subrange(j, j + 1) =~= dot);
                }
            }
        }
        if found {
            assert(text::occurs_at(file, dot, i - start));
            assert(text::last_at(file, dot, i - start));
            text::lemma_find_last(file, dot, i - start);
        } else {
            assert forall|at: int| !text::last_at(file, dot, at) by {
                if text::last_at(file, dot, at) {
                    assert(text::occurs_at(file, dot, at));
                    assert(path@[start + at] == '.');
                }
            }
        }
        assert(stem_len(file) == stem - start);
    }
    let mut out = text::slice_text(&chars, 0, stem);
    assert(out@ =~= path@.take(stem as int));
    out.push('.');
    out.append(extension);
    out
}

/// The names at places of a text.
spec fn cut(s: Seq<char>, spans: Seq<(int, int)>) -> Seq<PathPart<Seq<char>>> {
    spans.map_values(|span: (int, int)| PathPart::Name(s.subrange(span.0, span.1)))
}

/// Components without the `.` that opens a relative path.
pub open spec fn without_dot(list: Seq<PathPart<Seq<char>>>) -> Seq<PathPart<Seq<char>>> {
    if list.len() > 0 && list[0] == PathPart::Name(seq!['.']) {
        list.skip(1)
    } else {
        list
    }
}

/// Whether a path is written with slashes, or from the root of a drive.
pub open spec fn is_ordinary(s: Seq<char>, style: PathStyle) -> bool {
    style == PathStyle::Slash || (drive_at(s, 0) && s.len() > 2 && (s[2] == '/' || s[2] == '\\'))
}

/// Whether a name is read from a directory: it begins with neither a separator nor a drive.
pub open spec fn is_relative(name: Seq<char>, style: PathStyle) -> bool {
    name.len() > 0 && name[0] != '/' && (style == PathStyle::Backslash ==> name[0] != '\\'
        && !drive_at(name, 0))
}

proof fn lemma_ordinary(s: Seq<char>, style: PathStyle)
    requires
        is_ordinary(s, style),
    ensures
        separators_of(s, style) == plain_separators(style),
        !is_verbatim(prefix_of(s, style)),
        style == PathStyle::Slash ==> body_start(s, style) == if s.len() > 0 && s[0] == '/' {
            1int
        } else {
            0int
        },
        style == PathStyle::Backslash ==> body_start(s, style) == 3,
        front_len(s, style) == body_start(s, style),
        !is_bare_drive(s, style),
        head(s, style) == match style {
            PathStyle::Slash => if s.len() > 0 && s[0] == '/' {
                seq![PathPart::<Seq<char>>::Root]
            } else {
                Seq::empty()
            },
            PathStyle::Backslash => seq![
                PathPart::Prefix(PathPrefix::<Seq<char>>::Drive { letter: letter_of(s[0]) }),
                PathPart::Root,
            ],
        },
        components(s, style) == head(s, style) + cut(
            s,
            spans_from(s, body_start(s, style), plain_separators(style), false),
        ),
{
    assert(Seq::<PathPart<Seq<char>>>::empty().push(PathPart::Root) =~= seq![PathPart::Root]);
    if style == PathStyle::Backslash {
        assert(!begins_twice(s));
        assert(prefix_of(s, style) == Some(
            PathPrefix::<Seq<char>>::Drive { letter: letter_of(s[0]) },
        ));
        assert(head(s, style) =~= seq![
            PathPart::Prefix(PathPrefix::<Seq<char>>::Drive { letter: letter_of(s[0]) }),
            PathPart::Root,
        ]);
    }
    let spans = spans_from(s, body_start(s, style), plain_separators(style), false);
    assert(names_in(s, style) == spans);
    assert(names_in(s, style).map_values(
        |span: (int, int)| PathPart::Name(s.subrange(span.0, span.1)),
    ) =~= cut(s, spans));
}

proof fn lemma_relative(name: Seq<char>, style: PathStyle)
    requires
        is_relative(name, style),
    ensures
        prefix_of(name, style) is None,
        !writes_root(name, style),
        components(name, style) == cut(name, spans_from(name, 0, plain_separators(style), false)),
{
    assert(style == PathStyle::Backslash ==> !begins_twice(name));
    assert(prefix_of(name, style) is None);
    let spans = spans_from(name, 0, plain_separators(style), false);
    assert(names_in(name, style) == spans);
    assert(head(name, style) =~= Seq::empty());
    assert(components(name, style) =~= cut(name, spans));
}

proof fn lemma_spans_within(s: Seq<char>, from: int, separators: Separators)
    requires
        0 <= from <= s.len(),
    ensures
        forall|i: int|
            0 <= i < spans_from(s, from, separators, false).len() ==> from <= (
            #[trigger] spans_from(s, from, separators, false)[i]).0 < spans_from(
                s,
                from,
                separators,
                false,
            )[i].1 <= s.len(),
    decreases s.len() - from,
{
    lemma_segment_end(s, from, separators);
    let end = segment_end(s, from, separators);
    if end < s.len() {
        lemma_spans_within(s, end + 1, separators);
        let rest = spans_from(s, end + 1, separators, false);
        let all = spans_from(s, from, separators, false);
        assert forall|i: int| 0 <= i < all.len() implies from <= (#[trigger] all[i]).0 < all[i].1
            <= s.len() by {
            if is_component(s, from, end, false) {
                if i > 0 {
                    assert(all[i] == rest[i - 1]);
                }
            } else {
                assert(all[i] == rest[i]);
            }
        }
    }
}

proof fn lemma_end_in_front(s: Seq<char>, t: Seq<char>, from: int, separators: Separators)
    requires
        0 <= from <= s.len() <= t.len(),
        forall|i: int| 0 <= i < s.len() ==> #[trigger] t[i] == s[i],
        s.len() == t.len() || is_separator(t[s.len() as int], separators),
    ensures
        segment_end(t, from, separators) == segment_end(s, from, separators),
    decreases s.len() - from,
{
    if from < s.len() {
        assert(t[from] == s[from]);
        if !is_separator(s[from], separators) {
            lemma_end_in_front(s, t, from + 1, separators);
        }
    }
}

proof fn lemma_end_behind(
    t: Seq<char>,
    name: Seq<char>,
    skipped: int,
    from: int,
    separators: Separators,
)
    requires
        0 <= skipped,
        0 <= from <= name.len(),
        t.len() == skipped + name.len(),
        forall|i: int| 0 <= i < name.len() ==> t[skipped + i] == #[trigger] name[i],
    ensures
        segment_end(t, skipped + from, separators) == skipped + segment_end(
            name,
            from,
            separators,
        ),
    decreases name.len() - from,
{
    if from < name.len() {
        assert(t[skipped + from] == name[from]);
        if !is_separator(name[from], separators) {
            lemma_end_behind(t, name, skipped, from + 1, separators);
        }
    }
}

proof fn lemma_cut_joined(s: Seq<char>, a: Seq<(int, int)>, b: Seq<(int, int)>)
    ensures
        cut(s, a + b) == cut(s, a) + cut(s, b),
{
    assert(cut(s, a + b) =~= cut(s, a) + cut(s, b));
}

proof fn lemma_split(
    base: Seq<char>,
    mark: char,
    name: Seq<char>,
    from: int,
    separators: Separators,
)
    requires
        0 <= from <= base.len(),
        is_separator(mark, separators),
    ensures
        ({
            let t = base.push(mark) + name;
            &&& spans_from(t, from, separators, false) == spans_from(
                base,
                from,
                separators,
                false,
            ) + spans_from(t, base.len() as int + 1, separators, false)
            &&& cut(t, spans_from(base, from, separators, false)) == cut(
                base,
                spans_from(base, from, separators, false),
            )
        }),
    decreases base.len() - from,
{
    let t = base.push(mark) + name;
    assert forall|i: int| 0 <= i < base.len() implies #[trigger] t[i] == base[i] by {}
    assert(t[base.len() as int] == mark);
    lemma_end_in_front(base, t, from, separators);
    lemma_segment_end(base, from, separators);
    lemma_spans_within(base, from, separators);
    let end = segment_end(base, from, separators);
    let spans = spans_from(base, from, separators, false);
    assert(is_component(base, from, end, false) == is_component(t, from, end, false));
    if end < base.len() {
        lemma_split(base, mark, name, end + 1, separators);
    }
    assert(spans_from(t, from, separators, false) =~= spans + spans_from(
        t,
        base.len() as int + 1,
        separators,
        false,
    ));
    assert(cut(t, spans) =~= cut(base, spans)) by {
        assert forall|i: int| 0 <= i < spans.len() implies cut(t, spans)[i] == cut(
            base,
            spans,
        )[i] by {
            let span = spans[i];
            assert(t.subrange(span.0, span.1) =~= base.subrange(span.0, span.1));
        }
    }
}

proof fn lemma_moved(
    t: Seq<char>,
    name: Seq<char>,
    skipped: int,
    from: int,
    separators: Separators,
)
    requires
        0 < skipped,
        0 <= from <= name.len(),
        t.len() == skipped + name.len(),
        forall|i: int| 0 <= i < name.len() ==> t[skipped + i] == #[trigger] name[i],
    ensures
        from > 0 ==> cut(t, spans_from(t, skipped + from, separators, false)) == cut(
            name,
            spans_from(name, from, separators, false),
        ),
        from == 0 ==> cut(t, spans_from(t, skipped, separators, false)) == without_dot(
            cut(name, spans_from(name, 0, separators, false)),
        ) || (name.len() > 0 && is_separator(name[0], separators)),
    decreases name.len() - from,
{
    lemma_end_behind(t, name, skipped, from, separators);
    lemma_segment_end(name, from, separators);
    let end = segment_end(name, from, separators);
    let rest = if end < name.len() {
        spans_from(name, end + 1, separators, false)
    } else {
        Seq::empty()
    };
    let moved = if end < name.len() {
        spans_from(t, skipped + end + 1, separators, false)
    } else {
        Seq::empty()
    };
    if end < name.len() {
        lemma_moved(t, name, skipped, end + 1, separators);
    } else {
        assert(cut(t, moved) =~= cut(name, rest));
    }
    assert(cut(t, moved) == cut(name, rest));
    let own = seq![(from, end)];
    let there = seq![(skipped + from, skipped + end)];
    lemma_cut_joined(name, own, rest);
    lemma_cut_joined(t, there, moved);
    assert(t.subrange(skipped + from, skipped + end) =~= name.subrange(from, end)) by {
        assert forall|i: int| 0 <= i < end - from implies t.subrange(
            skipped + from,
            skipped + end,
        )[i] == name.subrange(from, end)[i] by {
            assert(t[skipped + (from + i)] == name[from + i]);
        }
    }
    assert(cut(t, there) =~= cut(name, own));
    if from < end {
        assert(t[skipped + from] == name[from]);
    }
    if from > 0 {
        assert(is_component(name, from, end, false) == is_component(
            t,
            skipped + from,
            skipped + end,
            false,
        ));
    } else if 0 < end {
        let listed = cut(name, own + rest);
        assert(listed[0] == PathPart::Name(name.subrange(0, end)));
        assert(listed.skip(1) =~= cut(name, rest));
        if end == 1 && name[0] == '.' {
            assert(name.subrange(0, end) =~= seq!['.']);
        } else {
            if name.subrange(0, end) == seq!['.'] {
                assert(name.subrange(0, end).len() == 1);
                assert(name.subrange(0, end)[0] == name[0]);
            }
        }
    } else if name.len() == 0 {
        assert(cut(name, rest) =~= Seq::empty());
    }
}

/// A text without a separator is one component, itself; the empty one has none.
pub proof fn law_a_name_is_one_component(s: Seq<char>)
    requires
        forall|i: int| 0 <= i < s.len() ==> #[trigger] s[i] != '/',
    ensures
        s.len() > 0 ==> components(s, PathStyle::Slash) == seq![PathPart::Name(s)],
        s.len() == 0 ==> components(s, PathStyle::Slash) == Seq::<PathPart<Seq<char>>>::empty(),
{
    lemma_ordinary(s, PathStyle::Slash);
    lemma_whole(s, 0);
    assert(s.subrange(0, s.len() as int) =~= s);
    let spans = spans_from(s, 0, Separators::Slash, false);
    if s.len() > 0 {
        assert(spans =~= seq![(0int, s.len() as int)]);
        assert(components(s, PathStyle::Slash) =~= seq![PathPart::Name(s)]);
    } else {
        assert(spans =~= Seq::empty());
        assert(components(s, PathStyle::Slash) =~= Seq::empty());
    }
}

proof fn lemma_whole(s: Seq<char>, from: int)
    requires
        0 <= from <= s.len(),
        forall|i: int| 0 <= i < s.len() ==> #[trigger] s[i] != '/',
    ensures
        segment_end(s, from, Separators::Slash) == s.len(),
    decreases s.len() - from,
{
    if from < s.len() {
        lemma_whole(s, from + 1);
    }
}

/// The components of two paths with a slash between them are those of the first followed by those
/// of the second, whose opening `.` does not count; behind a slash that nothing precedes they
/// follow the root.
pub proof fn law_a_slash_separates_components(a: Seq<char>, b: Seq<char>)
    requires
        b.len() > 0 ==> b[0] != '/',
    ensures
        a.len() > 0 ==> components(a.push('/') + b, PathStyle::Slash) == components(
            a,
            PathStyle::Slash,
        ) + without_dot(components(b, PathStyle::Slash)),
        a.len() == 0 ==> components(a.push('/') + b, PathStyle::Slash) == seq![
            PathPart::<Seq<char>>::Root,
        ] + without_dot(components(b, PathStyle::Slash)),
{
    let style = PathStyle::Slash;
    let t = a.push('/') + b;
    lemma_ordinary(t, style);
    lemma_ordinary(a, style);
    lemma_ordinary(b, style);
    let skipped = a.len() as int + 1;
    assert forall|i: int| 0 <= i < b.len() implies t[skipped + i] == #[trigger] b[i] by {}
    lemma_moved(t, b, skipped, 0, Separators::Slash);
    assert(components(b, style) =~= cut(b, spans_from(b, 0, Separators::Slash, false)));
    if a.len() > 0 {
        assert(t[0] == a[0]);
        let from = body_start(a, style);
        lemma_split(a, '/', b, from, Separators::Slash);
        lemma_cut_joined(
            t,
            spans_from(a, from, Separators::Slash, false),
            spans_from(t, skipped, Separators::Slash, false),
        );
        assert(components(t, style) =~= components(a, style) + without_dot(components(b, style)));
    } else {
        assert(t[0] == '/');
        assert(components(t, style) =~= seq![PathPart::<Seq<char>>::Root] + without_dot(
            components(b, style),
        ));
    }
}

proof fn lemma_shortened(s: Seq<char>, from: int, separators: Separators)
    requires
        0 <= from <= s.len(),
        spans_from(s, from, separators, false).len() >= 2,
    ensures
        ({
            let spans = spans_from(s, from, separators, false);
            let end = spans[spans.len() - 2].1;
            &&& from < end <= s.len()
            &&& spans_from(s.take(end), from, separators, false) == spans.drop_last()
            &&& cut(s.take(end), spans.drop_last()) == cut(s, spans).drop_last()
        }),
    decreases s.len() - from,
{
    lemma_segment_end(s, from, separators);
    lemma_spans_within(s, from, separators);
    let spans = spans_from(s, from, separators, false);
    let close = segment_end(s, from, separators);
    let rest = spans_from(s, close + 1, separators, false);
    assert(close < s.len());
    lemma_spans_within(s, close + 1, separators);
    let end = spans[spans.len() - 2].1;
    let front = s.take(end);
    let counts = is_component(s, from, close, false);
    if counts && rest.len() == 1 {
        assert(end == close);
        lemma_segment_stops(s, front, from, separators);
        assert(spans_from(front, from, separators, false) =~= seq![(from, close)]);
        assert(spans.drop_last() =~= seq![(from, close)]);
    } else {
        assert(rest.len() >= 2);
        if counts {
            assert(spans[spans.len() - 2] == rest[rest.len() - 2]);
        }
        assert(end == rest[rest.len() - 2].1);
        lemma_shortened(s, close + 1, separators);
        lemma_segment_stops(s, front, from, separators);
        assert(is_component(front, from, close, false) == counts);
        assert(spans_from(front, from, separators, false) =~= spans.drop_last());
    }
    let kept = spans.drop_last();
    assert(cut(front, kept) =~= cut(s, spans).drop_last()) by {
        lemma_spans_within(front, from, separators);
        assert forall|i: int| 0 <= i < kept.len() implies cut(front, kept)[i] == cut(
            s,
            spans,
        ).drop_last()[i] by {
            let span = kept[i];
            assert(spans_from(front, from, separators, false)[i] == span);
            assert(front.subrange(span.0, span.1) =~= s.subrange(span.0, span.1));
        }
    }
}

proof fn lemma_segment_stops(s: Seq<char>, front: Seq<char>, from: int, separators: Separators)
    requires
        0 <= from <= front.len() <= s.len(),
        front == s.take(front.len() as int),
        segment_end(s, from, separators) <= front.len(),
    ensures
        segment_end(front, from, separators) == segment_end(s, from, separators),
    decreases front.len() - from,
{
    lemma_segment_end(s, from, separators);
    if from < front.len() {
        assert(front[from] == s[from]);
        if !is_separator(s[from], separators) {
            lemma_segment_end(s, from + 1, separators);
            lemma_segment_stops(s, front, from + 1, separators);
        }
    }
}

/// The directory of a path has the path's components without the last, which is a name; a path has
/// no directory only where it has no name.
pub proof fn law_a_directory_lacks_the_last_component(s: Seq<char>, style: PathStyle)
    requires
        is_ordinary(s, style),
    ensures
        match parent_text(s, style) {
            Some(directory) => {
                &&& components(s, style).len() > 0
                &&& components(s, style).last() is Name
                &&& components(directory, style) == components(s, style).drop_last()
                &&& is_ordinary(directory, style)
            },
            None => forall|i: int|
                0 <= i < components(s, style).len() ==> !((#[trigger] components(s, style)[i])
                    is Name),
        },
{
    lemma_ordinary(s, style);
    let from = body_start(s, style);
    let separators = plain_separators(style);
    let spans = spans_from(s, from, separators, false);
    assert(names_in(s, style) == spans);
    let whole = components(s, style);
    if spans.len() > 0 {
        let directory = parent_text(s, style)->Some_0;
        assert(from <= s.len()) by {
            if from > s.len() {
                assert(spans.len() == 0);
            }
        }
        if spans.len() == 1 {
            assert(directory == s.take(from));
            lemma_ordinary(directory, style);
            assert(spans_from(directory, from, separators, false) =~= Seq::empty());
            assert(components(directory, style) =~= whole.drop_last());
        } else {
            lemma_shortened(s, from, separators);
            assert(directory[0] == s[0]);
            if style == PathStyle::Backslash {
                assert(directory[1] == s[1] && directory[2] == s[2]);
            }
            lemma_ordinary(directory, style);
            assert(components(directory, style) =~= whole.drop_last());
        }
    } else {
        assert(whole =~= head(s, style));
    }
}

/// A relative name read from a directory has the directory's components followed by its own, whose
/// opening `.` does not count.
pub proof fn law_a_relative_name_is_read_from_its_directory(
    base: Seq<char>,
    name: Seq<char>,
    style: PathStyle,
)
    requires
        is_ordinary(base, style),
        base.len() > 0,
        is_relative(name, style),
    ensures
        components(join_text(base, name, style), style) == components(base, style) + without_dot(
            components(name, style),
        ),
{
    lemma_ordinary(base, style);
    lemma_relative(name, style);
    let separators = plain_separators(style);
    let t = join_text(base, name, style);
    let from = body_start(base, style);
    assert(t[0] == base[0]);
    if style == PathStyle::Backslash {
        assert(t[1] == base[1] && t[2] == base[2]);
    }
    lemma_ordinary(t, style);
    assert(head(t, style) == head(base, style));
    assert(body_start(t, style) == from);
    assert(!is_separator(name[0], separators));
    if is_separator(base.last(), separators) {
        let front = base.drop_last();
        let skipped = base.len() as int;
        assert(t =~= front.push(base.last()) + name);
        assert forall|i: int| 0 <= i < name.len() implies t[skipped + i] == #[trigger] name[i] by {}
        lemma_moved(t, name, skipped, 0, separators);
        if from <= front.len() {
            lemma_split(front, base.last(), name, from, separators);
            lemma_split(front, base.last(), Seq::empty(), from, separators);
            assert(front.push(base.last()) + Seq::<char>::empty() =~= base);
            assert(spans_from(base, base.len() as int, separators, false) =~= Seq::empty());
            assert(spans_from(base, from, separators, false) =~= spans_from(
                front,
                from,
                separators,
                false,
            ));
            lemma_cut_joined(
                t,
                spans_from(front, from, separators, false),
                spans_from(t, skipped, separators, false),
            );
        } else {
            assert(from == skipped);
            assert(spans_from(base, from, separators, false) =~= Seq::empty());
        }
    } else {
        let mark = separator(style);
        let skipped = base.len() as int + 1;
        assert(t == base.push(mark) + name);
        assert forall|i: int| 0 <= i < name.len() implies t[skipped + i] == #[trigger] name[i] by {}
        lemma_split(base, mark, name, from, separators);
        lemma_moved(t, name, skipped, 0, separators);
        lemma_cut_joined(
            t,
            spans_from(base, from, separators, false),
            spans_from(t, skipped, separators, false),
        );
    }
    assert(components(t, style) =~= components(base, style) + without_dot(
        components(name, style),
    ));
}

/// A path without components is empty.
pub proof fn lemma_no_components(s: Seq<char>)
    requires
        components(s, PathStyle::Slash).len() == 0,
    ensures
        s.len() == 0,
{
    lemma_ordinary(s, PathStyle::Slash);
    if s.len() > 0 {
        assert(s[0] != '/');
        lemma_segment_end(s, 1, Separators::Slash);
        let end = segment_end(s, 0, Separators::Slash);
        assert(end > 0);
        let spans = spans_from(s, 0, Separators::Slash, false);
        assert(spans.len() > 0);
    }
}

/// A relative name that begins with no dot has no opening `.`.
pub proof fn lemma_no_dot(name: Seq<char>, style: PathStyle)
    requires
        is_relative(name, style),
        name[0] != '.',
    ensures
        without_dot(components(name, style)) == components(name, style),
{
    lemma_relative(name, style);
    let separators = plain_separators(style);
    lemma_segment_end(name, 1, separators);
    let end = segment_end(name, 0, separators);
    let listed = components(name, style);
    assert(end > 0);
    assert(listed[0] == PathPart::Name(name.subrange(0, end)));
    if name.subrange(0, end) == seq!['.'] {
        assert(name.subrange(0, end)[0] == name[0]);
    }
}

/// A path lies under itself and under each directory it is written from, component by component: a
/// name that only begins alike is no directory of it.
pub proof fn law_a_path_lies_under_its_directories(a: Seq<char>, b: Seq<char>, c: Seq<char>)
    requires
        a.len() > 0,
        b.len() > 0 ==> b[0] != '/',
        c.len() > 0,
        forall|i: int| 0 <= i < c.len() ==> #[trigger] c[i] != '/',
        c != seq!['.'],
        forall|i: int| 0 <= i < a.len() ==> #[trigger] a[i] != '/',
    ensures
        under(a, a, PathStyle::Slash),
        under(a.push('/') + b, a, PathStyle::Slash),
        under(a + c, a, PathStyle::Slash) ==> false,
        !under(a, a.push('/') + c, PathStyle::Slash),
{
    let style = PathStyle::Slash;
    law_a_slash_separates_components(a, b);
    law_a_slash_separates_components(a, c);
    law_a_name_is_one_component(a);
    law_a_name_is_one_component(c);
    assert(components(a, style).take(depth(a, style) as int) =~= components(a, style));
    assert(components(a.push('/') + b, style).take(depth(a, style) as int) =~= components(a, style));
    assert forall|i: int| 0 <= i < (a + c).len() implies #[trigger] (a + c)[i] != '/' by {
        if i >= a.len() {
            assert((a + c)[i] == c[i - a.len()]);
        }
    }
    law_a_name_is_one_component(a + c);
    assert((a + c).len() != a.len());
    if under(a + c, a, style) {
        assert(components(a + c, style).take(1)[0] == PathPart::Name(a + c));
        assert(components(a, style)[0] == PathPart::Name(a));
    }
    let inner = without_dot(components(c, style));
    assert(inner.len() == 1) by {
        assert(components(c, style)[0] == PathPart::Name(c));
    }
}

/// What lies under a directory that lies under another lies under that one too.
pub proof fn law_lying_under_is_transitive(
    a: Seq<char>,
    b: Seq<char>,
    c: Seq<char>,
    style: PathStyle,
)
    requires
        under(a, b, style),
        under(b, c, style),
    ensures
        under(a, c, style),
{
    let n = depth(c, style) as int;
    assert(components(a, style).take(n) =~= components(a, style).take(depth(b, style) as int).take(
        n,
    ));
}

proof fn lemma_last_name(base: Seq<char>, file: Seq<char>)
    requires
        file.len() > 0,
        forall|i: int| 0 <= i < file.len() ==> #[trigger] file[i] != '/',
        file != seq!['.'],
    ensures
        ({
            let t = base.push('/') + file;
            let spans = names_in(t, PathStyle::Slash);
            spans.len() > 0 && spans.last() == (base.len() as int + 1, t.len() as int)
        }),
{
    let style = PathStyle::Slash;
    let t = base.push('/') + file;
    let skipped = base.len() as int + 1;
    lemma_ordinary(t, style);
    lemma_ordinary(base, style);
    assert forall|i: int| 0 <= i < file.len() implies t[skipped + i] == #[trigger] file[i] by {}
    lemma_whole(file, 0);
    lemma_end_behind(t, file, skipped, 0, Separators::Slash);
    let last = spans_from(t, skipped, Separators::Slash, false);
    if file.len() == 1 && file[0] == '.' {
        assert(file =~= seq!['.']);
    }
    assert(t[skipped] == file[0]);
    assert(last =~= seq![(skipped, t.len() as int)]);
    if base.len() > 0 {
        assert(t[0] == base[0]);
        lemma_split(base, '/', file, body_start(base, style), Separators::Slash);
    } else {
        assert(t[0] == '/');
    }
}

/// The extension of a file is what follows the last dot of its name, unless that opens the name;
/// giving the file another replaces it, and gives one to a file that has none. Its directory stays
/// as it is.
pub proof fn law_an_extension_follows_the_last_dot(
    base: Seq<char>,
    stem: Seq<char>,
    old_extension: Seq<char>,
    extension: Seq<char>,
)
    requires
        stem.len() > 0,
        forall|i: int| 0 <= i < stem.len() ==> #[trigger] stem[i] != '/',
        forall|i: int|
            0 <= i < old_extension.len() ==> #[trigger] old_extension[i] != '/' && old_extension[i]
                != '.',
    ensures
        stem != seq!['.'] ==> with_extension_text(
            base.push('/') + (stem.push('.') + old_extension),
            extension,
            PathStyle::Slash,
        ) == base.push('/') + (stem.push('.') + extension),
        (forall|i: int| 0 <= i < stem.len() ==> #[trigger] stem[i] != '.') ==> with_extension_text(
            base.push('/') + stem,
            extension,
            PathStyle::Slash,
        ) == base.push('/') + (stem.push('.') + extension),
{
    let dot = seq!['.'];
    if stem != seq!['.'] {
        let file = stem.push('.') + old_extension;
        let t = base.push('/') + file;
        assert forall|i: int| 0 <= i < file.len() implies #[trigger] file[i] != '/' by {
            if i > stem.len() {
                assert(file[i] == old_extension[i - stem.len() - 1]);
            } else if i < stem.len() {
                assert(file[i] == stem[i]);
            }
        }
        assert(file.len() >= 2);
        lemma_last_name(base, file);
        assert(t.subrange(base.len() as int + 1, t.len() as int) =~= file);
        let at = stem.len() as int;
        assert(file.subrange(at, at + 1) =~= dot);
        assert forall|j: int| at < j implies !#[trigger] text::occurs_at(file, dot, j) by {
            if text::occurs_at(file, dot, j) {
                assert(file.subrange(j, j + 1)[0] == file[j]);
                assert(file[j] == old_extension[j - at - 1]);
            }
        }
        text::lemma_find_last(file, dot, at);
        if file == seq!['.', '.'] {
            assert(stem =~= seq!['.']) by {
                assert(stem.len() == 1);
                assert(stem[0] == file[0]);
            }
        }
        assert(t.take(base.len() + 1 + at).push('.') + extension =~= base.push('/') + (stem.push(
            '.',
        ) + extension));
    }
    if forall|i: int| 0 <= i < stem.len() ==> #[trigger] stem[i] != '.' {
        let t = base.push('/') + stem;
        assert(stem[0] != '.');
        lemma_last_name(base, stem);
        assert(t.subrange(base.len() as int + 1, t.len() as int) =~= stem);
        assert forall|j: int| !#[trigger] text::occurs_at(stem, dot, j) by {
            if text::occurs_at(stem, dot, j) {
                assert(stem.subrange(j, j + 1)[0] == stem[j]);
            }
        }
        assert(text::find_last(stem, dot) is None);
        assert(t.take(base.len() as int + 1 + stem.len() as int) =~= t);
        assert(t.push('.') + extension =~= base.push('/') + (stem.push('.') + extension));
    }
}

/// What stands before the root of a path shows in how the path begins. A slash alone never begins
/// with more than a root; elsewhere two backslashes with a question mark and a third make a path
/// verbatim, with a dot a device, and a letter with a colon names a drive.
pub proof fn law_a_prefix_shows_in_how_a_path_begins(s: Seq<char>)
    ensures
        prefix_of(s, PathStyle::Slash) is None,
        is_verbatim(prefix_of(s, PathStyle::Backslash)) <==> s.len() >= 4 && s[0] == '\\' && s[1]
            == '\\' && s[2] == '?' && s[3] == '\\',
        prefix_of(s, PathStyle::Backslash) matches Some(PathPrefix::Device { .. }) <==> s.len() >= 4
            && (s[0] == '\\' || s[0] == '/') && (s[1] == '\\' || s[1] == '/') && s[2] == '.' && (s[3]
            == '\\' || s[3] == '/'),
        prefix_of(s, PathStyle::Backslash) matches Some(PathPrefix::Drive { .. }) <==> s.len() >= 2
            && s[1] == ':' && ('a' <= s[0] <= 'z' || 'A' <= s[0] <= 'Z'),
{
}

} // verus!
