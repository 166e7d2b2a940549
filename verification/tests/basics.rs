use gpui_shell::error::{ErrorKind, Fault, ScriptError};
use gpui_shell::number::Number;
use gpui_shell::path::{
    components_of, path_depth, path_join, path_parent, path_starts_with, path_with_extension,
    PathPart, PathPrefix, PathStyle,
};
use gpui_shell::scope::{
    refuse_nested_view_mutation, CurrentApplication, HostScope, NestedViewProvenance, ScopePhase,
};
use gpui_shell::text::{
    bytes_in, comes_before, contains_char, decimal, find_last_pattern, find_pattern, hex, join_all,
    parse_u32, rsplit_once, same, strip_prefix,
};
use gpui_shell::textmap::TextMap;

const SLASH: PathStyle = PathStyle::Slash;
const BACKSLASH: PathStyle = PathStyle::Backslash;

fn named(name: &str) -> PathPart<String> {
    PathPart::Name(name.to_owned())
}

fn prefixed(prefix: PathPrefix<String>) -> PathPart<String> {
    PathPart::Prefix(prefix)
}

fn number(value: f64) -> Number {
    Number { wide: value.to_bits(), narrow: (value as f32).to_bits() }
}

#[test]
fn numbers_are_read_from_their_bits() {
    assert!(number(1.5).is_finite());
    assert!(!number(f64::NAN).is_finite());
    assert!(!number(f64::NEG_INFINITY).is_finite());
    assert!(number(0.0).is_extent() && number(-0.0).is_extent());
    assert!(!number(-0.5).is_extent());
    assert_eq!(number(7.99).to_index(), 7);
    assert_eq!(number(1e300).to_index(), usize::MAX);
    assert!(number(1e300).is_finite() && !number(1e300).narrow_is_finite());
    assert!(number(-3.0).is_whole() && !number(0.25).is_whole());
    assert!(number(2.0).at_least(number(2.0)) && !number(1.0).at_least(number(2.0)));
    assert!(number(0.0).at_least(number(-0.0)));
    assert!(number(1.0).at_least_one() && !number(0.5).at_least_one());
    assert!(number(1e9).fits_index() && !number(1e38).fits_index());
    assert!(number(-0.0).not_below_zero() && !number(-1.0).not_below_zero());
    assert_eq!(number(3.7).truncated(), 3);
    assert_eq!(number(-3.7).truncated(), 0);
    assert_eq!(number(1e20).truncated(), u32::MAX);
}

#[test]
fn texts_are_searched_and_split() {
    let chars: Vec<char> = "a.b.c".chars().collect();
    let dot: Vec<char> = ".".chars().collect();
    assert_eq!(find_pattern(&chars, &dot, 0), Some(1));
    assert_eq!(find_pattern(&chars, &dot, 2), Some(3));
    assert_eq!(find_pattern(&chars, &dot, 4), None);
    assert_eq!(find_last_pattern(&chars, &dot), Some(3));
    assert_eq!(rsplit_once("a?v=1?v=2", "?v="), Some(("a?v=1".to_owned(), "2".to_owned())));
    assert_eq!(rsplit_once("abc", "?v="), None);
    assert_eq!(strip_prefix("abc", "ab"), Some("c".to_owned()));
    assert_eq!(strip_prefix("abc", "b"), None);
    assert!(contains_char("a/b", '/') && !contains_char("ab", '/'));
    assert!(same("x", "x") && !same("x", "y"));
}

#[test]
fn texts_are_ordered_and_measured() {
    assert!(comes_before("a", "ab") && comes_before("ab", "b") && !comes_before("b", "b"));
    assert_eq!(bytes_in("a\u{e9}\u{1f600}"), 7);
    assert_eq!(join_all(&vec!["a".to_owned(), "b".to_owned()], ", "), "a, b");
}

#[test]
fn numbers_are_written_and_read() {
    assert_eq!(decimal(0), "0");
    assert_eq!(decimal(u64::MAX), "18446744073709551615");
    assert_eq!(hex(0x2f, 4), "002f");
    assert_eq!(parse_u32("42"), Some(42));
    assert_eq!(parse_u32("+42"), Some(42));
    assert_eq!(parse_u32("4294967296"), None);
    assert_eq!(parse_u32(""), None);
    assert_eq!(parse_u32("+"), None);
    assert_eq!(parse_u32("4x"), None);
}

#[test]
fn paths_are_made_of_parts() {
    assert_eq!(
        components_of("/a//b/./c", SLASH),
        [PathPart::Root, named("a"), named("b"), named("c")]
    );
    assert_eq!(components_of("./a/..", SLASH), [named("."), named("a"), named("..")]);
    assert!(path_starts_with("/a/b/c", "/a/b", SLASH));
    assert!(!path_starts_with("/a/bc", "/a/b", SLASH));
    assert!(path_starts_with("/a", "", SLASH) && !path_starts_with("a", "/", SLASH));
    assert_eq!(path_depth("/a/b", SLASH), path_depth("/a", SLASH) + 1);
    assert_eq!(path_parent("/a/b", SLASH), Some("/a".to_owned()));
    assert_eq!(path_join("/a", "b", SLASH), "/a/b");
    assert_eq!(path_join("/a", "/b", SLASH), "/b");
    assert_eq!(path_with_extension("/a/b.ts", "js", SLASH), "/a/b.js");
    assert_eq!(path_with_extension("/a/b", "js", SLASH), "/a/b.js");
}

#[test]
fn a_backslash_separates_parts_where_the_platform_says_so() {
    assert_eq!(
        components_of(r"c:\app/lib\.", BACKSLASH),
        [prefixed(PathPrefix::Drive { letter: 2 }), PathPart::Root, named("app"), named("lib")]
    );
    assert_eq!(components_of(r"C:\app", SLASH), [named(r"C:\app")]);
    assert!(path_starts_with(r"C:\app\lib\a.js", "C:/app", BACKSLASH));
    assert!(!path_starts_with(r"C:\apple\a.js", r"C:\app", BACKSLASH));
    assert_eq!(path_parent(r"C:\app\main.js", BACKSLASH), Some(r"C:\app".to_owned()));
    assert_eq!(path_join(r"C:\app", "main.js", BACKSLASH), r"C:\app\main.js");
    assert_eq!(path_join(r"C:\app", r"D:\other", BACKSLASH), r"D:\other");
    assert_eq!(path_join(r"C:\app", "D:", SLASH), r"C:\app/D:");
    assert_eq!(path_with_extension(r"C:\a.b\main.ts", "js", BACKSLASH), r"C:\a.b\main.js");
}

#[test]
fn a_path_begins_with_a_drive_a_share_or_a_device() {
    let share = || ("server".to_owned(), "share".to_owned());
    let prefix = |path: &str| match components_of(path, BACKSLASH).into_iter().next() {
        Some(PathPart::Prefix(prefix)) => Some(prefix),
        _ => None,
    };
    assert_eq!(prefix("z:a"), Some(PathPrefix::Drive { letter: 25 }));
    let (server, name) = share();
    assert_eq!(
        prefix("//server/share/a"),
        Some(PathPrefix::Share { server, share: name })
    );
    assert_eq!(prefix(r"\\server"), None);
    assert_eq!(prefix(r"\\.\COM1"), Some(PathPrefix::Device { name: "COM1".to_owned() }));
    assert_eq!(prefix(r"\\?\C:\a"), Some(PathPrefix::VerbatimDrive { letter: 2 }));
    assert_eq!(prefix(r"\\?\C:x"), Some(PathPrefix::Verbatim { name: "C:x".to_owned() }));
    let (server, name) = share();
    assert_eq!(
        prefix(r"\\?\UNC\server\share\a"),
        Some(PathPrefix::VerbatimShare { server, share: name })
    );
    assert_eq!(prefix(r"\a"), None);
    assert_eq!(path_depth(r"\\server\share", BACKSLASH), 2);
    assert_eq!(path_depth(r"\\?\C:", BACKSLASH), 1);
    assert_eq!(components_of(r"\\?\C:\a/b\.", BACKSLASH)[2..], [named("a/b"), named(".")]);
}

#[test]
fn a_drive_is_kept_and_told_by_its_letter() {
    assert!(path_starts_with(r"c:\app\a.js", r"C:\app", BACKSLASH));
    assert!(path_starts_with(r"C:\app", "c:", BACKSLASH));
    assert!(!path_starts_with(r"\\?\C:\app", r"C:\app", BACKSLASH));
    assert!(!path_starts_with(r"\\Server\share\a", r"\\server\share", BACKSLASH));
    assert_eq!(path_join(r"C:\app\lib", r"\x", BACKSLASH), r"C:\x");
    assert_eq!(path_join("C:", "x", BACKSLASH), "C:x");
    assert_eq!(path_join(r"\\server\share\a", "/b", BACKSLASH), r"\\server\share/b");
    assert_eq!(path_join(r"\\server\share", "b", BACKSLASH), r"\\server\share\b");
    assert_eq!(path_parent("C:a", BACKSLASH), Some("C:".to_owned()));
    assert_eq!(path_parent("C:./a", BACKSLASH), Some("C:.".to_owned()));
    assert_eq!(path_parent(r"\\server\share\a", BACKSLASH), Some(r"\\server\share\".to_owned()));
    assert_eq!(path_parent(r"\\server\share", BACKSLASH), None);
    assert_eq!(path_with_extension("C:a.ts", "js", BACKSLASH), "C:a.js");
    assert_eq!(path_with_extension("C:", "js", BACKSLASH), "C:");
}

#[test]
fn a_verbatim_path_is_joined_without_dots() {
    let base = r"\\?\C:\app\lib";
    assert_eq!(path_join(base, "./a/../b.js", BACKSLASH), r"\\?\C:\app\lib\b.js");
    assert_eq!(path_join(base, "../../../b.js", BACKSLASH), r"\\?\C:\b.js");
    assert_eq!(path_join(base, r"\b", BACKSLASH), r"\\?\C:\b");
    assert_eq!(path_join(base, "", BACKSLASH), r"\\?\C:\app\lib\");
    assert_eq!(path_join(base, "D:b", BACKSLASH), "D:b");
    assert_eq!(path_join(r"\\?\C:", "b", BACKSLASH), r"\\?\C:\b");
}

#[test]
fn errors_have_a_kind_and_a_text() {
    let fixed = ScriptError::<String>::Fixed(Fault::NestedTokens);
    assert_eq!((fixed.kind(), fixed.message()), (
        ErrorKind::Range,
        "the nested Entity token space is exhausted".to_owned()
    ));
    let thrown = ScriptError::Raised { message: "boom".to_owned() };
    assert_eq!((thrown.kind(), thrown.message()), (ErrorKind::Message, "boom".to_owned()));
    let large =
        ScriptError::ModuleTooLarge { path: "/a.js".to_owned(), size: 9, limit: 8 };
    assert_eq!(large.message(), "module `/a.js` is 9 bytes, over the 8-byte limit");
    let missing = ScriptError::Unresolved { name: "./x".to_owned(), base: "/a.js".to_owned() };
    assert_eq!(missing.message(), "cannot resolve module `./x` from `/a.js`");
    let element = ScriptError::<String>::UnknownElement { id: 12 };
    assert_eq!(element.message(), "element 12 does not exist");
}

#[test]
fn authority_is_current_for_one_caller_only() {
    let scope = HostScope {
        phase: Some(ScopePhase::Event),
        policy: Some(1),
        application: Some(CurrentApplication { generation: 7, active: true }),
        view: None,
    };
    let provenance = NestedViewProvenance { application: Some(7), policy: 1 };
    assert!(provenance.is_current(&scope));
    assert!(!provenance.is_current(&HostScope { policy: Some(2), ..scope }));
    assert!(!provenance.is_current(&HostScope { policy: None, ..scope }));
    assert!(!provenance.is_current(&HostScope { application: None, ..scope }));
    let retired = Some(CurrentApplication { generation: 7, active: false });
    assert!(!provenance.is_current(&HostScope { application: retired, ..scope }));
    let nobody = NestedViewProvenance { application: None, policy: 1 };
    assert!(nobody.is_current(&HostScope { application: None, ..scope }));
    assert_eq!(scope.generation(), Some(7));
}

#[test]
fn views_are_not_changed_while_a_frame_is_described() {
    let scope = |phase: Option<ScopePhase>| HostScope {
        phase,
        policy: None,
        application: None,
        view: None,
    };
    assert!(refuse_nested_view_mutation(&scope(None), "x", "y").is_ok());
    assert!(refuse_nested_view_mutation(&scope(Some(ScopePhase::Event)), "x", "y").is_ok());
    let error =
        refuse_nested_view_mutation(&scope(Some(ScopePhase::Render)), "entity.release()", "release")
            .err()
            .expect("a frame is described");
    assert_eq!(
        error.message(),
        "entity.release() cannot run during render; release retained views from init(), an event \
         handler or a task"
    );
}

#[test]
fn a_map_is_keyed_by_texts() {
    let mut map: TextMap<u64> = TextMap::new();
    map.insert("a".to_owned(), 1);
    map.insert("b".to_owned(), 2);
    map.insert("a".to_owned(), 3);
    assert_eq!(map.len(), 2);
    assert_eq!(map.get("a"), Some(&3));
    assert_eq!(map.remove("b"), Some(2));
    assert_eq!(map.remove("b"), None);
    assert!(!map.contains_key("b"));
    assert_eq!(map.into_entries().len(), 1);
}
