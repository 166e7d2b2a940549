use gpui_shell::prelude::{prelude_checked_vocabularies, prelude_owned_element_methods};
use gpui_shell::prelude_text::prelude_source;

fn anchors() -> Vec<String> {
    [
        "top_left",
        "top_center",
        "top_right",
        "left_center",
        "right_center",
        "bottom_left",
        "bottom_center",
        "bottom_right",
    ]
    .iter()
    .map(|name| (*name).to_owned())
    .collect()
}

fn declared() -> Vec<(&'static str, Vec<String>)> {
    let words = |list: &[&str]| list.iter().map(|word| (*word).to_owned()).collect::<Vec<_>>();
    vec![
        ("anchor", anchors()),
        ("axis", words(&["horizontal", "vertical"])),
        ("mode", words(&["scrolling", "hover", "always"])),
        ("mouse_button", words(&["left", "right", "middle"])),
    ]
}

#[test]
fn the_checked_vocabularies_match_what_the_prelude_enforces() {
    let found = prelude_checked_vocabularies(&prelude_source(), &anchors());
    let declared = declared();
    assert_eq!(
        found.iter().map(|entry| (entry.name.as_str(), entry.values.len())).collect::<Vec<_>>(),
        declared.iter().map(|(name, values)| (*name, values.len())).collect::<Vec<_>>(),
        "the prelude and the declared vocabularies have drifted; a check added to the prelude must \
         be recorded there, or a registered component can declare a vocabulary that never runs"
    );
    for (entry, (name, values)) in found.iter().zip(&declared) {
        assert_eq!(entry.name, *name);
        assert_eq!(&entry.values, values, "vocabulary for `{name}`");
    }
}

#[test]
fn the_prelude_still_owns_the_names_the_check_covers() {
    let owned = prelude_owned_element_methods(&prelude_source());
    for (name, _) in declared() {
        assert!(
            owned.iter().any(|method| method == name),
            "the prelude no longer defines `{name}`"
        );
    }
}

#[test]
fn a_method_that_is_made_is_not_owned() {
    let source = prelude_source();
    let owned = prelude_owned_element_methods(&source);
    for name in ["content", "panel", "hover", "caret_style", "open_delay", "close_delay"] {
        assert!(source.contains(&format!("\n  methods.{name} = ")));
        assert!(owned.iter().all(|method| method != name), "`{name}` is made by a function");
    }
    assert_eq!(owned.len(), 28);
    assert_eq!((owned[0].as_str(), owned[27].as_str()), ("anchor", "when"));
}

#[test]
fn owned_methods_are_listed_once_and_in_order() {
    let source = "for (const name of __behaviorNames) define(name);\n  methods.b = function () {};\n  \
                  methods.a = function () {};\n  methods.b = function () {};\n  methods[x] = 1;";
    assert_eq!(prelude_owned_element_methods(source), ["a", "b"]);
}

#[test]
fn a_method_defined_before_the_others_are_installed_is_not_owned() {
    let source = "\n  methods.early = function () {};\nfor (const name of __behaviorNames) \
                  define(name);\n  methods.late = function () {};";
    assert_eq!(prelude_owned_element_methods(source), ["late"]);
}

#[test]
fn a_vocabulary_ends_with_the_method_that_checks_it() {
    let source = "\n  methods.free = function (value) {\n    return this;\n  };\n  methods.side = \
                  function (value) {\n    if (![\"a\", \"b\",].includes(value)) throw 1;\n  };\n";
    let found = prelude_checked_vocabularies(source, &anchors());
    assert_eq!(found.len(), 1);
    assert_eq!(found[0].name, "side");
    assert_eq!(found[0].values, ["a", "b"]);
}
