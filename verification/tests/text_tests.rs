use check_config::utils::{
    append_str, marker_lines, normalize_lines, remove_between_markers, replace_between_markers,
    replace_vars,
};

fn s(x: &str) -> String {
    x.to_string()
}

#[test]
fn test_replace_vars() {
    let template = r#"Hello ${name} \${name}!"#;
    let vars = vec![(s("name"), s("world"))];
    let result = replace_vars(template, &vars);
    assert_eq!(result, "Hello world ${name}!");
}

#[test]
fn replace_vars_keeps_unknown_and_fills_braces() {
    let vars = vec![(s("a"), s("1")), (s("c"), s("2"))];
    assert_eq!(replace_vars("{a}-${b}-{}", &vars), "1-${b}-{}");
    assert_eq!(replace_vars("no placeholders", &vars), "no placeholders");
}

#[test]
fn append_str_rules() {
    assert_eq!(append_str("a\n", "1\n2\n"), "a\n1\n2\n");
    assert_eq!(append_str("a  \n\n", "b\n"), "a\nb\n");
    assert_eq!(append_str(" \n", "b\n"), "b\n");
    assert_eq!(append_str("a\n", "  "), "a\n");
}

#[test]
fn lines_get_a_trailing_newline() {
    assert_eq!(normalize_lines(""), "");
    assert_eq!(normalize_lines("1"), "1\n");
    assert_eq!(normalize_lines("2\n"), "2\n");
}

#[test]
fn markers_are_made_from_the_marker() {
    let (start, end) = marker_lines("# marker  ");
    assert_eq!(start, "# marker (check-config start)\n");
    assert_eq!(end, "# marker (check-config end)\n");
}

#[test]
fn replace_between_markers_cases() {
    let (start, end) = marker_lines("# marker");
    let with_markers = "export SHELL=/bin/bash\n# marker (check-config start)\nexport EDITOR=vi\n# marker (check-config end)\n";
    assert_eq!(
        replace_between_markers(with_markers, &start, &end, "export EDITOR=hx\n"),
        "export SHELL=/bin/bash\n# marker (check-config start)\nexport EDITOR=hx\n# marker (check-config end)\n"
    );
    assert_eq!(
        replace_between_markers("export SHELL=/bin/bash\n", &start, &end, "export EDITOR=hx\n"),
        "export SHELL=/bin/bash\n# marker (check-config start)\nexport EDITOR=hx\n# marker (check-config end)\n"
    );
    // end marker before start marker: appended
    let swapped = "# marker (check-config end)\n# marker (check-config start)\n";
    assert_eq!(
        replace_between_markers(swapped, &start, &end, "x\n"),
        "# marker (check-config end)\n# marker (check-config start)\n# marker (check-config start)\nx\n# marker (check-config end)\n"
    );
}

#[test]
fn remove_between_markers_cases() {
    let (start, end) = marker_lines("# marker");
    assert_eq!(
        remove_between_markers(
            "1\n# marker (check-config start)\nblabla\n# marker (check-config end)\n",
            &start,
            &end
        ),
        "1\n"
    );
    assert_eq!(remove_between_markers("nothing here\n", &start, &end), "nothing here\n");
}

#[test]
fn replacing_between_markers_twice_changes_nothing() {
    let contents = "a\n# start\nold\n# end\nb\n";
    let once = replace_between_markers(contents, "# start\n", "# end\n", "new\n");
    assert_eq!(once, "a\n# start\nnew\n# end\nb\n");
    assert_eq!(replace_between_markers(&once, "# start\n", "# end\n", "new\n"), once);
}

#[test]
fn removing_after_replacing_between_markers_is_removing() {
    let contents = "a\n# start\nold\n# end\nb\n";
    let once = replace_between_markers(contents, "# start\n", "# end\n", "new\n");
    assert_eq!(remove_between_markers(&once, "# start\n", "# end\n"), "a\nb\n");
    assert_eq!(remove_between_markers(contents, "# start\n", "# end\n"), "a\nb\n");
}
