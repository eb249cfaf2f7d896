use kitchen::image::Containerfile;

#[test]
fn test_entrypoint_with_quotes() {
    let cf = Containerfile::new().entrypoint(&["echo", r#""hello""#]);
    assert_eq!(cf.build(), r#"ENTRYPOINT ["echo", "\"hello\""]"#);
}

#[test]
fn empty_containerfile_builds_empty_text() {
    assert_eq!(Containerfile::new().build(), "");
}

#[test]
fn every_instruction_has_its_own_line() {
    let cf = Containerfile::new()
        .from("debian:bookworm")
        .arg("A", "1")
        .run("make")
        .copy("src", "/dst")
        .env("K", "v")
        .expose(8080)
        .user("k");
    assert_eq!(
        cf.build(),
        "FROM debian:bookworm\nARG A=1\nRUN make\nCOPY src /dst\nENV K=v\nEXPOSE 8080\nUSER k"
    );
}

#[test]
fn expose_renders_port_in_decimal() {
    assert_eq!(Containerfile::new().expose(0).build(), "EXPOSE 0");
    assert_eq!(Containerfile::new().expose(65535).build(), "EXPOSE 65535");
    assert_eq!(Containerfile::new().expose(10).build(), "EXPOSE 10");
}

#[test]
fn extend_appends_in_order() {
    let a = Containerfile::new().run("a");
    let b = Containerfile::new().run("b").run("c");
    assert_eq!(a.extend(&b).build(), "RUN a\nRUN b\nRUN c");
    let empty = Containerfile::new();
    assert_eq!(Containerfile::new().run("x").extend(&empty).build(), "RUN x");
    assert_eq!(Containerfile::new().extend(&Containerfile::new().run("y")).build(), "RUN y");
}

#[test]
fn entrypoint_escapes_backslashes_and_control_characters() {
    let cf = Containerfile::new().entrypoint(&["a\\b", "tab\there", "nl\n", "\u{1}"]);
    assert_eq!(cf.build(), r#"ENTRYPOINT ["a\\b", "tab\there", "nl\n", "\u0001"]"#);
}

#[test]
fn entrypoint_without_arguments() {
    let cf = Containerfile::new().entrypoint(&[]);
    assert_eq!(cf.build(), "ENTRYPOINT []");
}

#[test]
fn commands_are_copied_verbatim_on_their_own_line() {
    let cf = Containerfile::new().run("echo \"a\" \\\n && b").run("");
    assert_eq!(cf.build(), "RUN echo \"a\" \\\n && b\nRUN ");
    let base = Containerfile::new().run("");
    assert_eq!(base.from("img").build(), "RUN \nFROM img");
}

#[test]
fn entrypoint_arguments_read_back_as_a_json_array() {
    let cases: Vec<Vec<&str>> = vec![
        vec![],
        vec!["/init.sh"],
        vec!["sh", "-c", "echo \"hi\" \\ there\n\ttab\u{1}\u{1f}/"],
        vec!["", "é ü", "\u{7f}"],
    ];
    for args in cases {
        let text = Containerfile::new().entrypoint(&args).build();
        assert!(text.starts_with("ENTRYPOINT ["));
        let parsed: Vec<String> = serde_json::from_str(&text[11..]).unwrap();
        assert_eq!(parsed, args.iter().map(|a| a.to_string()).collect::<Vec<String>>());
    }
}
