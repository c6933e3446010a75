use re_mcap::remote_runtime_intern::{
    archetype_short_name_v1, canonicalize_remote_entity_path_part_into,
    parse_remote_entity_path_unicode_escape, push_remote_entity_path_unescaped_character,
    reject_undelayable_constructor_v1,
    RemoteRuntimeInternAdmissionErrorV1, RemoteRuntimeInternAdmissionPhaseV1,
    RemoteRuntimeInternTerminalV1,
};

#[test]
fn undelayable_constructor_has_a_typed_rejection_before_domain_construction() {
    assert_eq!(
        reject_undelayable_constructor_v1(),
        RemoteRuntimeInternAdmissionErrorV1::ConstructorCannotBeDelayed
    );
}

#[test]
fn failure_phase_decides_the_terminal_kind() {
    assert_eq!(
        RemoteRuntimeInternAdmissionErrorV1::terminal_kind_v1(
            RemoteRuntimeInternAdmissionPhaseV1::Opening
        ),
        RemoteRuntimeInternTerminalV1::OpeningExhausted
    );
    assert_eq!(
        RemoteRuntimeInternAdmissionErrorV1::terminal_kind_v1(
            RemoteRuntimeInternAdmissionPhaseV1::ActiveChunk
        ),
        RemoteRuntimeInternTerminalV1::ActiveSessionFatal
    );
}

#[test]
fn archetype_short_names_drop_only_the_rerun_namespaces() {
    assert_eq!(archetype_short_name_v1("rerun.archetypes.Points3D"), "Points3D");
    assert_eq!(
        archetype_short_name_v1("rerun.blueprint.archetypes.Background"),
        "Background"
    );
    assert_eq!(archetype_short_name_v1("my.archetypes.Custom"), "my.archetypes.Custom");
    assert_eq!(archetype_short_name_v1("rerun.archetypes."), "");
    assert_eq!(archetype_short_name_v1("rerun.archetypes"), "rerun.archetypes");
    assert_eq!(archetype_short_name_v1(""), "");
}

fn canonical(raw: &str) -> String {
    let mut output = String::new();
    canonicalize_remote_entity_path_part_into(raw, &mut output);
    output
}

#[test]
fn entity_path_parts_decode_every_supported_escape() {
    assert_eq!(canonical("plain"), "plain");
    assert_eq!(canonical("a\\nb"), "a\nb");
    assert_eq!(canonical("a\\rb\\tc"), "a\rb\tc");
    assert_eq!(canonical("\\u{0041}"), "A");
    assert_eq!(canonical("\\u{00e9}x"), "\u{e9}x");
    assert_eq!(canonical("\\/slash"), "/slash");
    assert_eq!(canonical("trailing\\"), "trailing\\");
    assert_eq!(canonical("\\\\"), "\\");
    assert_eq!(canonical(""), "");
}

#[test]
fn invalid_unicode_escapes_stay_as_written() {
    assert_eq!(canonical("\\u{d800}"), "\\u{d800}");
    assert_eq!(canonical("\\u{12}rest"), "\\u{12}rest");
    assert_eq!(canonical("\\u{12345}"), "\\u{12345}");
    assert_eq!(canonical("\\u0041"), "\\u0041");
    assert_eq!(canonical("\\u"), "\\u");
    assert_eq!(canonical("\\u{+041}"), "A");
    assert_eq!(canonical("\\u{-041}"), "\\u{-041}");
    assert_eq!(canonical("\\u{\u{e9}12}"), "\\u{\u{e9}12}");
}

#[test]
fn unicode_escape_consumes_up_to_the_brace_or_six_bytes() {
    let input: Vec<char> = "{0041}tail".chars().collect();
    assert_eq!(parse_remote_entity_path_unicode_escape(&input, 0), (6, Some('A')));
    let input: Vec<char> = "{12}tail".chars().collect();
    assert_eq!(parse_remote_entity_path_unicode_escape(&input, 0), (4, None));
    let input: Vec<char> = "xx{abcdefgh".chars().collect();
    assert_eq!(parse_remote_entity_path_unicode_escape(&input, 2), (8, None));
    let input: Vec<char> = "{".chars().collect();
    assert_eq!(parse_remote_entity_path_unicode_escape(&input, 0), (1, None));
}

#[test]
fn one_unescaping_step_reports_how_far_it_read() {
    let input: Vec<char> = "\\nxyz".chars().collect();
    let mut output = String::from(">");
    assert_eq!(push_remote_entity_path_unescaped_character(&input, 0, &mut output), 2);
    assert_eq!(output, ">\n");
    let input: Vec<char> = "q".chars().collect();
    assert_eq!(push_remote_entity_path_unescaped_character(&input, 0, &mut output), 1);
    assert_eq!(output, ">\nq");
}
