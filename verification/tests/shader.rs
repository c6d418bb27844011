use b0unds::shader::{
    compose, gen_scene_shader, locate_placeholder, ComposeError, DEFAULT_SCENE, PLACEHOLDER,
};

const SPHERE: &str = "float sdf(vec3 p) { return length(p) - 1.0; }";

#[test]
fn placeholder_is_the_sdf_function_token() {
    assert_eq!(PLACEHOLDER, "[SDF_FUNCTION]");
    assert_eq!(PLACEHOLDER.chars().count(), 14);
}

#[test]
fn default_scene_is_the_repeated_sphere() {
    assert_eq!(
        DEFAULT_SCENE,
        "float sdf(vec3 p) { return sphereSDF(arrayOp(p, vec3(10.)), 1.0); }"
    );
    assert!(!DEFAULT_SCENE.contains('['));
    assert!(!DEFAULT_SCENE.contains(']'));
}

#[test]
fn compose_writes_the_expression_where_the_placeholder_stood() {
    let template = "#version 450\n[SDF_FUNCTION]\nvoid main() {}\n";
    let source = compose(template, SPHERE).unwrap();
    assert_eq!(
        source,
        "#version 450\nfloat sdf(vec3 p) { return length(p) - 1.0; }\nvoid main() {}\n"
    );
}

#[test]
fn compose_keeps_the_expression_and_drops_the_placeholder() {
    let template = "uniform mat4 vp;\n[SDF_FUNCTION]\nfloat march(vec3 o, vec3 d);\n";
    let source = compose(template, SPHERE).unwrap();
    assert!(source.contains(SPHERE));
    assert!(!source.contains(PLACEHOLDER));
}

#[test]
fn compose_gives_the_same_source_each_time() {
    let template = "a [SDF_FUNCTION] b";
    let first = compose(template, SPHERE);
    let second = compose(template, SPHERE);
    assert_eq!(first, second);
    assert_eq!(first.unwrap(), "a float sdf(vec3 p) { return length(p) - 1.0; } b");
}

#[test]
fn compose_refuses_a_template_without_placeholder() {
    assert_eq!(
        compose("void main() {}", SPHERE),
        Err(ComposeError::MissingPlaceholder)
    );
}

#[test]
fn compose_refuses_an_empty_template() {
    assert_eq!(compose("", SPHERE), Err(ComposeError::MissingPlaceholder));
}

#[test]
fn compose_refuses_a_template_shorter_than_the_placeholder() {
    assert_eq!(compose("[SDF_FUNCTION", SPHERE), Err(ComposeError::MissingPlaceholder));
}

#[test]
fn compose_refuses_a_misspelt_placeholder() {
    assert_eq!(
        compose("a [sdf_function] b", SPHERE),
        Err(ComposeError::MissingPlaceholder)
    );
    assert_eq!(
        compose("a [SDF_FUNCTION ] b", SPHERE),
        Err(ComposeError::MissingPlaceholder)
    );
}

#[test]
fn compose_refuses_a_template_with_two_placeholders() {
    assert_eq!(
        compose("[SDF_FUNCTION] and [SDF_FUNCTION]", SPHERE),
        Err(ComposeError::RepeatedPlaceholder)
    );
}

#[test]
fn compose_refuses_adjacent_placeholders() {
    assert_eq!(
        compose("[SDF_FUNCTION][SDF_FUNCTION]", SPHERE),
        Err(ComposeError::RepeatedPlaceholder)
    );
}

#[test]
fn compose_refuses_three_placeholders() {
    assert_eq!(
        compose("[SDF_FUNCTION]x[SDF_FUNCTION]y[SDF_FUNCTION]", "e"),
        Err(ComposeError::RepeatedPlaceholder)
    );
}

#[test]
fn compose_at_the_start_of_the_template() {
    assert_eq!(compose("[SDF_FUNCTION] tail", "X").unwrap(), "X tail");
}

#[test]
fn compose_at_the_end_of_the_template() {
    assert_eq!(compose("head [SDF_FUNCTION]", "X").unwrap(), "head X");
}

#[test]
fn compose_of_a_template_that_is_the_placeholder() {
    assert_eq!(compose("[SDF_FUNCTION]", SPHERE).unwrap(), SPHERE);
}

#[test]
fn compose_with_an_empty_expression_removes_the_placeholder() {
    assert_eq!(compose("a[SDF_FUNCTION]b", "").unwrap(), "ab");
}

#[test]
fn compose_does_not_examine_the_expression() {
    assert_eq!(
        compose("a[SDF_FUNCTION]b", "not a shader {{{").unwrap(),
        "anot a shader {{{b"
    );
}

#[test]
fn compose_skips_an_unfinished_placeholder() {
    assert_eq!(compose("[SDF_[SDF_FUNCTION]!", "X").unwrap(), "[SDF_X!");
    assert_eq!(compose("[[SDF_FUNCTION]]", "X").unwrap(), "[X]");
}

#[test]
fn compose_counts_in_characters_not_bytes() {
    let source = compose("// é ü ∑\n[SDF_FUNCTION]\n// ∆", "sdf").unwrap();
    assert_eq!(source, "// é ü ∑\nsdf\n// ∆");
}

#[test]
fn compose_takes_an_expression_with_wide_characters() {
    assert_eq!(compose("<[SDF_FUNCTION]>", "∑é").unwrap(), "<∑é>");
}

#[test]
fn compose_keeps_a_placeholder_that_the_expression_holds() {
    let source = compose("a[SDF_FUNCTION]b", "[SDF_FUNCTION]").unwrap();
    assert_eq!(source, "a[SDF_FUNCTION]b");
    assert!(source.contains(PLACEHOLDER));
}

#[test]
fn compose_may_complete_a_placeholder_with_neighbouring_characters() {
    let source = compose("[SDF_[SDF_FUNCTION]FUNCTION]", "").unwrap();
    assert_eq!(source, "[SDF_FUNCTION]");
    let source = compose("[[SDF_FUNCTION]_FUNCTION]", "SDF").unwrap();
    assert_eq!(source, "[SDF_FUNCTION]");
}

#[test]
fn locate_gives_the_index_of_the_placeholder() {
    assert_eq!(locate_placeholder("[SDF_FUNCTION]"), Ok(0));
    assert_eq!(locate_placeholder("abc[SDF_FUNCTION]"), Ok(3));
    assert_eq!(locate_placeholder("abc[SDF_FUNCTION]def"), Ok(3));
}

#[test]
fn locate_counts_characters() {
    assert_eq!(locate_placeholder("é∑[SDF_FUNCTION]"), Ok(2));
}

#[test]
fn locate_refuses_missing_and_repeated() {
    assert_eq!(locate_placeholder(""), Err(ComposeError::MissingPlaceholder));
    assert_eq!(locate_placeholder("SDF_FUNCTION"), Err(ComposeError::MissingPlaceholder));
    assert_eq!(
        locate_placeholder("[SDF_FUNCTION] [SDF_FUNCTION]"),
        Err(ComposeError::RepeatedPlaceholder)
    );
}

#[test]
fn locate_finds_a_placeholder_after_a_false_start() {
    assert_eq!(locate_placeholder("[SDF_FUNCTIO[SDF_FUNCTION]"), Ok(12));
}

#[test]
fn scene_shader_holds_the_default_scene() {
    let template = "#version 450\n[SDF_FUNCTION]\nvoid main() { }\n";
    let source = gen_scene_shader(template).unwrap();
    assert_eq!(
        source,
        "#version 450\nfloat sdf(vec3 p) { return sphereSDF(arrayOp(p, vec3(10.)), 1.0); }\nvoid main() { }\n"
    );
    assert!(source.contains(DEFAULT_SCENE));
    assert!(!source.contains(PLACEHOLDER));
}

#[test]
fn scene_shader_is_compose_with_the_default_scene() {
    let template = "float a[4];\n[SDF_FUNCTION]\nfloat b[2];";
    assert_eq!(gen_scene_shader(template), compose(template, DEFAULT_SCENE));
}

#[test]
fn scene_shader_has_no_placeholder_beside_brackets() {
    let source = gen_scene_shader("[SDF_[SDF_FUNCTION]FUNCTION]").unwrap();
    assert!(!source.contains(PLACEHOLDER));
    assert!(source.contains(DEFAULT_SCENE));
}

#[test]
fn scene_shader_refuses_what_compose_refuses() {
    assert_eq!(gen_scene_shader("void main() {}"), Err(ComposeError::MissingPlaceholder));
    assert_eq!(
        gen_scene_shader("[SDF_FUNCTION][SDF_FUNCTION]"),
        Err(ComposeError::RepeatedPlaceholder)
    );
}

#[test]
fn scene_shader_gives_the_same_source_each_time() {
    let template = "in vec2 uv;\n[SDF_FUNCTION]\n";
    assert_eq!(gen_scene_shader(template), gen_scene_shader(template));
}

#[test]
fn compose_handles_a_long_template() {
    let mut template = String::new();
    for line in 0..2000 {
        template.push_str(&format!("float f{}(vec3 p) {{ return p.x; }}\n", line));
        if line == 1234 {
            template.push_str("[SDF_FUNCTION]\n");
        }
    }
    let source = compose(&template, SPHERE).unwrap();
    assert_eq!(source, template.replace("[SDF_FUNCTION]", SPHERE));
    assert_eq!(source.len(), template.len() - 14 + SPHERE.len());
}

#[test]
fn errors_say_what_is_wrong_with_the_template() {
    assert_eq!(
        ComposeError::MissingPlaceholder.message(),
        "the shader template does not hold the placeholder [SDF_FUNCTION]"
    );
    assert_eq!(
        ComposeError::RepeatedPlaceholder.message(),
        "the shader template holds the placeholder [SDF_FUNCTION] more than once"
    );
    assert_eq!(
        compose("", "x").unwrap_err().message(),
        ComposeError::MissingPlaceholder.message()
    );
}
