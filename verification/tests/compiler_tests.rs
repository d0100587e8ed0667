use rusty_hbs_helpers::CompileError;
use rusty_hbs_helpers::Compiler;

#[test]
fn it_works() {
    let compiler = Compiler::new();
    let src = "Hello {{{name}}}!";
    let rust = compiler.compile(src).unwrap();
    assert_eq!(rust, "f.write_str(\"Hello \")?;Display::fmt(&(name),f)?;f.write_str(\"!\")?;");
}

#[test]
fn test_if() {
    let rust = Compiler::new().compile("{{#if some}}Hello{{/if}}").unwrap();
    assert_eq!(rust, "if some{f.write_str(\"Hello\")?;}");
}

#[test]
fn test_else() {
    let rust = Compiler::new().compile("{{#if some}}Hello{{else}}World{{/if}}").unwrap();
    assert_eq!(rust, "if some{f.write_str(\"Hello\")?;}else{f.write_str(\"World\")?;}");
}

#[test]
fn test_unless() {
    let rust = Compiler::new().compile("{{#unless some}}Hello{{/unless}}").unwrap();
    assert_eq!(rust, "if !some{f.write_str(\"Hello\")?;}");
}

#[test]
fn test_each() {
    let rust = Compiler::new().compile("{{#each some as item}}Hello {{item}}{{/each}}").unwrap();
    assert_eq!(
        rust,
        "for item in some{f.write_str(\"Hello \")?;rusty_hbs_helpers::escape(&(item), f)?;}"
    );
}

#[test]
fn test_with() {
    let rust = Compiler::new().compile("{{#with some}}Hello {{name}}{{/with}}").unwrap();
    assert_eq!(rust, "f.write_str(\"Hello \")?;rusty_hbs_helpers::escape(&(some.name), f)?;");
}

#[test]
fn test_nesting() {
    let rust = Compiler::new()
        .compile("{{#if some some as some}}{{#each some as item}}Hello {{item}}{{/each}}{{/if}}")
        .unwrap();
    assert_eq!(
        rust,
        "if let Some(some) = some{for item in some{f.write_str(\"Hello \")?;rusty_hbs_helpers::escape(&(item), f)?;}}"
    );
}

#[test]
fn test_comment() {
    let rust = Compiler::new()
        .compile("Note: {{! This is a comment }} and {{!-- {{so is this}} --}}\\{{{{}}")
        .unwrap();
    assert_eq!(rust, "f.write_str(\"Note: \")?;f.write_str(\" and \")?;f.write_str(\"{{\")?;");
}

#[test]
fn test_scoping() {
    let rust = Compiler::new()
        .compile("{{#with some}}{{#with other}}Hello {{name}} {{../company}} {{/with}}{{/with}}")
        .unwrap();
    assert_eq!(
        rust,
        "f.write_str(\"Hello \")?;rusty_hbs_helpers::escape(&(other.name), f)?;f.write_str(\" \")?;rusty_hbs_helpers::escape(&(some.company), f)?;f.write_str(\" \")?;"
    );
}

#[test]
fn test_trimming() {
    let rust = Compiler::new().compile("  {{~#if some ~}}   Hello{{~/if~}}").unwrap();
    assert_eq!(rust, "if some{f.write_str(\"Hello\")?;}");
}

#[test]
fn test_literal_only() {
    let rust = Compiler::new().compile("plain text, no tags at all").unwrap();
    assert_eq!(rust, "f.write_str(\"plain text, no tags at all\")?;");
}

#[test]
fn test_literal_escaping() {
    let rust = Compiler::new().compile("say \"hi\" with a \\ in it").unwrap();
    assert_eq!(rust, "f.write_str(\"say \\\"hi\\\" with a \\\\ in it\")?;");
}

#[test]
fn test_literal_ws_collapse() {
    let rust = Compiler::new().compile("<li>one</li>   <li>two</li>").unwrap();
    assert_eq!(rust, "f.write_str(\"<li>one</li><li>two</li>\")?;");
}

#[test]
fn test_call_with_arguments() {
    let rust = Compiler::new().compile("{{foo bar baz}}").unwrap();
    assert_eq!(rust, "rusty_hbs_helpers::escape(&(foo(bar,baz)), f)?;");
}

#[test]
fn test_if_presence() {
    let rust = Compiler::new().compile("{{#if some name}}x{{/if}}").unwrap();
    assert_eq!(rust, "if name.is_some(){f.write_str(\"x\")?;}");
}

#[test]
fn test_unless_presence() {
    let rust = Compiler::new().compile("{{#unless some name}}x{{/unless}}").unwrap();
    assert_eq!(rust, "if name.is_none(){f.write_str(\"x\")?;}");
}

#[test]
fn test_else_outside_conditional() {
    let rust = Compiler::new().compile("{{else}}").unwrap();
    assert_eq!(rust, "rusty_hbs_helpers::escape(&(else), f)?;");
}

#[test]
fn test_parent_climb_past_stack() {
    let rust = Compiler::new().compile("{{../name}}").unwrap();
    assert_eq!(rust, "rusty_hbs_helpers::escape(&(../name), f)?;");
}

#[test]
fn test_each_default_binder() {
    let rust = Compiler::new().compile("{{#each items}}{{this}}{{/each}}").unwrap();
    assert_eq!(rust, "for this in items{rusty_hbs_helpers::escape(&(this), f)?;}");
}

#[test]
fn test_empty_template() {
    assert_eq!(Compiler::new().compile("").unwrap(), "");
}

#[test]
fn test_raw_trimming() {
    let rust = Compiler::new().compile("a {{~{v~}}} b").unwrap();
    assert_eq!(rust, "f.write_str(\"a\")?;Display::fmt(&(v),f)?;f.write_str(\"b\")?;");
}

#[test]
fn test_local_with_member_path() {
    let rust = Compiler::new()
        .compile("{{#with a}}{{#each items as x}}{{x.y}} {{other}}{{/each}}{{/with}}")
        .unwrap();
    assert_eq!(
        rust,
        "for x in a.items{rusty_hbs_helpers::escape(&(x.y), f)?;f.write_str(\" \")?;rusty_hbs_helpers::escape(&(a.other), f)?;}"
    );
}

#[test]
fn test_close_without_open() {
    let r = Compiler::new().compile("{{/if}}");
    assert_eq!(r, Err(CompileError::MismatchedBlock));
}

#[test]
fn test_dangling_open() {
    let r = Compiler::new().compile("{{#if some}}Hello");
    assert_eq!(r, Err(CompileError::MismatchedBlock));
}

#[test]
fn test_each_bad_second_token() {
    let r = Compiler::new().compile("{{#each some extra}}x{{/each}}");
    assert_eq!(r, Err(CompileError::InvalidBlockSyntax));
}

#[test]
fn test_unknown_helper() {
    let r = Compiler::new().compile("{{#frob x}}y{{/frob}}");
    assert_eq!(r, Err(CompileError::InvalidBlockSyntax));
}

#[test]
fn test_mismatched_close_name() {
    let r = Compiler::new().compile("{{#if a}}x{{/each}}");
    assert_eq!(r, Err(CompileError::MismatchedBlock));
}

#[test]
fn test_else_mismatched_close_name() {
    let r = Compiler::new().compile("{{#if a}}x{{else}}y{{/each}}");
    assert_eq!(r, Err(CompileError::MismatchedBlock));
}

#[test]
fn test_unterminated_expression() {
    let r = Compiler::new().compile("Hello {{name");
    assert_eq!(r, Err(CompileError::UnterminatedExpression));
}

#[test]
fn test_unterminated_raw() {
    let r = Compiler::new().compile("Hello {{{name}}");
    assert_eq!(r, Err(CompileError::UnterminatedExpression));
}
