use llmvm::core_lib::error::CoreError;
use llmvm::core_lib::prompts::{join_blocks, ReadyPrompt};
use llmvm::core_lib::templates::{is_sure_to_end, tag_kind, TagKind};
use handlebars::RenderError;
use serde_json::Value;

fn object(members: Vec<(&str, Value)>) -> Value {
    let mut m = serde_json::Map::new();
    for (name, value) in members {
        m.insert(name.to_string(), value);
    }
    Value::Object(m)
}

#[test]
fn template_for_chat_keeps_the_system_text_apart() {
    let template = "{{#system_role}}\n You are {{who}}. \n{{/system_role}}\n Hello {{name}} <&>! ";
    let parameters = object(vec![("who", Value::from("kind")), ("name", Value::from("<Ann>"))]);
    let prompt = ReadyPrompt::process(template, &parameters, true).unwrap();
    assert_eq!(prompt.system_prompt, Some("You are kind.".to_string()));
    assert_eq!(prompt.main_prompt, Some("Hello <Ann> <&>!".to_string()));
}

#[test]
fn template_without_chat_puts_the_system_text_first() {
    let template = "{{#system_role}}S{{/system_role}}M{{#system_role}}T{{/system_role}}";
    let prompt = ReadyPrompt::process(template, &Value::Null, false).unwrap();
    assert_eq!(prompt.system_prompt, None);
    assert_eq!(prompt.main_prompt, Some("ST\n\nM".to_string()));
}

#[test]
fn template_that_cannot_be_rendered_is_an_error() {
    let result = ReadyPrompt::from_custom_template("{{#if", &Value::Null, true);
    assert!(matches!(result, Err(CoreError::TemplateRender(_))));
}

#[test]
fn blocks_for_the_system_role_are_joined_in_order() {
    assert_eq!(join_blocks(vec![]), None);
    assert_eq!(join_blocks(vec!["".to_string()]), Some("".to_string()));
    let blocks = vec!["b".to_string(), "".to_string(), "a".to_string()];
    assert_eq!(join_blocks(blocks), Some("ba".to_string()));
    let template = "{{#system_role}}2{{/system_role}}x{{#if true}}{{#system_role}}1{{/system_role}}{{/if}}";
    let prompt = ReadyPrompt::process(template, &Value::Null, true).unwrap();
    assert_eq!(prompt.system_prompt, Some("21".to_string()));
    assert_eq!(prompt.main_prompt, Some("x".to_string()));
    let empty = ReadyPrompt::process("{{#system_role}} {{/system_role}}x", &Value::Null, true).unwrap();
    assert_eq!(empty.system_prompt, Some("".to_string()));
    let none = ReadyPrompt::process("{{system_role}}x", &Value::Null, true).unwrap();
    assert_eq!(none.system_prompt, None);
}

#[test]
fn partials_that_take_up_no_other_are_rendered() {
    let template = "{{#*inline \"a\"}}<{{who}}>{{/inline}}{{> a}}{{#if who}}{{~> a }}{{/if}}\
        {{#*inline 'b'}}{{! no --}}B{{/inline}}{{#> c}}C{{/c}}{{>b}} }} {\"x\":{}}";
    assert!(is_sure_to_end(template));
    let parameters = object(vec![("who", Value::from("Ann"))]);
    let prompt = ReadyPrompt::process(template, &parameters, true).unwrap();
    assert_eq!(prompt.main_prompt, Some("<Ann><Ann>CB }} {\"x\":{}}".to_string()));
}

#[test]
fn partials_that_take_up_earlier_ones_are_rendered() {
    let template = "{{#*inline \"b\"}}B{{/inline}}{{#*inline \"a\"}}<{{> b}}{{#if true}}{{~> b x=1}}{{/if}}>\
        {{/inline}}{{> a}}{{#> a}}{{> b}}{{/a}}";
    assert!(is_sure_to_end(template));
    let prompt = ReadyPrompt::process(template, &Value::Null, true).unwrap();
    assert_eq!(prompt.main_prompt, Some("<BB><BB>".to_string()));
    let layout = "{{#*inline 'layout'}}[{{> @partial-block}}]{{/inline}}{{#> layout}}x{{/layout}}";
    assert!(is_sure_to_end(layout));
    let prompt = ReadyPrompt::process(layout, &Value::Null, true).unwrap();
    assert_eq!(prompt.main_prompt, Some("[x]".to_string()));
    let named = "{{#*inline name}}N{{/inline}}{{> n}}";
    assert!(is_sure_to_end(named));
    let prompt = ReadyPrompt::process(named, &object(vec![("name", Value::from("n"))]), true).unwrap();
    assert_eq!(prompt.main_prompt, Some("N".to_string()));
}

#[test]
fn partials_that_might_reach_themselves_are_found() {
    let inline = |name: &str, body: &str| format!("{{{{#*inline \"{}\"}}}}{}{{{{/inline}}}}", name, body);
    assert!(!is_sure_to_end(&format!("{}{}{{{{> a}}}}", inline("a", "{{> b}}"), inline("b", "{{> a}}"))));
    assert!(!is_sure_to_end(&format!("{}{}", inline("a", "{{> b}}"), inline("b", "x"))));
    assert!(!is_sure_to_end(&inline("a", &format!("{}{{{{> b}}}}", inline("b", "{{> a}}")))));
    assert!(!is_sure_to_end(&inline("a", "{{> (lookup this \"x\")}}")));
    assert!(!is_sure_to_end("{{#*inline name}}{{> b}}{{/inline}}"));
    assert!(!is_sure_to_end(&format!("{}{{{{#*inline name}}}}x{{{{/inline}}}}", inline("a", "{{> b}}"))));
    assert!(!is_sure_to_end(&inline("a", "{{#> a}}{{/a}}")));
    assert!(!is_sure_to_end(&inline("a", "{{#> (lookup this \"x\")}}{{/a}}")));
    assert!(!is_sure_to_end(&format!("{}{{{{#> b}}}}{{{{#> m}}}}{{{{/m}}}}{{{{/b}}}}", inline("m", "{{> @partial-block}}"))));
    assert!(!is_sure_to_end("{{#> a}}{{> @partial-block}}{{/a}}"));
    assert!(!is_sure_to_end(&format!("{}{{{{#> m}}}}{{{{> m}}}}{{{{/m}}}}", inline("m", "{{> @partial-block}}"))));
    assert!(!is_sure_to_end(&format!("{{{{#> a}}}}{{{{> m}}}}{{{{/a}}}}{}", inline("n", "{{> @partial-block}}"))));
    assert!(!is_sure_to_end("{{/a}}{{#> a}}{{/a}}"));
}

#[test]
fn partials_are_found_behind_what_hides_them() {
    let inline = |body: &str| format!("{{{{#*inline \"a\"}}}}{}{{{{/inline}}}}{{{{> a}}}}", body);
    assert!(!is_sure_to_end(&inline("{{> a}}")));
    assert!(!is_sure_to_end("{{~ # * inline \"a\"}}{{#if x}}{{~ > a}}{{/if}}{{/inline}}"));
    assert!(!is_sure_to_end("{{#> a}}{{#> b}}{{> @partial-block}}{{/b}}{{/a}}"));
    assert!(!is_sure_to_end(&inline("{{x \"}}{{/inline}}{{\"}}{{> a}}")));
    assert!(!is_sure_to_end(&inline("{{x '\\'}}{{/inline}}{{'}}{{> a}}")));
    assert!(!is_sure_to_end(&inline("{{x [}}{{/inline}}{{]}}{{> a}}")));
    assert!(!is_sure_to_end(&inline("{{x {\"y\":{}}}}{{> a}}")));
    assert!(!is_sure_to_end(&inline("{{!-- }}{{/inline}}{{ --}}{{> a}}")));
    assert!(!is_sure_to_end(&inline("{{!~-- }}{{> a}} --}}")));
    assert!(!is_sure_to_end(&inline("\\{{/inline}}{{> a}}")));
    assert!(!is_sure_to_end(&inline("\\\\{{> a}}")));
    assert!(!is_sure_to_end(&inline("{{{{x}}}}{{/inline}}{{{{/x}}}}{{> a}}")));
    assert!(!is_sure_to_end(&inline("{{x [\"]\"] }}")));
    assert!(!is_sure_to_end(&inline("{{x ")));
    assert!(is_sure_to_end("{{> a}}{{x \"}}\" [y] {\"a\":{}} }}{{!-- }} --}}\\{{z}}{{{{r}}}}{{{{/r}}}}{{"));
    assert!(is_sure_to_end(""));
}

#[test]
fn what_hides_a_tag_stays_beside_partials() {
    let rendered = |template: &str| {
        assert!(is_sure_to_end(template), "{}", template);
        ReadyPrompt::process(template, &object(vec![("x", Value::from("X"))]), true).unwrap().main_prompt.unwrap()
    };
    let inline = |body: &str| format!("{{{{#*inline \"a\"}}}}{}{{{{/inline}}}}{{{{> a}}}}", body);
    assert_eq!(rendered(&inline("\\{{x}} \\\\{{x}}")), "{{x}} \\X");
    assert_eq!(rendered(&inline("\\{{{{x}}}} {{x}}")), "{{{{x}}}} X");
    assert_eq!(rendered(&inline("{{!-- }}{{> a}}{{ --}}{{! }}{{x}}")), "X");
    assert_eq!(rendered(&inline("{{{x}}}{{~{x}~}}")), "XX");
    assert_eq!(rendered(&inline("{{lookup {\"y\":{\"z\":\"}}\"}} \"w\"}}{{x}}")), "X");
    assert_eq!(rendered(&inline("{{#each [\"u\",\"v\"]}}{{this}}{{/each}}{{[x]}}")), "uvX");
    assert_eq!(rendered("{{#> b}}1{{#> c}}2{{/c}}{{/b}}"), "12");
    assert_eq!(rendered(&format!("{}{{{{#> b}}}}{{{{#> a}}}}2{{{{/a}}}}{{{{/b}}}}", inline("A"))), "AA");
    assert_eq!(rendered(&inline("{{#> b}}{{x}}{{/b}}")), "X");
}

#[test]
fn rendering_makes_a_prompt_or_an_error() {
    let blocks = vec!["s".to_string(), "t".to_string()];
    let prompt = ReadyPrompt::from_render(Ok((" m ".to_string(), blocks)), true).unwrap();
    assert_eq!(prompt.system_prompt, Some("st".to_string()));
    assert_eq!(prompt.main_prompt, Some("m".to_string()));
    let failed = ReadyPrompt::from_render(Err(RenderError::new("no")), true);
    assert!(matches!(failed, Err(CoreError::TemplateRender(text)) if text == "no"));
    let failed = ReadyPrompt::process("\n{{nope 1}}", &Value::Null, true);
    assert!(matches!(failed, Err(CoreError::TemplateRender(text)) if text.contains("nope")));
}

#[test]
fn tags_are_told_apart() {
    let kind = |tag: &str| tag_kind(&tag.chars().collect(), 0);
    assert_eq!(kind("> a"), TagKind::Partial);
    assert_eq!(kind("~\n> a"), TagKind::Partial);
    assert_eq!(kind("#> a"), TagKind::PartialBlock);
    assert_eq!(kind("# *inline \"a\""), TagKind::InlineBlock);
    assert_eq!(kind("#if x"), TagKind::Block);
    assert_eq!(kind("~/if"), TagKind::End);
    assert_eq!(kind("a > b"), TagKind::Other);
    assert_eq!(kind(""), TagKind::Other);
}
