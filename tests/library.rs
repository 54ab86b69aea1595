use forge::error::ForgeError;
use forge::init::{init_guard, plan_init, resolve_template, template_root_for};
use forge::path::{file_extension, infer_template_name, join_path};
use forge::pipeline::{Event, Pipeline, Step};
use forge::plugin::{check_descriptor, detect_plugin, IndexEntry, PluginDetectRule, PluginMetadata};
use forge::render::{delegate_args, delegate_outcome, select_strategy, RenderStrategy};
use forge::runtime::{builtin_runtime_for_extension, required_runtimes};
use forge::substitute::{substitute_variables, variable_texts, VarValue};
use forge::text::{chars_of, replace_chars, str_eq, string_of};

fn s(x: &str) -> String {
    x.to_string()
}

fn vars(pairs: &[(&str, &str)]) -> Vec<(String, String)> {
    pairs.iter().map(|(k, v)| (s(k), s(v))).collect()
}

fn plugin(custom: Option<&str>) -> PluginMetadata {
    PluginMetadata {
        name: s("rails"),
        version: s("1.0.0"),
        description: None,
        templates: vec![(s("app"), s("https://example.com/acme/app-template.git"))],
        detect: Some(PluginDetectRule { files: vec![s("Gemfile")] }),
        actions: None,
        custom_renderer_command: custom.map(s),
    }
}

fn entry(name: &str, files: &[&str]) -> IndexEntry {
    IndexEntry {
        name: s(name),
        installed: Some(true),
        files: Some(files.iter().map(|f| s(f)).collect()),
        descriptor: Some(plugin(None)),
    }
}

#[test]
fn substitution_replaces_placeholder() {
    let out = substitute_variables("Hello {{name}}!", &vars(&[("name", "World")]));
    assert_eq!(out, "Hello World!");
}

#[test]
fn substitution_leaves_missing_placeholder() {
    assert_eq!(substitute_variables("{{missing}}", &vars(&[])), "{{missing}}");
}

#[test]
fn substitution_replaces_every_occurrence() {
    let out = substitute_variables("{{a}}-{{b}}-{{a}}", &vars(&[("a", "1"), ("b", "two")]));
    assert_eq!(out, "1-two-1");
}

#[test]
fn substitution_keeps_unmatched_braces() {
    let out = substitute_variables("{{ name }} {name} {{name}", &vars(&[("name", "x")]));
    assert_eq!(out, "{{ name }} {name} {{name}");
}

#[test]
fn substitution_idempotent_without_placeholders() {
    let v = vars(&[("name", "World")]);
    let once = substitute_variables("plain text, no tokens", &v);
    let twice = substitute_variables(&once, &v);
    assert_eq!(once, twice);
    assert_eq!(once, "plain text, no tokens");
}

#[test]
fn substitution_on_empty_text() {
    assert_eq!(substitute_variables("", &vars(&[("k", "v")])), "");
}

#[test]
fn substitution_in_variable_order() {
    let out = substitute_variables("{{a}}", &vars(&[("a", "{{b}}"), ("b", "done")]));
    assert_eq!(out, "done");
}

#[test]
fn replace_is_left_to_right_non_overlapping() {
    let r = replace_chars(&chars_of("aaaa"), &chars_of("aa"), &chars_of("b"));
    assert_eq!(string_of(&r), "bb");
    let r = replace_chars(&chars_of("xyz"), &chars_of(""), &chars_of("q"));
    assert_eq!(string_of(&r), "xyz");
}

#[test]
fn str_eq_compares_characters() {
    assert!(str_eq("héllo", "héllo"));
    assert!(!str_eq("hello", "hell"));
    assert!(!str_eq("a", "b"));
}

#[test]
fn extensions() {
    assert_eq!(file_extension("templates/index.html.erb"), Some(s("erb")));
    assert_eq!(file_extension("a.b/README"), None);
    assert_eq!(file_extension(".gitignore"), None);
    assert_eq!(file_extension("dir/file."), Some(s("")));
    assert_eq!(file_extension("x/.."), None);
    assert_eq!(file_extension("main.tpl"), Some(s("tpl")));
}

#[test]
fn joins() {
    assert_eq!(join_path("out", "a/b.txt"), "out/a/b.txt");
    assert_eq!(join_path("out/", "a.txt"), "out/a.txt");
    assert_eq!(join_path("", "a.txt"), "a.txt");
}

#[test]
fn template_names() {
    assert_eq!(infer_template_name("https://github.com/acme/starter.git"), "starter");
    assert_eq!(infer_template_name("https://github.com/acme/starter"), "starter");
    assert_eq!(infer_template_name("/local/templates/web/"), "web");
    assert_eq!(infer_template_name("repo.git.tar"), "repo");
}

#[test]
fn builtin_runtime_table() {
    assert_eq!(builtin_runtime_for_extension("erb"), Some("ruby-runtime"));
    assert_eq!(builtin_runtime_for_extension("jinja"), Some("python-runtime"));
    assert_eq!(builtin_runtime_for_extension("ejs"), Some("node-runtime"));
    assert_eq!(builtin_runtime_for_extension("hbs"), Some("node-runtime"));
    assert_eq!(builtin_runtime_for_extension("txt"), None);
    assert_eq!(builtin_runtime_for_extension(""), None);
}

#[test]
fn required_runtimes_distinct() {
    let files = vec![s("a.ejs"), s("b.hbs"), s("c.erb"), s("d.txt"), s("e")];
    let r = required_runtimes(&files, None);
    assert_eq!(r, vec![s("node-runtime"), s("ruby-runtime")]);
}

#[test]
fn required_runtimes_custom_override() {
    let p = plugin(Some("my-engine"));
    let files = vec![s("a.tpl"), s("b.erb")];
    assert_eq!(required_runtimes(&files, Some(&p)), vec![s("my-engine")]);
    assert_eq!(required_runtimes(&vec![], Some(&p)), Vec::<String>::new());
}

#[test]
fn strategy_selection() {
    let p = plugin(Some("tpl-engine"));
    match select_strategy("views/page.erb", Some(&p), "/opt/scripts") {
        RenderStrategy::Delegate { runtime, script } => {
            assert_eq!(runtime, "ruby-runtime");
            assert_eq!(script, "/opt/scripts/render_erb.rb");
        }
        RenderStrategy::Builtin => panic!("expected a delegate"),
    }
    match select_strategy("page.tpl", Some(&p), "/opt/scripts") {
        RenderStrategy::Delegate { runtime, script } => {
            assert_eq!(runtime, "tpl-engine");
            assert_eq!(script, "tpl-engine");
        }
        RenderStrategy::Builtin => panic!("expected a delegate"),
    }
    assert!(matches!(select_strategy("page.tpl", None, "/s"), RenderStrategy::Builtin));
    assert!(matches!(
        select_strategy("a.hbs", None, "s"),
        RenderStrategy::Delegate { ref script, .. } if script == "s/render_hbs.js"
    ));
}

#[test]
fn delegate_protocol_arguments() {
    let a = delegate_args("render.rb", "in.erb", "out/in", "/tmp/vars.json");
    assert_eq!(a, vec![s("render.rb"), s("in.erb"), s("out/in"), s("/tmp/vars.json")]);
}

#[test]
fn delegate_exit_status_decides() {
    assert_eq!(delegate_outcome("a.tpl", true), Ok(()));
    match delegate_outcome("a.tpl", false) {
        Err(ForgeError::RenderFailed { path, .. }) => assert_eq!(path, "a.tpl"),
        other => panic!("unexpected {:?}", other),
    }
}

#[test]
fn pipeline_structure_preserved() {
    let files = vec![s("README.md"), s("src/main.rs.erb"), s("docs/a/b.txt")];
    let p = Pipeline::new("tmpl", &files, "out", None, "scripts");
    let rels: Vec<String> = p.jobs.iter().map(|j| j.relative.clone()).collect();
    assert_eq!(rels, files);
    assert_eq!(p.jobs[1].input, "tmpl/src/main.rs.erb");
    assert_eq!(p.jobs[1].output, "out/src/main.rs.erb");
    assert_eq!(p.jobs[2].output, "out/docs/a/b.txt");
    assert_eq!(p.required, vec![s("ruby-runtime")]);
}

#[test]
fn pipeline_unavailable_runtime_renders_nothing() {
    let files = vec![s("index.erb"), s("notes.txt")];
    let mut p = Pipeline::new("t", &files, "o", None, "s");
    assert_eq!(p.next_step(), Step::Probe(0));
    p.on_event(Event::Probed(false));
    assert_eq!(p.next_step(), Step::Finished);
    assert_eq!(p.rendered, 0);
    assert_eq!(p.finish(), Err(ForgeError::RuntimeUnavailable(s("ruby-runtime"))));
}

#[test]
fn pipeline_custom_renderer_failure() {
    let pl = plugin(Some("always-fails"));
    let files = vec![s("page.tpl")];
    let mut p = Pipeline::new("t", &files, "o", Some(&pl), "s");
    assert_eq!(p.next_step(), Step::Probe(0));
    p.on_event(Event::Probed(true));
    assert_eq!(p.next_step(), Step::Render(0));
    p.on_event(Event::Rendered(Err(s("exit status 1"))));
    assert_eq!(p.next_step(), Step::Finished);
    assert_eq!(
        p.finish(),
        Err(ForgeError::RenderFailed { path: s("t/page.tpl"), cause: s("exit status 1") })
    );
}

#[test]
fn pipeline_runs_to_success_in_order() {
    let files = vec![s("a.txt"), s("b.ejs")];
    let mut p = Pipeline::new("t", &files, "o", None, "s");
    let mut steps = Vec::new();
    loop {
        let st = p.next_step();
        steps.push(st);
        match st {
            Step::Probe(_) => p.on_event(Event::Probed(true)),
            Step::Render(_) => p.on_event(Event::Rendered(Ok(()))),
            Step::Finished => break,
        }
    }
    assert_eq!(steps, vec![Step::Probe(0), Step::Render(0), Step::Render(1), Step::Finished]);
    assert_eq!(p.finish(), Ok(()));
}

#[test]
fn pipeline_ignores_unexpected_event() {
    let files = vec![s("a.erb")];
    let mut p = Pipeline::new("t", &files, "o", None, "s");
    p.on_event(Event::Rendered(Ok(())));
    assert_eq!(p.rendered, 0);
    assert_eq!(p.next_step(), Step::Probe(0));
}

#[test]
fn regeneration_writes_same_files() {
    let files = vec![s("x/y.txt"), s("z.hbs")];
    let a = Pipeline::new("t", &files, "o", None, "s");
    let b = Pipeline::new("t", &files, "o", None, "s");
    let oa: Vec<String> = a.jobs.iter().map(|j| j.output.clone()).collect();
    let ob: Vec<String> = b.jobs.iter().map(|j| j.output.clone()).collect();
    assert_eq!(oa, ob);
}

#[test]
fn detection_picks_matching_plugin() {
    let index = vec![entry("rails", &["Gemfile", "config/routes.rb"]), entry("node", &["package.json"])];
    let present = vec![s("package.json")];
    for _ in 0..3 {
        assert_eq!(detect_plugin(&index, &present), Some(1));
    }
    let reversed = vec![entry("node", &["package.json"]), entry("rails", &["Gemfile", "config/routes.rb"])];
    assert_eq!(detect_plugin(&reversed, &present), Some(0));
}

#[test]
fn detection_skips_uninstalled_and_unmatched() {
    let mut e = entry("node", &["package.json"]);
    e.installed = Some(false);
    let present = vec![s("package.json")];
    assert_eq!(detect_plugin(&vec![e], &present), None);
    let partial = vec![entry("rails", &["Gemfile", "config/routes.rb"])];
    assert_eq!(detect_plugin(&partial, &vec![s("Gemfile")]), None);
    let mut unlisted = entry("any", &[]);
    unlisted.files = None;
    assert_eq!(detect_plugin(&vec![unlisted], &present), None);
}

#[test]
fn detection_first_of_several_matches() {
    let index = vec![entry("a", &["f"]), entry("b", &["f"])];
    assert_eq!(detect_plugin(&index, &vec![s("f")]), Some(0));
}

#[test]
fn descriptor_keys_must_be_unique() {
    let mut p = plugin(None);
    assert_eq!(check_descriptor(&p), Ok(()));
    p.templates.push((s("app"), s("elsewhere")));
    assert!(matches!(check_descriptor(&p), Err(ForgeError::InvalidDescriptor(_))));
    let mut q = plugin(None);
    q.actions = Some(vec![(s("test"), vec![s("make")]), (s("test"), vec![])]);
    assert!(matches!(check_descriptor(&q), Err(ForgeError::InvalidDescriptor(_))));
}

#[test]
fn init_decisions() {
    assert_eq!(init_guard(".forge/state.json", true, false), Err(ForgeError::ManifestExists(s(".forge/state.json"))));
    assert_eq!(init_guard("m", true, true), Ok(()));
    assert_eq!(init_guard("m", false, false), Ok(()));
    let p = plugin(None);
    let plan = plan_init("/w/.forge", "state.json", &p, None).unwrap();
    assert_eq!(plan.template_name, "app");
    assert_eq!(plan.target_dir, "/w/.forge/templates/app");
    assert_eq!(plan.manifest_path, "/w/.forge/state.json");
    let plan = plan_init("/w/.forge", "state.json", &p, Some(s("https://h/x/web-kit.git"))).unwrap();
    assert_eq!(plan.template_name, "web-kit");
    assert_eq!(plan.template_url, "https://h/x/web-kit.git");
    let mut empty = plugin(None);
    empty.templates.clear();
    assert!(matches!(plan_init("f", "state.json", &empty, None), Err(ForgeError::NotFound(_))));
    assert_eq!(resolve_template(None, &empty), None);
}

#[test]
fn generation_template_root() {
    let p = plugin(None);
    assert_eq!(template_root_for(Some(s("my/tmpl")), ".forge", &p), Some(s("my/tmpl")));
    assert_eq!(template_root_for(None, ".forge", &p), Some(s(".forge/templates/app")));
}

#[test]
fn value_texts_unquote_strings() {
    let v = vec![(s("name"), VarValue::Str(s("World"))), (s("n"), VarValue::Json(s("42")))];
    let t = variable_texts(&v);
    assert_eq!(t, vec![(s("name"), s("World")), (s("n"), s("42"))]);
    assert_eq!(substitute_variables("Hello {{name}}! {{n}}", &t), "Hello World! 42");
}

#[test]
fn substitution_many_placeholders() {
    let v = vars(&[("a", "x"), ("b", "y")]);
    let out = substitute_variables("s0 {{a}} s1 {{b}} s2 {{c}} s3 {{a}}", &v);
    assert_eq!(out, "s0 x s1 y s2 {{c}} s3 x");
}
