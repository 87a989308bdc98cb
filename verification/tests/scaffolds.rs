use nih_plug_playground::manifest::{get_package_name, get_plugin_lib_name};
use nih_plug_playground::scaffolding::{
    apply_substitutions, plan_project, sanitize_project_name, scaffold_project, substitute,
    to_pascal_case, ScaffoldOptions, ScaffoldOutcome,
};
use nih_plug_playground::templates::Templates;

fn templates() -> Templates {
    Templates {
        cargo_toml: "name = \"{{project_name}}\"".to_string(),
        lib_rs: "pub struct {{PluginName}};".to_string(),
        params_rs: "// {{plugin_name_str}}".to_string(),
        editor_rs: "plain".to_string(),
    }
}

fn options(name: &str) -> ScaffoldOptions {
    ScaffoldOptions {
        parent_dir: "/home/me".to_string(),
        project_name: name.to_string(),
    }
}

#[test]
fn names_become_snake_case() {
    assert_eq!(sanitize_project_name("  My Cool-Plugin!! "), "my_cool_plugin");
    assert_eq!(sanitize_project_name("__a__b__"), "a_b");
    assert_eq!(sanitize_project_name("gain2"), "gain2");
    assert_eq!(sanitize_project_name("Größe ÄÖ"), "größe_äö");
    assert_eq!(sanitize_project_name("--- "), "");
    assert_eq!(sanitize_project_name("__.__ 7"), "7");
    assert_eq!(sanitize_project_name("\u{2003}İ"), "i");
}

#[test]
fn a_sanitized_name_stays_as_it_is() {
    let once = sanitize_project_name("A  b__c.D");
    assert_eq!(once, "a_b_c_d");
    assert_eq!(sanitize_project_name(&once), once);
    assert_eq!(sanitize_project_name("A  B__C.D"), once);
    assert_eq!(sanitize_project_name("\u{a0}gain\u{3000}"), "gain");
}

#[test]
fn struct_names_are_in_pascal_case() {
    assert_eq!(to_pascal_case("my_plugin"), "MyPlugin");
    assert_eq!(to_pascal_case("a__b"), "AB");
    assert_eq!(to_pascal_case("ßharp"), "SSharp");
    assert_eq!(to_pascal_case("2x_gain"), "2xGain");
    assert_eq!(to_pascal_case(""), "");
    assert_eq!(to_pascal_case("fooBar"), "FooBar");
    let both = to_pascal_case("low_cut") + &to_pascal_case("high_cut");
    assert_eq!(to_pascal_case("low_cut_high_cut"), both);
}

#[test]
fn placeholders_are_replaced() {
    assert_eq!(substitute("{{a}}{{a}}{{b}}", "a", "x"), "xx{{b}}");
    assert_eq!(substitute("{a}", "a", "x"), "{a}");
    assert_eq!(substitute("{{{a}}}", "a", "x"), "{x}");
    assert_eq!(
        apply_substitutions(
            "{{project_name}} {{PluginName}} {{plugin_name_str}}",
            "my_gain",
            "MyGain"
        ),
        "my_gain MyGain my gain"
    );
    assert_eq!(apply_substitutions("plain", "my_gain", "MyGain"), "plain");
}

#[test]
fn a_new_project_has_four_files() {
    let plan = plan_project(&options("My Gain"), &templates()).unwrap();
    assert_eq!(plan.project_name, "my_gain");
    let names: Vec<(bool, &str)> = plan
        .files
        .iter()
        .map(|f| (f.in_src, f.name.as_str()))
        .collect();
    assert_eq!(
        names,
        vec![
            (false, "Cargo.toml"),
            (true, "lib.rs"),
            (true, "params.rs"),
            (true, "editor.rs")
        ]
    );
    assert_eq!(plan.files[0].content, "name = \"my_gain\"");
    assert_eq!(plan.files[1].content, "pub struct MyGain;");
    assert_eq!(plan.files[2].content, "// my gain");
    assert_eq!(plan.files[3].content, "plain");
}

#[test]
fn a_project_needs_a_name() {
    let plan = plan_project(&options(" - "), &templates());
    assert_eq!(
        plan,
        Err("Project name cannot be empty".to_string())
    );
    assert_eq!(
        scaffold_project(&plan, "/home/me", &ScaffoldOutcome::Written),
        Err("Project name cannot be empty".to_string())
    );
}

#[test]
fn what_making_a_project_comes_to() {
    let plan = plan_project(&options("gain"), &templates());
    let dir = "/home/me/gain";
    assert_eq!(
        scaffold_project(&plan, dir, &ScaffoldOutcome::Written),
        Ok(dir.to_string())
    );
    assert_eq!(
        scaffold_project(&plan, dir, &ScaffoldOutcome::Exists),
        Err("Directory already exists: /home/me/gain".to_string())
    );
    assert_eq!(
        scaffold_project(&plan, dir, &ScaffoldOutcome::NotCreated("ro".to_string())),
        Err("Failed to create project directory: ro".to_string())
    );
    let outcome = ScaffoldOutcome::NotWritten {
        path: "/home/me/gain/Cargo.toml".to_string(),
        reason: "full".to_string(),
    };
    assert_eq!(
        scaffold_project(&plan, dir, &outcome),
        Err("Failed to write /home/me/gain/Cargo.toml: full".to_string())
    );
}

fn manifest(text: &str) -> Result<String, String> {
    Ok(text.to_string())
}

#[test]
fn the_library_name_comes_first() {
    let both = manifest("[package]\nname = \"my-gain\"\n[lib]\r\n  name = 'gain_lib'\n");
    assert_eq!(get_package_name(&both), Ok("gain_lib".to_string()));
    assert_eq!(get_plugin_lib_name(&both), Ok("gain_lib".to_string()));
}

#[test]
fn the_package_name_comes_next() {
    let package = manifest("[lib]\ncrate-type = [\"cdylib\"]\n\n[package]\nname=\"my-gain\"");
    assert_eq!(get_package_name(&package), Ok("my-gain".to_string()));
    assert_eq!(get_plugin_lib_name(&package), Ok("my_gain".to_string()));
}

#[test]
fn a_manifest_may_hold_no_name() {
    let none = manifest("[dependencies]\nname = \"x\"\n[package]\nnames\n");
    assert_eq!(
        get_package_name(&none),
        Err("Could not determine lib name from Cargo.toml".to_string())
    );
    assert_eq!(
        get_plugin_lib_name(&none),
        Err("Could not determine plugin name from Cargo.toml".to_string())
    );
}

#[test]
fn a_manifest_may_be_unreadable() {
    let gone = Err("gone".to_string());
    assert_eq!(
        get_package_name(&gone),
        Err("Can't read Cargo.toml: gone".to_string())
    );
    assert_eq!(
        get_plugin_lib_name(&gone),
        Err("Failed to read Cargo.toml: gone".to_string())
    );
}
