//! Resolving templates, and the templates that are built in.

use include_dir::{Dir, DirEntry, File};
use sway_launch::builtin::{builtin, builtin_sources, builtin_templates, BuiltinSource, BuiltinTemplate};
use sway_launch::layout::ResolvedIds;
use sway_launch::template::{
    bindings_from_apps, check_metadata, distinct_slot_names, resolve, Binding, Bindings, Template,
    TemplateLayoutContext, TemplateMetadata, TemplateStep,
};
use sway_launch::time;

fn minimal_step() -> TemplateStep {
    TemplateStep {
        slot: Some("editor".to_string()),
        target_id: None,
        split: None,
        floating: false,
        sticky: false,
        fullscreen: false,
        focus: false,
        mark: None,
        new_column: false,
        new_row: false,
        workspace: None,
        output: None,
        height: None,
        width: None,
        position: None,
        scratchpad: false,
        timeout: None,
        wait_time: None,
    }
}

fn minimal_metadata() -> TemplateMetadata {
    TemplateMetadata {
        description: "A test template.".to_string(),
        category: "Test".to_string(),
    }
}

fn minimal_template(step: Vec<TemplateStep>) -> Template {
    Template {
        template: minimal_metadata(),
        layout: TemplateLayoutContext::default(),
        step,
    }
}

fn minimal_binding() -> Binding {
    Binding {
        slot: "editor".to_string(),
        command: Some("foot".to_string()),
        con_id: None,
        existing: false,
        app_id: None,
        class: None,
        mark_match: None,
    }
}

#[test]
fn resolve_rejects_step_without_slot_or_target_id() {
    let mut step = minimal_step();
    step.slot = None;
    let template = minimal_template(vec![step]);
    let bindings = Bindings { binding: vec![] };
    assert!(resolve(&template, &bindings).is_err());
}

#[test]
fn resolve_rejects_slot_and_target_id_together() {
    let mut step = minimal_step();
    step.target_id = Some("editor".to_string());
    let template = minimal_template(vec![step]);
    let bindings = Bindings {
        binding: vec![minimal_binding()],
    };
    assert!(resolve(&template, &bindings).is_err());
}

#[test]
fn resolve_rejects_blank_slot() {
    let mut step = minimal_step();
    step.slot = Some("   ".to_string());
    let template = minimal_template(vec![step]);
    let bindings = Bindings { binding: vec![] };
    let error = resolve(&template, &bindings)
        .err()
        .expect("blank slot should be rejected");
    assert!(
        error.contains("slot"),
        "error should name the field: {error:?}"
    );
}

#[test]
fn resolve_rejects_blank_target_id() {
    let mut step = minimal_step();
    step.slot = None;
    step.target_id = Some("  ".to_string());
    let template = minimal_template(vec![step]);
    let bindings = Bindings { binding: vec![] };
    let error = resolve(&template, &bindings)
        .err()
        .expect("blank target_id should be rejected");
    assert!(
        error.contains("target_id"),
        "error should name the field: {error:?}"
    );
}

#[test]
fn resolve_rejects_blank_binding_slot() {
    let template = minimal_template(vec![minimal_step()]);
    let mut binding = minimal_binding();
    binding.slot = "   ".to_string();
    let bindings = Bindings {
        binding: vec![binding],
    };
    let error = resolve(&template, &bindings)
        .err()
        .expect("blank binding slot should be rejected");
    assert!(
        error.contains("slot"),
        "error should name the field: {error:?}"
    );
}

#[test]
fn resolve_rejects_blank_binding_command_naming_the_slot() {
    let template = minimal_template(vec![minimal_step()]);
    let mut binding = minimal_binding();
    binding.command = Some("   ".to_string());
    let bindings = Bindings {
        binding: vec![binding],
    };
    let error = resolve(&template, &bindings)
        .err()
        .expect("blank binding command should be rejected");
    assert!(
        error.contains("editor") && error.contains("command"),
        "error should name the offending slot and field: {:?}",
        error
    );
}

#[test]
fn resolve_rejects_two_steps_sharing_a_slot_name() {
    let template = minimal_template(vec![minimal_step(), minimal_step()]);
    let bindings = Bindings {
        binding: vec![minimal_binding()],
    };
    let error = resolve(&template, &bindings)
        .err()
        .expect("two steps sharing a slot should error");
    assert!(
        error.contains("editor") && error.contains("more than once"),
        "error should name the offending slot and describe the actual mistake: {:?}",
        error
    );
}

#[test]
fn resolve_fills_in_the_binding_and_sets_id_to_the_slot_name() {
    let mut step = minimal_step();
    step.floating = true;
    step.mark = Some("pinned".to_string());
    let template = minimal_template(vec![step]);
    let bindings = Bindings {
        binding: vec![minimal_binding()],
    };

    let resolved = resolve(&template, &bindings).expect("valid template should resolve");
    assert_eq!(resolved.len(), 1);
    assert_eq!(resolved[0].id, Some("editor".to_string()));
    assert_eq!(resolved[0].command, Some("foot".to_string()));
    assert!(resolved[0].floating);
    assert_eq!(resolved[0].mark, Some("pinned".to_string()));
}

#[test]
fn resolve_applies_the_template_layout_context_to_a_step_without_its_own() {
    let mut template = minimal_template(vec![minimal_step()]);
    template.layout.workspace = Some("3".to_string());
    template.layout.output = Some("HDMI-A-1".to_string());
    let bindings = Bindings {
        binding: vec![minimal_binding()],
    };

    let resolved = resolve(&template, &bindings).expect("valid template should resolve");
    assert_eq!(resolved[0].workspace, Some("3".to_string()));
    assert_eq!(resolved[0].output, Some("HDMI-A-1".to_string()));
}

#[test]
fn resolve_lets_a_step_s_own_workspace_and_output_win_over_the_template_layout_context() {
    let mut step = minimal_step();
    step.workspace = Some("5".to_string());
    step.output = Some("DP-1".to_string());
    let mut template = minimal_template(vec![step]);
    template.layout.workspace = Some("3".to_string());
    template.layout.output = Some("HDMI-A-1".to_string());
    let bindings = Bindings {
        binding: vec![minimal_binding()],
    };

    let resolved = resolve(&template, &bindings).expect("valid template should resolve");
    assert_eq!(resolved[0].workspace, Some("5".to_string()));
    assert_eq!(resolved[0].output, Some("DP-1".to_string()));
}

#[test]
fn resolve_mixes_a_step_s_own_field_with_the_template_layout_context_s_other_field() {
    let mut step = minimal_step();
    step.workspace = Some("5".to_string());
    let mut template = minimal_template(vec![step]);
    template.layout.workspace = Some("3".to_string());
    template.layout.output = Some("HDMI-A-1".to_string());
    let bindings = Bindings {
        binding: vec![minimal_binding()],
    };

    let resolved = resolve(&template, &bindings).expect("valid template should resolve");
    assert_eq!(resolved[0].workspace, Some("5".to_string()));
    assert_eq!(resolved[0].output, Some("HDMI-A-1".to_string()));
}

#[test]
fn resolve_leaves_workspace_and_output_unset_without_a_layout_context() {
    let template = minimal_template(vec![minimal_step()]);
    let bindings = Bindings {
        binding: vec![minimal_binding()],
    };

    let resolved = resolve(&template, &bindings).expect("valid template should resolve");
    assert_eq!(resolved[0].workspace, None);
    assert_eq!(resolved[0].output, None);
}

#[test]
fn resolve_errors_on_missing_binding() {
    let template = minimal_template(vec![minimal_step()]);
    let bindings = Bindings { binding: vec![] };
    let error = resolve(&template, &bindings)
        .err()
        .expect("missing binding should error");
    assert!(error.contains("editor"));
}

#[test]
fn resolve_errors_on_binding_with_no_target_field_naming_the_slot() {
    let template = minimal_template(vec![minimal_step()]);
    let bindings = Bindings {
        binding: vec![Binding {
            slot: "editor".to_string(),
            command: None,
            con_id: None,
            existing: false,
            app_id: None,
            class: None,
            mark_match: None,
        }],
    };
    let error = resolve(&template, &bindings)
        .err()
        .expect("binding with no target field should error");
    assert!(
        error.contains("editor"),
        "error should name the offending slot: {:?}",
        error
    );
    assert!(
        error.contains("binding"),
        "error should be worded in terms of the binding, not a layout step: {:?}",
        error
    );
}

#[test]
fn resolve_errors_on_binding_with_command_and_con_id_together() {
    let template = minimal_template(vec![minimal_step()]);
    let bindings = Bindings {
        binding: vec![Binding {
            slot: "editor".to_string(),
            command: Some("foot".to_string()),
            con_id: Some(42),
            existing: false,
            app_id: None,
            class: None,
            mark_match: None,
        }],
    };
    let error = resolve(&template, &bindings)
        .err()
        .expect("binding with command and con_id together should error");
    assert!(error.contains("editor"));
}

#[test]
fn resolve_errors_on_binding_with_app_id_and_class_together() {
    let template = minimal_template(vec![minimal_step()]);
    let bindings = Bindings {
        binding: vec![Binding {
            slot: "editor".to_string(),
            command: Some("foot".to_string()),
            con_id: None,
            existing: false,
            app_id: Some("foot".to_string()),
            class: Some("Foot".to_string()),
            mark_match: None,
        }],
    };
    let error = resolve(&template, &bindings)
        .err()
        .expect("binding with app_id and class together should error");
    assert!(error.contains("editor"));
}

#[test]
fn resolve_errors_on_binding_with_class_and_mark_match_together() {
    let template = minimal_template(vec![minimal_step()]);
    let mut binding = minimal_binding();
    binding.command = None;
    binding.existing = true;
    binding.class = Some("Foot".to_string());
    binding.mark_match = Some("dropdown-term".to_string());
    let bindings = Bindings {
        binding: vec![binding],
    };
    let error = resolve(&template, &bindings)
        .err()
        .expect("binding with class and mark_match together should error");
    assert!(error.contains("editor"));
}

#[test]
fn resolve_fills_in_a_binding_s_mark_match() {
    let template = minimal_template(vec![minimal_step()]);
    let mut binding = minimal_binding();
    binding.command = None;
    binding.existing = true;
    binding.mark_match = Some("dropdown-term".to_string());
    let bindings = Bindings {
        binding: vec![binding],
    };
    let resolved = resolve(&template, &bindings).expect("valid binding should resolve");
    assert_eq!(resolved[0].mark_match, Some("dropdown-term".to_string()));
}

#[test]
fn resolve_errors_on_unused_binding() {
    let template = minimal_template(vec![]);
    let bindings = Bindings {
        binding: vec![minimal_binding()],
    };
    let error = resolve(&template, &bindings)
        .err()
        .expect("unused binding should error");
    assert!(error.contains("editor"));
}

#[test]
fn resolve_errors_on_duplicate_slot_within_bindings() {
    let template = minimal_template(vec![minimal_step()]);
    let bindings = Bindings {
        binding: vec![minimal_binding(), minimal_binding()],
    };
    let error = resolve(&template, &bindings)
        .err()
        .expect("duplicate binding slot should error");
    assert!(error.contains("editor"));
}

#[test]
fn resolve_target_id_step_has_no_id_and_no_target_fields() {
    let mut step = minimal_step();
    step.slot = None;
    step.target_id = Some("editor".to_string());
    let template = minimal_template(vec![step]);
    let bindings = Bindings { binding: vec![] };

    let resolved = resolve(&template, &bindings).expect("valid template should resolve");
    assert_eq!(resolved.len(), 1);
    assert_eq!(resolved[0].id, None);
    assert_eq!(resolved[0].target_id, Some("editor".to_string()));
    assert_eq!(resolved[0].command, None);
    assert_eq!(resolved[0].con_id, None);
    assert!(!resolved[0].existing);
}

#[test]
fn distinct_slot_names_deduplicates_and_ignores_target_id_steps() {
    let mut editor_step = minimal_step();
    editor_step.slot = Some("editor".to_string());
    let mut repeated_step = minimal_step();
    repeated_step.slot = Some("editor".to_string());
    let mut target_id_step = minimal_step();
    target_id_step.slot = None;
    target_id_step.target_id = Some("editor".to_string());

    let template = minimal_template(vec![editor_step, repeated_step, target_id_step]);

    assert_eq!(distinct_slot_names(&template), vec!["editor"]);
}

const QUAD_GRID: &[u8] = b"[[step]]\nslot = \"top-left\"\n\n[[step]]\nslot = \"top-right\"\n\n[[step]]\nslot = \"bottom-left\"\n\n[[step]]\nslot = \"bottom-right\"\n";

const OTHER: &[u8] = b"[[step]]\nslot = \"main\"\n";

const ENTRIES: &[DirEntry<'static>] = &[
    DirEntry::File(File::new("main-and-scratchpad.toml", OTHER)),
    DirEntry::File(File::new("quad-grid.toml", QUAD_GRID)),
    DirEntry::File(File::new("multi-workspace.toml", OTHER)),
    DirEntry::File(File::new("retarget-floating.toml", OTHER)),
    DirEntry::File(File::new("sidebar-left-dual-stack.toml", OTHER)),
    DirEntry::File(File::new("tall-column.toml", OTHER)),
    DirEntry::File(File::new("sticky-corner.toml", OTHER)),
    DirEntry::File(File::new("floating-center.toml", OTHER)),
    DirEntry::File(File::new("output-pair.toml", OTHER)),
    DirEntry::File(File::new("triple-columns.toml", OTHER)),
    DirEntry::File(File::new("dual-columns.toml", OTHER)),
    DirEntry::File(File::new("grid-three-rows.toml", OTHER)),
    DirEntry::File(File::new("dual-rows.toml", OTHER)),
    DirEntry::File(File::new("sidebar-left.toml", OTHER)),
    DirEntry::File(File::new("master-left.toml", OTHER)),
    DirEntry::File(File::new("sidebar-right.toml", OTHER)),
    DirEntry::File(File::new("master-right.toml", OTHER)),
    DirEntry::File(File::new("triple-row.toml", OTHER)),
];

fn shipped() -> Dir<'static> {
    Dir::new("", ENTRIES)
}

/// Reads what the fixtures of this file hold: the slots, one to a line.
fn parsed(source: &BuiltinSource<'_>) -> Template {
    let step = source
        .contents
        .lines()
        .filter_map(|line| line.strip_prefix("slot = \""))
        .map(|slot| TemplateStep {
            slot: Some(slot.trim_end_matches('"').to_string()),
            ..minimal_step()
        })
        .collect();
    minimal_template(step)
}

fn shown(sources: &Vec<BuiltinSource<'static>>) -> Vec<BuiltinTemplate<'static>> {
    builtin_templates(sources, &sources.iter().map(parsed).collect())
}

fn all_shown() -> Vec<BuiltinTemplate<'static>> {
    shown(&builtin_sources(&shipped()).expect("the fixtures are text"))
}

#[test]
fn builtin_finds_a_known_template_by_name() {
    let contents = builtin(&shipped(), "quad-grid").expect("quad-grid should be a built-in template");
    assert!(contents.contains("slot = \"top-left\""));
}

#[test]
fn builtin_returns_none_for_an_unknown_name() {
    assert!(builtin(&shipped(), "not-a-real-template").is_none());
}

#[test]
fn builtin_returns_none_for_a_name_with_a_toml_extension() {
    assert!(builtin(&shipped(), "quad-grid.toml").is_none());
}

#[test]
fn builtin_templates_lists_every_shipped_template_sorted_by_name() {
    let templates = all_shown();
    assert!(
        templates.len() >= 18,
        "expected at least 18 built-in templates, found {}",
        templates.len()
    );
    let mut sorted_names: Vec<_> = templates.iter().map(|t| t.name).collect();
    let mut expected = sorted_names.clone();
    expected.sort_unstable();
    assert_eq!(sorted_names, expected, "builtin_templates() should be sorted by name");
    sorted_names.sort_unstable();
    assert!(sorted_names.contains(&"quad-grid"));
}

#[test]
fn builtin_templates_every_description_is_a_complete_sentence() {
    for template in all_shown() {
        assert!(
            template.description.trim_end().ends_with('.'),
            "{:?}'s description should be a complete sentence, got {:?}",
            template.name,
            template.description
        );
    }
}

#[test]
fn builtin_templates_every_category_is_non_empty() {
    for template in all_shown() {
        assert!(
            !template.category.trim().is_empty(),
            "{:?}'s category should be non-empty",
            template.name
        );
    }
}

#[test]
fn builtin_templates_reports_slots_and_slot_names_matching_the_apps_ordering() {
    let templates = all_shown();
    let quad_grid = templates
        .iter()
        .find(|template| template.name == "quad-grid")
        .expect("quad-grid should be a built-in template");
    assert_eq!(quad_grid.slots, 4);
    assert_eq!(
        quad_grid.slot_names,
        vec!["top-left", "top-right", "bottom-left", "bottom-right"]
    );
}

#[test]
fn every_built_in_template_that_is_shown_is_found_by_its_name() {
    let dir = shipped();
    let sources = builtin_sources(&dir).expect("the fixtures are text");
    assert_eq!(sources.len(), ENTRIES.len());
    for source in &sources {
        assert_eq!(builtin(&dir, source.name), Some(source.contents));
    }
    for entry in all_shown() {
        let contents = builtin(&dir, entry.name).expect("shown, so there");
        let template = parsed(&BuiltinSource { name: entry.name, contents });
        assert_eq!(entry.slot_names, distinct_slot_names(&template));
        assert_eq!(entry.slots, entry.slot_names.len());
        assert_eq!(entry.description, template.template.description);
        assert_eq!(entry.category, template.template.category);
    }
}

#[test]
fn slots_are_listed_in_the_order_of_their_first_use() {
    let slot = |name: &str| TemplateStep { slot: Some(name.to_string()), ..minimal_step() };
    let template = minimal_template(vec![slot("z"), slot("a"), slot("z"), slot("m"), slot("a")]);
    assert_eq!(distinct_slot_names(&template), vec!["z", "a", "m"]);
}

#[test]
fn a_built_in_template_that_is_not_text_is_named() {
    const BROKEN: &[DirEntry<'static>] = &[
        DirEntry::File(File::new("fine.toml", b"ok")),
        DirEntry::File(File::new("broken.toml", &[0xff, 0xfe])),
    ];
    let dir = Dir::new("", BROKEN);
    assert_eq!(
        builtin_sources(&dir).err(),
        Some("built-in template \"broken\" is not valid UTF-8".to_string())
    );
    assert_eq!(builtin(&dir, "broken"), None);
    assert_eq!(builtin(&dir, "fine"), Some("ok"));
}

#[test]
fn only_files_are_listed_and_each_under_its_stem() {
    const INNER: &[DirEntry<'static>] = &[DirEntry::File(File::new("more/inner.toml", b"inner"))];
    const MIXED: &[DirEntry<'static>] = &[
        DirEntry::Dir(Dir::new("more", INNER)),
        DirEntry::File(File::new("b.c.toml", b"second")),
        DirEntry::File(File::new("a.toml", b"first")),
    ];
    let dir = Dir::new("", MIXED);
    let sources = builtin_sources(&dir).expect("all text");
    let names: Vec<&str> = sources.iter().map(|source| source.name).collect();
    assert_eq!(names, vec!["b.c", "a"]);
    assert_eq!(sources[1].contents, "first");
    assert_eq!(builtin(&dir, "more/inner"), Some("inner"));
    let listed: Vec<&str> = shown(&sources).iter().map(|entry| entry.name).collect();
    assert_eq!(listed, vec!["a", "b.c"]);
}

fn two_slots() -> Template {
    minimal_template(vec![
        TemplateStep { slot: Some("left".to_string()), ..minimal_step() },
        TemplateStep { slot: Some("right".to_string()), ..minimal_step() },
        TemplateStep { slot: None, target_id: Some("left".to_string()), ..minimal_step() },
    ])
}

#[test]
fn listed_applications_fill_the_slots_in_order() {
    let template = two_slots();
    let bindings = bindings_from_apps(&template, " foot , firefox --new-window ").expect("two for two");
    assert_eq!(bindings.binding.len(), 2);
    assert_eq!(bindings.binding[0].slot, "left");
    assert_eq!(bindings.binding[0].command.as_deref(), Some("foot"));
    assert_eq!(bindings.binding[1].slot, "right");
    assert_eq!(bindings.binding[1].command.as_deref(), Some("firefox --new-window"));
    assert!(!bindings.binding[1].existing && bindings.binding[1].con_id.is_none());
    let steps = resolve(&template, &bindings).expect("listed applications always resolve");
    assert_eq!(steps.len(), 3);
    assert_eq!(steps[0].command.as_deref(), Some("foot"));
    assert_eq!(steps[1].command.as_deref(), Some("firefox --new-window"));
    assert_eq!(steps[2].target_id.as_deref(), Some("left"));
    assert_eq!(steps[2].command, None);
}

#[test]
fn a_list_of_the_wrong_length_names_the_slots() {
    assert_eq!(
        bindings_from_apps(&two_slots(), "foot").err(),
        Some("template needs 2 application(s) (left, right), got 1".to_string())
    );
    assert_eq!(
        bindings_from_apps(&minimal_template(vec![]), "").err(),
        Some("template needs 0 application(s) (), got 1".to_string())
    );
}

#[test]
fn an_empty_application_names_its_slot() {
    assert_eq!(
        bindings_from_apps(&two_slots(), "foot, ").err(),
        Some("--apps: empty application for slot \"right\"".to_string())
    );
}

#[test]
fn unused_bindings_are_listed_in_order() {
    let bindings = Bindings {
        binding: vec![
            Binding { slot: "zeta".to_string(), ..minimal_binding() },
            minimal_binding(),
            Binding { slot: "alpha".to_string(), ..minimal_binding() },
        ],
    };
    assert_eq!(
        resolve(&minimal_template(vec![minimal_step()]), &bindings).err(),
        Some("binding(s) for unused slot(s): alpha, zeta".to_string())
    );
}

#[test]
fn every_fault_of_a_template_has_its_own_report() {
    let one = |binding: Binding| Bindings { binding: vec![binding] };
    let template = minimal_template(vec![minimal_step()]);
    assert_eq!(
        resolve(&template, &one(Binding { slot: " ".to_string(), ..minimal_binding() })).err(),
        Some("binding.slot must not be empty or whitespace-only".to_string())
    );
    assert_eq!(
        resolve(
            &template,
            &Bindings { binding: vec![minimal_binding(), minimal_binding()] }
        )
        .err(),
        Some("slot \"editor\" has more than one binding".to_string())
    );
    assert_eq!(
        resolve(&template, &Bindings { binding: vec![] }).err(),
        Some("no binding for slot \"editor\"".to_string())
    );
    assert_eq!(
        resolve(&template, &one(Binding { con_id: Some(1), ..minimal_binding() })).err(),
        Some(
            "binding for slot \"editor\" must set exactly one of: command, con_id, existing"
                .to_string()
        )
    );
    assert_eq!(
        resolve(&template, &one(Binding { command: Some("".to_string()), ..minimal_binding() }))
            .err(),
        Some(
            "binding for slot \"editor\": command must not be empty or whitespace-only".to_string()
        )
    );
    assert_eq!(
        resolve(
            &template,
            &one(Binding {
                app_id: Some("a".to_string()),
                class: Some("b".to_string()),
                ..minimal_binding()
            })
        )
        .err(),
        Some(
            "binding for slot \"editor\" must set only one of: app_id, class, mark_match"
                .to_string()
        )
    );
    assert_eq!(
        resolve(
            &minimal_template(vec![minimal_step(), minimal_step()]),
            &one(minimal_binding())
        )
        .err(),
        Some("template: slot \"editor\" is used more than once".to_string())
    );
    assert_eq!(
        resolve(
            &minimal_template(vec![TemplateStep { slot: None, ..minimal_step() }]),
            &Bindings { binding: vec![] }
        )
        .err(),
        Some("template step must set exactly one of: slot, target_id".to_string())
    );
}

#[test]
fn a_template_needs_a_description_and_a_category() {
    let mut template = minimal_template(vec![]);
    assert_eq!(check_metadata(&template), Ok(()));
    template.template.category = "\t".to_string();
    assert_eq!(
        check_metadata(&template),
        Err("template.category must not be empty or whitespace-only".to_string())
    );
    template.template.description = String::new();
    assert_eq!(
        check_metadata(&template),
        Err("template.description must not be empty or whitespace-only".to_string())
    );
}

#[test]
fn a_resolved_step_converts_like_any_other() {
    let steps = resolve(
        &minimal_template(vec![minimal_step()]),
        &Bindings { binding: vec![minimal_binding()] },
    )
    .expect("resolves");
    assert!(steps[0]
        .to_sway_launch(
            time::Duration::from_secs(5),
            time::Duration::from_millis(20),
            false,
            &ResolvedIds::new()
        )
        .is_ok());
}
