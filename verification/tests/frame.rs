//! Input routing, fonts, baking, compositing, application resources and themes.

use std::sync::Arc;

use noesis_bevy::keyed::{KeyedMap, KeyedSet};
use noesis_bevy::render::app_resources::{
    announce, present_keys, unite_chains, AppResourcesState, InstallPlan,
};
use noesis_bevy::render::bake::{BakeDraw, BakeState, BakeStep};
use noesis_bevy::render::blit::{blit_desc, decodes_srgb, is_linear_float, ColorFormat};
use noesis_bevy::render::fonts::FontState;
use noesis_bevy::render::input::{moves_pointer, NoesisInputEvent, TargetedInput};
use noesis_bevy::render::state::NoesisRenderState;
use noesis_bevy::render::view::{NoesisView, UVec2};
use noesis_bevy::render_device::pipeline::BlendFactor;
use noesis_bevy::render_device::sampler::FilterMode;
use noesis_bevy::resources::{NoesisResources, ResourceEntry};
use noesis_bevy::scalar::{Float32, Vec4};
use noesis_bevy::theme::{
    apply_theme_to_scene, has_extension, is_theme_font, is_theme_xaml, stage_theme, theme_uri,
};
use noesis_bevy::values::DpValue;
use noesis_bevy::xaml::{SharedXamlMap, XamlRegistry};

fn shared(uris: &[&str]) -> SharedXamlMap {
    let mut registry = XamlRegistry::default();
    for uri in uris {
        registry.insert(uri, Arc::new(uri.as_bytes().to_vec()));
    }
    let mut map = SharedXamlMap::default();
    map.sync_from(&registry);
    map
}

fn state_with(entities: &[u64]) -> NoesisRenderState {
    let mut state = NoesisRenderState::new();
    for &e in entities {
        state.scene_built(e, &NoesisView::default(), &Arc::new(vec![]));
    }
    state
}

fn moved(target: Option<u64>) -> TargetedInput {
    TargetedInput { target, event: NoesisInputEvent::MouseMove { x: 1, y: 2 } }
}

fn key(target: Option<u64>) -> TargetedInput {
    TargetedInput { target, event: NoesisInputEvent::KeyDown { key: 6 } }
}

#[test]
fn primary_view_is_the_lowest_entity() {
    assert_eq!(state_with(&[]).primary_view(), None);
    assert_eq!(state_with(&[9, 4, 7]).primary_view(), Some(4));
    let (a, b) = (
        bevy::prelude::Entity::from_bits(0x1_0000_0009),
        bevy::prelude::Entity::from_bits(0x2_0000_0004),
    );
    assert_eq!(a < b, a.to_bits() < b.to_bits());
}

#[test]
fn input_goes_to_its_view_or_the_primary_one() {
    let state = state_with(&[9, 4]);
    let events = vec![moved(None), key(Some(9)), moved(Some(5)), moved(Some(9))];
    assert_eq!(state.plan_input(&events), vec![(4, 0), (9, 1), (9, 3)]);
    assert!(state_with(&[]).plan_input(&events).is_empty());
}

#[test]
fn last_pointer_event_decides_over_ui() {
    let state = state_with(&[4]);
    let events = vec![moved(None), key(None), moved(Some(5))];
    assert!(state.apply_input(false, &events, &vec![true, false, false]));
    assert!(!state.apply_input(true, &events, &vec![false, true, true]));
    assert!(state.apply_input(true, &vec![key(None)], &vec![false]));
    assert!(!state_with(&[]).apply_input(true, &events, &vec![true, true, true]));
    assert!(state.apply_noesis_input(true, &vec![], &vec![]));
    assert!(!state_with(&[]).apply_noesis_input(true, &vec![], &vec![]));
    assert!(!moves_pointer(&NoesisInputEvent::Focus { gained: true }));
    assert!(!moves_pointer(&NoesisInputEvent::Char { code: 65 }));
    assert!(moves_pointer(&NoesisInputEvent::TouchUp { x: 0, y: 0, id: 1 }));
}

#[test]
fn fonts_are_registered_once() {
    let mut fonts: KeyedSet<(String, String)> = KeyedSet::new();
    let mut state = FontState::new();
    assert!(state.install_font_fallbacks_if_needed(&fonts).is_none());
    fonts.insert(("Fonts".into(), "a.ttf".into()));
    assert_eq!(
        state.register_pending_fonts(&fonts),
        vec![("Fonts".to_string(), "a.ttf".to_string())]
    );
    assert!(state.register_pending_fonts(&fonts).is_empty());
    fonts.insert(("Fonts".into(), "b.ttf".into()));
    assert_eq!(state.register_pending_fonts(&fonts).len(), 1);
    let defaults = state.install_font_fallbacks_if_needed(&fonts).unwrap();
    assert_eq!(defaults.size.bits, 12.0f32.to_bits());
    assert_eq!((defaults.weight, defaults.stretch, defaults.style), (400, 5, 0));
    assert!(state.install_font_fallbacks_if_needed(&fonts).is_none());
}

#[test]
fn bakes_reuse_their_rig() {
    let xaml = shared(&["label.xaml", "other.xaml"]);
    let size = UVec2 { x: 8, y: 8 };
    let mut bake = BakeState::new();
    assert!(bake.begin_draw(size).is_none());
    assert_eq!(bake.begin_bake(false, "label.xaml", &xaml), BakeStep::NotReady);
    assert_eq!(bake.begin_bake(true, "late.xaml", &xaml), BakeStep::NotReady);
    assert_eq!(bake.begin_bake(true, "label.xaml", &xaml), BakeStep::Build { shut_down: false });
    bake.rig_built("label.xaml", size);
    assert_eq!(bake.begin_draw(size), Some(BakeDraw { resize: false, init: true }));
    assert_eq!(bake.begin_bake(true, "label.xaml", &xaml), BakeStep::Reuse);
    assert_eq!(bake.begin_draw(size), Some(BakeDraw { resize: false, init: false }));
    let larger = UVec2 { x: 9, y: 8 };
    assert_eq!(bake.begin_draw(larger), Some(BakeDraw { resize: true, init: false }));
    assert_eq!(bake.begin_bake(true, "late.xaml", &xaml), BakeStep::NotReady);
    assert!(bake.rig.is_some());
    assert_eq!(bake.begin_bake(true, "other.xaml", &xaml), BakeStep::Build { shut_down: true });
    assert!(bake.rig.is_none());
    bake.rig_built("other.xaml", size);
    assert!(!bake.teardown_bake_rig());
}

#[test]
fn hdr_float_targets_decode_srgb() {
    assert!(is_linear_float(ColorFormat::Rgba16Float));
    assert!(is_linear_float(ColorFormat::Rgba32Float));
    assert!(is_linear_float(ColorFormat::Rg11b10Ufloat));
}

#[test]
fn ldr_unorm_targets_sample_raw() {
    assert!(!is_linear_float(ColorFormat::Rgba8Unorm));
    assert!(!is_linear_float(ColorFormat::Bgra8Unorm));
    assert!(!is_linear_float(ColorFormat::Rgba8UnormSrgb));
}

#[test]
fn srgb_and_float_targets_are_decoded_for() {
    let decoded = [
        (ColorFormat::Rgba8Unorm, false),
        (ColorFormat::Rgba8UnormSrgb, true),
        (ColorFormat::Bgra8Unorm, false),
        (ColorFormat::Bgra8UnormSrgb, true),
        (ColorFormat::Rgb10a2Unorm, false),
        (ColorFormat::Rg11b10Ufloat, true),
        (ColorFormat::Rgba16Float, true),
        (ColorFormat::Rgba32Float, true),
        (ColorFormat::Other { srgb: true }, true),
        (ColorFormat::Other { srgb: false }, false),
    ];
    for (format, expected) in decoded {
        assert_eq!(decodes_srgb(format), expected, "{format:?}");
    }
    let desc = blit_desc(ColorFormat::Rgba8Unorm);
    assert_eq!(desc.blend.color.src_factor, BlendFactor::One);
    assert_eq!(desc.blend.alpha.dst_factor, BlendFactor::OneMinusSrcAlpha);
    assert_eq!((desc.filter, desc.vertices), (FilterMode::Linear, 3));
}

fn strings(list: &[&str]) -> Vec<String> {
    list.iter().map(|s| s.to_string()).collect()
}

#[test]
fn resources_are_installed_when_they_change() {
    let mut state = AppResourcesState::new();
    let none: KeyedMap<String, ResourceEntry> = KeyedMap::new();
    let xaml = shared(&["theme.xaml"]);
    assert!(state.reconcile_app_resources(&none, &vec![], &vec![], &xaml).is_none());
    let late = strings(&["theme.xaml", "late.xaml"]);
    assert!(state.reconcile_app_resources(&none, &vec![], &late, &xaml).is_none());
    assert!(state.installed.is_none());
    let chain = strings(&["theme.xaml"]);
    assert!(matches!(
        state.reconcile_app_resources(&none, &vec![], &chain, &xaml),
        Some(InstallPlan::Chain)
    ));
    assert!(state.reconcile_app_resources(&none, &vec![], &chain, &xaml).is_none());

    let r = NoesisResources::new().value("K", DpValue::I32(1));
    let plan = state.reconcile_app_resources(&r.entries, &r.merged_xaml, &chain, &xaml);
    assert!(matches!(
        plan,
        Some(InstallPlan::Merge { chain }) if chain == vec!["theme.xaml".to_string()]
    ));
    assert!(state.reconcile_app_resources(&r.entries, &vec![], &chain, &xaml).is_none());
    let r = r.value("K", DpValue::I32(2));
    assert!(state.reconcile_app_resources(&r.entries, &vec![], &chain, &xaml).is_some());
    let merged = strings(&["<ResourceDictionary/>"]);
    assert!(state.reconcile_app_resources(&r.entries, &merged, &chain, &xaml).is_some());
}

#[test]
fn markup_that_is_no_utf8_is_merged_lossily() {
    let mut registry = XamlRegistry::default();
    registry.insert("bad.xaml", Arc::new(vec![b'<', 0xFF, b'>']));
    let mut xaml = SharedXamlMap::default();
    xaml.sync_from(&registry);
    let r = NoesisResources::new().value("K", DpValue::I32(1));
    let plan = AppResourcesState::new().reconcile_app_resources(
        &r.entries,
        &vec![],
        &strings(&["bad.xaml"]),
        &xaml,
    );
    assert!(matches!(
        plan,
        Some(InstallPlan::Merge { chain }) if chain == vec!["<\u{FFFD}>".to_string()]
    ));
}

#[test]
fn a_resource_that_is_no_number_is_installed_again() {
    let nan = Float32::from_bits(f32::NAN.to_bits());
    let r = NoesisResources::new().solid("B", Vec4 { x: nan, y: nan, z: nan, w: nan });
    let mut state = AppResourcesState::new();
    let xaml = shared(&[]);
    assert!(state.reconcile_app_resources(&r.entries, &vec![], &vec![], &xaml).is_some());
    assert!(state.reconcile_app_resources(&r.entries, &vec![], &vec![], &xaml).is_some());
}

#[test]
fn present_keys_are_declared_found_and_sorted() {
    let r = NoesisResources::new()
        .value("b", DpValue::I32(1))
        .value("a", DpValue::I32(1))
        .value("c", DpValue::I32(1));
    let mut found: KeyedSet<String> = KeyedSet::new();
    for k in ["c", "a", "z"] {
        found.insert(k.into());
    }
    let present = present_keys(&r.entries, &found);
    assert_eq!(present, strings(&["a", "c"]));
    assert_eq!(announce(&r.entries, present).unwrap().present, strings(&["a", "c"]));
    assert!(announce(&KeyedMap::new(), vec![]).is_none());
}

#[test]
fn chains_are_united_in_first_seen_order() {
    let (all, conflict) = unite_chains(&vec![
        strings(&[]),
        strings(&["a", "b"]),
        strings(&["b", "c", "c"]),
        strings(&["a"]),
    ]);
    assert_eq!(all, strings(&["a", "b", "c"]));
    assert!(conflict);
    let (_, same) = unite_chains(&vec![strings(&["a"]), strings(&[]), strings(&["a"])]);
    assert!(!same);
}

#[test]
fn theme_files_are_told_by_extension() {
    assert!(is_theme_xaml("NoesisTheme.DarkBlue.xaml"));
    assert!(!is_theme_xaml("readme.xaml.txt"));
    assert!(!is_theme_xaml(".xaml"));
    assert!(!is_theme_xaml("xaml"));
    assert!(!is_theme_xaml("a.XAML"));
    assert!(is_theme_font("PT.otf") && is_theme_font("PT.ttf") && !is_theme_font("PT.woff"));
    for name in ["a.b", "a.", ".a", "..a", "a", "", ".", "..", "a.b.c", "\u{e4}.xaml"] {
        let std_ext = std::path::Path::new(name).extension().and_then(|e| e.to_str());
        for ext in ["b", "", "a", "c", "xaml"] {
            assert_eq!(has_extension(name, ext), std_ext == Some(ext), "{name:?} {ext:?}");
        }
    }
    let t = stage_theme(
        "DarkBlue",
        &strings(&["a.xaml", "b.png", "c.xaml"]),
        &strings(&["x.ttf", "y.txt", "z.otf"]),
    );
    assert_eq!(t.xamls, strings(&["a.xaml", "c.xaml"]));
    assert_eq!(
        t.fonts,
        vec![
            ("Fonts".to_string(), "x.ttf".to_string()),
            ("Fonts".to_string(), "z.otf".to_string())
        ]
    );
    assert_eq!(theme_uri("DarkBlue"), "NoesisTheme.DarkBlue.xaml");
}

#[test]
fn theme_is_put_first_and_once() {
    let theme = stage_theme("Dark", &strings(&["NoesisTheme.Dark.xaml"]), &strings(&["x.ttf"]));
    let mut applied = false;
    apply_theme_to_scene(&theme, None, &mut applied);
    assert!(!applied);
    let mut view = NoesisView::default();
    view.application_resources.push("own.xaml".into());
    view.wait_for_font_files.push(("Fonts".into(), "x.ttf".into()));
    apply_theme_to_scene(&theme, Some(&mut view), &mut applied);
    assert!(applied);
    assert_eq!(view.application_resources, strings(&["NoesisTheme.Dark.xaml", "own.xaml"]));
    assert_eq!(view.wait_for_fonts, strings(&["Fonts"]));
    assert_eq!(view.wait_for_font_files.len(), 1);
    assert_eq!(view.font_fallbacks, strings(&["Fonts/#PT Root UI"]));
    apply_theme_to_scene(&theme, Some(&mut view), &mut applied);
    let mut again = false;
    apply_theme_to_scene(&theme, Some(&mut view), &mut again);
    assert_eq!(view.application_resources.len(), 2);
    assert_eq!(view.font_fallbacks.len(), 1);

    let empty = stage_theme("Dark", &vec![], &vec![]);
    let mut done = false;
    let mut plain = NoesisView::default();
    apply_theme_to_scene(&empty, Some(&mut plain), &mut done);
    assert!(done && plain.application_resources.is_empty());
}
