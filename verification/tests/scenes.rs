//! Scenes and what is owned on behalf of an entity: hosts, collections,
//! bindings, panels and subscriptions.

use std::sync::Arc;

use noesis_bevy::keyed::{KeyedMap, KeyedSet};
use noesis_bevy::queue::Queue;
use noesis_bevy::readbacks::ItemsReadback;
use noesis_bevy::render::bindings::row_clicked;
use noesis_bevy::render::hosts::HostStep;
use noesis_bevy::render::panels::fragment_index;
use noesis_bevy::render::scene::{decide_scene, is_ready, scene_step, Assets, SceneAction};
use noesis_bevy::render::state::{AttachTarget, HostDef, HostKind, NoesisRenderState};
use noesis_bevy::render::subscriptions::{
    binding_fired, click_fired, event_fired, event_target, key_fired, report_view,
    ClickWatchEntry, KeyBindingSpec, KeyDownWatchEntry, WatchRoot,
};
use noesis_bevy::render::view::{flags_from, NoesisView, UVec2, RENDER_FLAG_PPAA};
use noesis_bevy::routed_events::{
    EventWatchEntry, RoutedEvent, RoutedEventSnapshot, SharedRoutedEventQueue,
};
use noesis_bevy::scalar::Float32;
use noesis_bevy::values::DpValue;
use noesis_bevy::xaml::{SharedXamlMap, XamlRegistry};

fn view(uri: &str) -> NoesisView {
    NoesisView { xaml_uri: uri.to_string(), ..NoesisView::default() }
}

fn assets(uris: &[&str]) -> (Assets, XamlRegistry) {
    let mut registry = XamlRegistry::default();
    for uri in uris {
        registry.insert(uri, Arc::new(uri.as_bytes().to_vec()));
    }
    let mut xaml = SharedXamlMap::default();
    xaml.sync_from(&registry);
    (Assets { xaml, fonts: KeyedSet::new(), images: KeyedSet::new() }, registry)
}

fn build(state: &mut NoesisRenderState, entity: u64, uri: &str) {
    let bytes = Arc::new(uri.as_bytes().to_vec());
    state.scene_built(entity, &view(uri), &bytes);
}

#[test]
fn a_view_has_its_defaults() {
    let v = NoesisView::default();
    assert!(v.xaml_uri.is_empty());
    assert_eq!(v.size, UVec2 { x: 512, y: 512 });
    assert_eq!(v.scale.bits, 1.0f32.to_bits());
    assert!(v.ppaa);
    assert!(v.application_resources.is_empty() && v.font_fallbacks.is_empty());
    assert_eq!(flags_from(&v), RENDER_FLAG_PPAA);
    assert_eq!(flags_from(&NoesisView { ppaa: false, ..NoesisView::default() }), 0);
}

#[test]
fn a_scene_is_built_once_everything_is_there() {
    let (mut a, _) = assets(&["menu.xaml", "theme.xaml"]);
    let mut v = view("menu.xaml");
    assert_eq!(decide_scene(&v, None, &a, true), SceneAction::Rebuild);
    v.wait_for_fonts.push("Fonts".into());
    assert!(!is_ready(&v, &a));
    assert_eq!(decide_scene(&v, None, &a, true), SceneAction::Keep);
    a.fonts.insert(("Fonts".into(), "a.ttf".into()));
    assert!(is_ready(&v, &a));
    v.wait_for_font_files.push(("Fonts".into(), "b.ttf".into()));
    assert!(!is_ready(&v, &a));
    a.fonts.insert(("Fonts".into(), "b.ttf".into()));
    v.wait_for_images.push("i.png".into());
    assert!(!is_ready(&v, &a));
    a.images.insert("i.png".into());
    v.application_resources.push("theme.xaml".into());
    assert!(is_ready(&v, &a));
    v.application_resources.push("late.xaml".into());
    assert!(!is_ready(&v, &a));
    assert_eq!(decide_scene(&view("late.xaml"), None, &a, true), SceneAction::Keep);
    assert_eq!(decide_scene(&view(""), None, &a, true), SceneAction::Teardown);
}

#[test]
fn a_live_scene_is_resized_kept_or_rebuilt() {
    let (a, mut registry) = assets(&["menu.xaml"]);
    let mut state = NoesisRenderState::new();
    let mut v = view("menu.xaml");
    assert_eq!(state.ensure_scene(1, &v, &a), SceneAction::Rebuild);
    state.scene_built(1, &v, registry.get("menu.xaml").unwrap());
    assert_eq!(state.live_scene_count(), 1);
    assert_eq!(state.ensure_scene(1, &v, &a), SceneAction::Keep);
    v.size = UVec2 { x: 640, y: 480 };
    assert_eq!(state.ensure_scene(1, &v, &a), SceneAction::Resize);
    assert_eq!(state.scenes.get(&1).unwrap().size, v.size);
    v.size = UVec2 { x: 0, y: 480 };
    assert_eq!(state.ensure_scene(1, &v, &a), SceneAction::Keep);
    assert_eq!(state.scenes.get(&1).unwrap().size, UVec2 { x: 640, y: 480 });
    v.size = UVec2 { x: 640, y: 480 };

    registry.insert("menu.xaml", Arc::new(b"menu.xaml".to_vec()));
    let mut reloaded = Assets {
        xaml: SharedXamlMap::default(),
        fonts: KeyedSet::new(),
        images: KeyedSet::new(),
    };
    reloaded.xaml.sync_from(&registry);
    assert_eq!(scene_step(&v, state.scenes.get(&1), &reloaded), SceneAction::Rebuild);
    v.wait_for_fonts.push("Fonts".into());
    assert_eq!(state.ensure_scene(1, &v, &reloaded), SceneAction::Keep);
    assert_eq!(state.live_scene_count(), 1);
    v.wait_for_fonts.clear();
    assert_eq!(state.ensure_scene(1, &v, &reloaded), SceneAction::Rebuild);
    assert_eq!(state.live_scene_count(), 0);
    build(&mut state, 1, "menu.xaml");
    v.xaml_uri.clear();
    assert_eq!(state.ensure_scene(1, &v, &reloaded), SceneAction::Teardown);
    assert_eq!(state.live_scene_count(), 0);
}

#[test]
fn live_settings_are_set_on_change_only() {
    let mut state = NoesisRenderState::new();
    let mut v = view("a");
    assert!(state.apply_live_flags(1, &v).is_none());
    build(&mut state, 1, "a");
    let idle = state.apply_live_flags(1, &v).unwrap();
    assert_eq!((idle.flags, idle.scale), (None, None));
    v.ppaa = false;
    v.scale = Float32::from_bits(2.0f32.to_bits());
    let set = state.apply_live_flags(1, &v).unwrap();
    assert_eq!((set.flags, set.scale), (Some(0), Some(v.scale)));
    let again = state.apply_live_flags(1, &v).unwrap();
    assert_eq!((again.flags, again.scale), (None, None));
}

#[test]
fn a_frame_publishes_and_flips_painted_buffers() {
    let mut state = NoesisRenderState::new();
    build(&mut state, 1, "a");
    build(&mut state, 2, "b");
    assert_eq!(state.publish_intermediates(), (vec![], vec![]));
    assert_eq!(state.init_renderer(1), Some(true));
    assert_eq!(state.init_renderer(1), Some(false));
    assert_eq!(state.init_renderer(9), None);
    assert_eq!(state.publish_intermediates(), (vec![(1, false)], vec![]));
    assert_eq!(state.publish_intermediates(), (vec![(1, true)], vec![]));
    assert_eq!(state.publish_intermediates(), (vec![(1, false)], vec![]));
    state.teardown_scene(1);
    assert_eq!(state.publish_intermediates(), (vec![], vec![1]));
    assert_eq!(state.publish_intermediates(), (vec![], vec![]));
}

#[test]
fn a_new_scene_takes_all_writes() {
    let mut state = NoesisRenderState::new();
    assert!(!state.bridge_applies(1, false));
    assert!(state.bridge_applies(1, true));
    build(&mut state, 1, "a");
    assert!(state.scene_rebuilt_this_frame(1));
    assert!(state.bridge_applies(1, false));
    state.begin_frame();
    assert!(!state.bridge_applies(1, false));
}

fn def(class: &str, target: AttachTarget) -> HostDef {
    HostDef { class_name: class.into(), members: vec![("A".into(), 2)], target }
}

#[test]
fn hosts_are_built_attached_and_reattached() {
    let mut state = NoesisRenderState::new();
    let kind = HostKind::ViewModel;
    let root = def("Vm", AttachTarget::Root);
    assert_eq!(state.ensure_host(kind, 1, &root), HostStep::Build);
    assert!(state.host_failed(kind, 1));
    assert!(!state.host_failed(kind, 1));
    state.host_built(kind, 1, def("Vm", AttachTarget::Root));
    assert_eq!(state.ensure_host(kind, 1, &root), HostStep::Keep);
    assert_eq!(
        state.ensure_host(kind, 1, &def("Vm", AttachTarget::Named("P".into()))),
        HostStep::Rebuild
    );
    assert!(!state.needs_attach(kind, 1));
    build(&mut state, 1, "a");
    assert!(state.needs_attach(kind, 1));
    state.mark_attached(kind, 1);
    assert!(!state.needs_attach(kind, 1));
    state.teardown_scene(1);
    build(&mut state, 1, "a");
    assert!(state.needs_attach(kind, 1));
    assert!(state.reap_view_model_for(1).is_none());
    assert_eq!(state.ensure_host(kind, 1, &root), HostStep::Build);
}

#[test]
fn reaping_an_attached_host_clears_its_target() {
    let mut state = NoesisRenderState::new();
    build(&mut state, 1, "a");
    state.host_built(HostKind::Commands, 1, def("C", AttachTarget::Named("P".into())));
    state.mark_attached(HostKind::Commands, 1);
    assert!(matches!(state.reap_commands_for(1), Some(AttachTarget::Named(n)) if n == "P"));
    assert!(state.reap_commands_for(1).is_none());
    assert!(state.needs_plain_vm(1, 5));
    state.plain_vm_built(1, 5, def("P", AttachTarget::Root));
    assert!(state.plain_vm_needs_attach(1, 5));
    state.plain_vm_attached(1, 5);
    assert!(!state.plain_vm_needs_attach(1, 5));
    assert!(matches!(state.reap_plain_vm_for(1, 5), Some(AttachTarget::Root)));
}

#[test]
fn hosts_on_one_target_collide_once() {
    let mut state = NoesisRenderState::new();
    state.host_built(HostKind::ViewModel, 1, def("V", AttachTarget::Root));
    assert!(state.warn_datacontext_collisions(1).is_empty());
    state.host_built(HostKind::Commands, 1, def("C", AttachTarget::Root));
    assert_eq!(state.warn_datacontext_collisions(1).len(), 1);
    assert!(state.warn_datacontext_collisions(1).is_empty());
    assert!(state.warn_datacontext_collisions(2).is_empty());
    state.reap_commands_for(1);
    state.host_built(HostKind::Commands, 1, def("C", AttachTarget::Root));
    assert_eq!(state.warn_datacontext_collisions(1).len(), 1);
}

#[test]
fn collections_follow_what_is_asked_for() {
    let mut state = NoesisRenderState::new();
    let mut select: KeyedMap<String, i32> = KeyedMap::new();
    select.insert("B".into(), 4);
    let navigate: KeyedMap<String, i32> = KeyedMap::new();
    let plan = state.sync_items(
        1,
        &vec!["A".into(), "B".into()],
        &vec!["B".into()],
        &select,
        &navigate,
    );
    let names: Vec<(&str, bool, Option<i32>)> =
        plan.iter().map(|p| (p.name.as_str(), p.objects, p.select)).collect();
    assert_eq!(names, vec![("A", false, None), ("B", true, Some(4))]);
    assert!(!state.item_needs_bind(1, "A"));
    build(&mut state, 1, "a");
    assert!(state.item_needs_bind(1, "A"));
    state.item_bound(1, "A");
    assert!(!state.item_needs_bind(1, "A"));
    state.sync_items(1, &vec!["A".into()], &vec![], &select, &navigate);
    assert!(!state.item_needs_bind(1, "A"));
    assert!(!state.item_needs_bind(1, "B"));
    assert_eq!(state.reap_items_for(1), vec!["A".to_string()]);
    assert!(state.reap_items_for(1).is_empty());
}

#[test]
fn lists_are_bound_and_reaped() {
    let mut state = NoesisRenderState::new();
    build(&mut state, 1, "a");
    state.ensure_list(1, "L");
    state.ensure_list(1, "L");
    assert_eq!(state.live_list_count(), 1);
    assert!(state.list_needs_bind(1, "L"));
    state.list_bound(1, "L", true);
    assert!(!state.list_needs_bind(1, "L"));
    assert!(state.row_clicks.contains(&(1, "L".to_string())));
    state.reap_list_for(1);
    assert_eq!(state.live_list_count(), 0);
    assert!(state.row_clicks.is_empty());
}

#[test]
fn row_clicks_name_a_row_entity() {
    let e = bevy::prelude::Entity::from_bits(0x7_0000_0005);
    let click = row_clicked(1, "L", Some(e.to_bits())).unwrap();
    assert_eq!(click, (1, e.to_bits(), "L".to_string()));
    assert!(row_clicked(1, "L", Some(0x7_0000_0000)).is_none());
    assert!(bevy::prelude::Entity::try_from_bits(0x7_0000_0000).is_none());
    assert!(row_clicked(1, "L", None).is_none());
}

#[test]
fn bindings_are_bound_pruned_and_cleared() {
    let mut state = NoesisRenderState::new();
    build(&mut state, 1, "a");
    state.insert_binding(1, "E", "Text");
    state.insert_binding(1, "E", "Width");
    state.insert_binding(2, "E", "Text");
    assert!(state.has_binding(1, "E", "Text"));
    let mut pending = state.bind_pending_for(1);
    pending.sort();
    assert_eq!(
        pending,
        vec![("E".to_string(), "Text".to_string()), ("E".to_string(), "Width".to_string())]
    );
    state.binding_bound(1, "E", "Text");
    assert!(!state.binding_needs_bind(1, "E", "Text"));
    assert_eq!(state.bind_pending_for(1).len(), 1);
    assert!(state.bind_pending_for(2).is_empty());
    let cleared = state.prune_bindings_for(1, &vec![("E".into(), "Width".into())]);
    assert_eq!(cleared, vec![("E".to_string(), "Text".to_string())]);
    assert!(!state.has_binding(1, "E", "Text"));
    assert!(state.has_binding(2, "E", "Text"));
    assert!(!state.reap_binding_for(1, "E", "Width"));
    state.insert_binding(1, "E", "Text");
    state.binding_bound(1, "E", "Text");
    assert!(state.reap_binding_for(1, "E", "Text"));
    assert!(!state.reap_binding_for(1, "E", "Text"));
}

#[test]
fn panels_are_built_mounted_and_remounted() {
    let mut state = NoesisRenderState::new();
    assert!(state.panel_needs_build(7));
    assert!(state.panel_failed(7, "p.xaml"));
    assert!(!state.panel_failed(7, "p.xaml"));
    assert_eq!(state.panel_property(7, 0), None);
    state.panel_built(7, "p.xaml", 1, "Slot", vec!["Hp".into(), "Name".into()]);
    assert_eq!(state.panel_property(7, 0).as_deref(), Some("Hp"));
    assert_eq!(state.panel_property(7, 1).as_deref(), Some("Name"));
    assert_eq!(state.panel_property(7, 2), None);
    assert!(!state.panel_needs_build(7));
    assert!(state.panel_failed(7, "p.xaml"));
    assert_eq!(state.live_panel_count(), 1);
    assert!(state.panel_mount_target(7, 1).is_none());
    assert!(!state.takes_focus_actions(7, 1, true));
    assert!(state.takes_focus_actions(7, 0, false));
    build(&mut state, 1, "a");
    assert_eq!(state.panel_mount_target(7, 1).as_deref(), Some("Slot"));
    state.panel_mounted(7, 1);
    assert!(state.panel_mount_target(7, 1).is_none());
    assert!(state.panel_mounted_this_frame(7));
    assert!(state.panel_bridge_applies(7, false));
    assert!(!state.bridge_applies(7, false));
    assert!(state.takes_focus_actions(7, 1, false));
    assert!(!state.takes_focus_actions(1, 1, false));
    assert!(state.takes_focus_actions(1, 1, true));
    assert!(!state.takes_focus_actions(9, 1, true));
    state.teardown_scene(1);
    build(&mut state, 1, "a");
    assert_eq!(state.panel_mount_target(7, 1).as_deref(), Some("Slot"));
    assert_eq!(state.panel_property(7, 1).as_deref(), Some("Name"));
    let gone = state.teardown_panel_for(7).unwrap();
    assert_eq!((gone.host, gone.host_name.as_str()), (1, "Slot"));
    assert_eq!(state.live_panel_count(), 0);
    assert_eq!(fragment_index(&vec![5, 6, 6], 6), Some(1));
    assert_eq!(fragment_index(&vec![5], 6), None);
}

fn click(name: &str, target: Option<u64>) -> ClickWatchEntry {
    ClickWatchEntry { name: name.into(), target }
}

#[test]
fn clicks_are_subscribed_in_scenes_and_panels() {
    let mut state = NoesisRenderState::new();
    let a = "A".to_string();
    let entries = vec![click("A", None)];
    assert_eq!(state.watch_root(1), None);
    state.sync_click_subscriptions_for(1, &entries, true, &vec![true]);
    assert!(!state.clicks.is_live(1, &a));
    build(&mut state, 1, "a");
    assert_eq!(state.watch_root(1), Some(WatchRoot::Scene));
    state.sync_click_subscriptions_for(1, &entries, false, &vec![true]);
    assert!(!state.clicks.is_live(1, &a));
    state.sync_click_subscriptions_for(1, &entries, true, &vec![true]);
    assert!(state.clicks.is_live(1, &a));
    assert!(!state.clicks.needs(1, &a, &1));
    assert!(state.clicks.needs(1, &a, &5));
    state.sync_click_subscriptions_for(1, &vec![click("A", Some(5))], true, &vec![true]);
    assert!(!state.clicks.needs(1, &a, &5));
    state.sync_click_subscriptions_for(1, &vec![], true, &vec![]);
    assert!(!state.clicks.is_live(1, &a));

    state.panel_built(7, "p", 1, "Slot", vec![]);
    assert_eq!(state.watch_root(7), Some(WatchRoot::Panel(1)));
    assert!(state.needs_click(7, &entries[0]));
    state.sync_click_subscriptions_for(7, &entries, false, &vec![true]);
    assert!(!state.needs_click(7, &entries[0]));
    assert!(state.needs_click(7, &click("A", Some(5))));
    assert!(state.panel_clicks.contains(&(7, a.clone())));
    assert!(!state.clicks.is_live(7, &a));
    state.reap_click_watch_for(7);
    assert!(state.panel_clicks.is_empty());
    assert!(!state.needs_click(8, &entries[0]));
    assert_eq!(report_view(WatchRoot::Panel(1), 7), 1);
    assert_eq!(report_view(WatchRoot::Scene, 7), 7);
    assert_eq!((event_target(None, 7), event_target(Some(2), 7)), (7, 2));
}

#[test]
fn a_scene_and_a_panel_of_one_entity_subscribe_apart() {
    let mut state = NoesisRenderState::new();
    let a = "A".to_string();
    let clicks = vec![click("A", None)];
    let keys = vec![KeyDownWatchEntry { name: "A".into(), swallow: vec![3], target: None }];
    assert!(!state.needs_keydown(7, &keys[0]));
    state.panel_built(7, "p", 1, "Slot", vec![]);
    state.sync_click_subscriptions_for(7, &clicks, false, &vec![true]);
    assert!(state.needs_keydown(7, &keys[0]));
    state.sync_keydown_subscriptions_for(7, &keys, false, &vec![true]);
    assert!(!state.needs_keydown(7, &keys[0]));

    build(&mut state, 7, "own");
    assert!(state.needs_click(7, &clicks[0]));
    assert!(state.needs_keydown(7, &keys[0]));
    state.sync_click_subscriptions_for(7, &clicks, true, &vec![true]);
    state.sync_keydown_subscriptions_for(7, &keys, true, &vec![true]);
    assert!(state.clicks.is_live(7, &a));
    assert!(state.keydowns.is_live(7, &a));
    assert!(!state.needs_click(7, &clicks[0]));

    state.teardown_scene(7);
    assert!(!state.clicks.is_live(7, &a));
    assert!(state.panel_clicks.contains(&(7, a.clone())));
    assert!(state.panel_keydowns.contains(&(7, a.clone())));
    assert!(!state.needs_keydown(7, &keys[0]));

    build(&mut state, 7, "own");
    state.sync_click_subscriptions_for(7, &clicks, true, &vec![true]);
    state.teardown_panel_for(7);
    assert!(state.clicks.is_live(7, &a));
    assert!(state.panel_clicks.is_empty() && state.panel_keydowns.is_empty());
    assert!(state.needs_click(7, &clicks[0]));
    state.sync_click_subscriptions_for(7, &clicks, true, &vec![true]);
    state.reap_click_watch_for(7);
    assert!(!state.clicks.is_live(7, &a));
}

#[test]
fn keys_and_events_are_rebound_when_their_settings_change() {
    let mut state = NoesisRenderState::new();
    build(&mut state, 1, "a");
    let name = "A".to_string();
    let key = |swallow: Vec<i32>| {
        vec![KeyDownWatchEntry { name: "A".into(), swallow, target: None }]
    };
    state.sync_keydown_subscriptions_for(1, &key(vec![1]), true, &vec![true]);
    assert!(!state.keydowns.needs(1, &name, &(vec![1], 1)));
    state.sync_keydown_subscriptions_for(1, &key(vec![1, 2]), false, &vec![true]);
    assert!(state.keydowns.needs(1, &name, &(vec![1, 2], 1)));
    state.sync_keydown_subscriptions_for(1, &key(vec![1, 2]), true, &vec![true]);
    assert!(!state.keydowns.needs(1, &name, &(vec![1, 2], 1)));
    state.reap_keydown_watch_for(1);
    assert!(!state.keydowns.is_live(1, &name));

    let id = ("A".to_string(), RoutedEvent::MouseDown);
    let watch = vec![EventWatchEntry::new("A", RoutedEvent::MouseDown)];
    state.sync_event_subscriptions_for(1, &watch, true, &vec![true]);
    assert!(!state.events.needs(1, &id, &((false, false), 1)));
    let handled = vec![EventWatchEntry::new("A", RoutedEvent::MouseDown).mark_handled()];
    state.sync_event_subscriptions_for(1, &handled, true, &vec![true]);
    assert!(!state.events.needs(1, &id, &((true, false), 1)));
    state.sync_event_subscriptions_for(9, &watch, true, &vec![true]);
    assert!(!state.events.is_live(9, &id));
    state.reap_event_watch_for(1);
    assert!(!state.events.is_live(1, &id));
}

#[test]
fn fired_events_are_queued_and_answered() {
    let args = RoutedEventSnapshot { key: Some(4), ..RoutedEventSnapshot::default() };
    let mut queue = SharedRoutedEventQueue::default();
    let plain = EventWatchEntry::new("A", RoutedEvent::KeyDown);
    assert!(!event_fired(&plain, 1, args, &mut queue));
    let handled = EventWatchEntry::new("B", RoutedEvent::KeyUp).target(9).mark_handled();
    assert!(event_fired(&handled, 1, RoutedEventSnapshot::default(), &mut queue));
    assert_eq!(
        queue.drain(),
        vec![
            (1, 1, "A".to_string(), RoutedEvent::KeyDown, args),
            (1, 9, "B".to_string(), RoutedEvent::KeyUp, RoutedEventSnapshot::default()),
        ]
    );

    let mut keys = Queue::new();
    let key = KeyDownWatchEntry { name: "K".into(), swallow: vec![3, 5], target: None };
    assert!(key_fired(&key, WatchRoot::Scene, 1, 5, &mut keys));
    assert!(!key_fired(&key, WatchRoot::Panel(2), 1, 4, &mut keys));
    assert_eq!(keys.drain(), vec![(1, 1, "K".to_string(), 5), (2, 1, "K".to_string(), 4)]);

    let mut clicks = Queue::new();
    let click = ClickWatchEntry { name: "C".into(), target: Some(8) };
    click_fired(&click, WatchRoot::Panel(2), 1, &mut clicks);
    assert_eq!(clicks.drain(), vec![(2, 8, "C".to_string())]);

    let mut gestures = Queue::new();
    binding_fired(&KeyBindingSpec { name: "G".into(), key: 6, modifiers: 2 }, 1, &mut gestures);
    assert_eq!(gestures.drain(), vec![(1, "G".to_string(), 6, 2)]);
}

#[test]
fn key_bindings_are_installed_and_detached() {
    let mut state = NoesisRenderState::new();
    build(&mut state, 1, "a");
    let spec = |key: i32| KeyBindingSpec { name: "A".into(), key, modifiers: 2 };
    let id = |key: i32| ("A".to_string(), (key, 2));
    state.sync_key_bindings_for(1, &vec![spec(5)], false, &vec![true]);
    assert!(!state.key_bindings.is_live(1, &id(5)));
    state.sync_key_bindings_for(1, &vec![spec(5), spec(6)], true, &vec![true, false]);
    assert!(state.key_bindings.is_live(1, &id(5)));
    assert!(!state.key_bindings.is_live(1, &id(6)));
    state.sync_key_bindings_for(1, &vec![spec(6)], true, &vec![true]);
    assert!(!state.key_bindings.is_live(1, &id(5)));
    assert!(state.key_bindings.is_live(1, &id(6)));
}

#[test]
fn teardown_leaves_nothing_of_the_entity() {
    let mut state = NoesisRenderState::new();
    for entity in [1, 2] {
        build(&mut state, entity, "a");
        state.host_built(HostKind::ViewModel, entity, def("V", AttachTarget::Root));
        state.insert_binding(entity, "E", "Text");
        state.ensure_list(entity, "L");
        state.sync_click_subscriptions_for(entity, &vec![click("A", None)], true, &vec![true]);
    }
    assert!(state.teardown_for(1).is_some());
    assert!(state.teardown_for(1).is_none());
    assert!(state.view_models.get(&1).is_none() && state.view_models.get(&2).is_some());
    assert!(!state.has_binding(1, "E", "Text") && state.has_binding(2, "E", "Text"));
    assert_eq!(state.live_list_count(), 1);
    assert!(!state.clicks.is_live(1, &"A".to_string()));
    assert!(state.clicks.is_live(2, &"A".to_string()));
    assert_eq!(state.teardown_all_scenes(), vec![2]);
    assert_eq!(state.live_scene_count(), 0);
    assert!(state.view_models.get(&2).is_some());
}

fn items(count: usize, selected_index: i32, current: Option<DpValue>) -> ItemsReadback {
    ItemsReadback { count, selected_index, current_position: 0, current }
}

#[test]
fn list_controls_are_polled_while_they_have_a_collection() {
    let mut state = NoesisRenderState::new();
    let none: KeyedMap<String, i32> = KeyedMap::new();
    let sources = vec!["A".to_string()];
    let read = |r: ItemsReadback| vec![("A".to_string(), Some(r))];
    let now = || items(3, 1, Some(DpValue::I32(7)));
    state.sync_items(1, &sources, &vec![], &none, &none);
    assert!(state.poll_items_for(1, &read(now())).is_empty());
    build(&mut state, 1, "a");
    let first = state.poll_items_for(1, &read(now()));
    assert_eq!(first.len(), 1);
    assert_eq!((first[0].0.as_str(), first[0].1.count), ("A", 3));
    assert!(state.poll_items_for(1, &read(now())).is_empty());
    assert!(state.poll_items_for(1, &vec![("A".to_string(), None)]).is_empty());
    assert!(state.poll_items_for(1, &vec![("B".to_string(), Some(now()))]).is_empty());
    state.teardown_scene(1);
    build(&mut state, 1, "a");
    assert!(state.poll_items_for(1, &read(now())).is_empty());
    for other in [
        items(4, 1, Some(DpValue::I32(7))),
        items(4, 2, Some(DpValue::I32(7))),
        items(4, 2, Some(DpValue::Bool(true))),
        items(4, 2, None),
    ] {
        assert_eq!(state.poll_items_for(1, &read(other)).len(), 1);
    }
    state.sync_items(1, &vec![], &vec![], &none, &none);
    state.sync_items(1, &sources, &vec![], &none, &none);
    assert_eq!(state.poll_items_for(1, &read(items(4, 2, None))).len(), 1);
    state.reap_items_for(1);
    state.sync_items(1, &sources, &vec![], &none, &none);
    assert_eq!(state.poll_items_for(1, &read(items(4, 2, None))).len(), 1);
    state.teardown_for(1);
    assert!(state.item_readbacks.is_empty());
}
