//! What a view declares: text, visibility, transforms, fonts, shapes, styles,
//! resources, routed events and view models.

use noesis_bevy::keyed::KeyedSet;
use noesis_bevy::render::state::AttachTarget;
use noesis_bevy::resources::{NoesisResources, ResourceEntry};
use noesis_bevy::routed_events::{
    drain_routed_event_queue, EventWatchEntry, MouseButton, NoesisEventWatch, RoutedEvent,
    RoutedEventSnapshot, SharedRoutedEventQueue,
};
use noesis_bevy::scalar::{Float32, Float64, SameValue, Vec2, Vec3, Vec4};
use noesis_bevy::shapes::{
    container_slot, plan_shape, ContainerSlot, NoesisShapes, ShapeKind, ShapeSpec, ShapeWrite,
};
use noesis_bevy::styles::{
    build_noesis_style, DataTrigger, KnownTypes, MultiTrigger, NoesisStyles, PropertyTrigger,
    StyleSpec, TriggerPlan,
};
use noesis_bevy::svg::{report_svg, NoesisSvg, SvgOutcome};
use noesis_bevy::text::NoesisText;
use noesis_bevy::transforms::{NoesisTransform, TransformSpec};
use noesis_bevy::transforms3d::{NoesisTransform3D, Transform3DSpec};
use noesis_bevy::typography::{
    plan_typography, FontStretch, FontStyle, FontStyling, FontWeight, FontWrite, NoesisTypography,
};
use noesis_bevy::ui::NoesisUi;
use noesis_bevy::values::{BrushSpec, DpValue};
use noesis_bevy::viewmodel::{
    drain_vm_changed_queue, NoesisViewModels, PropType, PropertyValue, SharedVmChangedQueue,
    ViewModelChangeForwarder, ViewModelDef, ViewModelId, VmEntry, VmValue,
};
use noesis_bevy::visibility::NoesisVisibility;
use noesis_bevy::visual_state::NoesisVisualState;
use noesis_bevy::window_compat::{window_properties, WINDOW_CLASS};

fn f(x: f32) -> Float32 {
    Float32::from_bits(x.to_bits())
}

fn d(x: f64) -> Float64 {
    Float64::from_bits(x.to_bits())
}

fn v2(x: f32, y: f32) -> Vec2 {
    Vec2 { x: f(x), y: f(y) }
}

fn v3(x: f32, y: f32, z: f32) -> Vec3 {
    Vec3 { x: f(x), y: f(y), z: f(z) }
}

fn v4(x: f32, y: f32, z: f32, w: f32) -> Vec4 {
    Vec4 { x: f(x), y: f(y), z: f(z), w: f(w) }
}

#[test]
fn builder_collects_entries() {
    let r = NoesisResources::new()
        .solid("AccentBrush", v4(1.0, 0.0, 0.0, 1.0))
        .value("PanelWidth", DpValue::F64(d(40.0)))
        .merged("<ResourceDictionary/>");

    assert!(matches!(
        r.entries.get("AccentBrush"),
        Some(ResourceEntry::Brush(BrushSpec::Solid(c))) if *c == v4(1.0, 0.0, 0.0, 1.0)
    ));
    assert!(matches!(
        r.entries.get("PanelWidth"),
        Some(ResourceEntry::Value(DpValue::F64(v))) if *v == d(40.0)
    ));
    assert_eq!(r.merged_xaml, vec!["<ResourceDictionary/>".to_string()]);
}

#[test]
fn later_resource_replaces_earlier() {
    let r = NoesisResources::new()
        .value("K", DpValue::I32(1))
        .entry("K", ResourceEntry::Value(DpValue::I32(2)))
        .brush("B", BrushSpec::Solid(v4(0.0, 0.0, 0.0, 0.0)));
    assert_eq!(r.entries.len(), 2);
    assert!(matches!(r.entries.get("K"), Some(ResourceEntry::Value(DpValue::I32(2)))));
}

#[test]
fn shared_routed_queue_drain_takes_all_and_resets() {
    let mut q = SharedRoutedEventQueue::default();
    let v = bevy::prelude::Entity::PLACEHOLDER.to_bits();
    let t = bevy::prelude::Entity::PLACEHOLDER.to_bits();
    q.push(v, t, "Alpha".into(), RoutedEvent::MouseDown, RoutedEventSnapshot::default());
    q.push(v, t, "Beta".into(), RoutedEvent::MouseUp, RoutedEventSnapshot::default());
    let drained = q.drain();
    assert_eq!(drained.len(), 2);
    assert_eq!(drained[0].2, "Alpha");
    assert_eq!(drained[0].3, RoutedEvent::MouseDown);
    assert_eq!(drained[1].3, RoutedEvent::MouseUp);
    assert!(q.drain().is_empty());
}

#[test]
fn event_watch_entry_builders() {
    let e = EventWatchEntry::new("Box", RoutedEvent::PreviewKeyDown)
        .mark_handled()
        .handled_too();
    assert_eq!(e.name, "Box");
    assert_eq!(e.event, RoutedEvent::PreviewKeyDown);
    assert!(e.mark_handled);
    assert!(e.handled_too);

    let d = EventWatchEntry::new("Target", RoutedEvent::MouseDown);
    assert!(!d.mark_handled);
    assert!(!d.handled_too);
    assert_eq!(d.target, None);
    assert_eq!(d.target(7).target, Some(7));
}

#[test]
fn event_watch_constructor_collects_entries() {
    let w = NoesisEventWatch::new(vec![
        EventWatchEntry::new("A", RoutedEvent::MouseEnter),
        EventWatchEntry::new("B", RoutedEvent::MouseLeave),
    ]);
    assert_eq!(w.entries.len(), 2);
    assert_eq!(w.entries[0].name, "A");
    assert_eq!(w.entries[1].event, RoutedEvent::MouseLeave);
    assert!(NoesisEventWatch::default().entries.is_empty());
}

#[test]
fn fired_events_become_a_message_and_an_addressed_twin() {
    let mut q = SharedRoutedEventQueue::default();
    let args = RoutedEventSnapshot {
        mouse_button: Some(MouseButton::Right),
        ..RoutedEventSnapshot::default()
    };
    q.push(1, 2, "A".into(), RoutedEvent::MouseDown, args);
    q.push(1, 2, "A".into(), RoutedEvent::MouseDown, args);
    let out = drain_routed_event_queue(&mut q);
    assert_eq!(out.len(), 2);
    assert_eq!((out[0].0.view, out[0].1.view, out[0].1.entity), (1, 1, 2));
    assert_eq!(out[1].0.name, "A");
    assert_eq!(out[1].1.args.mouse_button, Some(MouseButton::Right));
    assert!(drain_routed_event_queue(&mut q).is_empty());
}

#[test]
fn builder_collects_shapes() {
    let s = NoesisShapes::new()
        .rectangle("Host", f(40.0), f(24.0))
        .ellipse("Dot", f(8.0), f(8.0))
        .line("Edge", f(0.0), f(0.0), f(10.0), f(5.0));
    assert_eq!(
        s.shapes.get("Host"),
        Some(&ShapeSpec::new(ShapeKind::Rectangle {
            width: f(40.0),
            height: f(24.0),
            radius_x: f(0.0),
            radius_y: f(0.0),
        })),
    );
    assert_eq!(
        s.shapes.get("Dot"),
        Some(&ShapeSpec::new(ShapeKind::Ellipse { width: f(8.0), height: f(8.0) })),
    );
    assert_eq!(
        s.shapes.get("Edge"),
        Some(&ShapeSpec::new(ShapeKind::Line {
            x1: f(0.0),
            y1: f(0.0),
            x2: f(10.0),
            y2: f(5.0),
        })),
    );
}

#[test]
fn spec_builders_attach_paint() {
    let spec = ShapeSpec::new(ShapeKind::Ellipse { width: f(4.0), height: f(4.0) })
        .with_fill(v4(1.0, 0.0, 0.0, 1.0))
        .with_stroke(v4(0.0, 1.0, 0.0, 1.0))
        .with_stroke_thickness(f(2.0));
    assert_eq!(spec.fill, Some(v4(1.0, 0.0, 0.0, 1.0)));
    assert_eq!(spec.stroke, Some(v4(0.0, 1.0, 0.0, 1.0)));
    assert_eq!(spec.stroke_thickness, Some(f(2.0)));
}

#[test]
fn shape_writes_come_in_order() {
    let rounded = NoesisShapes::new().rounded_rectangle("A", f(1.0), f(2.0), f(3.0), f(4.0));
    let spec = rounded.shapes.get("A").unwrap().with_stroke_thickness(f(5.0));
    assert_eq!(
        plan_shape(&spec),
        vec![
            ShapeWrite::Width(f(1.0)),
            ShapeWrite::Height(f(2.0)),
            ShapeWrite::RadiusX(f(3.0)),
            ShapeWrite::RadiusY(f(4.0)),
            ShapeWrite::StrokeThickness(f(5.0)),
        ]
    );
    let mut shapes = NoesisShapes::default();
    shapes.set_rounded_rectangle("A", f(1.0), f(1.0), f(1.0), f(1.0));
    shapes.set_rectangle("A", f(2.0), f(2.0));
    shapes.set_ellipse("B", f(3.0), f(3.0));
    shapes.set_line("B", f(0.0), f(1.0), f(2.0), f(3.0));
    assert_eq!(shapes.shapes.len(), 2);
    let line = shapes.shapes.get("B").unwrap().with_fill(v4(1.0, 1.0, 1.0, 1.0));
    assert_eq!(
        plan_shape(&line),
        vec![
            ShapeWrite::Points(v4(0.0, 1.0, 2.0, 3.0)),
            ShapeWrite::Fill(v4(1.0, 1.0, 1.0, 1.0)),
        ]
    );
}

#[test]
fn containers_take_content_before_a_child() {
    assert_eq!(container_slot(true, true), Some(ContainerSlot::Content));
    assert_eq!(container_slot(false, true), Some(ContainerSlot::Child));
    assert_eq!(container_slot(false, false), None);
}

fn is_setter(s: &(String, DpValue), property: &str, value: DpValue) -> bool {
    s.0 == property && s.1.same_value(&value)
}

#[test]
fn builder_collects_styles() {
    let s = NoesisStyles::new().apply(
        "Panel",
        StyleSpec::new("Border").setter("Opacity", DpValue::F32(f(0.5))).trigger(
            PropertyTrigger::new("IsEnabled", DpValue::Bool(false))
                .setter("Opacity", DpValue::F32(f(0.25))),
        ),
    );
    let spec = s.styles.get("Panel").expect("Panel styled");
    assert_eq!(spec.target_type, "Border");
    assert_eq!(spec.setters.len(), 1);
    assert!(is_setter(&spec.setters[0], "Opacity", DpValue::F32(f(0.5))));
    assert_eq!(spec.triggers.len(), 1);
    assert_eq!(spec.triggers[0].property, "IsEnabled");
    assert_eq!(spec.triggers[0].setters.len(), 1);
    assert!(is_setter(&spec.triggers[0].setters[0], "Opacity", DpValue::F32(f(0.25))));
}

fn known(types: &[&str], properties: &[(&str, &str)]) -> KnownTypes {
    let mut k = KnownTypes { types: KeyedSet::new(), properties: KeyedSet::new() };
    for t in types {
        k.types.insert(t.to_string());
    }
    for (t, p) in properties {
        k.properties.insert((t.to_string(), p.to_string()));
    }
    k
}

#[test]
fn style_of_unknown_type_is_not_built() {
    let spec = StyleSpec::new("Nope").setter("Opacity", DpValue::I32(1));
    assert!(build_noesis_style(&spec, &known(&["Border"], &[])).is_none());
}

#[test]
fn style_keeps_what_can_be_resolved() {
    let spec = StyleSpec::new("Border")
        .based_on(StyleSpec::new("Control").setter("Width", DpValue::I32(3)))
        .setter("Opacity", DpValue::I32(1))
        .trigger(PropertyTrigger::new("Missing", DpValue::Bool(true)))
        .trigger(PropertyTrigger::new("IsEnabled", DpValue::Bool(true)))
        .data_trigger(DataTrigger {
            binding_path: "Path".into(),
            relative_source_self: true,
            value: DpValue::String("x".into()),
            setters: vec![("A".into(), DpValue::I32(2))],
        })
        .multi_trigger(MultiTrigger {
            conditions: vec![("C".into(), DpValue::Bool(true))],
            setters: vec![],
        });
    let types = known(&["Border", "Control"], &[("Border", "IsEnabled"), ("Control", "Missing")]);
    let plan = build_noesis_style(&spec, &types).expect("built");
    assert_eq!(plan.target_type, "Border");
    assert_eq!(plan.based_on.as_ref().map(|b| b.target_type.as_str()), Some("Control"));
    assert_eq!(plan.setters.len(), 1);
    assert_eq!(plan.triggers.len(), 3);
    assert!(matches!(&plan.triggers[0], TriggerPlan::Property { property, .. } if property == "IsEnabled"));
    assert!(matches!(
        &plan.triggers[1],
        TriggerPlan::Data { binding_path, relative_source_self: true, .. } if binding_path == "Path"
    ));
    assert!(matches!(&plan.triggers[2], TriggerPlan::Multi { conditions, .. } if conditions.len() == 1));

    let without_base = build_noesis_style(&spec, &known(&["Border"], &[])).expect("built");
    assert!(without_base.based_on.is_none());
    assert_eq!(without_base.triggers.len(), 2);
}

#[test]
fn builder_collects_sources() {
    let s = NoesisSvg::new()
        .path("Icon", "M0 0 L40 0 L40 20 Z")
        .path("Glyph", "M0 0 L10 10");
    assert_eq!(s.sources.get("Icon").map(String::as_str), Some("M0 0 L40 0 L40 20 Z"));
    assert_eq!(s.sources.get("Glyph").map(String::as_str), Some("M0 0 L10 10"));
}

#[test]
fn only_measured_sources_are_reported() {
    let bounds = v4(0.0, 0.0, 40.0, 20.0);
    let out = report_svg(
        9,
        &vec![
            ("Gone".into(), SvgOutcome::NotFound),
            ("Icon".into(), SvgOutcome::Measured(bounds)),
            ("Bad".into(), SvgOutcome::Unparsed),
        ],
    );
    assert_eq!(out.len(), 1);
    assert_eq!((out[0].view, out[0].name.as_str(), out[0].bounds), (9, "Icon", bounds));
}

#[test]
fn builder_collects_set_and_watch() {
    let t = NoesisText::new()
        .with("Title", "Hello")
        .with("Sub", "World")
        .watching(vec!["Status".to_string(), "Clock".to_string()]);
    assert_eq!(t.set.get("Title").map(String::as_str), Some("Hello"));
    assert_eq!(t.set.get("Sub").map(String::as_str), Some("World"));
    assert_eq!(t.watch, vec!["Status".to_string(), "Clock".to_string()]);
}

#[test]
fn observing_twice_is_observing_once() {
    let mut t = NoesisText::default();
    t.observe("A");
    t.observe("B");
    t.observe("A");
    assert_eq!(t.watch, vec!["A".to_string(), "B".to_string()]);
    t.write("A", "one");
    t.write("A", "two");
    assert_eq!(t.set.len(), 1);
    assert_eq!(t.set.get("A").map(String::as_str), Some("two"));
}

#[test]
fn transforms_builder_merges_fields_per_name() {
    let t = NoesisTransform::new()
        .translate("A", f(10.0), f(20.0))
        .scale("A", f(2.0), f(3.0))
        .rotate("A", f(45.0))
        .translate("B", f(1.0), f(2.0));

    let a = t.transforms.get("A").copied().unwrap();
    assert_eq!(a.translate, v2(10.0, 20.0));
    assert_eq!(a.scale, v2(2.0, 3.0));
    assert_eq!(a.rotation, f(45.0));
    assert_eq!(a.center, v2(0.0, 0.0));
    assert_eq!(a.skew, v2(0.0, 0.0));

    let b = t.transforms.get("B").copied().unwrap();
    assert_eq!(b.translate, v2(1.0, 2.0));
    assert_eq!(b.scale, v2(1.0, 1.0));
}

#[test]
fn transforms_fields_round_trip() {
    let spec = TransformSpec {
        translate: v2(5.0, 6.0),
        scale: v2(2.0, 0.5),
        rotation: f(30.0),
        center: v2(7.0, 8.0),
        skew: v2(1.0, -1.0),
    };
    assert_eq!(TransformSpec::from_fields(spec.to_fields()), spec);
    assert_eq!(spec.to_fields().skew_y, f(-1.0));
    assert_eq!(spec.to_fields().center_x, f(7.0));
}

#[test]
fn transform_setters_match_the_builders() {
    let built = NoesisTransform::new()
        .set("A", TransformSpec::default())
        .center("A", f(1.0), f(2.0))
        .skew("A", f(3.0), f(4.0))
        .scale("A", f(5.0), f(6.0))
        .rotate("A", f(7.0))
        .translate("A", f(8.0), f(9.0));
    let mut set = NoesisTransform::default();
    set.set_translate("A", f(8.0), f(9.0));
    set.set_rotation("A", f(7.0));
    set.set_scale("A", f(5.0), f(6.0));
    set.set_skew("A", f(3.0), f(4.0));
    set.set_center("A", f(1.0), f(2.0));
    assert_eq!(built.transforms.get("A"), set.transforms.get("A"));
    set.write("A", TransformSpec::default());
    assert_eq!(set.transforms.get("A"), Some(&TransformSpec::default()));
}

#[test]
fn transforms3d_builder_merges_fields_per_name() {
    let t = NoesisTransform3D::new()
        .translate("A", f(10.0), f(20.0), f(30.0))
        .scale("A", f(2.0), f(3.0), f(4.0))
        .rotate_y("A", f(45.0))
        .rotate_x("A", f(15.0))
        .translate("B", f(1.0), f(2.0), f(3.0));

    let a = t.transforms.get("A").copied().unwrap();
    assert_eq!(a.translate, v3(10.0, 20.0, 30.0));
    assert_eq!(a.scale, v3(2.0, 3.0, 4.0));
    assert_eq!(a.rotation, v3(15.0, 45.0, 0.0));
    assert_eq!(a.center, v3(0.0, 0.0, 0.0));

    let b = t.transforms.get("B").copied().unwrap();
    assert_eq!(b.translate, v3(1.0, 2.0, 3.0));
    assert_eq!(b.scale, v3(1.0, 1.0, 1.0));
    assert_eq!(b.rotation, v3(0.0, 0.0, 0.0));
}

#[test]
fn rotate_sets_all_three_axes() {
    let t = NoesisTransform3D::new().rotate("C", f(10.0), f(20.0), f(30.0));
    let c = t.transforms.get("C").copied().unwrap();
    assert_eq!(c.rotation, v3(10.0, 20.0, 30.0));
}

#[test]
fn transforms3d_fields_round_trip() {
    let spec = Transform3DSpec {
        center: v3(7.0, 8.0, 9.0),
        rotation: v3(30.0, -15.0, 5.0),
        scale: v3(2.0, 0.5, 1.5),
        translate: v3(5.0, 6.0, -7.0),
    };
    assert_eq!(Transform3DSpec::from_fields(spec.to_fields()), spec);
    assert_eq!(spec.to_fields().translate_z, f(-7.0));
}

#[test]
fn axes_set_one_by_one_are_the_rotation_set_at_once() {
    let one = NoesisTransform3D::new()
        .rotate_z("A", f(3.0))
        .rotate_x("A", f(1.0))
        .rotate_y("A", f(2.0))
        .center("A", f(4.0), f(5.0), f(6.0));
    let all = NoesisTransform3D::new()
        .center("A", f(4.0), f(5.0), f(6.0))
        .rotate("A", f(1.0), f(2.0), f(3.0));
    assert_eq!(one.transforms.get("A"), all.transforms.get("A"));
    assert_eq!(all.set("A", Transform3DSpec::default()).transforms.len(), 1);
}

#[test]
fn builder_collects_per_name_styling() {
    let t = NoesisTypography::new()
        .font_size("Title", f(28.0))
        .font_family("Title", "#PT Root UI")
        .font_weight("Title", FontWeight::Bold)
        .font_style("Sub", FontStyle::Italic)
        .font_stretch("Sub", FontStretch::Condensed);

    let title = t.set.get("Title").expect("Title styling present");
    assert_eq!(title.font_size, Some(f(28.0)));
    assert_eq!(title.font_family.as_deref(), Some("#PT Root UI"));
    assert_eq!(title.font_weight, Some(FontWeight::Bold));
    assert_eq!(title.font_style, None);

    let sub = t.set.get("Sub").expect("Sub styling present");
    assert_eq!(sub.font_style, Some(FontStyle::Italic));
    assert_eq!(sub.font_stretch, Some(FontStretch::Condensed));
    assert_eq!(sub.font_size, None);
}

#[test]
fn last_write_wins_per_field() {
    let t = NoesisTypography::new()
        .font_size("Title", f(12.0))
        .font_size("Title", f(24.0));
    assert_eq!(t.set.get("Title").unwrap().font_size, Some(f(24.0)));
}

#[test]
fn font_writes_skip_what_is_not_set() {
    assert!(FontStyling::default().is_empty());
    assert!(plan_typography(&FontStyling::default()).is_empty());
    let t = NoesisTypography::new().font_stretch("A", FontStretch::Expanded).font_size("A", f(9.0));
    let styling = t.set.get("A").unwrap();
    assert!(!styling.is_empty());
    let plan = plan_typography(styling);
    assert_eq!(plan.len(), 2);
    assert!(matches!(&plan[0], FontWrite::Size(s) if *s == f(9.0)));
    assert!(matches!(&plan[1], FontWrite::Stretch(FontStretch::Expanded)));
    let replaced = t.styling("A", FontStyling::default());
    assert!(replaced.set.get("A").unwrap().is_empty());
}

#[test]
fn resolves_single_view_entity_and_component() {
    let view = 5;
    let mut ui = NoesisUi { views: vec![(view, NoesisText::new())] };
    if let Some(text) = ui.get_mut() {
        text.write("Score", "42");
    }
    assert_eq!(ui.entity(), Some(view));
    let text = ui.get().unwrap();
    assert_eq!(text.set.get("Score").map(String::as_str), Some("42"));
}

#[test]
fn none_when_no_view() {
    let mut ui: NoesisUi<NoesisText> = NoesisUi { views: vec![] };
    assert_eq!(ui.entity(), None);
    assert!(ui.get().is_none());
    assert!(ui.get_mut().is_none());
}

#[test]
fn none_when_several_views() {
    let mut ui = NoesisUi { views: vec![(1, 'a'), (2, 'b')] };
    assert_eq!(ui.entity(), None);
    assert!(ui.get().is_none());
    assert!(ui.get_mut().is_none());
}

#[test]
fn register_allocates_monotonic_ids_and_queues_defs() {
    let mut vms = NoesisViewModels::default();
    let a = vms.register(ViewModelDef::new("A").property("Foo", PropType::Double));
    let b = vms.register(ViewModelDef::new("B").attach_to("Panel"));
    assert_eq!(a, ViewModelId(0));
    assert_eq!(b, ViewModelId(1));

    let drained = vms.drain_registrations();
    assert_eq!(drained.len(), 2);
    assert_eq!(drained[0].0, a);
    assert_eq!(drained[0].1.class_name(), "A");
    assert!(matches!(drained[0].1.target, AttachTarget::Root));
    assert!(matches!(drained[1].1.target, AttachTarget::Named(ref n) if n == "Panel"));
    assert!(vms.drain_registrations().is_empty());
}

#[test]
fn attach_target_can_be_taken_back() {
    let def = ViewModelDef::new("A").attach_to("Panel").attach_to_root();
    assert!(matches!(def.target, AttachTarget::Root));
}

#[test]
fn writes_queue_round_trips_each_setter() {
    let mut vms = NoesisViewModels::default();
    let id = vms.register(ViewModelDef::new("VM"));
    vms.set_f64(id, "Vol", d(0.5));
    vms.set_bool(id, "Muted", true);
    vms.set_i32(id, "Quality", 2);
    vms.set_string(id, "Name", "ultra");

    let drained = vms.drain_writes();
    assert_eq!(
        drained,
        vec![
            (id, "Vol".to_string(), VmValue::Double(d(0.5))),
            (id, "Muted".to_string(), VmValue::Bool(true)),
            (id, "Quality".to_string(), VmValue::Int32(2)),
            (id, "Name".to_string(), VmValue::Str("ultra".to_string())),
        ],
    );
    assert!(vms.drain_writes().is_empty());
}

#[test]
fn changed_queue_drains_in_push_order() {
    let mut q = SharedVmChangedQueue::default();
    q.push(ViewModelId(7), "Foo".into(), VmValue::Double(d(1.0)));
    q.push(ViewModelId(7), "Bar".into(), VmValue::Bool(false));
    let drained = q.drain();
    assert_eq!(
        drained,
        vec![
            (ViewModelId(7), "Foo".to_string(), VmValue::Double(d(1.0))),
            (ViewModelId(7), "Bar".to_string(), VmValue::Bool(false)),
        ],
    );
    assert!(q.drain().is_empty());
}

#[test]
fn vm_value_decodes_known_property_kinds() {
    assert_eq!(
        VmValue::from_property(&PropertyValue::Double(d(0.25))),
        Some(VmValue::Double(d(0.25))),
    );
    assert_eq!(
        VmValue::from_property(&PropertyValue::Float(f(0.5))),
        Some(VmValue::Double(d(0.5))),
    );
    assert_eq!(
        VmValue::from_property(&PropertyValue::Bool(true)),
        Some(VmValue::Bool(true)),
    );
    assert_eq!(
        VmValue::from_property(&PropertyValue::Int32(3)),
        Some(VmValue::Int32(3)),
    );
    assert_eq!(
        VmValue::from_property(&PropertyValue::String(Some("x".to_string()))),
        Some(VmValue::Str("x".to_string())),
    );
    assert_eq!(
        VmValue::from_property(&PropertyValue::String(None)),
        Some(VmValue::Str(String::new())),
    );
    assert_eq!(VmValue::from_property(&PropertyValue::Other), None);
}

#[test]
fn forwarder_names_changes_and_drops_the_rest() {
    let mut q = SharedVmChangedQueue::default();
    let forwarder = ViewModelChangeForwarder::new(ViewModelId(3), vec!["A".into(), "B".into()]);
    forwarder.on_changed(1, &PropertyValue::Int32(4), &mut q);
    forwarder.on_changed(2, &PropertyValue::Int32(4), &mut q);
    forwarder.on_changed(0, &PropertyValue::Other, &mut q);
    let out = drain_vm_changed_queue(&mut q);
    assert_eq!(out.len(), 1);
    assert_eq!((out[0].id, out[0].prop.as_str()), (ViewModelId(3), "B"));
    assert_eq!(out[0].value, VmValue::Int32(4));
}

#[test]
fn writes_go_to_the_first_property_of_the_name() {
    let def = ViewModelDef::new("A")
        .property("X", PropType::Bool)
        .property("Y", PropType::Int32)
        .property("Y", PropType::Double);
    let entry = VmEntry::build(ViewModelId(1), &def);
    assert_eq!(entry.write("X"), Some(0));
    assert_eq!(entry.write("Y"), Some(1));
    assert_eq!(entry.write("Z"), None);
}

#[test]
fn builder_collects_set() {
    let v = NoesisVisibility::new()
        .show("QuitConfirmOverlay")
        .hide_element("LoadingSpinner")
        .set("Hud", true);
    assert_eq!(v.set.get("QuitConfirmOverlay"), Some(&true));
    assert_eq!(v.set.get("LoadingSpinner"), Some(&false));
    assert_eq!(v.set.get("Hud"), Some(&true));
}

#[test]
fn last_word_on_visibility_counts() {
    let mut v = NoesisVisibility::default();
    v.reveal_element("A");
    v.collapse("A");
    v.collapse("B");
    v.write("B", true);
    assert_eq!(v.set.get("A"), Some(&false));
    assert_eq!(v.set.get("B"), Some(&true));
    assert_eq!(v.set.get("C"), None);
}

#[test]
fn builder_collects_states() {
    let s = NoesisVisualState::new()
        .state("Panel", "Alert", true)
        .state("Button", "Pressed", false);
    assert_eq!(s.states.get("Panel"), Some(&("Alert".to_string(), true)));
    assert_eq!(s.states.get("Button"), Some(&("Pressed".to_string(), false)));
}

#[test]
fn window_stand_in_has_the_attributes() {
    assert_eq!(WINDOW_CLASS, "Window");
    assert_eq!(
        window_properties(),
        vec![
            "Title",
            "WindowStyle",
            "WindowState",
            "WindowStartupLocation",
            "ResizeMode",
            "SizeToContent",
        ]
    );
}
