//! Scalars, keyed collections, string order, polls and scope paths.

use noesis_bevy::assigned::Assigned;
use noesis_bevy::keyed::{KeyedMap, KeyedSet};
use noesis_bevy::order::{insert_in_order, is_before};
use noesis_bevy::queue::Queue;
use noesis_bevy::readbacks::{
    predict_focus, read_brush, read_image, BrushReadback, BrushTarget, InlineReads,
    InlinesReadback, TypographyValue,
};
use noesis_bevy::scalar::{lists_same, Float32, Float64, SameValue, Vec2, Vec4};
use noesis_bevy::scope::resolve_scope_path;
use noesis_bevy::snapshots::{poll, record_writes};
use noesis_bevy::strings::{chars_of, str_eq, white_space};
use noesis_bevy::transforms3d::Matrix3DSpec;
use noesis_bevy::values::{are_alike, copy_settings, BrushSpec, DpValue, GradientStop, Setting};
use noesis_bevy::watches::WatchTable;
use noesis_bevy::widen::widen;

fn f(x: f32) -> Float32 {
    Float32::from_bits(x.to_bits())
}

#[test]
fn singles_compare_as_numbers() {
    let samples = [
        0.0f32,
        -0.0,
        1.0,
        -1.0,
        f32::MIN_POSITIVE,
        f32::from_bits(1),
        f32::MAX,
        f32::INFINITY,
        f32::NEG_INFINITY,
        f32::NAN,
        -f32::NAN,
        f32::from_bits(0x7f80_0001),
    ];
    for a in samples {
        for b in samples {
            assert_eq!(f(a).same_value(&f(b)), a == b, "{a} {b}");
            let (x, y) = (f64::from(a), f64::from(b));
            let (p, q) = (Float64::from_bits(x.to_bits()), Float64::from_bits(y.to_bits()));
            assert_eq!(p.same_value(&q), x == y, "{x} {y}");
        }
    }
}

#[test]
fn widening_gives_the_same_number() {
    let mut bits: u32 = 0;
    for _ in 0..200_000 {
        let x = f32::from_bits(bits);
        let wide = widen(Float32::from_bits(bits)).bits;
        if x.is_nan() {
            assert!(f64::from_bits(wide).is_nan());
            assert_eq!(f64::from_bits(wide).is_sign_negative(), x.is_sign_negative());
        } else {
            assert_eq!(wide, f64::from(x).to_bits(), "{bits:#x}");
        }
        bits = bits.wrapping_mul(1_664_525).wrapping_add(1_013_904_223);
    }
    for bits in [0, 1, 2, 0x007f_ffff, 0x0080_0000, 0x7f7f_ffff, 0x7f80_0000, 0x8000_0000, 0xff80_0000]
    {
        assert_eq!(
            widen(Float32::from_bits(bits)).bits,
            f64::from(f32::from_bits(bits)).to_bits()
        );
    }
}

#[test]
fn white_space_is_that_of_unicode() {
    for c in (0..=0x10_ffffu32).filter_map(char::from_u32) {
        assert_eq!(white_space(c), c.is_whitespace(), "{:#x}", c as u32);
    }
}

#[test]
fn strings_compare_by_text() {
    assert!(str_eq("", ""));
    assert!(str_eq("\u{e4}b", "\u{e4}b"));
    assert!(!str_eq("ab", "abc"));
    assert!(!str_eq("ab", "ac"));
    assert_eq!(chars_of("a\u{1f600}"), vec!['a', '\u{1f600}']);
}

#[test]
fn order_is_that_of_strings() {
    let words = ["", "A", "a", "ab", "b", "\u{e4}", "\u{ffff}", "\u{10000}", "ab\u{0}"];
    for a in words {
        for b in words {
            assert_eq!(is_before(a, b), a < b, "{a:?} {b:?}");
        }
    }
    let mut list = Vec::new();
    for w in ["b", "a", "c", "a", ""] {
        insert_in_order(&mut list, w.to_string());
    }
    assert_eq!(list, vec!["", "a", "b", "c"]);
}

#[test]
fn keyed_map_holds_one_value_per_key() {
    let mut m: KeyedMap<String, i32> = KeyedMap::new();
    assert!(m.is_empty());
    m.insert("a".into(), 1);
    m.insert("b".into(), 2);
    m.insert("a".into(), 3);
    assert_eq!(m.len(), 2);
    assert_eq!(m.get("a"), Some(&3));
    assert_eq!(m.at(1).0, "b");
    assert_eq!(m.remove("a"), Some(3));
    assert_eq!(m.remove("a"), None);
    assert!(!m.contains_key("a"));
    m.clear();
    assert!(m.is_empty());
}

#[test]
fn keyed_set_tells_what_is_new() {
    let mut s: KeyedSet<(u64, String)> = KeyedSet::new();
    assert!(s.insert((1, "a".into())));
    assert!(!s.insert((1, "a".into())));
    assert!(s.insert((2, "a".into())));
    assert_eq!(s.len(), 2);
    assert!(s.contains(&(1, "a".to_string())));
    s.remove(&(1, "a".to_string()));
    assert!(!s.contains(&(1, "a".to_string())));
    s.clear();
    assert!(s.is_empty());
}

#[test]
fn queue_is_drained_in_order() {
    let mut q = Queue::new();
    assert!(q.is_empty());
    q.push(1);
    q.push(2);
    assert_eq!(q.drain(), vec![1, 2]);
    assert!(q.is_empty());
}

fn read(name: &str, text: Option<&str>) -> (String, Option<String>) {
    (name.to_string(), text.map(str::to_string))
}

#[test]
fn polls_report_news_only() {
    let mut snapshots: KeyedMap<String, String> = KeyedMap::new();
    let first = poll(&mut snapshots, &vec![read("A", Some("1")), read("B", None)]);
    assert_eq!(first, vec![("A".to_string(), "1".to_string())]);
    let second = poll(&mut snapshots, &vec![read("A", Some("1")), read("B", Some(""))]);
    assert_eq!(second, vec![("B".to_string(), String::new())]);
    let unwatched = poll(&mut snapshots, &vec![read("B", Some(""))]);
    assert!(unwatched.is_empty());
    let again = poll(&mut snapshots, &vec![read("A", Some("1"))]);
    assert_eq!(again, vec![("A".to_string(), "1".to_string())]);
}

#[test]
fn own_writes_are_not_reported() {
    let mut snapshots: KeyedMap<String, String> = KeyedMap::new();
    let writes = vec![
        ("A".to_string(), "x".to_string()),
        ("B".to_string(), "y".to_string()),
        ("A".to_string(), "z".to_string()),
    ];
    poll(&mut snapshots, &vec![read("A", Some("a")), read("B", Some("b"))]);
    record_writes(&mut snapshots, &writes, &vec![true, false, true]);
    let out = poll(&mut snapshots, &vec![read("A", Some("z")), read("B", Some("y"))]);
    assert_eq!(out, vec![("B".to_string(), "y".to_string())]);
}

#[test]
fn a_fresh_watch_reports_whatever_was_written() {
    let mut snapshots: KeyedMap<String, String> = KeyedMap::new();
    let writes = vec![("A".to_string(), "x".to_string())];
    record_writes(&mut snapshots, &writes, &vec![true]);
    assert_eq!(poll(&mut snapshots, &vec![read("A", Some("x"))]), writes);
    assert!(poll(&mut snapshots, &vec![]).is_empty());
    record_writes(&mut snapshots, &writes, &vec![true]);
    assert_eq!(poll(&mut snapshots, &vec![read("A", Some("x"))]), writes);
    assert!(poll(&mut snapshots, &vec![read("A", Some("x"))]).is_empty());
}

#[test]
fn a_value_that_is_no_number_is_always_news() {
    let mut snapshots: KeyedMap<String, Float32> = KeyedMap::new();
    let readings = vec![("A".to_string(), Some(f(f32::NAN)))];
    assert_eq!(poll(&mut snapshots, &readings).len(), 1);
    assert_eq!(poll(&mut snapshots, &readings).len(), 1);
}

#[test]
fn only_assigned_objects_are_read_back() {
    let mut a: Assigned<i32> = Assigned::new();
    let mut desired: KeyedMap<String, i32> = KeyedMap::new();
    desired.insert("A".into(), 1);
    desired.insert("B".into(), 2);
    let mut takes: KeyedSet<String> = KeyedSet::new();
    takes.insert("A".into());
    a.assign(&desired, false, &takes);
    let readings = vec![("A".to_string(), Some(1)), ("B".to_string(), Some(2))];
    assert!(a.poll(&readings).is_empty());
    a.assign(&desired, true, &takes);
    assert_eq!(a.poll(&readings), vec![("A".to_string(), 1)]);
    assert!(a.poll(&readings).is_empty());
    desired.remove("A");
    a.assign(&desired, true, &takes);
    assert!(!a.names.contains("A"));
}

#[test]
fn watches_follow_their_entries() {
    let mut w: WatchTable<String, u64> = WatchTable::new();
    let entries = vec![("A".to_string(), 1), ("B".to_string(), 2)];
    assert_eq!(w.next_needed(7, &entries, 0), Some(0));
    w.sync(7, &entries, &vec![true, false]);
    assert!(w.is_live(7, &"A".to_string()));
    assert!(!w.is_live(7, &"B".to_string()));
    assert_eq!(w.next_needed(7, &entries, 0), Some(1));
    w.sync(7, &entries, &vec![false, true]);
    assert_eq!(w.next_needed(7, &entries, 0), None);
    assert!(w.needs(7, &"A".to_string(), &9));
    w.drop_live(7);
    assert_eq!(w.next_needed(7, &entries, 0), Some(0));
    w.sync(7, &entries, &vec![true, true]);
    w.sync(7, &vec![("B".to_string(), 2)], &vec![true]);
    assert!(!w.is_live(7, &"A".to_string()));
    w.forget(7);
    assert!(!w.is_live(7, &"B".to_string()));
}

#[test]
fn property_values_compare_within_their_kind() {
    assert!(DpValue::F32(f(0.0)).same_value(&DpValue::F32(f(-0.0))));
    assert!(!DpValue::F32(f(1.0)).same_value(&DpValue::F64(Float64::from_bits(1.0f64.to_bits()))));
    assert!(DpValue::String("a".into()).same_value(&DpValue::String("a".into())));
    assert!(!DpValue::Bool(true).same_value(&DpValue::I32(1)));
    assert!(DpValue::I32(4).duplicate().same_value(&DpValue::I32(4)));
}

fn gradient(offset: f32) -> BrushSpec {
    let zero = Vec2 { x: f(0.0), y: f(0.0) };
    BrushSpec::LinearGradient {
        start: zero,
        end: Vec2 { x: f(1.0), y: f(1.0) },
        stops: vec![GradientStop {
            offset: f(offset),
            color: Vec4 { x: f(1.0), y: f(0.0), z: f(0.0), w: f(1.0) },
        }],
    }
}

#[test]
fn settings_compare_by_contents() {
    let mut a: KeyedMap<String, BrushSpec> = KeyedMap::new();
    a.insert("x".into(), gradient(0.5));
    a.insert("y".into(), BrushSpec::Solid(Vec4 { x: f(0.0), y: f(0.0), z: f(0.0), w: f(0.0) }));
    let mut b = copy_settings(&a);
    assert!(are_alike(&a, &b));
    assert!(gradient(0.5).again().is_alike(&gradient(0.5)));
    b.insert("x".into(), gradient(0.25));
    assert!(!are_alike(&a, &b));
    let mut c = copy_settings(&a);
    c.remove("y");
    assert!(!are_alike(&a, &c));
    assert!(!are_alike(&c, &a));
    assert!(lists_same(&vec![f(0.0)], &vec![f(-0.0)]));
    assert!(!lists_same(&vec![f(0.0)], &vec![]));
}

#[test]
fn readbacks_classify_what_the_engine_answers() {
    let hit = predict_focus(true, Some("A".into()), &Some("A".into()));
    assert!(hit.candidate && hit.matches_expected);
    assert!(!predict_focus(true, Some("A".into()), &Some("B".into())).matches_expected);
    assert!(!predict_focus(true, Some("A".into()), &None).matches_expected);
    assert!(!predict_focus(false, None, &Some("A".into())).matches_expected);
    assert!(hit.same_value(&hit.duplicate()));

    let red = Vec4 { x: f(1.0), y: f(0.0), z: f(0.0), w: f(1.0) };
    assert_eq!(read_brush(Some(red), true), Some(BrushReadback::Solid(red)));
    assert_eq!(read_brush(None, true), Some(BrushReadback::NonSolid));
    assert_eq!(read_brush(None, false), None);
    assert_eq!(BrushTarget::Stroke.property(), "Stroke");
    assert_eq!(BrushTarget::Background.property(), "Background");

    let missing = read_image(true, None, Some(f(3.0)));
    assert!(missing.has_source);
    assert_eq!((missing.actual_size.x, missing.actual_size.y), (f(0.0), f(3.0)));
    assert!(TypographyValue::FontSize(f(0.0)).same_value(&TypographyValue::FontSize(f(-0.0))));
    assert!(!TypographyValue::FontSize(f(0.0)).same_value(&TypographyValue::FontFamily("a".into())));
}

struct Scope {
    name: &'static str,
    children: Vec<Scope>,
}

impl Scope {
    fn child(&self, name: &str) -> Option<&Scope> {
        self.children.iter().find(|c| c.name == name)
    }
}

fn resolve<'a>(root: &'a Scope, path: &str) -> Option<&'a str> {
    resolve_scope_path(&root, path, |node: &&'a Scope, seg: &str| node.child(seg)).map(|n| n.name)
}

#[test]
fn scope_path_walks_into_nested_namescopes() {
    let tree = Scope {
        name: "Root",
        children: vec![Scope {
            name: "MainMenu",
            children: vec![Scope {
                name: "Footer",
                children: vec![Scope { name: "PlayButton", children: vec![] }],
            }],
        }],
    };

    assert_eq!(resolve(&tree, "MainMenu"), Some("MainMenu"));
    assert_eq!(resolve(&tree, "MainMenu/Footer"), Some("Footer"));
    assert_eq!(resolve(&tree, "MainMenu/Footer/PlayButton"), Some("PlayButton"));

    assert_eq!(resolve(&tree, "PlayButton"), None);
    assert_eq!(resolve(&tree, "MainMenu/Nope"), None);
    assert_eq!(resolve(&tree, "Nope/Footer"), None);
}

#[test]
fn a_key_that_is_watched_twice_is_reported_once() {
    let mut known: KeyedMap<String, i32> = KeyedMap::new();
    let twice = vec![("A".to_string(), Some(1)), ("A".to_string(), Some(1))];
    assert_eq!(poll(&mut known, &twice), vec![("A".to_string(), 1)]);
    assert!(poll(&mut known, &twice).is_empty());
}

#[test]
fn a_path_is_walked_in_two_goes() {
    let leaf = Scope { name: "Leaf", children: vec![] };
    let mid = Scope { name: "Mid", children: vec![leaf] };
    let root = Scope { name: "Root", children: vec![Scope { name: "Top", children: vec![mid] }] };
    assert_eq!(resolve(&root, "Top/Mid/Leaf"), Some("Leaf"));
    for (a, b) in [("Top", "Mid/Leaf"), ("Top/Mid", "Leaf")] {
        let node = resolve_scope_path(&&root, a, step).unwrap();
        assert_eq!(resolve(node, b), Some("Leaf"));
    }
    assert_eq!(resolve(&root, "None/Mid/Leaf"), None);
}

fn step<'a>(node: &&'a Scope, name: &str) -> Option<&'a Scope> {
    node.child(name)
}

fn matrix(first: f32) -> Matrix3DSpec {
    let mut rows = [f(0.0); 12];
    rows[0] = f(first);
    Matrix3DSpec { rows }
}

#[test]
fn matrices_are_compared_number_by_number() {
    assert!(matrix(0.0).same_value(&matrix(-0.0)));
    assert!(!matrix(1.0).same_value(&matrix(2.0)));
    assert!(!matrix(f32::NAN).same_value(&matrix(f32::NAN)));
    let mut last = matrix(1.0);
    last.rows[11] = f(3.0);
    assert!(!last.same_value(&matrix(1.0)));
    assert_eq!(last.duplicate(), last);
    let mut assigned: Assigned<Matrix3DSpec> = Assigned::new();
    let mut desired = KeyedMap::new();
    desired.insert("Card".to_string(), matrix(1.0));
    let mut takes = KeyedSet::new();
    takes.insert("Card".to_string());
    assigned.assign(&desired, true, &takes);
    let read = vec![("Card".to_string(), Some(matrix(1.0)))];
    assert_eq!(assigned.poll(&read), vec![("Card".to_string(), matrix(1.0))]);
    assert!(assigned.poll(&read).is_empty());
    assigned.assign(&KeyedMap::new(), true, &takes);
    assert!(assigned.poll(&vec![("Card".to_string(), Some(matrix(2.0)))]).is_empty());
}

fn inlines(count: usize, reads: &[(bool, &str)]) -> InlinesReadback {
    let reads = reads.iter().map(|(link, text)| (*link, text.to_string())).collect();
    InlinesReadback { count, ours: true, reads: InlineReads::of(reads) }
}

#[test]
fn inlines_are_compared_one_by_one() {
    let shown = inlines(2, &[(false, "a"), (true, "b")]);
    assert!(shown.same_value(&inlines(2, &[(false, "a"), (true, "b")])));
    assert!(shown.same_value(&shown.duplicate()));
    assert!(!shown.same_value(&inlines(3, &[(false, "a"), (true, "b")])));
    assert!(!shown.same_value(&inlines(2, &[(false, "a"), (false, "b")])));
    assert!(!shown.same_value(&inlines(2, &[(false, "a"), (true, "c")])));
    assert!(!shown.same_value(&inlines(2, &[(false, "a")])));
    assert!(!shown.same_value(&inlines(2, &[])));
    let lost = InlinesReadback { ours: false, ..inlines(2, &[(false, "a"), (true, "b")]) };
    assert!(!shown.same_value(&lost));
    let mut known: KeyedMap<String, InlinesReadback> = KeyedMap::new();
    let read = vec![("T".to_string(), Some(shown))];
    assert_eq!(poll(&mut known, &read).len(), 1);
    assert!(poll(&mut known, &read).is_empty());
}
